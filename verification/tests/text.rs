use turbocharge::text::{
    characters, is_white_space, parse_number, same_text, spell, spell_signed, split_once,
    strip_prefix, trim,
};

#[test]
fn white_space_is_that_of_unicode() {
    for c in '\0'..=char::MAX {
        assert_eq!(is_white_space(c), c.is_whitespace(), "{:?}", c);
    }
}

#[test]
fn trimming_takes_white_space_from_both_ends() {
    for text in ["", " ", "a", "  a b\t\r\n", "\u{3000}x\u{a0}", "\u{200b}x ", "\n\n"] {
        assert_eq!(trim(text), text.trim());
    }
}

#[test]
fn prefixes_are_stripped() {
    assert_eq!(strip_prefix("git version 2", "git version "), Some("2"));
    assert_eq!(strip_prefix("git version", "git version "), None);
    assert_eq!(strip_prefix("Git version 2", "git version "), None);
    assert_eq!(strip_prefix("\u{e9}t\u{e9}", "\u{e9}"), Some("t\u{e9}"));
    assert_eq!(strip_prefix("", ""), Some(""));
}

#[test]
fn texts_are_split_at_the_first_place() {
    assert_eq!(split_once("2.37.1", '.'), Some(("2", "37.1")));
    assert_eq!(split_once(".", '.'), Some(("", "")));
    assert_eq!(split_once("2", '.'), None);
    assert_eq!(split_once("", '.'), None);
}

#[test]
fn numbers_are_read_as_std_reads_them() {
    for text in [
        "0", "2", "37", "+5", "007", "4294967295", "4294967296", "99999999999999999999999", "",
        "+", "-1", "1 ", " 1", "++1", "1a", "\u{663}",
    ] {
        assert_eq!(parse_number(text), text.parse::<u32>().ok(), "{:?}", text);
    }
}

#[test]
fn numbers_are_spelt_as_std_spells_them() {
    for n in [0, 9, 10, 99, 100, 12345, u64::MAX] {
        assert_eq!(spell(n), n.to_string());
    }
    for n in [0, -1, 7, -10, i32::MAX, i32::MIN] {
        assert_eq!(spell_signed(n), n.to_string());
    }
}

#[test]
fn characters_are_those_of_the_text() {
    assert_eq!(characters("a\u{e9}\u{1f600}"), vec!['a', '\u{e9}', '\u{1f600}']);
    assert!(same_text("Yes", "Yes"));
    assert!(!same_text("Yes", "yes"));
    assert!(!same_text("Yes", "Yes "));
}
