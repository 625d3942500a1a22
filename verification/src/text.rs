//! Reading and writing the short texts that pass between the library and the
//! tools it talks to.
use vstd::prelude::*;
use vstd::string::{StrSliceExecFns, StringExecFns};
use vstd::utf8::{decode_utf8, valid_utf8};

verus! {

/// The characters with the Unicode property `White_Space`.
pub open spec fn white_space(c: char) -> bool {
    let n = c as u32;
    ||| 0x09 <= n <= 0x0d
    ||| n == 0x20
    ||| n == 0x85
    ||| n == 0xa0
    ||| n == 0x1680
    ||| 0x2000 <= n <= 0x200a
    ||| n == 0x2028
    ||| n == 0x2029
    ||| n == 0x202f
    ||| n == 0x205f
    ||| n == 0x3000
}

/// `s` without the white space it begins with.
pub open spec fn without_leading_space(s: Seq<char>) -> Seq<char>
    decreases s.len(),
{
    if s.len() > 0 && white_space(s[0]) {
        without_leading_space(s.drop_first())
    } else {
        s
    }
}

/// `s` without the white space it ends with.
pub open spec fn without_trailing_space(s: Seq<char>) -> Seq<char>
    decreases s.len(),
{
    if s.len() > 0 && white_space(s.last()) {
        without_trailing_space(s.drop_last())
    } else {
        s
    }
}

/// `s` without the white space around it.
pub open spec fn trimmed(s: Seq<char>) -> Seq<char> {
    without_trailing_space(without_leading_space(s))
}

/// What follows `prefix` in `s`, if `s` begins with it.
pub open spec fn after_prefix(s: Seq<char>, prefix: Seq<char>) -> Option<Seq<char>> {
    if prefix.is_prefix_of(s) {
        Some(s.skip(prefix.len() as int))
    } else {
        None
    }
}

/// The number of characters of `s` before the first `c`, all of them if `c`
/// does not occur.
pub open spec fn length_before(s: Seq<char>, c: char) -> nat
    decreases s.len(),
{
    if s.len() == 0 || s[0] == c {
        0
    } else {
        1 + length_before(s.drop_first(), c)
    }
}

/// The two parts of `s` around its first `c`.
pub open spec fn around_first(s: Seq<char>, c: char) -> Option<(Seq<char>, Seq<char>)> {
    let n = length_before(s, c) as int;
    if n < s.len() {
        Some((s.take(n), s.skip(n + 1)))
    } else {
        None
    }
}

pub open spec fn is_digit(c: char) -> bool {
    '0' <= c <= '9'
}

/// The value of a row of decimal digits.
pub open spec fn digits_value(s: Seq<char>) -> nat
    decreases s.len(),
{
    if s.len() == 0 {
        0
    } else {
        10 * digits_value(s.drop_last()) + (s.last() as nat - '0' as nat) as nat
    }
}

/// `s` without a leading plus sign.
pub open spec fn unsigned_part(s: Seq<char>) -> Seq<char> {
    if s.len() > 0 && s[0] == '+' {
        s.drop_first()
    } else {
        s
    }
}

/// The `u32` that `s` spells: decimal digits, at least one, with at most a plus
/// sign before them.
pub open spec fn number(s: Seq<char>) -> Option<u32> {
    let digits = unsigned_part(s);
    if digits.len() > 0 && (forall|i: int| 0 <= i < digits.len() ==> is_digit(#[trigger] digits[i]))
        && digits_value(digits) <= u32::MAX {
        Some(digits_value(digits) as u32)
    } else {
        None
    }
}

pub open spec fn digit(n: nat) -> char {
    ('0' as nat + n) as char
}

/// The decimal spelling of `n`, without leading zeros.
pub open spec fn decimal(n: nat) -> Seq<char>
    decreases n,
{
    if n < 10 {
        seq![digit(n)]
    } else {
        decimal(n / 10).push(digit(n % 10))
    }
}

/// The decimal spelling of `n`, with a minus sign if `n` is negative.
pub open spec fn signed_decimal(n: int) -> Seq<char> {
    if n < 0 {
        "-"@ + decimal((-n) as nat)
    } else {
        decimal(n as nat)
    }
}

/// The text that `String::from_utf8_lossy` makes of `bytes`.
pub uninterp spec fn lossy_text(bytes: Seq<u8>) -> Seq<char>;

/// Calls `String::from_utf8_lossy`. The result is a function of the bytes
/// alone, and bytes that are valid UTF-8 are decoded as they are. How invalid
/// bytes are replaced is left to the name `lossy_text`.
#[verifier::external_body]
pub(crate) fn utf8_lossy(bytes: &[u8]) -> (text: String)
    ensures
        text@ == lossy_text(bytes@),
        valid_utf8(bytes@) ==> text@ == decode_utf8(bytes@),
{
    String::from_utf8_lossy(bytes).into_owned()
}

/// Whether two texts are the same.
pub fn same_text(a: &str, b: &str) -> (same: bool)
    ensures
        same == (a@ == b@),
{
    a.to_owned() == b.to_owned()
}

/// The characters of `s`.
pub fn characters(s: &str) -> (chars: Vec<char>)
    ensures
        chars@ == s@,
{
    let n: usize = s.unicode_len();
    let mut chars: Vec<char> = Vec::new();
    let mut i: usize = 0;
    while i < n
        invariant
            i <= n == s@.len(),
            chars@ == s@.take(i as int),
        decreases n - i,
    {
        chars.push(s.get_char(i));
        i += 1;
    }
    assert(s@.take(n as int) == s@);
    chars
}

/// Whether `c` has the Unicode property `White_Space`.
pub fn is_white_space(c: char) -> (yes: bool)
    ensures
        yes == white_space(c),
{
    let n: u32 = c as u32;
    (0x09 <= n && n <= 0x0d) || n == 0x20 || n == 0x85 || n == 0xa0 || n == 0x1680 || (0x2000 <= n
        && n <= 0x200a) || n == 0x2028 || n == 0x2029 || n == 0x202f || n == 0x205f || n == 0x3000
}

/// `s` without the white space around it.
pub fn trim(s: &str) -> (inner: &str)
    ensures
        inner@ == trimmed(s@),
{
    let chars = characters(s);
    let n: usize = chars.len();
    let mut from: usize = 0;
    assert(s@.skip(0) == s@);
    while from < n && is_white_space(chars[from])
        invariant
            from <= n == s@.len(),
            chars@ == s@,
            without_leading_space(s@) == without_leading_space(s@.skip(from as int)),
        decreases n - from,
    {
        assert(s@.skip(from as int).drop_first() == s@.skip(from + 1));
        from += 1;
    }
    let ghost body = s@.skip(from as int);
    assert(without_leading_space(s@) == body);
    let mut to: usize = n;
    assert(s@.subrange(from as int, n as int) == body);
    while from < to && is_white_space(chars[to - 1])
        invariant
            from <= to <= n == s@.len(),
            chars@ == s@,
            body == s@.skip(from as int),
            without_trailing_space(body) == without_trailing_space(
                s@.subrange(from as int, to as int),
            ),
        decreases to,
    {
        assert(s@.subrange(from as int, to as int).drop_last() == s@.subrange(
            from as int,
            to - 1,
        ));
        to -= 1;
    }
    s.substring_char(from, to)
}

/// What follows `prefix` in `s`, if `s` begins with it.
pub fn strip_prefix<'a>(s: &'a str, prefix: &str) -> (rest: Option<&'a str>)
    ensures
        match rest {
            Some(r) => after_prefix(s@, prefix@) == Some(r@),
            None => after_prefix(s@, prefix@) is None,
        },
{
    let n: usize = s.unicode_len();
    let m: usize = prefix.unicode_len();
    if m > n {
        return None;
    }
    if same_text(s.substring_char(0, m), prefix) {
        assert(s@.subrange(m as int, n as int) == s@.skip(m as int));
        Some(s.substring_char(m, n))
    } else {
        assert(prefix@.is_prefix_of(s@) ==> prefix@ == s@.subrange(0, m as int));
        None
    }
}

/// The two parts of `s` around its first `c`.
pub fn split_once(s: &str, c: char) -> (parts: Option<(&str, &str)>)
    ensures
        match parts {
            Some(p) => around_first(s@, c) == Some((p.0@, p.1@)),
            None => around_first(s@, c) is None,
        },
{
    let chars = characters(s);
    let n: usize = chars.len();
    let mut i: usize = 0;
    assert(s@.skip(0) == s@);
    while i < n && chars[i] != c
        invariant
            i <= n == s@.len(),
            chars@ == s@,
            length_before(s@, c) == i + length_before(s@.skip(i as int), c),
        decreases n - i,
    {
        assert(s@.skip(i as int).drop_first() == s@.skip(i + 1));
        i += 1;
    }
    if i < n {
        assert(s@.subrange(0, i as int) == s@.take(i as int));
        assert(s@.subrange(i + 1, n as int) == s@.skip(i + 1));
        Some((s.substring_char(0, i), s.substring_char(i + 1, n)))
    } else {
        None
    }
}

/// Digits never lower the value of the row they are added to.
proof fn lemma_digits_value_grows(s: Seq<char>, i: int)
    requires
        0 <= i <= s.len(),
        forall|k: int| 0 <= k < s.len() ==> is_digit(#[trigger] s[k]),
    ensures
        digits_value(s.take(i)) <= digits_value(s),
    decreases s.len(),
{
    if i == s.len() {
        assert(s.take(i) == s);
    } else {
        lemma_digits_value_grows(s.drop_last(), i);
        assert(s.drop_last().take(i) == s.take(i));
    }
}

/// The `u32` that `s` spells.
pub fn parse_number(s: &str) -> (n: Option<u32>)
    ensures
        n == number(s@),
{
    let chars = characters(s);
    let len: usize = chars.len();
    let from: usize = if len > 0 && chars[0] == '+' {
        1
    } else {
        0
    };
    let ghost digits = unsigned_part(s@);
    assert(digits == s@.skip(from as int));
    if from == len {
        return None;
    }
    let mut value: u64 = 0;
    let mut i: usize = from;
    while i < len
        invariant
            from <= i <= len == s@.len(),
            chars@ == s@,
            digits == s@.skip(from as int),
            digits == unsigned_part(s@),
            value == digits_value(digits.take(i - from)),
            value <= u32::MAX,
            forall|k: int| 0 <= k < i - from ==> is_digit(#[trigger] digits[k]),
        decreases len - i,
    {
        let c: char = chars[i];
        assert(digits[i - from] == c);
        if !('0' <= c && c <= '9') {
            return None;
        }
        assert(digits.take(i - from + 1).drop_last() == digits.take(i - from));
        value = 10 * value + (c as u32 - '0' as u32) as u64;
        if value > u32::MAX as u64 {
            proof {
                if forall|k: int| 0 <= k < digits.len() ==> is_digit(#[trigger] digits[k]) {
                    lemma_digits_value_grows(digits, i - from + 1);
                }
            }
            return None;
        }
        i += 1;
    }
    assert(digits.take(len - from) == digits);
    Some(value as u32)
}

/// The digit that spells `n`.
fn digit_text(n: u64) -> (text: &'static str)
    requires
        n < 10,
    ensures
        text@ == seq![digit(n as nat)],
{
    match n {
        0 => {
            proof {
                reveal_strlit("0");
            }
            "0"
        },
        1 => {
            proof {
                reveal_strlit("1");
            }
            "1"
        },
        2 => {
            proof {
                reveal_strlit("2");
            }
            "2"
        },
        3 => {
            proof {
                reveal_strlit("3");
            }
            "3"
        },
        4 => {
            proof {
                reveal_strlit("4");
            }
            "4"
        },
        5 => {
            proof {
                reveal_strlit("5");
            }
            "5"
        },
        6 => {
            proof {
                reveal_strlit("6");
            }
            "6"
        },
        7 => {
            proof {
                reveal_strlit("7");
            }
            "7"
        },
        8 => {
            proof {
                reveal_strlit("8");
            }
            "8"
        },
        _ => {
            proof {
                reveal_strlit("9");
            }
            "9"
        },
    }
}

/// The decimal spelling of `n`.
pub fn spell(n: u64) -> (text: String)
    ensures
        text@ == decimal(n as nat),
    decreases n,
{
    if n < 10 {
        digit_text(n).to_owned()
    } else {
        let mut text = spell(n / 10);
        text.append(digit_text(n % 10));
        assert(text@ == decimal((n / 10) as nat) + seq![digit((n % 10) as nat)]);
        text
    }
}

/// The decimal spelling of `n`, with a minus sign if `n` is negative.
pub fn spell_signed(n: i32) -> (text: String)
    ensures
        text@ == signed_decimal(n as int),
{
    if n < 0 {
        "-".to_owned().concat(spell((-(n as i64)) as u64).as_str())
    } else {
        spell(n as u64)
    }
}

/// What stands before the first `c`, and what does not.
pub(crate) proof fn lemma_length_before(s: Seq<char>, c: char)
    ensures
        length_before(s, c) <= s.len(),
        forall|i: int| 0 <= i < length_before(s, c) ==> #[trigger] s[i] != c,
        length_before(s, c) < s.len() ==> s[length_before(s, c) as int] == c,
    decreases s.len(),
{
    if s.len() > 0 && s[0] != c {
        let rest = s.drop_first();
        lemma_length_before(rest, c);
        assert forall|i: int| 0 <= i < length_before(s, c) implies #[trigger] s[i] != c by {
            if i > 0 {
                assert(s[i] == rest[i - 1]);
            }
        }
    }
}

/// The number of characters before the first `c` is that of any part that `c` follows
/// and does not occur in.
pub(crate) proof fn lemma_length_before_is(s: Seq<char>, c: char, n: int)
    requires
        0 <= n < s.len(),
        s[n] == c,
        forall|i: int| 0 <= i < n ==> #[trigger] s[i] != c,
    ensures
        length_before(s, c) == n,
{
    lemma_length_before(s, c);
}

/// A text is split at its first `c`: what stands before it has none, and both parts
/// around it make up the text. It is not split exactly if it has none.
pub proof fn a_text_is_split_at_the_first_place(s: &str, c: char, parts: Option<(&str, &str)>)
    requires
        call_ensures(split_once, (s, c), parts),
    ensures
        match parts {
            Some((before, after)) => s@ == before@ + seq![c] + after@ && !before@.contains(c),
            None => !s@.contains(c),
        },
{
    lemma_length_before(s@, c);
    if let Some((before, after)) = parts {
        let n = length_before(s@, c) as int;
        assert(s@ =~= s@.take(n) + seq![c] + s@.skip(n + 1));
    }
}

/// A text has its prefix stripped exactly if it begins with it: the prefix and what
/// follows it make up the text.
pub proof fn a_prefix_is_stripped_where_it_is(s: &str, prefix: &str, rest: Option<&str>)
    requires
        call_ensures(strip_prefix, (s, prefix), rest),
    ensures
        match rest {
            Some(rest) => s@ == prefix@ + rest@,
            None => forall|other: Seq<char>| s@ != #[trigger] (prefix@ + other),
        },
{
    match rest {
        Some(rest) => {
            assert(s@ =~= prefix@ + s@.skip(prefix@.len() as int));
        },
        None => {
            assert forall|other: Seq<char>| s@ != #[trigger] (prefix@ + other) by {
                if s@ == prefix@ + other {
                    assert(prefix@ =~= s@.subrange(0, prefix@.len() as int));
                    assert(prefix@.is_prefix_of(s@));
                }
            }
        },
    }
}

/// What leading white space is.
proof fn lemma_leading_space(s: Seq<char>) -> (n: int)
    ensures
        0 <= n <= s.len(),
        without_leading_space(s) == s.skip(n),
        forall|i: int| 0 <= i < n ==> white_space(#[trigger] s[i]),
        n < s.len() ==> !white_space(s[n]),
    decreases s.len(),
{
    if s.len() > 0 && white_space(s[0]) {
        let rest = s.drop_first();
        let n = lemma_leading_space(rest);
        assert(rest.skip(n) =~= s.skip(n + 1));
        assert forall|i: int| 0 <= i < n + 1 implies white_space(#[trigger] s[i]) by {
            if i > 0 {
                assert(s[i] == rest[i - 1]);
            }
        }
        if n < rest.len() {
            assert(rest[n] == s[n + 1]);
        }
        n + 1
    } else {
        assert(s.skip(0) =~= s);
        0
    }
}

/// What trailing white space is.
proof fn lemma_trailing_space(s: Seq<char>) -> (n: int)
    ensures
        0 <= n <= s.len(),
        without_trailing_space(s) == s.take(n),
        forall|i: int| n <= i < s.len() ==> white_space(#[trigger] s[i]),
        n > 0 ==> !white_space(s[n - 1]),
    decreases s.len(),
{
    if s.len() > 0 && white_space(s.last()) {
        let rest = s.drop_last();
        let n = lemma_trailing_space(rest);
        assert(rest.take(n) =~= s.take(n));
        assert forall|i: int| n <= i < s.len() implies white_space(#[trigger] s[i]) by {
            if i < s.len() - 1 {
                assert(s[i] == rest[i]);
            }
        }
        n
    } else {
        assert(s.take(s.len() as int) =~= s);
        s.len() as int
    }
}

/// What a text is without the white space around it: a part of it that neither begins
/// nor ends with white space.
pub(crate) proof fn lemma_trimmed(s: Seq<char>) -> (place: (int, int))
    ensures
        0 <= place.0 <= place.1 <= s.len(),
        trimmed(s) == s.subrange(place.0, place.1),
        forall|i: int| 0 <= i < place.0 ==> white_space(#[trigger] s[i]),
        forall|i: int| place.1 <= i < s.len() ==> white_space(#[trigger] s[i]),
        place.0 < place.1 ==> !white_space(s[place.0]) && !white_space(s[place.1 - 1]),
{
    let from = lemma_leading_space(s);
    let body = s.skip(from);
    let n = lemma_trailing_space(body);
    assert(body.take(n) =~= s.subrange(from, from + n));
    assert forall|i: int| from + n <= i < s.len() implies white_space(#[trigger] s[i]) by {
        assert(s[i] == body[i - from]);
    }
    if n > 0 {
        assert(body[n - 1] == s[from + n - 1]);
    }
    (from, from + n)
}

/// A text without the white space around it: white space and nothing else was taken from
/// both its ends, and none is left there.
pub proof fn only_the_space_around_is_trimmed(s: &str, inner: &str)
    requires
        call_ensures(trim, (s,), inner),
    ensures
        exists|before: Seq<char>, after: Seq<char>| #[trigger]
            (before + inner@ + after) == s@ && (forall|i: int|
                0 <= i < before.len() ==> white_space(#[trigger] before[i])) && (forall|i: int|
                0 <= i < after.len() ==> white_space(#[trigger] after[i])),
        inner@.len() > 0 ==> !white_space(inner@[0]) && !white_space(inner@.last()),
{
    let (from, to) = lemma_trimmed(s@);
    let before = s@.take(from);
    let after = s@.skip(to);
    assert(before + inner@ + after =~= s@);
}

/// A text around which there is nothing but white space comes out as it is.
pub proof fn a_text_comes_out_of_the_space_around_it(
    before: Seq<char>,
    text: Seq<char>,
    after: Seq<char>,
    s: &str,
    inner: &str,
)
    requires
        call_ensures(trim, (s,), inner),
        s@ == before + text + after,
        forall|i: int| 0 <= i < before.len() ==> white_space(#[trigger] before[i]),
        forall|i: int| 0 <= i < after.len() ==> white_space(#[trigger] after[i]),
        text.len() > 0,
        !white_space(text[0]),
        !white_space(text.last()),
    ensures
        inner@ == text,
{
    lemma_trimmed_is(before, text, after);
}

/// A text around which there is nothing but white space comes out as it is.
pub(crate) proof fn lemma_trimmed_is(before: Seq<char>, text: Seq<char>, after: Seq<char>)
    requires
        forall|i: int| 0 <= i < before.len() ==> white_space(#[trigger] before[i]),
        forall|i: int| 0 <= i < after.len() ==> white_space(#[trigger] after[i]),
        text.len() > 0,
        !white_space(text[0]),
        !white_space(text.last()),
    ensures
        trimmed(before + text + after) == text,
{
    let s = before + text + after;
    let (from, to) = lemma_trimmed(s);
    assert(s[before.len() as int] == text[0]);
    assert(s[before.len() + text.len() - 1] == text.last());
    assert(from <= before.len());
    assert(to >= before.len() + text.len());
    if from < before.len() {
        assert(s[from] == before[from]);
    }
    if to > before.len() + text.len() {
        assert(s[to - 1] == after[to - 1 - before.len() - text.len()]);
    }
    assert(s.subrange(from, to) =~= text);
}

/// A number that is read is spelt by decimal digits, at least one, with at most a plus
/// sign before them.
pub proof fn only_digits_are_read(s: &str, n: Option<u32>)
    requires
        call_ensures(parse_number, (s,), n),
        n is Some,
    ensures
        s@.len() > 0,
        s@[0] == '+' ==> s@.len() > 1,
        forall|i: int|
            0 <= i < s@.len() && !(i == 0 && s@[0] == '+') ==> '0' <= #[trigger] s@[i] <= '9',
{
    let digits = unsigned_part(s@);
    assert forall|i: int| 0 <= i < s@.len() && !(i == 0 && s@[0] == '+') implies '0'
        <= #[trigger] s@[i] <= '9' by {
        if s@[0] == '+' {
            assert(is_digit(digits[i - 1]));
        } else {
            assert(is_digit(digits[i]));
        }
    }
}

/// A single digit is read as what it stands for.
pub proof fn a_digit_is_read(s: &str, n: Option<u32>)
    requires
        call_ensures(parse_number, (s,), n),
        s@.len() == 1,
        '0' <= s@[0] <= '9',
    ensures
        n matches Some(n) && '0' as u32 + n == s@[0] as u32,
{
    let digits = unsigned_part(s@);
    assert(digits == s@);
    assert(is_digit(digits[0]));
    assert(digits.drop_last() =~= Seq::<char>::empty());
    assert(digits_value(digits.drop_last()) == 0);
}

/// One more digit makes the number ten times as large, and adds what it stands for. What
/// does not fit is not read.
pub proof fn one_more_digit_is_read(s: &str, n: u32, longer: &str, m: Option<u32>)
    requires
        call_ensures(parse_number, (s,), Some(n)),
        call_ensures(parse_number, (longer,), m),
        longer@.len() == s@.len() + 1,
        longer@.drop_last() == s@,
        '0' <= longer@.last() <= '9',
    ensures
        ({
            let value = 10 * n + (longer@.last() as u32 - '0' as u32);
            if value <= u32::MAX {
                m matches Some(m) && m == value
            } else {
                m is None
            }
        }),
{
    let digits = unsigned_part(s@);
    let more = unsigned_part(longer@);
    assert(longer@[0] == s@[0]);
    assert(more.drop_last() =~= digits);
    assert(more.last() == longer@.last());
    assert forall|i: int| 0 <= i < more.len() implies is_digit(#[trigger] more[i]) by {
        if i < digits.len() {
            assert(more[i] == digits[i]);
        }
    }
}

/// A plus sign before the digits makes no difference.
pub proof fn a_plus_sign_makes_no_difference(
    s: &str,
    n: Option<u32>,
    signed: &str,
    m: Option<u32>,
)
    requires
        call_ensures(parse_number, (s,), n),
        call_ensures(parse_number, (signed,), m),
        signed@ == seq!['+'] + s@,
        !(s@.len() > 0 && s@[0] == '+'),
    ensures
        m == n,
{
    assert(unsigned_part(signed@) =~= s@);
}

/// The decimal spelling of a number has digits only, at least one, and its value is the
/// number.
proof fn lemma_decimal(n: nat)
    ensures
        decimal(n).len() > 0,
        forall|i: int| 0 <= i < decimal(n).len() ==> is_digit(#[trigger] decimal(n)[i]),
        digits_value(decimal(n)) == n,
    decreases n,
{
    if n < 10 {
        assert(decimal(n).drop_last() =~= Seq::<char>::empty());
        assert(digits_value(Seq::<char>::empty()) == 0);
    } else {
        lemma_decimal(n / 10);
        assert(decimal(n).drop_last() =~= decimal(n / 10));
        assert(decimal(n).last() == digit(n % 10));
        assert forall|i: int| 0 <= i < decimal(n).len() implies is_digit(
            #[trigger] decimal(n)[i],
        ) by {
            if i < decimal(n / 10).len() {
                assert(decimal(n)[i] == decimal(n / 10)[i]);
            }
        }
    }
}

/// A number is read back as it was spelt.
pub proof fn a_number_is_read_back(n: u64, text: String, s: &str, m: Option<u32>)
    requires
        call_ensures(spell, (n,), text),
        call_ensures(parse_number, (s,), m),
        s@ == text@,
    ensures
        n <= u32::MAX ==> (m matches Some(m) && m == n),
        n > u32::MAX ==> m is None,
{
    lemma_decimal(n as nat);
    assert(is_digit(text@[0]));
    assert(unsigned_part(s@) == text@);
}

/// A number below ten is spelt by its digit. Any other is spelt as its tenth is, and one
/// more digit, which stands for the rest.
pub proof fn a_number_is_spelt_digit_by_digit(n: u64, text: String, tenth: String)
    requires
        call_ensures(spell, (n,), text),
        call_ensures(spell, (n / 10,), tenth),
    ensures
        text@.len() > 0,
        text@.last() as u32 == '0' as u32 + n % 10,
        n < 10 ==> text@.len() == 1,
        n >= 10 ==> text@.drop_last() == tenth@,
{
    if n >= 10 {
        assert(text@.drop_last() =~= tenth@);
    }
}

/// A negative number is spelt as its opposite is, after a minus sign, and any other as
/// it is without a sign.
pub proof fn a_sign_is_spelt(n: i32, text: String, size: u64, plain: String)
    requires
        call_ensures(spell_signed, (n,), text),
        call_ensures(spell, (size,), plain),
        size == if n < 0 {
            -n
        } else {
            n as int
        },
    ensures
        n < 0 ==> text@ == seq!['-'] + plain@,
        n >= 0 ==> text@ == plain@,
{
    reveal_strlit("-");
    assert("-"@ =~= seq!['-']);
}

/// Texts are the same if they have the same characters, all of which are handed out.
pub proof fn texts_are_their_characters(a: &str, b: &str, same: bool, chars: Vec<char>)
    requires
        call_ensures(same_text, (a, b), same),
        call_ensures(characters, (a,), chars),
    ensures
        chars@.len() == a@.len(),
        forall|i: int| 0 <= i < a@.len() ==> #[trigger] chars@[i] == a@[i],
        same <==> a@.len() == b@.len() && (forall|i: int|
            0 <= i < a@.len() ==> #[trigger] a@[i] == b@[i]),
{
    if a@.len() == b@.len() && (forall|i: int| 0 <= i < a@.len() ==> #[trigger] a@[i] == b@[i]) {
        assert(a@ =~= b@);
    }
}

} // verus!
