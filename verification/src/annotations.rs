//! The annotations of an import.
use swc_core::common::DUMMY_SP;
use swc_core::ecma::ast::{Expr, KeyValueProp, ObjectLit, Prop, PropName, PropOrSpread};
use vstd::prelude::*;

verus! {

/// An object literal of a syntax tree.
#[verifier::external_type_specification]
#[verifier::external_body]
pub struct ExObjectLit(swc_core::ecma::ast::ObjectLit);

/// The properties of an object literal, one entry for each, in their order: the
/// texts of the key and of the value, where both are string literals.
pub uninterp spec fn object_entries(object: ObjectLit) -> Seq<(Seq<char>, Seq<char>)>;

/// Makes an `ObjectLit` without properties.
#[verifier::external_body]
fn empty_object() -> (object: Box<ObjectLit>)
    ensures
        object_entries(*object) == Seq::<(Seq<char>, Seq<char>)>::empty(),
{
    Box::new(ObjectLit { span: DUMMY_SP, props: Vec::new() })
}

/// Adds a `KeyValueProp` to the properties of an `ObjectLit`, after the others.
/// Its key is a `PropName::Str` and its value a string literal, made from the
/// texts by `From<&str>`, which keeps them as they are.
#[verifier::external_body]
fn push_prop(object: &mut Box<ObjectLit>, key: &str, value: &str)
    ensures
        object_entries(**final(object)) == object_entries(**old(object)).push((key@, value@)),
{
    object.props.push(
        PropOrSpread::Prop(
            Box::new(
                Prop::KeyValue(
                    KeyValueProp {
                        key: PropName::Str(key.into()),
                        value: Box::new(Expr::Lit(value.into())),
                    },
                ),
            ),
        ),
    );
}

/// The keys and values of a list of entries.
pub open spec fn entry_texts(entries: Seq<(&str, &str)>) -> Seq<(Seq<char>, Seq<char>)> {
    entries.map_values(|entry: (&str, &str)| (entry.0@, entry.1@))
}

/// An annotation that says how what is imported is split into chunks.
pub fn with_chunking_type(chunking_type: &str) -> (object: Box<ObjectLit>)
    ensures
        object_entries(*object) == seq![("chunking-type"@, chunking_type@)],
{
    with_clause(&[("chunking-type", chunking_type)])
}

/// An annotation that names the transition under which the import happens.
pub fn with_transition(transition_name: &str) -> (object: Box<ObjectLit>)
    ensures
        object_entries(*object) == seq![("transition"@, transition_name@)],
{
    with_clause(&[("transition", transition_name)])
}

/// The annotations that the entries stand for, in their order.
pub fn with_clause(entries: &[(&str, &str)]) -> (object: Box<ObjectLit>)
    ensures
        object_entries(*object) == entry_texts(entries@),
{
    let mut object = empty_object();
    let mut i: usize = 0;
    assert(object_entries(*object) =~= entry_texts(entries@).take(0));
    while i < entries.len()
        invariant
            i <= entries@.len(),
            object_entries(*object) == entry_texts(entries@).take(i as int),
        decreases entries@.len() - i,
    {
        push_prop(&mut object, entries[i].0, entries[i].1);
        assert(object_entries(*object) =~= entry_texts(entries@).take(i + 1));
        i += 1;
    }
    assert(entry_texts(entries@).take(entries@.len() as int) =~= entry_texts(entries@));
    object
}

/// The annotations are the entries that they are made from: each of them, with its key
/// and its value, in their order, however often a key occurs.
pub proof fn every_entry_is_an_annotation(entries: &[(&str, &str)], object: Box<ObjectLit>)
    requires
        call_ensures(with_clause, (entries,), object),
    ensures
        object_entries(*object).len() == entries@.len(),
        forall|i: int|
            0 <= i < entries@.len() ==> #[trigger] object_entries(*object)[i] == (
                entries@[i].0@,
                entries@[i].1@,
            ),
{
}

/// An annotation on chunks or on a transition is one entry, whose value is the one that
/// is given.
pub proof fn single_annotations_are_one_entry(
    chunking_type: &str,
    chunking: Box<ObjectLit>,
    transition_name: &str,
    transition: Box<ObjectLit>,
)
    requires
        call_ensures(with_chunking_type, (chunking_type,), chunking),
        call_ensures(with_transition, (transition_name,), transition),
    ensures
        object_entries(*chunking).len() == 1,
        object_entries(*chunking)[0] == ("chunking-type"@, chunking_type@),
        object_entries(*transition).len() == 1,
        object_entries(*transition)[0] == ("transition"@, transition_name@),
{
}

} // verus!
