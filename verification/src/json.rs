//! JSON documents as the sidecar reader sees them: the parser and the
//! accessors of `serde_json`, each with what it is taken to return.

use vstd::prelude::*;

verus! {

/// The type `serde_json::Value`, of which only the functions below say
/// anything.
#[verifier::external_type_specification]
#[verifier::external_body]
pub struct ExJsonValue(serde_json::Value);

/// The type `serde_json::Error`, carried through and never looked into.
#[verifier::external_type_specification]
#[verifier::external_body]
pub struct ExJsonError(serde_json::Error);

/// What a JSON value holds. Numbers are told apart from the other kinds
/// and no further.
pub ghost enum JsonData {
    Null,
    Bool(bool),
    Number,
    Text(Seq<char>),
    Array(Seq<JsonData>),
    Object(Map<Seq<char>, JsonData>),
}

/// What a `serde_json::Value` holds.
pub uninterp spec fn json_content(v: serde_json::Value) -> JsonData;

/// What `serde_json::from_str` reads from a text: the document, or
/// nothing where the text is not one JSON document.
pub uninterp spec fn json_document(text: Seq<char>) -> Option<JsonData>;

/// `serde_json::from_str` at the type `Value`. It succeeds exactly on the
/// texts that are a JSON document, and the value then holds that document.
/// The parser's nesting limit makes it fail, not panic, on deep input.
#[verifier::external_body]
pub(crate) fn parse_json(text: &str) -> (r: Result<serde_json::Value, serde_json::Error>)
    ensures
        match r {
            Ok(v) => json_document(text@) == Some(json_content(v)),
            Err(_) => json_document(text@) is None,
        },
{
    serde_json::from_str::<serde_json::Value>(text)
}

/// `Value::get` with a string index: the member of an object under that
/// key; nothing for a missing key and for a value that is no object.
#[verifier::external_body]
pub(crate) fn value_get<'a>(v: &'a serde_json::Value, key: &str) -> (r: Option<
    &'a serde_json::Value,
>)
    ensures
        match json_content(*v) {
            JsonData::Object(m) => if m.dom().contains(key@) {
                r matches Some(x) && json_content(*x) == m[key@]
            } else {
                r is None
            },
            _ => r is None,
        },
{
    v.get(key)
}

/// `Value::as_str`: the text of a string value; nothing for any other.
#[verifier::external_body]
pub(crate) fn value_as_str(v: &serde_json::Value) -> (r: Option<&str>)
    ensures
        match json_content(*v) {
            JsonData::Text(t) => r matches Some(s) && s@ == t,
            _ => r is None,
        },
{
    v.as_str()
}

/// `Value::as_array`: the items of an array value, in order; nothing for
/// any other value.
#[verifier::external_body]
pub(crate) fn value_as_array(v: &serde_json::Value) -> (r: Option<&Vec<serde_json::Value>>)
    ensures
        match json_content(*v) {
            JsonData::Array(items) => r matches Some(a) && a@.len() == items.len() && forall|
                i: int,
            |
                0 <= i < items.len() ==> json_content(#[trigger] a@[i]) == items[i],
            _ => r is None,
        },
{
    v.as_array()
}

} // verus!
