//! The JSON documents that the chat server answers with, read through `serde_json`.
use vstd::prelude::*;

verus! {

/// `serde_json`'s dynamically typed JSON value.
#[verifier::external_type_specification]
#[verifier::external_body]
pub struct ExJsonValue(serde_json::Value);

/// The tree that a JSON document describes, as far as this crate reads it:
/// numbers are kept only as being numbers.
pub enum Json {
    Null,
    Bool(bool),
    Number,
    Text(Seq<char>),
    Array(Seq<Json>),
    Object(Map<Seq<char>, Json>),
}

/// What `serde_json::from_str::<serde_json::Value>` makes of a text:
/// `None` where the text is not a single JSON document.
pub uninterp spec fn json_document(text: Seq<char>) -> Option<Json>;

/// The JSON tree that a `serde_json::Value` holds.
pub uninterp spec fn json_tree(v: serde_json::Value) -> Json;

/// Parses `text` as one JSON document with `serde_json::from_str::<serde_json::Value>`.
/// The contract ties the outcome to the named document of `text`: a value whose tree is that
/// document, or nothing where `text` is no JSON document.
#[verifier::external_body]
pub(crate) fn parse_json(text: &str) -> (r: Option<serde_json::Value>)
    ensures
        match r {
            Some(v) => json_document(text@) == Some(json_tree(v)),
            None => json_document(text@) is None,
        },
{
    serde_json::from_str::<serde_json::Value>(text).ok()
}

/// `serde_json::Value::get` with a string key: the member named `key` of an object, and
/// nothing for a value that is no object or has no such member.
#[verifier::external_body]
pub(crate) fn json_member<'a>(v: &'a serde_json::Value, key: &str) -> (r: Option<
    &'a serde_json::Value,
>)
    ensures
        match json_tree(*v) {
            Json::Object(members) => if members.contains_key(key@) {
                r matches Some(m) && json_tree(*m) == members[key@]
            } else {
                r is None
            },
            _ => r is None,
        },
{
    v.get(key)
}

/// `serde_json::Value::as_str`: the text of a JSON string, and nothing for any other value.
#[verifier::external_body]
pub(crate) fn json_str<'a>(v: &'a serde_json::Value) -> (r: Option<&'a str>)
    ensures
        match json_tree(*v) {
            Json::Text(s) => r matches Some(t) && t@ == s,
            _ => r is None,
        },
{
    v.as_str()
}

/// `serde_json::Value::get` with a position: the item at `index` of an array, and nothing for
/// a value that is no array or too short.
#[verifier::external_body]
pub(crate) fn json_item<'a>(v: &'a serde_json::Value, index: usize) -> (r: Option<
    &'a serde_json::Value,
>)
    ensures
        match json_tree(*v) {
            Json::Array(items) => if index < items.len() {
                r matches Some(m) && json_tree(*m) == items[index as int]
            } else {
                r is None
            },
            _ => r is None,
        },
{
    v.get(index)
}

} // verus!
