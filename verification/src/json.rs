//! JSON documents as `serde_json` holds, prints and reads them.
//!
//! A `serde_json::Value` is opaque to the verifier. Its content is spoken of
//! through `doc_of`. What this file says of `serde_json` is taken on trust:
//! the types it declares, the four functions without a body, and the
//! contract of each function that makes a call, which names the function
//! it calls.

use vstd::prelude::*;

verus! {

/// The model of a JSON document.
pub enum Doc {
    Null,
    Bool(bool),
    /// A number, by the characters that print it.
    Number(Seq<char>),
    Text(Seq<char>),
    List(Seq<Doc>),
    /// An object: at most one value under each key.
    Record(Map<Seq<char>, Doc>),
}

/// `serde_json::Value`, a JSON document in memory.
#[verifier::external_type_specification]
#[verifier::external_body]
pub struct ExValue(serde_json::Value);

/// `serde_json::Map`, the keys and values of a JSON object.
#[verifier::external_type_specification]
#[verifier::external_body]
#[verifier::reject_recursive_types(K)]
#[verifier::reject_recursive_types(V)]
pub struct ExMap<K, V>(serde_json::Map<K, V>);

/// `serde_json::Error`, the reason why printing or reading failed.
#[verifier::external_type_specification]
#[verifier::external_body]
pub struct ExError(serde_json::Error);

/// The document that a `serde_json::Value` holds.
pub uninterp spec fn doc_of(value: serde_json::Value) -> Doc;

/// The keys of a `serde_json::Map` and the document under each.
pub uninterp spec fn fields_of(fields: serde_json::Map<String, serde_json::Value>) -> Map<Seq<char>, Doc>;

/// What `serde_json::to_string` gives for a value that holds `doc`: the
/// text, or nothing where it fails.
pub uninterp spec fn json_text(doc: Doc) -> Option<Seq<char>>;

/// What `serde_json::from_str` reads from `text` as a value: its document,
/// or nothing where the text is refused.
pub uninterp spec fn json_parse(text: Seq<char>) -> Option<Doc>;

/// The fields of an object without keys.
pub open spec fn empty_fields() -> Map<Seq<char>, Doc> {
    Map::empty()
}

/// The documents that a sequence of values holds, one by one.
pub open spec fn docs_of(values: Seq<serde_json::Value>) -> Seq<Doc> {
    values.map_values(|v: serde_json::Value| doc_of(v))
}

/// Calls `serde_json::to_string` on a value. What comes back depends on the
/// document alone: objects print their keys in sorted order.
#[verifier::external_body]
pub(crate) fn print_value(value: &serde_json::Value) -> (out: Result<String, serde_json::Error>)
    ensures
        match out {
            Ok(text) => json_text(doc_of(*value)) == Some(text@),
            Err(_) => json_text(doc_of(*value)) is None,
        },
{
    serde_json::to_string(value)
}

/// Calls `serde_json::from_str` to read a value. What comes back depends on
/// the text alone.
#[verifier::external_body]
pub(crate) fn read_value(text: &str) -> (out: Result<serde_json::Value, serde_json::Error>)
    ensures
        match out {
            Ok(value) => json_parse(text@) == Some(doc_of(value)),
            Err(_) => json_parse(text@) is None,
        },
{
    serde_json::from_str::<serde_json::Value>(text)
}

/// Calls `serde_json::Value::get` with a key: the value under that key where
/// `value` is an object that has the key, else nothing.
#[verifier::external_body]
pub(crate) fn field<'a>(value: &'a serde_json::Value, key: &str) -> (out: Option<&'a serde_json::Value>)
    ensures
        match out {
            Some(inner) => doc_of(*value) is Record && doc_of(*value)->Record_0.contains_key(key@)
                && doc_of(*inner) == doc_of(*value)->Record_0[key@],
            None => !(doc_of(*value) is Record && doc_of(*value)->Record_0.contains_key(key@)),
        },
{
    value.get(key)
}

/// Calls `serde_json::Value::as_array`: the elements where `value` is an
/// array, else nothing.
#[verifier::external_body]
pub(crate) fn elements(value: &serde_json::Value) -> (out: Option<&Vec<serde_json::Value>>)
    ensures
        match out {
            Some(items) => doc_of(*value) == Doc::List(docs_of(items@)),
            None => !(doc_of(*value) is List),
        },
{
    value.as_array()
}

/// Calls `serde_json::Value::as_str`: the characters where `value` is a
/// string, else nothing.
#[verifier::external_body]
pub(crate) fn characters(value: &serde_json::Value) -> (out: Option<&str>)
    ensures
        match out {
            Some(text) => doc_of(*value) == Doc::Text(text@),
            None => !(doc_of(*value) is Text),
        },
{
    value.as_str()
}

/// Builds `serde_json::Value::String`, the JSON string of `text`.
#[verifier::external_body]
pub(crate) fn text_value(text: String) -> (value: serde_json::Value)
    ensures
        doc_of(value) == Doc::Text(text@),
{
    serde_json::Value::String(text)
}

/// Builds `serde_json::Value::Array`, the JSON array of `items` in order.
#[verifier::external_body]
pub(crate) fn list_value(items: Vec<serde_json::Value>) -> (value: serde_json::Value)
    ensures
        doc_of(value) == Doc::List(docs_of(items@)),
{
    serde_json::Value::Array(items)
}

/// Builds `serde_json::Value::Object`, the JSON object of `fields`.
#[verifier::external_body]
pub(crate) fn record_value(fields: serde_json::Map<String, serde_json::Value>) -> (value: serde_json::Value)
    ensures
        doc_of(value) == Doc::Record(fields_of(fields)),
{
    serde_json::Value::Object(fields)
}

/// Calls `serde_json::Map::new`: an object without keys.
#[verifier::external_body]
pub(crate) fn no_fields() -> (fields: serde_json::Map<String, serde_json::Value>)
    ensures
        fields_of(fields) == empty_fields(),
{
    serde_json::Map::new()
}

/// Calls `serde_json::Map::insert`: `value` stands under `key` afterwards,
/// in place of what stood there; the other keys keep their values.
#[verifier::external_body]
pub(crate) fn set_field(fields: &mut serde_json::Map<String, serde_json::Value>, key: String, value: serde_json::Value)
    ensures
        fields_of(*final(fields)) == fields_of(*old(fields)).insert(key@, doc_of(value)),
{
    fields.insert(key, value);
}

} // verus!
