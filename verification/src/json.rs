//! The JSON documents that products hand to the sidecar, and their text.

use vstd::prelude::*;

verus! {

/// A JSON document, as `serde_json` holds it.
#[verifier::external_type_specification]
#[verifier::external_body]
pub struct ExternalValue(serde_json::Value);

/// The compact JSON text of a document.
pub uninterp spec fn document_text(value: serde_json::Value) -> Seq<char>;

/// The JSON text of a string: in quotation marks, with its escapes.
pub uninterp spec fn string_text(text: Seq<char>) -> Seq<char>;

/// Calls `serde_json::to_string` on a document. It succeeds on every document, since
/// their keys are strings, and its text depends on the document alone; what the text
/// looks like is left to `serde_json`.
#[verifier::external_body]
pub(crate) fn document_json(value: &serde_json::Value) -> (result: Result<
    String,
    serde_json::Error,
>)
    ensures
        result is Ok,
        result->Ok_0@ == document_text(*value),
{
    serde_json::to_string(value)
}

/// Calls `serde_json::to_string` on a string, which it never refuses. The text depends
/// on the string alone; which characters are escaped, and how, is left to
/// `serde_json`.
#[verifier::external_body]
pub(crate) fn string_json(text: &str) -> (result: Result<String, serde_json::Error>)
    ensures
        result is Ok,
        result->Ok_0@ == string_text(text@),
{
    serde_json::to_string(text)
}

/// An error of `serde_json`.
#[verifier::external_type_specification]
#[verifier::external_body]
pub struct ExternalError(serde_json::Error);

/// The document that some bytes spell, if they are one JSON text in UTF-8.
pub uninterp spec fn parsed_document(bytes: Seq<u8>) -> Option<serde_json::Value>;

/// Calls `serde_json::from_slice` for a document. Whether it succeeds, and with what
/// document, depends on the bytes alone; the grammar is left to `serde_json`.
#[verifier::external_body]
pub(crate) fn parse_document(bytes: &[u8]) -> (result: Result<serde_json::Value, serde_json::Error>)
    ensures
        match result {
            Ok(value) => parsed_document(bytes@) == Some(value),
            Err(_) => parsed_document(bytes@) is None,
        },
{
    serde_json::from_slice(bytes)
}

/// Whether a document is an object.
pub uninterp spec fn object_document(value: serde_json::Value) -> bool;

/// Calls `serde_json::Value::is_object`.
#[verifier::external_body]
pub(crate) fn is_object(value: &serde_json::Value) -> (object: bool)
    ensures
        object == object_document(*value),
{
    value.is_object()
}

/// The members of a document that are strings. Only an object has members.
pub uninterp spec fn text_members(value: serde_json::Value) -> Map<Seq<char>, Seq<char>>;

/// Calls `serde_json::Value::get` and, on the member, `serde_json::Value::as_str`: the
/// member under `key`, where there is one and it is a string.
#[verifier::external_body]
pub(crate) fn text_member(value: &serde_json::Value, key: &str) -> (member: Option<String>)
    ensures
        match member {
            Some(text) => text_members(*value).contains_key(key@) && text_members(*value)[key@]
                == text@,
            None => !text_members(*value).contains_key(key@),
        },
{
    value.get(key).and_then(serde_json::Value::as_str).map(str::to_owned)
}

/// The members of a document that are whole numbers from zero to the largest `u64`. Only
/// an object has members.
pub uninterp spec fn number_members(value: serde_json::Value) -> Map<Seq<char>, u64>;

/// Calls `serde_json::Value::get` and, on the member, `serde_json::Value::as_u64`: the
/// member under `key`, where there is one and it is such a number.
#[verifier::external_body]
pub(crate) fn number_member(value: &serde_json::Value, key: &str) -> (member: Option<u64>)
    ensures
        member == (if number_members(*value).contains_key(key@) {
            Some(number_members(*value)[key@])
        } else {
            None::<u64>
        }),
{
    value.get(key).and_then(serde_json::Value::as_u64)
}

} // verus!
