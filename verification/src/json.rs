//! Trusted surface over `serde_json` for the JSON documents that run
//! through the proxy: the request body whose streaming flag is rewritten
//! and the buffered upstream response that the synthesizer reads.
//!
//! Every function here takes the raw bytes of the document, so that its
//! result can be given a name: `serde_json`'s parsing and serialization
//! are deterministic functions of the bytes (its maps order their keys),
//! and each name below stands for one such reading of the document.  The
//! contracts tie the executable results to the names and state the few
//! facts the callers need; everything they say is believed, not proved.

use vstd::prelude::*;

verus! {

/// Whether `serde_json` accepts these bytes as a JSON document.
pub uninterp spec fn json_parses(bytes: Seq<u8>) -> bool;

/// Whether the document is an object carrying a boolean `true` under
/// `stream`; `false` on anything else, unparseable bytes included.
pub uninterp spec fn stream_flag_of(bytes: Seq<u8>) -> bool;

/// The document re-serialized with its `stream` field set to `false` (a
/// document that is no object is re-serialized unchanged).  Meaningful
/// only when the bytes parse.
pub uninterp spec fn stream_disabled_of(bytes: Seq<u8>) -> Seq<u8>;

/// The length of the document's `choices` array, or nothing when the
/// parsed document has no array under `choices`.  Meaningful only when
/// the bytes parse.
pub uninterp spec fn choices_len_of(bytes: Seq<u8>) -> Option<usize>;

/// The string under `choices[0].message.content`, or nothing when any
/// step of that path is missing or not of that shape.  Meaningful only
/// when the bytes parse.
pub uninterp spec fn content_of(bytes: Seq<u8>) -> Option<Seq<char>>;

/// The JSON text of the document's top-level field `key`, or nothing
/// when the document is no object or lacks the field.  Meaningful only
/// when the bytes parse.
pub uninterp spec fn field_text_of(bytes: Seq<u8>, key: Seq<char>) -> Option<Seq<char>>;

/// The JSON text of `choices[0]`'s field `key`, or nothing when there is
/// no first choice or it lacks the field.  Meaningful only when the bytes
/// parse.
pub uninterp spec fn choice_field_text_of(bytes: Seq<u8>, key: Seq<char>) -> Option<Seq<char>>;

/// The JSON text of `choices[0]` itself.  Meaningful only when the bytes
/// parse to a document with a non-empty `choices` array.
pub uninterp spec fn first_choice_text_of(bytes: Seq<u8>) -> Seq<char>;

/// The JSON text of the whole document.  Meaningful only when the bytes
/// parse.
pub uninterp spec fn doc_text_of(bytes: Seq<u8>) -> Seq<char>;

/// The view of an optional text.
pub open spec fn opt_text(o: Option<String>) -> Option<Seq<char>> {
    match o {
        Some(s) => Some(s@),
        None => None,
    }
}

/// Relies on serde_json::from_slice::<Value>: parsing succeeds exactly on
/// bytes that form a valid JSON document, and never panics.
#[verifier::external_body]
pub(crate) fn json_is_valid(bytes: &Vec<u8>) -> (r: bool)
    ensures
        r == json_parses(bytes@),
{
    serde_json::from_slice::<serde_json::Value>(bytes.as_slice()).is_ok()
}

/// Relies on serde_json::from_slice, Value::get and Value::as_bool: reads
/// the `stream` field as a boolean, `false` when the bytes do not parse,
/// the document is no object, the field is absent, or it is no boolean.
#[verifier::external_body]
pub(crate) fn json_stream_flag(bytes: &Vec<u8>) -> (r: bool)
    ensures
        r == stream_flag_of(bytes@),
        r ==> json_parses(bytes@),
{
    serde_json::from_slice::<serde_json::Value>(bytes.as_slice())
        .ok()
        .and_then(|doc| doc.get("stream").and_then(serde_json::Value::as_bool))
        .unwrap_or(false)
}

/// Relies on serde_json::from_slice, Map::insert and serde_json::to_vec:
/// re-serializes the document with `stream` set to `false` (replacing any
/// existing value; a document that is no object is re-serialized
/// unchanged).  Serializing a `Value` cannot fail, so a value comes back
/// exactly when the bytes parse; the output parses again and its own
/// `stream` flag is off, because the field now holds `false` or the
/// document has no object to carry one.
#[verifier::external_body]
pub(crate) fn json_disable_stream(bytes: &Vec<u8>) -> (r: Option<Vec<u8>>)
    ensures
        r is Some <==> json_parses(bytes@),
        r matches Some(out) ==> out@ == stream_disabled_of(bytes@) && json_parses(out@)
            && !stream_flag_of(out@),
{
    let mut doc: serde_json::Value = serde_json::from_slice(bytes.as_slice()).ok()?;
    if let serde_json::Value::Object(ref mut fields) = doc {
        fields.insert("stream".to_owned(), serde_json::Value::Bool(false));
    }
    serde_json::to_vec(&doc).ok()
}

/// Relies on serde_json::from_slice, Value::get and Value::as_array: the
/// length of the `choices` array, nothing when the parsed document has no
/// array there.
#[verifier::external_body]
pub(crate) fn json_choices_len(bytes: &Vec<u8>) -> (r: Option<usize>)
    ensures
        json_parses(bytes@) ==> r == choices_len_of(bytes@),
{
    let doc: serde_json::Value = serde_json::from_slice(bytes.as_slice()).ok()?;
    let arr = doc.get("choices")?.as_array()?;
    Some(arr.len())
}

/// Relies on serde_json::from_slice, Value::get and Value::as_str: the
/// string under `choices[0].message.content`, nothing when any step of
/// that path is missing or not of that shape.
#[verifier::external_body]
pub(crate) fn json_content(bytes: &Vec<u8>) -> (r: Option<String>)
    ensures
        json_parses(bytes@) ==> opt_text(r) == content_of(bytes@),
{
    let doc: serde_json::Value = serde_json::from_slice(bytes.as_slice()).ok()?;
    let first = doc.get("choices")?.as_array()?.first()?;
    let content = first.get("message")?.get("content")?.as_str()?;
    Some(content.to_owned())
}

/// Relies on serde_json::from_slice, Value::get and serde_json::to_string:
/// the JSON text of the document's top-level field `key`, nothing when the
/// field is absent.
#[verifier::external_body]
pub(crate) fn json_field_text(bytes: &Vec<u8>, key: &str) -> (r: Option<String>)
    ensures
        json_parses(bytes@) ==> opt_text(r) == field_text_of(bytes@, key@),
{
    let doc: serde_json::Value = serde_json::from_slice(bytes.as_slice()).ok()?;
    let field = doc.get(key)?;
    serde_json::to_string(field).ok()
}

/// Relies on serde_json::from_slice, Value::get and serde_json::to_string:
/// the JSON text of `choices[0]`'s field `key`, nothing when there is no
/// first choice or it lacks the field.
#[verifier::external_body]
pub(crate) fn json_choice_field_text(bytes: &Vec<u8>, key: &str) -> (r: Option<String>)
    ensures
        json_parses(bytes@) ==> opt_text(r) == choice_field_text_of(bytes@, key@),
{
    let doc: serde_json::Value = serde_json::from_slice(bytes.as_slice()).ok()?;
    let first = doc.get("choices")?.as_array()?.first()?;
    let field = first.get(key)?;
    serde_json::to_string(field).ok()
}

/// Relies on serde_json::from_slice, Value::get and serde_json::to_string:
/// the JSON text of `choices[0]` itself.  Serializing a `Value` cannot
/// fail, so a parsed document with a non-empty `choices` array always
/// yields the text.
#[verifier::external_body]
pub(crate) fn json_first_choice_text(bytes: &Vec<u8>) -> (r: Option<String>)
    ensures
        (json_parses(bytes@) && (match choices_len_of(bytes@) {
            Some(n) => n >= 1,
            None => false,
        })) ==> r is Some,
        r matches Some(s) ==> s@ == first_choice_text_of(bytes@),
{
    let doc: serde_json::Value = serde_json::from_slice(bytes.as_slice()).ok()?;
    let first = doc.get("choices")?.as_array()?.first()?;
    serde_json::to_string(first).ok()
}

/// Relies on serde_json::from_slice and serde_json::to_string: the JSON
/// text of the whole document.  Serializing a `Value` cannot fail, so the
/// text comes back exactly when the bytes parse.
#[verifier::external_body]
pub(crate) fn json_doc_text(bytes: &Vec<u8>) -> (r: Option<String>)
    ensures
        r is Some <==> json_parses(bytes@),
        r matches Some(s) ==> s@ == doc_text_of(bytes@),
{
    let doc: serde_json::Value = serde_json::from_slice(bytes.as_slice()).ok()?;
    serde_json::to_string(&doc).ok()
}

} // verus!
