//! Payloads as JSON text.

use std::collections::HashMap;

use qdrant_client::qdrant::Value;
use serde_json::Error as JsonError;
use vstd::prelude::*;

use crate::text::opt_text;

verus! {

/// An error of the JSON writer: never looked into.
#[verifier::external_type_specification]
#[verifier::external_body]
pub struct ExJsonError(JsonError);

/// Whether `text` is one of the JSON texts that `serde_json` writes for `payload`. There is one
/// text for each order in which the entries of the payload and of its nested objects are visited.
pub uninterp spec fn is_json_of(payload: Map<String, Value>, text: Seq<char>) -> bool;

/// Whether `text` is enclosed in braces, as a JSON object is.
pub open spec fn is_object_text(text: Seq<char>) -> bool {
    text.len() >= 2 && text[0] == '{' && text.last() == '}'
}

/// Whether `json` is what stands for `payload` in a column: nothing for an empty payload, and the
/// payload as JSON otherwise.
pub open spec fn renders(payload: Map<String, Value>, json: Option<Seq<char>>) -> bool {
    match json {
        Some(text) => !payload.is_empty() && is_json_of(payload, text) && is_object_text(text),
        None => payload.is_empty(),
    }
}

/// `serde_json::to_string` on a payload: the payload as a JSON object. It has string keys, and
/// every kind of payload value is written without an error of its own, so the call succeeds.
/// The order of the entries, that of a hash map, is left open.
#[verifier::external_body]
fn to_json(payload: &HashMap<String, Value>) -> (res: Result<String, JsonError>)
    ensures
        res is Ok,
        is_json_of(payload@, res->Ok_0@),
        is_object_text(res->Ok_0@),
{
    serde_json::to_string(payload)
}

/// Renders a payload as JSON text, or as nothing where it is empty.
pub fn payload_text(payload: &HashMap<String, Value>) -> (json: Option<String>)
    ensures
        renders(payload@, opt_text(json)),
{
    if payload.is_empty() {
        return None;
    }
    match to_json(payload) {
        Ok(text) => Some(text),
        Err(_) => None,
    }
}

} // verus!
