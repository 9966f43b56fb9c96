//! JSON text read as a document, by `serde_json`.
use vstd::prelude::*;

use crate::evals::document::{DocNumber, DocValue};
use serde_json::Value as JsonValue;

verus! {

/// `serde_json::Value`, carried through the conversion to a document.
#[verifier::external_type_specification]
#[verifier::external_body]
pub struct ExJsonValue(JsonValue);

/// What `serde_json` reads from a JSON text: the document, or the text of
/// the error it reports. A function of the text alone.
pub uninterp spec fn json_document(text: Seq<char>) -> Result<DocValue, Seq<char>>;

/// Reads a JSON text as a document, with `serde_json::from_str` into a
/// `serde_json::Value`. The contract claims only that the outcome is the one
/// `json_document` names for this text: the document on success, the
/// error's message otherwise.
#[verifier::external_body]
pub fn parse_json(text: &str) -> (r: Result<DocValue, String>)
    ensures
        match r {
            Ok(v) => json_document(text@) == Ok::<DocValue, Seq<char>>(v),
            Err(e) => json_document(text@) == Err::<DocValue, Seq<char>>(e@),
        },
{
    match serde_json::from_str::<JsonValue>(text) {
        Ok(v) => Ok(document_of_json(v)),
        Err(e) => Err(e.to_string()),
    }
}

/// The document a `serde_json::Value` is, variant by variant: an object's
/// entries become a mapping with string keys, in the map's order; a number
/// keeps its kind (`as_u64`, else `as_i64`, else the bits of `as_f64`).
/// It is the conversion half of `parse_json` and states nothing itself.
#[verifier::external_body]
fn document_of_json(v: JsonValue) -> DocValue {
    match v {
        JsonValue::Null => DocValue::Null,
        JsonValue::Bool(b) => DocValue::Bool(b),
        JsonValue::Number(n) => DocValue::Number(match (n.as_u64(), n.as_i64()) {
            (Some(u), _) => DocNumber::PosInt(u),
            (None, Some(i)) => DocNumber::NegInt(i),
            _ => DocNumber::Float { bits: n.as_f64().unwrap_or_default().to_bits() },
        }),
        JsonValue::String(s) => DocValue::String(s),
        JsonValue::Array(a) => DocValue::Sequence(a.into_iter().map(document_of_json).collect()),
        JsonValue::Object(m) => DocValue::Mapping(
            m.into_iter().map(|(k, x)| (DocValue::String(k), document_of_json(x))).collect(),
        ),
    }
}

} // verus!
