//! JSON documents as the daemon sends them in answer to an inspect request.
//!
//! A document is parsed and written out again without a look at what it
//! holds.

use serde_json::Value;
use vstd::prelude::*;

verus! {

/// Declares `serde_json::Value`, a JSON document, which this crate passes on
/// without looking inside.
#[verifier::external_type_specification]
#[verifier::external_body]
pub struct ValueType(Value);

/// What `serde_json::from_slice` reads from bytes as a `Value`: the JSON
/// document that the bytes hold, or nothing where they hold none.
pub uninterp spec fn parsed_json(bytes: Seq<u8>) -> Option<Value>;

/// What `to_string` writes for a `Value`: the document as compact JSON text.
pub uninterp spec fn json_text(value: Value) -> Seq<char>;

/// Calls `serde_json::from_slice` for a `Value` and keeps the document, if
/// there is one. The result is what `parsed_json` names for the bytes.
#[verifier::external_body]
pub(crate) fn parse_json(bytes: &[u8]) -> (value: Option<Value>)
    ensures
        value == parsed_json(bytes@),
{
    serde_json::from_slice::<Value>(bytes).ok()
}

/// Calls `to_string` on a `Value`. The result is what `json_text` names for
/// the document.
#[verifier::external_body]
pub(crate) fn render_json(value: &Value) -> (text: String)
    ensures
        text@ == json_text(*value),
{
    value.to_string()
}

} // verus!
