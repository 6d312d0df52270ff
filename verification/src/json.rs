//! JSON documents, as the `serde_json` crate holds them.

use vstd::prelude::*;

verus! {

/// Declares `serde_json::Value`.
#[verifier::external_type_specification]
#[verifier::external_body]
pub struct ExJsonValue(serde_json::Value);

/// Declares `serde_json::Error`.
#[verifier::external_type_specification]
#[verifier::external_body]
pub struct ExJsonError(serde_json::Error);

/// What a JSON value holds, written out with indentation.
pub uninterp spec fn json_text(value: serde_json::Value) -> Seq<char>;

/// What the JSON document in `body` holds, written out with indentation; nothing where
/// `body` is no JSON document.
pub uninterp spec fn json_document(body: Seq<u8>) -> Option<Seq<char>>;

/// Calls `serde_json::from_slice` for a `serde_json::Value`. Claimed of it: whether it
/// succeeds, and what the value holds, is a function of the bytes.
#[verifier::external_body]
pub(crate) fn parse_json(body: &[u8]) -> (r: Result<serde_json::Value, serde_json::Error>)
    ensures
        r is Ok <==> json_document(body@) is Some,
        r matches Ok(value) ==> json_document(body@) == Some(json_text(value)),
{
    serde_json::from_slice::<serde_json::Value>(body)
}

/// Calls `serde_json::to_string_pretty` on a `serde_json::Value`. Claimed of it: it
/// succeeds, as such a value has no keys but strings, and writes out what the value holds.
#[verifier::external_body]
pub(crate) fn pretty_json(value: &serde_json::Value) -> (r: Result<String, serde_json::Error>)
    ensures
        r is Ok,
        r->Ok_0@ == json_text(*value),
{
    serde_json::to_string_pretty(value)
}

} // verus!
