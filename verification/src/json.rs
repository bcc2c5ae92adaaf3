//! The boundary to serde_json: cached payloads and outbound response bodies
//! are opaque text that must parse as JSON before they are served.

use vstd::prelude::*;

verus! {

#[verifier::external_type_specification]
#[verifier::external_body]
pub struct ExValue(serde_json::Value);

#[verifier::external_type_specification]
#[verifier::external_body]
pub struct ExJsonError(serde_json::Error);

/// Whether the text `s` is a well-formed JSON document, in the sense that
/// serde_json accepts it; a function of the text alone.
pub uninterp spec fn json_ok(s: Seq<char>) -> bool;

/// Relies on serde_json::from_str::<Value>: it parses the whole text as one
/// JSON document, succeeding exactly on well-formed input, and the outcome
/// depends on the text alone.
#[verifier::external_body]
pub(crate) fn parse_json(s: &str) -> (r: Result<serde_json::Value, serde_json::Error>)
    ensures
        r is Ok <==> json_ok(s@),
{
    serde_json::from_str(s)
}

} // verus!
