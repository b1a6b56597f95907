//! Parsing of the payloads of data sources, done by `serde_json`.

use vstd::prelude::*;

verus! {

/// `serde_json::Value`: a parsed JSON value. The library carries it and
/// never looks inside.
#[verifier::external_type_specification]
#[verifier::external_body]
pub struct ExJsonValue(serde_json::Value);

/// `serde_json::Error`: what parsing fails with. The library never looks
/// inside.
#[verifier::external_type_specification]
#[verifier::external_body]
pub struct ExJsonError(serde_json::Error);

/// Whether `serde_json` takes the bytes `bytes` for one JSON value.
pub uninterp spec fn is_json_text(bytes: Seq<u8>) -> bool;

/// `serde_json::from_slice` reads one JSON value from the whole of `data`.
/// It looks at nothing but the bytes, so the same bytes succeed or fail the
/// same way every time; which bytes succeed is left to `serde_json` and
/// goes by the name `is_json_text`. Nothing is claimed of the value.
#[verifier::external_body]
pub(crate) fn parse_json(data: &[u8]) -> (parsed: Result<serde_json::Value, serde_json::Error>)
    ensures
        parsed is Ok == is_json_text(data@),
{
    serde_json::from_slice(data)
}

} // verus!
