//! JSON documents, as far as an ingestion looks at them.

use vstd::prelude::*;

verus! {

/// Whether `serde_json` reads the text as one JSON value.
pub uninterp spec fn json_document(text: Seq<char>) -> bool;

/// Calls `serde_json::from_str` for a `serde_json::Value` and tells whether it
/// succeeded. The parser reads the text and nothing else, so the answer is a
/// function of the text.
#[verifier::external_body]
pub(crate) fn parses(text: &str) -> (ok: bool)
    ensures
        ok == json_document(text@),
{
    serde_json::from_str::<serde_json::Value>(text).is_ok()
}

} // verus!
