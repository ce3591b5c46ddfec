//! Pass 3: the final refinement after deduplication.
use crate::llm::parse::{parse_llm_response, spec_extract_tag};
use vstd::prelude::*;

verus! {

/// Shown when the final refinement response cannot be read.
pub const REFINE_WARNING: &'static str = "refinement pass failed to parse, keeping pass 2 output";

/// The refined text, or the deduplicated text kept as it was (and `true`, to
/// warn) when the response has no tags.
pub fn refine_outcome(deduplicated: &str, response: &str) -> (r: (String, bool))
    ensures
        match spec_extract_tag(response@, "compressed"@) {
            Some(t) => r.0@ == t && !r.1,
            None => r.0@ == deduplicated@ && r.1,
        },
{
    match parse_llm_response(response) {
        Ok(parsed) => (parsed.compressed, false),
        Err(_) => (String::from_str(deduplicated), true),
    }
}

} // verus!
