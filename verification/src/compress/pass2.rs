//! Pass 2: the coherence refinement over all distilled chapters.
use crate::llm::parse::{parse_llm_response, spec_extract_tag};
use crate::llm::strategy::{CompressionStrategy, LevelStrategy, REFINE_PREFIX};
use vstd::prelude::*;

verus! {

/// Shown when the refinement response cannot be read.
pub const REFINE_WARNING: &'static str = "refinement pass failed to parse, keeping pass 1 output";

/// The system prompt and user message of the refinement pass.
pub fn refine_request(strategy: &LevelStrategy, combined_distilled: &str) -> (r: (String, String))
    ensures
        r.0@ == strategy.book_refine@,
        r.1@ == REFINE_PREFIX@ + combined_distilled@,
{
    (strategy.refinement_system(), strategy.refinement_user(combined_distilled))
}

/// The refined text, or the pass 1 text kept as it was (and `true`, to warn)
/// when the response has no tags.
pub fn refine_outcome(combined_distilled: &str, response: &str) -> (r: (String, bool))
    ensures
        match spec_extract_tag(response@, "compressed"@) {
            Some(t) => r.0@ == t && !r.1,
            None => r.0@ == combined_distilled@ && r.1,
        },
{
    match parse_llm_response(response) {
        Ok(parsed) => (parsed.compressed, false),
        Err(_) => (String::from_str(combined_distilled), true),
    }
}

} // verus!
