//! Pass 1: distilling one chunk, with one retry when the tags are missing.
use crate::llm::parse::{parse_llm_response, spec_extract_tag};
use crate::llm::strategy::{CompressionStrategy, LevelStrategy};
use crate::segment::Chunk;
use crate::state::CompressedChunk;
use crate::text::{extend_str, push_decimal, decimal, join, string_of_all, string_views};
use vstd::prelude::*;

verus! {

/// Added to the system prompt when a response came without its tags.
pub const TAG_REMINDER: &'static str = "\n\nIMPORTANT: You MUST use <compressed> and </compressed> XML tags.";

/// The system prompt and user message for distilling a chunk: the article
/// prompt in article mode, the book chapter prompt otherwise.
pub fn distill_request(strategy: &LevelStrategy, chunk: &Chunk, article: bool) -> (r: (String, String))
    ensures
        r.0@ == (if article {
            strategy.article@
        } else {
            strategy.book_distill@
        }),
        r.1@ == strategy.user_prefix@ + "\n\n"@ + chunk.content@,
{
    let system = if article {
        strategy.article_system()
    } else {
        strategy.distill_system()
    };
    let user = strategy.distill_user(chunk.content.as_str());
    (system, user)
}

/// The system prompt of the retry: the first one with a reminder of the tags.
pub fn retry_system(system: &str) -> (r: String)
    ensures
        r@ == system@ + TAG_REMINDER@,
{
    let mut out: Vec<char> = Vec::new();
    extend_str(&mut out, system);
    extend_str(&mut out, TAG_REMINDER);
    string_of_all(&out)
}

/// The chunk's position and headers with the given text.
pub open spec fn compressed_as(chunk: &Chunk, content: Seq<char>, r: CompressedChunk) -> bool {
    r@.index == chunk.index && r@.header_path == chunk@.header_path && r@.content == content
}

fn with_content(chunk: &Chunk, content: String) -> (r: CompressedChunk)
    ensures
        compressed_as(chunk, content@, r),
{
    CompressedChunk {
        index: chunk.index,
        header_path: crate::segment::clone_strings(&chunk.header_path),
        content,
    }
}

/// The outcome of the first response: the compressed chunk if it has its tags.
pub fn first_response_outcome(chunk: &Chunk, response: &str) -> (r: Option<CompressedChunk>)
    ensures
        match spec_extract_tag(response@, "compressed"@) {
            Some(t) => r matches Some(c) && compressed_as(chunk, t, c),
            None => r is None,
        },
{
    match parse_llm_response(response) {
        Ok(p) => Some(with_content(chunk, p.compressed)),
        Err(_) => None,
    }
}

/// The outcome of the retry's response: the compressed chunk if it has its
/// tags, else the chunk kept as it was (and `true`, to warn).
pub fn retry_response_outcome(chunk: &Chunk, response: &str) -> (r: (CompressedChunk, bool))
    ensures
        match spec_extract_tag(response@, "compressed"@) {
            Some(t) => compressed_as(chunk, t, r.0) && !r.1,
            None => compressed_as(chunk, chunk.content@, r.0) && r.1,
        },
{
    match parse_llm_response(response) {
        Ok(p) => (with_content(chunk, p.compressed), false),
        Err(_) => (with_content(chunk, chunk.content.clone()), true),
    }
}

/// The warning shown when a chunk is kept as it was.
pub fn keep_original_warning(chunk: &Chunk) -> (r: String)
    ensures
        r@ == "chunk "@ + decimal(chunk.index as nat)
            + " could not be parsed after retry, keeping original (section: \""@ + join(
            chunk@.header_path,
            " > "@,
        ) + "\")"@,
{
    let mut out: Vec<char> = Vec::new();
    extend_str(&mut out, "chunk ");
    push_decimal(&mut out, chunk.index);
    extend_str(&mut out, " could not be parsed after retry, keeping original (section: \"");
    let section = crate::text::join_strings(&chunk.header_path, " > ");
    extend_str(&mut out, section.as_str());
    extend_str(&mut out, "\")");
    string_of_all(&out)
}

} // verus!
