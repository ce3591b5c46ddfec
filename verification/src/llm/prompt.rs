//! Stand-alone prompts for the multi-pass pipeline with a concept ledger.
use crate::cli::CompressionLevel;
use crate::text::{decimal, extend_str, push_decimal, string_of_all};
use vstd::prelude::*;

verus! {

/// The policy of the tight level.
pub const POLICY_TIGHT: &'static str = "COMPRESSION LEVEL: tight (~80% of original)\n\
             - Remove repetition and filler only\n\
             - Minimal rewriting\n\
             - Preserve original phrasing wherever possible";

/// The policy of the dense level.
pub const POLICY_DENSE: &'static str = "COMPRESSION LEVEL: dense (~50% of original)\n\
             - Compress explanations into fewer sentences\n\
             - Merge short paragraphs covering the same point\n\
             - Shorten repeated mentions of the same concept";

/// The policy of the distilled level.
pub const POLICY_DISTILLED: &'static str = "COMPRESSION LEVEL: distilled (~30% of original)\n\
             - Aggressive compression\n\
             - Keep only the strongest example per concept\n\
             - Allow intra-section restructuring for clarity";

/// The policy of the takeaway level.
pub const POLICY_TLDR: &'static str = "COMPRESSION LEVEL: tldr\n\
             - Extract key ideas only\n\
             - Structured output";

/// The ledger entry formats the model is asked for.
pub const LEDGER_SCHEMA: &'static str = "\
Ledger entry formats (return only entries NEW to this chunk):

- Concept: {\"id\": \"concept-NNN\", \"name\": \"...\", \"first_seen_chunk\": N, \"description\": \"...\"}
  A major idea, topic, or theme the author introduces.

- Definition: {\"id\": \"def-NNN\", \"term\": \"...\", \"meaning\": \"...\", \"first_seen_chunk\": N}
  A specific term the author explicitly defines.

- Principle: {\"id\": \"prin-NNN\", \"name\": \"...\", \"statement\": \"...\", \"related_concept\": \"concept-NNN\", \"first_seen_chunk\": N}
  A rule, guideline, law, or framework the author advocates.

- Example: {\"id\": \"ex-NNN\", \"related_concept\": \"concept-NNN\", \"first_seen_chunk\": N, \"summary\": \"...\"}
  A concrete illustration, case study, anecdote, or story.

- AntiPattern: {\"id\": \"anti-NNN\", \"name\": \"...\", \"description\": \"...\", \"related_concept\": \"concept-NNN\", \"first_seen_chunk\": N}
  A common mistake, pitfall, or \"what NOT to do\" warning.

- Relationship: {\"id\": \"rel-NNN\", \"from_concept\": \"concept-NNN\", \"to_concept\": \"concept-NNN\", \"relation_type\": \"causes|enables|contradicts|extends|requires\", \"first_seen_chunk\": N}
  How two concepts connect to each other.

If no new entries for a category, return an empty array for that field.";

/// The ledger pass system prompt, before the level policy.
pub const PASS1_SYSTEM_HEAD: &'static str = "You are a structure-preserving semantic compression engine.\n\
         You compress text while preserving structure, core ideas, meaningful examples, and the author's voice.\n\
         Remove: repetition, filler, long transitions, meta-text (\"we will cover later\", \"as mentioned previously\").\n\n\
         ";

/// The ledger pass system prompt, between the policy and the ledger schema.
pub const PASS1_SYSTEM_MIDDLE: &'static str = "\n\n\
         RESPONSE FORMAT:\n\
         Return your response in exactly this format:\n\
         <compressed>\n\
         [compressed markdown here]\n\
         </compressed>\n\
         <ledger>\n\
         {\n\
           \"new_concepts\": [...],\n\
           \"new_definitions\": [...],\n\
           \"new_principles\": [...],\n\
           \"new_examples\": [...],\n\
           \"new_anti_patterns\": [...],\n\
           \"new_relationships\": [...]\n\
         }\n\
         </ledger>\n\n\
         ";

/// The ledger pass system prompt, after the ledger schema.
pub const PASS1_SYSTEM_TAIL: &'static str = "\n\n\
         IMPORTANT:\n\
         - Only extract entries genuinely present in the text. Do not invent.\n\
         - Check the current ledger below — do NOT re-extract entries already listed.\n\
         - Use concept IDs from the existing ledger when referencing known concepts.";

/// The single-pass system prompt, before the level policy.
pub const SINGLE_PASS_SYSTEM_HEAD: &'static str = "You are a structure-preserving semantic compression engine.\n\
         You compress text while preserving structure, core ideas, meaningful examples, and the author's voice.\n\
         Remove: repetition, filler, long transitions, meta-text.\n\n\
         ";

/// The single-pass system prompt, after the level policy.
pub const SINGLE_PASS_SYSTEM_TAIL: &'static str = "\n\n\
         RESPONSE FORMAT:\n\
         Return your response in exactly this format:\n\
         <compressed>\n\
         [compressed markdown here]\n\
         </compressed>";

/// The ledger pass user message, before the chunk index.
pub const PASS1_USER_HEAD: &'static str = "CHUNK INDEX: ";

/// The ledger pass user message, before the ledger.
pub const PASS1_USER_LEDGER: &'static str = "\n\n\
         CURRENT LEDGER (all entries extracted so far — do NOT duplicate these):\n\
         ";

/// The ledger pass user message, before the chunk text.
pub const PASS1_USER_TEXT: &'static str = "\n\n\
         TEXT TO COMPRESS:\n\
         ";

/// The deduplication user message, before the ledger.
pub const PASS2_USER_HEAD: &'static str = "FULL LEDGER (use this to identify duplicates across chunks):\n\
         ";

/// The deduplication user message, before the chunks.
pub const PASS2_USER_CHUNKS: &'static str = "\n\n\
         CHUNKS TO DEDUPLICATE:\n\
         ";

/// The deduplication system prompt.
pub const PASS2_SYSTEM: &'static str = "You are performing global deduplication on a compressed document.\n\
     You have a rich ledger of concepts, definitions, principles, examples, anti-patterns, \
     and relationships found across all chunks.\n\n\
     Your job:\n\
     1. CONCEPTS: If the same concept appears in multiple chunks, keep the strongest explanation \
        (usually the first or most complete occurrence). In later mentions, compress to 1-2 sentences \
        with a back-reference (e.g., \"As discussed in Chapter 2, ...\").\n\
     2. DEFINITIONS: If a term is defined multiple times, keep only the best definition. \
        Remove later re-definitions entirely.\n\
     3. PRINCIPLES: If a principle/rule is restated across chapters, keep the clearest formulation. \
        Replace repetitions with brief references.\n\
     4. EXAMPLES: If multiple examples illustrate the same concept, keep only the strongest one \
        (the most vivid, concrete, or memorable). Remove or compress weaker examples.\n\
     5. ANTI-PATTERNS: If the same warning appears repeatedly, keep the first and remove later mentions.\n\
     6. RELATIONSHIPS: Use relationship data to detect when the same connection between concepts \
        is explained in different ways — keep the clearest explanation.\n\n\
     Preserve the document's logical flow. Do not remove content that introduces NEW information.\n\n\
     RESPONSE FORMAT:\n\
     <compressed>\n\
     [deduplicated markdown here]\n\
     </compressed>";

/// The final refinement system prompt.
pub const PASS3_SYSTEM: &'static str = "You are performing a final refinement pass on a compressed document.\n\
     Fix broken transitions between sections (artifacts of chunk boundaries).\n\
     Smooth tone to match the original author's voice.\n\
     Ensure no dangling references to removed content.\n\
     Do NOT add new content or re-expand compressed sections.\n\n\
     RESPONSE FORMAT:\n\
     <compressed>\n\
     [refined markdown here]\n\
     </compressed>";

/// The single-pass user message, before the text.
pub const SINGLE_PASS_USER_HEAD: &'static str = "TEXT TO COMPRESS:\n\n";

/// The final refinement user message, before the text.
pub const PASS3_USER_HEAD: &'static str = "TEXT TO REFINE:\n\n";

/// The policy text of a compression level.
pub open spec fn spec_policy(level: CompressionLevel) -> &'static str {
    match level {
        CompressionLevel::Tight => POLICY_TIGHT,
        CompressionLevel::Dense => POLICY_DENSE,
        CompressionLevel::Distilled => POLICY_DISTILLED,
        CompressionLevel::Tldr => POLICY_TLDR,
    }
}

/// The instructions that describe a compression level.
pub fn compression_level_policy(level: &CompressionLevel) -> (r: &'static str)
    ensures
        r == spec_policy(*level),
{
    match level {
        CompressionLevel::Tight => POLICY_TIGHT,
        CompressionLevel::Dense => POLICY_DENSE,
        CompressionLevel::Distilled => POLICY_DISTILLED,
        CompressionLevel::Tldr => POLICY_TLDR,
    }
}

/// System prompt of the ledger pass: the level policy and the ledger schema
/// inside the fixed instructions.
pub fn pass1_system(level: &CompressionLevel) -> (r: String)
    ensures
        r@ == PASS1_SYSTEM_HEAD@ + spec_policy(*level)@ + PASS1_SYSTEM_MIDDLE@ + LEDGER_SCHEMA@
            + PASS1_SYSTEM_TAIL@,
{
    let mut out: Vec<char> = Vec::new();
    extend_str(&mut out, PASS1_SYSTEM_HEAD);
    extend_str(&mut out, compression_level_policy(level));
    extend_str(&mut out, PASS1_SYSTEM_MIDDLE);
    extend_str(&mut out, LEDGER_SCHEMA);
    extend_str(&mut out, PASS1_SYSTEM_TAIL);
    string_of_all(&out)
}

/// User message of the ledger pass: the chunk index, the ledger so far (as
/// JSON text) and the chunk.
pub fn pass1_user(chunk_content: &str, chunk_index: usize, ledger_json: &str) -> (r: String)
    ensures
        r@ == PASS1_USER_HEAD@ + decimal(chunk_index as nat) + PASS1_USER_LEDGER@ + ledger_json@
            + PASS1_USER_TEXT@ + chunk_content@,
{
    let mut out: Vec<char> = Vec::new();
    extend_str(&mut out, PASS1_USER_HEAD);
    push_decimal(&mut out, chunk_index);
    extend_str(&mut out, PASS1_USER_LEDGER);
    extend_str(&mut out, ledger_json);
    extend_str(&mut out, PASS1_USER_TEXT);
    extend_str(&mut out, chunk_content);
    string_of_all(&out)
}

/// System prompt of single-pass compression at a level.
pub fn single_pass_system(level: &CompressionLevel) -> (r: String)
    ensures
        r@ == SINGLE_PASS_SYSTEM_HEAD@ + spec_policy(*level)@ + SINGLE_PASS_SYSTEM_TAIL@,
{
    let mut out: Vec<char> = Vec::new();
    extend_str(&mut out, SINGLE_PASS_SYSTEM_HEAD);
    extend_str(&mut out, compression_level_policy(level));
    extend_str(&mut out, SINGLE_PASS_SYSTEM_TAIL);
    string_of_all(&out)
}

/// User message of single-pass compression.
pub fn single_pass_user(content: &str) -> (r: String)
    ensures
        r@ == SINGLE_PASS_USER_HEAD@ + content@,
{
    let mut out: Vec<char> = Vec::new();
    extend_str(&mut out, SINGLE_PASS_USER_HEAD);
    extend_str(&mut out, content);
    string_of_all(&out)
}

/// System prompt of the deduplication pass.
pub fn pass2_system() -> (r: String)
    ensures
        r@ == PASS2_SYSTEM@,
{
    String::from_str(PASS2_SYSTEM)
}

/// User message of the deduplication pass: the full ledger (as pretty JSON
/// text) and the chunks.
pub fn pass2_user(chunks_content: &str, ledger_json: &str) -> (r: String)
    ensures
        r@ == PASS2_USER_HEAD@ + ledger_json@ + PASS2_USER_CHUNKS@ + chunks_content@,
{
    let mut out: Vec<char> = Vec::new();
    extend_str(&mut out, PASS2_USER_HEAD);
    extend_str(&mut out, ledger_json);
    extend_str(&mut out, PASS2_USER_CHUNKS);
    extend_str(&mut out, chunks_content);
    string_of_all(&out)
}

/// System prompt of the final refinement pass.
pub fn pass3_system() -> (r: String)
    ensures
        r@ == PASS3_SYSTEM@,
{
    String::from_str(PASS3_SYSTEM)
}

/// User message of the final refinement pass.
pub fn pass3_user(content: &str) -> (r: String)
    ensures
        r@ == PASS3_USER_HEAD@ + content@,
{
    let mut out: Vec<char> = Vec::new();
    extend_str(&mut out, PASS3_USER_HEAD);
    extend_str(&mut out, content);
    string_of_all(&out)
}

} // verus!
