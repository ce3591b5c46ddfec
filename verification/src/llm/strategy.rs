//! Prompt strategies: the instructions sent to the model for each compression level.
use crate::cli::CompressionLevel;
use crate::text::{extend_str, string_of_all, contains_seq, lemma_match_contains};
use vstd::prelude::*;

verus! {

/// The prompts of one compression level.
pub trait CompressionStrategy {
    /// The text of the system prompt for distilling one book chapter.
    spec fn distill_prompt(&self) -> Seq<char>;

    /// System prompt for distilling one book chapter.
    fn distill_system(&self) -> (r: String)
        ensures
            r@ == self.distill_prompt(),
    ;

    /// User message carrying the content to distill.
    fn distill_user(&self, content: &str) -> String;

    /// System prompt for article mode; the distill prompt unless overridden.
    fn article_system(&self) -> (r: String)
        default_ensures
            r@ == self.distill_prompt(),
    {
        self.distill_system()
    }

    /// System prompt for the coherence pass over all distilled chapters.
    fn refinement_system(&self) -> String;

    /// User message carrying the distilled chapters to refine.
    fn refinement_user(&self, combined_distilled: &str) -> String;

    /// Whether books at this level get the second, refining pass.
    fn supports_multi_pass(&self) -> bool;
}

/// The prompts of a compression level.
pub struct LevelStrategy {
    pub article: &'static str,
    pub book_distill: &'static str,
    pub book_refine: &'static str,
    pub user_prefix: &'static str,
    pub multi_pass: bool,
}

// ---------------------------------------------------------------------------
// Article prompts
// ---------------------------------------------------------------------------

/// Article prompt of the light strategy.
pub const ARTICLE_LIGHT: &'static str = "\
You are distilling an article. Remove low-value content while keeping the \
substance intact.

REMOVE: filler phrases, redundant restatements, verbose transitions, rhetorical \
questions that add no information, unnecessary qualifications and hedging.

PRESERVE: all arguments, evidence, examples, data, quotes, definitions, \
cause-effect relationships. Keep the author's voice and the original structure.

This should read like the same article, just tighter — NOT a summary.
Output as markdown. Preserve any existing headings and sub-sections.

TARGET: Retain ~80% of original length.

RESPONSE FORMAT:
Return your response in exactly this format:
<compressed>
[distilled markdown here]
</compressed>";

/// Article prompt of the medium strategy.
pub const ARTICLE_MEDIUM: &'static str = "\
You are distilling an article. Compress it significantly while preserving \
core content.

REMOVE: filler phrases, redundant restatements, verbose transitions, weak \
examples that repeat a point already made, excessive background context, \
rhetorical padding, unnecessary qualifications.

PRESERVE: key arguments, strongest examples, data and evidence, frameworks, \
actionable insights, important quotes, definitions.

Merge paragraphs that cover the same point. Compress explanations to their \
essence. This should read like a tighter version of the same article — NOT \
a summary.
Output as markdown. Preserve headings and overall structure.

TARGET: Retain ~50% of original length.

RESPONSE FORMAT:
Return your response in exactly this format:
<compressed>
[distilled markdown here]
</compressed>";

/// Article prompt of the heavy strategy.
pub const ARTICLE_HEAVY: &'static str = "\
You are creating an annotated outline of an article. Follow the article's \
structure but compress each section into a brief summary of its key idea.

For each section or major idea in the article:
- Use the original heading (or create a short one if missing)
- Write 1-3 sentences summarizing the key point
- Include concrete details: names, numbers, conclusions — not vague descriptions

End with a \"Takeaways\" section: a flat bullet list of the most important \
insights from the entire article.

Do NOT write long paragraphs. Every section should be scannable.
Output as markdown with ## headers for each section and ### for Takeaways.

RESPONSE FORMAT:
Return your response in exactly this format:
<compressed>
[annotated outline here]
</compressed>";

/// Article prompt of the takeaway strategy.
pub const ARTICLE_TLDR: &'static str = "\
Extract a brief card from this article.

Output format (inside <compressed> tags):

<compressed>
## [Descriptive title]

[One sentence: what this article is about — enough context to stand alone]

### Key Points

- [Specific insight with concrete detail]
- [Another key point — include the \"so what\"]
- [Non-obvious finding or practical implication]
</compressed>

Rules:
- One-sentence description, then 3-7 bullet points. No paragraphs beyond the \
one sentence.
- Total: 50-150 words. Dense, not verbose.
- Each bullet is a complete, self-contained thought.
- BAD: \"The new approach improves performance\" (what approach? what performance?)
- GOOD: \"Replacing attention with state-space models (Mamba) matches Transformer \
quality at 5x throughput because inference scales linearly instead of quadratically.\"
- No filler. No sub-bullets. No bold **Topic:** markers.
- You MUST wrap output in <compressed></compressed> tags.";

// ---------------------------------------------------------------------------
// Book prompts — pass 1 (distill)
// ---------------------------------------------------------------------------

/// Book chapter prompt of the light strategy.
pub const BOOK_LIGHT: &'static str = "\
You are distilling a book chapter into a shorter version that reads like the \
same chapter — same voice, same narrative flow, just less padding.

REMOVE: filler phrases, redundant restatements of the same idea, motivational \
padding that doesn't carry new information, verbose introductions, unnecessary \
transitions, rhetorical questions that add nothing.

PRESERVE: key arguments, frameworks, concrete examples (with names and data), \
research citations, actionable advice, important quotes, definitions, \
cause-effect relationships, narrative flow.

CRITICAL FORMAT RULES:
- Output flowing prose paragraphs. Maintain the author's writing style.
- Do NOT use bullet points or numbered lists unless the original chapter does.
- Do NOT convert prose into outlines or summaries.
- Use markdown headings that mirror the original chapter structure.

TARGET: Retain ~80% of original length.

RESPONSE FORMAT:
Return your response in exactly this format:
<compressed>
[distilled markdown here]
</compressed>";

/// Book chapter prompt of the medium strategy.
pub const BOOK_MEDIUM: &'static str = "\
You are distilling a book chapter into a denser version that still reads as \
a coherent chapter — same voice, same ideas, fewer words.

REMOVE: filler phrases, redundant restatements, excessive anecdotes that repeat \
a point already made, verbose introductions, motivational padding, unnecessary \
transitions, rhetorical questions, weak examples when a stronger one already \
makes the same point.

PRESERVE: key arguments, frameworks, the strongest example per concept, research \
citations, actionable advice, important quotes, definitions, cause-effect \
relationships.

Merge paragraphs that cover the same point into one tighter paragraph. Compress \
explanations to their essence while keeping them readable.

CRITICAL FORMAT RULES:
- Output flowing prose paragraphs. Maintain the author's voice and style.
- Do NOT use bullet points or numbered lists unless the original chapter does.
- Do NOT convert prose into outlines, lists, or note-style summaries.
- The result must read like a shorter version of the same book, not study notes.
- Use markdown headings that mirror the original chapter structure.

TARGET: Retain ~50% of original length.

RESPONSE FORMAT:
Return your response in exactly this format:
<compressed>
[distilled markdown here]
</compressed>";

/// Book chapter prompt of the heavy strategy.
pub const BOOK_HEAVY: &'static str = "\
You are distilling a book chapter into a short, aggressively compressed version \
that is still readable prose — a chapter you could read in bed, not an outline \
or a set of notes.

Keep only the core argument of each section and one concrete example per concept. \
Drop all anecdotes unless they carry a unique insight not stated elsewhere. \
Compress multi-paragraph explanations into single tight paragraphs.

CRITICAL FORMAT RULES:
- Output MUST be flowing prose paragraphs. This is the most important rule.
- Do NOT use bullet points, numbered lists, or outline format.
- Do NOT write in note-taking style (\"Key idea: ...\", \"Example: ...\").
- If you feel tempted to list points, write them as connected sentences instead.
- The result must still read like a book chapter, just a very short one.
- Use markdown headings that mirror the original structure.

TARGET: Retain ~30% of original length.

RESPONSE FORMAT:
Return your response in exactly this format:
<compressed>
[distilled markdown here]
</compressed>";

/// Book prompt of the takeaway strategy.
pub const BOOK_TLDR: &'static str = "\
You extract the key takeaways from a book into a dense, structured reference \
document — like the book-notes repositories people publish on GitHub after \
reading a book.

The reader has NOT read the book. This document replaces reading it.

Output format (inside <compressed> tags):

<compressed>
## [Book Title]

[2-3 sentences: what this book is about, its core thesis, and why it matters]

### [Theme 1 — identified by you, not by chapter]

- Takeaway with enough context to stand alone
- Another takeaway — include the \"so what\"

### [Theme 2]

- ...

### [Theme 3]

- ...
</compressed>

Rules:
- Group takeaways by THEME, not by chapter. Identify 3-6 themes that capture \
the book's most important ideas.
- Each theme gets a ### heading and 2-5 bullet takeaways.
- Each bullet must be a complete, self-contained thought — no dangling references \
like \"their framework\" without saying whose framework or what it contains.
- Total length: 1-3 pages (roughly 500-1500 words).
- Include concrete details: names, numbers, frameworks, mechanisms.
- No filler phrases. No sub-bullets. No bold **Topic:** markers within bullets.
- You MUST wrap output in <compressed></compressed> tags.";

// ---------------------------------------------------------------------------
// Book prompts — pass 2 (refinement)
// ---------------------------------------------------------------------------

/// Refinement prompt of the light strategy.
pub const REFINE_LIGHT: &'static str = "\
You are performing a coherence refinement pass across all distilled chapters \
of a book.

You will receive the full set of distilled chapters. Your job:

1. Fix dangling references — if a chapter references something that was cut \
from an earlier chapter, either restore the minimal context or remove the reference.
2. Remove cross-chapter redundancy — if the same point is made in multiple \
chapters, keep the strongest version and compress or remove the others.
3. Smooth transitions between chapters where needed.
4. Ensure consistent terminology throughout.
5. Verify the output reads as continuous prose — no bullet-point lists or \
outline fragments should remain.

Do NOT change the overall length significantly. Do NOT add new content. \
Do NOT re-expand distilled sections. This is a refinement pass, not a rewrite.

RESPONSE FORMAT:
<compressed>
[refined markdown here]
</compressed>";

/// Refinement prompt of the medium strategy.
pub const REFINE_MEDIUM: &'static str = "\
You are performing a coherence refinement pass across all distilled chapters \
of a book.

You will receive the full set of distilled chapters. Your job:

1. Fix dangling references — if a chapter references something that was cut \
from an earlier chapter, either restore the minimal context or remove the reference.
2. Remove cross-chapter redundancy — if the same point is made in multiple \
chapters, keep the strongest version and compress or remove the others.
3. Smooth transitions between chapters where needed.
4. Ensure consistent terminology throughout.
5. Check that compression has not made sections too terse to read naturally. \
If a paragraph has become a choppy sequence of disconnected sentences, smooth \
it into flowing prose.
6. The output must read like a shorter book, not like notes. No bullet-point \
lists or outline fragments.

Do NOT change the overall length significantly. Do NOT add new content. \
This is a refinement pass, not a rewrite.

RESPONSE FORMAT:
<compressed>
[refined markdown here]
</compressed>";

/// Refinement prompt of the heavy strategy.
pub const REFINE_HEAVY: &'static str = "\
You are performing an aggressive coherence refinement pass across all distilled \
chapters of a book. The chapters have been heavily compressed and may have \
degraded into bullet points, outlines, or choppy fragments.

Your job — in order of priority:

1. ENFORCE PROSE — this is the most important task. If any section has collapsed \
into bullet points, numbered lists, outline format, or note-taking style \
(\"Key idea: ...\"), REWRITE those sections as flowing prose paragraphs. The \
result must read like a short book, not a collection of notes.
2. Fix dangling references — restore minimal context or remove the reference.
3. Remove cross-chapter redundancy.
4. Smooth transitions so chapters connect naturally.
5. Ensure consistent terminology throughout.

The result should be something you could hand to someone and say \"here, read \
this short version of the book.\" Every section must be readable prose.

Do NOT significantly expand the total length. Do NOT add new ideas. \
Convert format, don't add content.

RESPONSE FORMAT:
<compressed>
[refined markdown here]
</compressed>";

// ---------------------------------------------------------------------------
// Strategy constructors
// ---------------------------------------------------------------------------

/// Prefix of the user message for the prose levels.
pub const DISTILL_PREFIX: &'static str = "CONTENT TO DISTILL:";

/// Prefix of the user message for the takeaway level.
pub const EXTRACT_PREFIX: &'static str = "TEXT TO EXTRACT FROM:";

/// Prefix of the user message of the refinement pass.
pub const REFINE_PREFIX: &'static str = "DISTILLED CHAPTERS TO REFINE:\n\n";

impl LevelStrategy {
    /// Keeps about 80% of the text.
    pub fn light() -> (s: Self)
        ensures
            s == (LevelStrategy {
                article: ARTICLE_LIGHT,
                book_distill: BOOK_LIGHT,
                book_refine: REFINE_LIGHT,
                user_prefix: DISTILL_PREFIX,
                multi_pass: true,
            }),
    {
        Self {
            article: ARTICLE_LIGHT,
            book_distill: BOOK_LIGHT,
            book_refine: REFINE_LIGHT,
            user_prefix: DISTILL_PREFIX,
            multi_pass: true,
        }
    }

    /// Keeps about 50% of the text.
    pub fn medium() -> (s: Self)
        ensures
            s == (LevelStrategy {
                article: ARTICLE_MEDIUM,
                book_distill: BOOK_MEDIUM,
                book_refine: REFINE_MEDIUM,
                user_prefix: DISTILL_PREFIX,
                multi_pass: true,
            }),
    {
        Self {
            article: ARTICLE_MEDIUM,
            book_distill: BOOK_MEDIUM,
            book_refine: REFINE_MEDIUM,
            user_prefix: DISTILL_PREFIX,
            multi_pass: true,
        }
    }

    /// Keeps about 30% of the text.
    pub fn heavy() -> (s: Self)
        ensures
            s == (LevelStrategy {
                article: ARTICLE_HEAVY,
                book_distill: BOOK_HEAVY,
                book_refine: REFINE_HEAVY,
                user_prefix: DISTILL_PREFIX,
                multi_pass: true,
            }),
    {
        Self {
            article: ARTICLE_HEAVY,
            book_distill: BOOK_HEAVY,
            book_refine: REFINE_HEAVY,
            user_prefix: DISTILL_PREFIX,
            multi_pass: true,
        }
    }

    /// Key takeaways only, in one pass.
    pub fn tldr() -> (s: Self)
        ensures
            s == (LevelStrategy {
                article: ARTICLE_TLDR,
                book_distill: BOOK_TLDR,
                book_refine: "",
                user_prefix: EXTRACT_PREFIX,
                multi_pass: false,
            }),
    {
        Self {
            article: ARTICLE_TLDR,
            book_distill: BOOK_TLDR,
            book_refine: "",
            user_prefix: EXTRACT_PREFIX,
            multi_pass: false,
        }
    }
}

impl CompressionStrategy for LevelStrategy {
    open spec fn distill_prompt(&self) -> Seq<char> {
        self.book_distill@
    }

    fn distill_system(&self) -> (r: String)
        ensures
            r@ == self.book_distill@,
    {
        String::from_str(self.book_distill)
    }

    fn distill_user(&self, content: &str) -> (r: String)
        ensures
            r@ == self.user_prefix@ + "\n\n"@ + content@,
    {
        let mut out: Vec<char> = Vec::new();
        extend_str(&mut out, self.user_prefix);
        extend_str(&mut out, "\n\n");
        extend_str(&mut out, content);
        string_of_all(&out)
    }

    fn article_system(&self) -> (r: String)
        ensures
            r@ == self.article@,
    {
        String::from_str(self.article)
    }

    fn refinement_system(&self) -> (r: String)
        ensures
            r@ == self.book_refine@,
    {
        String::from_str(self.book_refine)
    }

    fn refinement_user(&self, combined_distilled: &str) -> (r: String)
        ensures
            r@ == REFINE_PREFIX@ + combined_distilled@,
    {
        let mut out: Vec<char> = Vec::new();
        extend_str(&mut out, REFINE_PREFIX);
        extend_str(&mut out, combined_distilled);
        string_of_all(&out)
    }

    fn supports_multi_pass(&self) -> (b: bool)
        ensures
            b == self.multi_pass,
    {
        self.multi_pass
    }
}

/// The strategy of a compression level: tight is light, dense is medium,
/// distilled is heavy.
pub open spec fn spec_strategy_for(level: CompressionLevel) -> LevelStrategy {
    match level {
        CompressionLevel::Tight => LevelStrategy {
            article: ARTICLE_LIGHT,
            book_distill: BOOK_LIGHT,
            book_refine: REFINE_LIGHT,
            user_prefix: DISTILL_PREFIX,
            multi_pass: true,
        },
        CompressionLevel::Dense => LevelStrategy {
            article: ARTICLE_MEDIUM,
            book_distill: BOOK_MEDIUM,
            book_refine: REFINE_MEDIUM,
            user_prefix: DISTILL_PREFIX,
            multi_pass: true,
        },
        CompressionLevel::Distilled => LevelStrategy {
            article: ARTICLE_HEAVY,
            book_distill: BOOK_HEAVY,
            book_refine: REFINE_HEAVY,
            user_prefix: DISTILL_PREFIX,
            multi_pass: true,
        },
        CompressionLevel::Tldr => LevelStrategy {
            article: ARTICLE_TLDR,
            book_distill: BOOK_TLDR,
            book_refine: "",
            user_prefix: EXTRACT_PREFIX,
            multi_pass: false,
        },
    }
}

/// The strategy for a compression level.
pub fn strategy_for(level: &CompressionLevel) -> (s: LevelStrategy)
    ensures
        s == spec_strategy_for(*level),
{
    match level {
        CompressionLevel::Tight => LevelStrategy::light(),
        CompressionLevel::Dense => LevelStrategy::medium(),
        CompressionLevel::Distilled => LevelStrategy::heavy(),
        CompressionLevel::Tldr => LevelStrategy::tldr(),
    }
}

// ---------------------------------------------------------------------------
// What each level asks of the model
// ---------------------------------------------------------------------------

/// The share of the original length a level keeps, as the documentation
/// gives it: tight about 80%, dense about 50%, distilled about 30%; the
/// takeaway level gives no share.
pub open spec fn retention_target(level: CompressionLevel) -> Option<Seq<char>> {
    match level {
        CompressionLevel::Tight => Some("80"@),
        CompressionLevel::Dense => Some("50"@),
        CompressionLevel::Distilled => Some("30"@),
        CompressionLevel::Tldr => None,
    }
}

/// The line of a prompt that asks for a share of the original length.
pub open spec fn target_line(pct: Seq<char>) -> Seq<char> {
    "TARGET: Retain ~"@ + pct + "% of original length."@
}

proof fn lemma_target_lines()
    ensures
        target_line("80"@) == "TARGET: Retain ~80% of original length."@,
        target_line("50"@) == "TARGET: Retain ~50% of original length."@,
        target_line("30"@) == "TARGET: Retain ~30% of original length."@,
{
    reveal_strlit("TARGET: Retain ~");
    reveal_strlit("% of original length.");
    reveal_strlit("80");
    reveal_strlit("50");
    reveal_strlit("30");
    reveal_strlit("TARGET: Retain ~80% of original length.");
    reveal_strlit("TARGET: Retain ~50% of original length.");
    reveal_strlit("TARGET: Retain ~30% of original length.");
    assert(target_line("80"@) =~= "TARGET: Retain ~80% of original length."@);
    assert(target_line("50"@) =~= "TARGET: Retain ~50% of original length."@);
    assert(target_line("30"@) =~= "TARGET: Retain ~30% of original length."@);
}

proof fn lemma_light_prompts()
    ensures
        contains_seq(ARTICLE_LIGHT@, target_line("80"@)),
        contains_seq(BOOK_LIGHT@, target_line("80"@)),
        contains_seq(REFINE_LIGHT@, "Do NOT re-expand distilled sections"@),
{
    lemma_target_lines();
    reveal_strlit("\
You are distilling an article. Remove low-value content while keeping the \
substance intact.

REMOVE: filler phrases, redundant restatements, verbose transitions, rhetorical \
questions that add no information, unnecessary qualifications and hedging.

PRESERVE: all arguments, evidence, examples, data, quotes, definitions, \
cause-effect relationships. Keep the author's voice and the original structure.

This should read like the same article, just tighter — NOT a summary.
Output as markdown. Preserve any existing headings and sub-sections.

TARGET: Retain ~80% of original length.

RESPONSE FORMAT:
Return your response in exactly this format:
<compressed>
[distilled markdown here]
</compressed>");
    reveal_strlit("\
You are distilling a book chapter into a shorter version that reads like the \
same chapter — same voice, same narrative flow, just less padding.

REMOVE: filler phrases, redundant restatements of the same idea, motivational \
padding that doesn't carry new information, verbose introductions, unnecessary \
transitions, rhetorical questions that add nothing.

PRESERVE: key arguments, frameworks, concrete examples (with names and data), \
research citations, actionable advice, important quotes, definitions, \
cause-effect relationships, narrative flow.

CRITICAL FORMAT RULES:
- Output flowing prose paragraphs. Maintain the author's writing style.
- Do NOT use bullet points or numbered lists unless the original chapter does.
- Do NOT convert prose into outlines or summaries.
- Use markdown headings that mirror the original chapter structure.

TARGET: Retain ~80% of original length.

RESPONSE FORMAT:
Return your response in exactly this format:
<compressed>
[distilled markdown here]
</compressed>");
    reveal_strlit("\
You are performing a coherence refinement pass across all distilled chapters \
of a book.

You will receive the full set of distilled chapters. Your job:

1. Fix dangling references — if a chapter references something that was cut \
from an earlier chapter, either restore the minimal context or remove the reference.
2. Remove cross-chapter redundancy — if the same point is made in multiple \
chapters, keep the strongest version and compress or remove the others.
3. Smooth transitions between chapters where needed.
4. Ensure consistent terminology throughout.
5. Verify the output reads as continuous prose — no bullet-point lists or \
outline fragments should remain.

Do NOT change the overall length significantly. Do NOT add new content. \
Do NOT re-expand distilled sections. This is a refinement pass, not a rewrite.

RESPONSE FORMAT:
<compressed>
[refined markdown here]
</compressed>");
    reveal_strlit("TARGET: Retain ~80% of original length.");
    assert(ARTICLE_LIGHT@.subrange(542, 581) =~= "TARGET: Retain ~80% of original length."@);
    lemma_match_contains(ARTICLE_LIGHT@, "TARGET: Retain ~80% of original length."@, 542);
    assert(BOOK_LIGHT@.subrange(842, 881) =~= "TARGET: Retain ~80% of original length."@);
    lemma_match_contains(BOOK_LIGHT@, "TARGET: Retain ~80% of original length."@, 842);
    reveal_strlit("Do NOT re-expand distilled sections");
    assert(REFINE_LIGHT@.subrange(739, 774) =~= "Do NOT re-expand distilled sections"@);
    lemma_match_contains(REFINE_LIGHT@, "Do NOT re-expand distilled sections"@, 739);
}

proof fn lemma_medium_prompts()
    ensures
        contains_seq(ARTICLE_MEDIUM@, target_line("50"@)),
        contains_seq(BOOK_MEDIUM@, target_line("50"@)),
        contains_seq(REFINE_MEDIUM@, "too terse"@),
{
    lemma_target_lines();
    reveal_strlit("\
You are distilling an article. Compress it significantly while preserving \
core content.

REMOVE: filler phrases, redundant restatements, verbose transitions, weak \
examples that repeat a point already made, excessive background context, \
rhetorical padding, unnecessary qualifications.

PRESERVE: key arguments, strongest examples, data and evidence, frameworks, \
actionable insights, important quotes, definitions.

Merge paragraphs that cover the same point. Compress explanations to their \
essence. This should read like a tighter version of the same article — NOT \
a summary.
Output as markdown. Preserve headings and overall structure.

TARGET: Retain ~50% of original length.

RESPONSE FORMAT:
Return your response in exactly this format:
<compressed>
[distilled markdown here]
</compressed>");
    reveal_strlit("\
You are distilling a book chapter into a denser version that still reads as \
a coherent chapter — same voice, same ideas, fewer words.

REMOVE: filler phrases, redundant restatements, excessive anecdotes that repeat \
a point already made, verbose introductions, motivational padding, unnecessary \
transitions, rhetorical questions, weak examples when a stronger one already \
makes the same point.

PRESERVE: key arguments, frameworks, the strongest example per concept, research \
citations, actionable advice, important quotes, definitions, cause-effect \
relationships.

Merge paragraphs that cover the same point into one tighter paragraph. Compress \
explanations to their essence while keeping them readable.

CRITICAL FORMAT RULES:
- Output flowing prose paragraphs. Maintain the author's voice and style.
- Do NOT use bullet points or numbered lists unless the original chapter does.
- Do NOT convert prose into outlines, lists, or note-style summaries.
- The result must read like a shorter version of the same book, not study notes.
- Use markdown headings that mirror the original chapter structure.

TARGET: Retain ~50% of original length.

RESPONSE FORMAT:
Return your response in exactly this format:
<compressed>
[distilled markdown here]
</compressed>");
    reveal_strlit("\
You are performing a coherence refinement pass across all distilled chapters \
of a book.

You will receive the full set of distilled chapters. Your job:

1. Fix dangling references — if a chapter references something that was cut \
from an earlier chapter, either restore the minimal context or remove the reference.
2. Remove cross-chapter redundancy — if the same point is made in multiple \
chapters, keep the strongest version and compress or remove the others.
3. Smooth transitions between chapters where needed.
4. Ensure consistent terminology throughout.
5. Check that compression has not made sections too terse to read naturally. \
If a paragraph has become a choppy sequence of disconnected sentences, smooth \
it into flowing prose.
6. The output must read like a shorter book, not like notes. No bullet-point \
lists or outline fragments.

Do NOT change the overall length significantly. Do NOT add new content. \
This is a refinement pass, not a rewrite.

RESPONSE FORMAT:
<compressed>
[refined markdown here]
</compressed>");
    reveal_strlit("TARGET: Retain ~50% of original length.");
    assert(ARTICLE_MEDIUM@.subrange(637, 676) =~= "TARGET: Retain ~50% of original length."@);
    lemma_match_contains(ARTICLE_MEDIUM@, "TARGET: Retain ~50% of original length."@, 637);
    assert(BOOK_MEDIUM@.subrange(1101, 1140) =~= "TARGET: Retain ~50% of original length."@);
    lemma_match_contains(BOOK_MEDIUM@, "TARGET: Retain ~50% of original length."@, 1101);
    reveal_strlit("too terse");
    assert(REFINE_MEDIUM@.subrange(607, 616) =~= "too terse"@);
    lemma_match_contains(REFINE_MEDIUM@, "too terse"@, 607);
}

proof fn lemma_heavy_prompts()
    ensures
        contains_seq(ARTICLE_HEAVY@, "annotated outline"@),
        contains_seq(BOOK_HEAVY@, target_line("30"@)),
        contains_seq(REFINE_HEAVY@, "aggressive coherence refinement"@),
{
    lemma_target_lines();
    reveal_strlit("\
You are creating an annotated outline of an article. Follow the article's \
structure but compress each section into a brief summary of its key idea.

For each section or major idea in the article:
- Use the original heading (or create a short one if missing)
- Write 1-3 sentences summarizing the key point
- Include concrete details: names, numbers, conclusions — not vague descriptions

End with a \"Takeaways\" section: a flat bullet list of the most important \
insights from the entire article.

Do NOT write long paragraphs. Every section should be scannable.
Output as markdown with ## headers for each section and ### for Takeaways.

RESPONSE FORMAT:
Return your response in exactly this format:
<compressed>
[annotated outline here]
</compressed>");
    reveal_strlit("\
You are distilling a book chapter into a short, aggressively compressed version \
that is still readable prose — a chapter you could read in bed, not an outline \
or a set of notes.

Keep only the core argument of each section and one concrete example per concept. \
Drop all anecdotes unless they carry a unique insight not stated elsewhere. \
Compress multi-paragraph explanations into single tight paragraphs.

CRITICAL FORMAT RULES:
- Output MUST be flowing prose paragraphs. This is the most important rule.
- Do NOT use bullet points, numbered lists, or outline format.
- Do NOT write in note-taking style (\"Key idea: ...\", \"Example: ...\").
- If you feel tempted to list points, write them as connected sentences instead.
- The result must still read like a book chapter, just a very short one.
- Use markdown headings that mirror the original structure.

TARGET: Retain ~30% of original length.

RESPONSE FORMAT:
Return your response in exactly this format:
<compressed>
[distilled markdown here]
</compressed>");
    reveal_strlit("\
You are performing an aggressive coherence refinement pass across all distilled \
chapters of a book. The chapters have been heavily compressed and may have \
degraded into bullet points, outlines, or choppy fragments.

Your job — in order of priority:

1. ENFORCE PROSE — this is the most important task. If any section has collapsed \
into bullet points, numbered lists, outline format, or note-taking style \
(\"Key idea: ...\"), REWRITE those sections as flowing prose paragraphs. The \
result must read like a short book, not a collection of notes.
2. Fix dangling references — restore minimal context or remove the reference.
3. Remove cross-chapter redundancy.
4. Smooth transitions so chapters connect naturally.
5. Ensure consistent terminology throughout.

The result should be something you could hand to someone and say \"here, read \
this short version of the book.\" Every section must be readable prose.

Do NOT significantly expand the total length. Do NOT add new ideas. \
Convert format, don't add content.

RESPONSE FORMAT:
<compressed>
[refined markdown here]
</compressed>");
    reveal_strlit("annotated outline");
    assert(ARTICLE_HEAVY@.subrange(20, 37) =~= "annotated outline"@);
    lemma_match_contains(ARTICLE_HEAVY@, "annotated outline"@, 20);
    reveal_strlit("TARGET: Retain ~30% of original length.");
    assert(BOOK_HEAVY@.subrange(854, 893) =~= "TARGET: Retain ~30% of original length."@);
    lemma_match_contains(BOOK_HEAVY@, "TARGET: Retain ~30% of original length."@, 854);
    reveal_strlit("aggressive coherence refinement");
    assert(REFINE_HEAVY@.subrange(22, 53) =~= "aggressive coherence refinement"@);
    lemma_match_contains(REFINE_HEAVY@, "aggressive coherence refinement"@, 22);
}

proof fn lemma_takeaway_prompts()
    ensures
        contains_seq(ARTICLE_TLDR@, "brief card"@),
        contains_seq(BOOK_TLDR@, "key takeaways"@),
{
    lemma_target_lines();
    reveal_strlit("\
Extract a brief card from this article.

Output format (inside <compressed> tags):

<compressed>
## [Descriptive title]

[One sentence: what this article is about — enough context to stand alone]

### Key Points

- [Specific insight with concrete detail]
- [Another key point — include the \"so what\"]
- [Non-obvious finding or practical implication]
</compressed>

Rules:
- One-sentence description, then 3-7 bullet points. No paragraphs beyond the \
one sentence.
- Total: 50-150 words. Dense, not verbose.
- Each bullet is a complete, self-contained thought.
- BAD: \"The new approach improves performance\" (what approach? what performance?)
- GOOD: \"Replacing attention with state-space models (Mamba) matches Transformer \
quality at 5x throughput because inference scales linearly instead of quadratically.\"
- No filler. No sub-bullets. No bold **Topic:** markers.
- You MUST wrap output in <compressed></compressed> tags.");
    reveal_strlit("\
You extract the key takeaways from a book into a dense, structured reference \
document — like the book-notes repositories people publish on GitHub after \
reading a book.

The reader has NOT read the book. This document replaces reading it.

Output format (inside <compressed> tags):

<compressed>
## [Book Title]

[2-3 sentences: what this book is about, its core thesis, and why it matters]

### [Theme 1 — identified by you, not by chapter]

- Takeaway with enough context to stand alone
- Another takeaway — include the \"so what\"

### [Theme 2]

- ...

### [Theme 3]

- ...
</compressed>

Rules:
- Group takeaways by THEME, not by chapter. Identify 3-6 themes that capture \
the book's most important ideas.
- Each theme gets a ### heading and 2-5 bullet takeaways.
- Each bullet must be a complete, self-contained thought — no dangling references \
like \"their framework\" without saying whose framework or what it contains.
- Total length: 1-3 pages (roughly 500-1500 words).
- Include concrete details: names, numbers, frameworks, mechanisms.
- No filler phrases. No sub-bullets. No bold **Topic:** markers within bullets.
- You MUST wrap output in <compressed></compressed> tags.");
    reveal_strlit("brief card");
    assert(ARTICLE_TLDR@.subrange(10, 20) =~= "brief card"@);
    lemma_match_contains(ARTICLE_TLDR@, "brief card"@, 10);
    reveal_strlit("key takeaways");
    assert(BOOK_TLDR@.subrange(16, 29) =~= "key takeaways"@);
    lemma_match_contains(BOOK_TLDR@, "key takeaways"@, 16);
}

/// Each level asks the model for what the documentation promises of it. The
/// article and book prompts of tight and dense, and the book prompt of
/// distilled, ask for the level's share of the original length (tight ~80%,
/// dense ~50%, distilled ~30%); distilled articles become an annotated
/// outline; the takeaway level asks for a brief card of an article and the key
/// takeaways of a book, in one pass, with no refinement prompt. The prose
/// levels refine books in a second pass, each with its own refinement prompt.
pub proof fn lemma_level_prompts(level: CompressionLevel)
    ensures
        ({
            let s = spec_strategy_for(level);
            &&& (level == CompressionLevel::Tight || level == CompressionLevel::Dense) ==> contains_seq(
                s.article@,
                target_line(retention_target(level)->0),
            )
            &&& retention_target(level) is Some ==> contains_seq(
                s.book_distill@,
                target_line(retention_target(level)->0),
            )
            &&& level == CompressionLevel::Tight ==> contains_seq(
                s.book_refine@,
                "Do NOT re-expand distilled sections"@,
            )
            &&& level == CompressionLevel::Dense ==> contains_seq(s.book_refine@, "too terse"@)
            &&& level == CompressionLevel::Distilled ==> contains_seq(s.article@, "annotated outline"@)
                && contains_seq(s.book_refine@, "aggressive coherence refinement"@)
            &&& level == CompressionLevel::Tldr ==> contains_seq(s.article@, "brief card"@)
                && contains_seq(s.book_distill@, "key takeaways"@) && !s.multi_pass
                && s.book_refine@.len() == 0 && s.user_prefix@ == "TEXT TO EXTRACT FROM:"@
            &&& level != CompressionLevel::Tldr ==> s.multi_pass && s.user_prefix@
                == "CONTENT TO DISTILL:"@
        }),
{
    lemma_light_prompts();
    lemma_medium_prompts();
    lemma_heavy_prompts();
    lemma_takeaway_prompts();
    reveal_strlit("");
}

} // verus!
