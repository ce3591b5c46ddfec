//! Mode detection and token estimation.
use crate::cli::Mode;
use crate::text::{count_words, starts_with, to_chars, word_count};
use vstd::prelude::*;

verus! {

/// Inputs with at least this many estimated tokens are books.
pub const TOKEN_THRESHOLD: usize = 30_000;

/// The mode for an input: the forced one if any, else a book from
/// `TOKEN_THRESHOLD` estimated tokens on, else an article.
pub open spec fn spec_detect_mode(forced: Option<Mode>, estimated_tokens: int) -> Mode {
    match forced {
        Some(m) => m,
        None => if estimated_tokens >= TOKEN_THRESHOLD {
            Mode::Book
        } else {
            Mode::Article
        },
    }
}

/// The mode for an input: the forced one, else by its estimated size.
pub fn detect_mode(forced: Option<Mode>, estimated_tokens: usize) -> (m: Mode)
    ensures
        m == spec_detect_mode(forced, estimated_tokens as int),
{
    if let Some(mode) = forced {
        return mode;
    }
    if estimated_tokens >= TOKEN_THRESHOLD {
        Mode::Book
    } else {
        Mode::Article
    }
}

/// 1.3 tokens per whitespace-separated word, rounded down, saturating at `usize::MAX`.
pub open spec fn tokens_for_words(n: int) -> int {
    if n * 13 / 10 > usize::MAX {
        usize::MAX as int
    } else {
        n * 13 / 10
    }
}

/// The estimated token count of a text.
pub open spec fn spec_estimate_tokens(s: Seq<char>) -> int {
    tokens_for_words(word_count(s) as int)
}

/// 1.3 tokens per word for a word count.
pub fn tokens_from_words(n: usize) -> (t: usize)
    ensures
        t == tokens_for_words(n as int),
{
    let q = n / 10;
    let r = n % 10;
    assert(n * 13 / 10 == q * 13 + r * 13 / 10) by (nonlinear_arith)
        requires
            q == n / 10,
            r == n % 10,
            n >= 0,
    ;
    let e = r * 13 / 10;
    if q > (usize::MAX - e) / 13 {
        assert(n * 13 / 10 > usize::MAX) by (nonlinear_arith)
            requires
                n * 13 / 10 == q * 13 + e,
                q > (usize::MAX - e) / 13,
                0 <= e <= 12,
        ;
        return usize::MAX;
    }
    assert(q * 13 + e <= usize::MAX) by (nonlinear_arith)
        requires
            q <= (usize::MAX - e) / 13,
            0 <= e <= 12,
    ;
    q * 13 + e
}

/// The estimated token count of a character sequence.
pub fn estimate_tokens_chars(v: &Vec<char>) -> (t: usize)
    ensures
        t == spec_estimate_tokens(v@),
{
    tokens_from_words(count_words(v))
}

/// The estimated token count of a text: 1.3 tokens per whitespace-separated word.
pub fn estimate_tokens(text: &str) -> (t: usize)
    ensures
        t == spec_estimate_tokens(text@),
{
    let v = to_chars(text);
    estimate_tokens_chars(&v)
}

/// The input names a web page rather than a file.
pub open spec fn spec_is_url(s: Seq<char>) -> bool {
    "http://"@.is_prefix_of(s) || "https://"@.is_prefix_of(s)
}

/// Whether the input names a web page (`http://` or `https://`).
pub fn is_url(input: &str) -> (b: bool)
    ensures
        b == spec_is_url(input@),
{
    let v = to_chars(input);
    starts_with(&v, "http://") || starts_with(&v, "https://")
}

} // verus!
