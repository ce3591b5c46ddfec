//! Talking to the language model: prompts, strategies, response parsing, and
//! the retry policy of completion requests.
pub mod parse;
pub mod prompt;
pub mod strategy;

use crate::error::DistillError;
use crate::ingest::url::{cuttable, spec_truncate, truncate};
use crate::text::{extend_str, string_of_all};
use vstd::prelude::*;

verus! {

/// Failed requests are retried this many times.
pub const MAX_RETRIES: u32 = 3;

/// Exponential backoff: the wait before retry `attempt` is four times the
/// wait before the retry ahead of it, starting from one second.
pub open spec fn completion_backoff_secs(attempt: nat) -> nat
    decreases attempt,
{
    if attempt <= 1 {
        1
    } else {
        4 * completion_backoff_secs((attempt - 1) as nat)
    }
}

/// How many seconds to wait before retry `attempt` of a completion request:
/// 1, 4 and 16.
pub fn completion_retry_delay_secs(attempt: u32) -> (secs: u64)
    requires
        1 <= attempt <= MAX_RETRIES,
    ensures
        secs == completion_backoff_secs(attempt as nat),
{
    let mut secs: u64 = 1;
    let mut i: u32 = 1;
    while i < attempt
        invariant
            1 <= i <= attempt <= MAX_RETRIES,
            secs == completion_backoff_secs(i as nat),
            i == 1 ==> secs == 1,
            i == 2 ==> secs == 4,
        decreases attempt - i,
    {
        secs = secs * 4;
        i = i + 1;
    }
    secs
}

/// The chat completions endpoint of an API base URL.
pub fn completions_url(api_base: &str) -> (r: String)
    ensures
        r@ == api_base@ + "/chat/completions"@,
{
    let mut out: Vec<char> = Vec::new();
    extend_str(&mut out, api_base);
    extend_str(&mut out, "/chat/completions");
    string_of_all(&out)
}

/// What to do after a failed completion attempt.
#[derive(Debug)]
pub enum CompletionStep {
    /// Wait, then make attempt `next_attempt`.
    Retry { next_attempt: u32 },
    /// Give up with this error.
    Fail(DistillError),
}

/// The dimmed arrow that introduces details in messages.
pub const ARROW: &'static str = "\n  \x1b[2m->\x1b[0m ";

/// The message of a failed response: the status, and a preview of the body if
/// there is one.
pub open spec fn failure_message(status: Seq<char>, body: &str) -> Seq<char> {
    if body@.len() == 0 {
        "HTTP "@ + status
    } else {
        "HTTP "@ + status + ARROW@ + "body: "@ + spec_truncate(body, 300)
    }
}

/// After attempt `attempt` got a non-success response: rate limits and server
/// errors are retried while attempts remain; otherwise the request fails.
pub open spec fn completion_failure_ok(attempt: int, code: u16, status: Seq<char>, body: &str, r: CompletionStep) -> bool {
    if (code == 429 || 500 <= code <= 599) && attempt < MAX_RETRIES {
        r == CompletionStep::Retry { next_attempt: (attempt + 1) as u32 }
    } else {
        r matches CompletionStep::Fail(DistillError::Llm { cause }) && cause@ == failure_message(
            status,
            body,
        )
    }
}

/// The next step after a non-success response (`status` is its display text).
pub fn completion_failure_step(attempt: u32, code: u16, status: &str, body: &str) -> (r: CompletionStep)
    requires
        attempt <= MAX_RETRIES,
        cuttable(body, 300),
    ensures
        completion_failure_ok(attempt as int, code, status@, body, r),
{
    if (code == 429 || (500 <= code && code <= 599)) && attempt < MAX_RETRIES {
        return CompletionStep::Retry { next_attempt: attempt + 1 };
    }
    let mut m: Vec<char> = Vec::new();
    extend_str(&mut m, "HTTP ");
    extend_str(&mut m, status);
    if !body.is_empty() {
        extend_str(&mut m, ARROW);
        extend_str(&mut m, "body: ");
        let p = truncate(body, 300);
        extend_str(&mut m, p.as_str());
    }
    CompletionStep::Fail(DistillError::Llm { cause: string_of_all(&m) })
}

/// After attempt `attempt` failed without a response: timeouts and failed
/// connections are retried while attempts remain; otherwise the request fails
/// with the error's message.
pub open spec fn completion_error_ok(attempt: int, transient: bool, message: Seq<char>, r: CompletionStep) -> bool {
    if transient && attempt < MAX_RETRIES {
        r == CompletionStep::Retry { next_attempt: (attempt + 1) as u32 }
    } else {
        r matches CompletionStep::Fail(DistillError::Llm { cause }) && cause@ == message
    }
}

/// The next step after a failed attempt without a response.
pub fn completion_error_step(attempt: u32, transient: bool, message: String) -> (r: CompletionStep)
    requires
        attempt <= MAX_RETRIES,
    ensures
        completion_error_ok(attempt as int, transient, message@, r),
{
    if transient && attempt < MAX_RETRIES {
        CompletionStep::Retry { next_attempt: attempt + 1 }
    } else {
        CompletionStep::Fail(DistillError::Llm { cause: message })
    }
}

/// The error for a response body that is not a chat completion: the parser's
/// message and a preview of the body.
pub fn response_parse_error(err: &str, body: &str) -> (e: DistillError)
    requires
        cuttable(body, 500),
    ensures
        e matches DistillError::Llm { cause } && cause@ == "failed to parse LLM response: "@ + err@
            + ARROW@ + "response body: "@ + spec_truncate(body, 500),
{
    let mut m: Vec<char> = Vec::new();
    extend_str(&mut m, "failed to parse LLM response: ");
    extend_str(&mut m, err);
    extend_str(&mut m, ARROW);
    extend_str(&mut m, "response body: ");
    let p = truncate(body, 500);
    extend_str(&mut m, p.as_str());
    DistillError::Llm { cause: string_of_all(&m) }
}

/// The error for a chat completion without choices.
pub fn empty_choices_error() -> (e: DistillError)
    ensures
        e matches DistillError::Llm { cause } && cause@ == "LLM returned empty choices array"@,
{
    DistillError::Llm { cause: String::from_str("LLM returned empty choices array") }
}

/// A completion request is tried again only after a rate limit, a server
/// error, a timeout or a failed connection, one attempt later, and never past
/// attempt `MAX_RETRIES`: at most `MAX_RETRIES + 1` attempts in all.
pub proof fn lemma_completion_retries_bounded(
    attempt: int,
    code: u16,
    status: Seq<char>,
    body: &str,
    transient: bool,
    message: Seq<char>,
    after_response: CompletionStep,
    after_error: CompletionStep,
)
    requires
        0 <= attempt,
        completion_failure_ok(attempt, code, status, body, after_response),
        completion_error_ok(attempt, transient, message, after_error),
    ensures
        after_response matches CompletionStep::Retry { next_attempt } ==> next_attempt == attempt + 1
            && next_attempt <= MAX_RETRIES && (code == 429 || 500 <= code <= 599),
        after_error matches CompletionStep::Retry { next_attempt } ==> next_attempt == attempt + 1
            && next_attempt <= MAX_RETRIES && transient,
        attempt >= MAX_RETRIES ==> after_response is Fail && after_error is Fail,
{
}

} // verus!
