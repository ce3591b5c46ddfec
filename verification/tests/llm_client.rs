use distill::error::DistillError;
use distill::llm::{
    completion_error_step, completion_failure_step, completion_retry_delay_secs, completions_url, empty_choices_error,
    response_parse_error, CompletionStep, ARROW, MAX_RETRIES,
};

#[test]
fn endpoint_is_under_the_api_base() {
    assert_eq!(
        completions_url("https://api.example.com/v1"),
        "https://api.example.com/v1/chat/completions"
    );
}

#[test]
fn rate_limits_and_server_errors_are_retried() {
    assert_eq!(MAX_RETRIES, 3);
    for code in [429u16, 500, 502, 599] {
        match completion_failure_step(0, code, "x", "") {
            CompletionStep::Retry { next_attempt } => assert_eq!(next_attempt, 1),
            other => panic!("unexpected: {:?}", other),
        }
    }
    match completion_failure_step(2, 503, "503 Service Unavailable", "") {
        CompletionStep::Retry { next_attempt } => assert_eq!(next_attempt, 3),
        other => panic!("unexpected: {:?}", other),
    }
}

#[test]
fn exhausted_retries_fail_with_the_status() {
    match completion_failure_step(3, 500, "500 Internal Server Error", "") {
        CompletionStep::Fail(DistillError::Llm { cause }) => {
            assert_eq!(cause, "HTTP 500 Internal Server Error")
        }
        other => panic!("unexpected: {:?}", other),
    }
}

#[test]
fn client_errors_fail_with_a_body_preview() {
    let body = "x".repeat(400);
    match completion_failure_step(0, 401, "401 Unauthorized", &body) {
        CompletionStep::Fail(DistillError::Llm { cause }) => {
            assert_eq!(cause, format!("HTTP 401 Unauthorized{}body: {}...", ARROW, "x".repeat(300)))
        }
        other => panic!("unexpected: {:?}", other),
    }
}

#[test]
fn connection_failures_retry_when_transient() {
    match completion_error_step(1, true, "timeout".to_string()) {
        CompletionStep::Retry { next_attempt } => assert_eq!(next_attempt, 2),
        other => panic!("unexpected: {:?}", other),
    }
    match completion_error_step(1, false, "dns".to_string()) {
        CompletionStep::Fail(DistillError::Llm { cause }) => assert_eq!(cause, "dns"),
        other => panic!("unexpected: {:?}", other),
    }
    match completion_error_step(3, true, "timeout".to_string()) {
        CompletionStep::Fail(DistillError::Llm { cause }) => assert_eq!(cause, "timeout"),
        other => panic!("unexpected: {:?}", other),
    }
}

#[test]
fn unreadable_bodies_are_reported_with_a_preview() {
    match response_parse_error("expected value", "oops") {
        DistillError::Llm { cause } => assert_eq!(
            cause,
            "failed to parse LLM response: expected value\n  \x1b[2m->\x1b[0m response body: oops"
        ),
        other => panic!("unexpected: {:?}", other),
    }
    match empty_choices_error() {
        DistillError::Llm { cause } => assert_eq!(cause, "LLM returned empty choices array"),
        other => panic!("unexpected: {:?}", other),
    }
}

#[test]
fn completion_retries_back_off_exponentially() {
    let delays: Vec<u64> = (1..=MAX_RETRIES).map(completion_retry_delay_secs).collect();
    assert_eq!(delays, vec![1, 4, 16]);
}
