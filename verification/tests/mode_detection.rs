use distill::cli::Mode;
use distill::mode::{detect_mode, estimate_tokens, is_url, tokens_from_words, TOKEN_THRESHOLD};

#[test]
fn test_small_token_count_is_article() {
    let detected = detect_mode(None, 10_000);
    assert_eq!(detected, Mode::Article);
}

#[test]
fn test_large_token_count_is_book() {
    let detected = detect_mode(None, 50_000);
    assert_eq!(detected, Mode::Book);
}

#[test]
fn test_threshold_boundary() {
    assert_eq!(detect_mode(None, 29_999), Mode::Article);
    assert_eq!(detect_mode(None, 30_000), Mode::Book);
}

#[test]
fn test_forced_mode_overrides() {
    assert_eq!(detect_mode(Some(Mode::Book), 1_000), Mode::Book);
    assert_eq!(detect_mode(Some(Mode::Article), 100_000), Mode::Article);
}

#[test]
fn test_estimate_tokens() {
    // "hello world" = 2 words, 2 * 1.3 = 2.6 -> 2
    assert_eq!(estimate_tokens("hello world"), 2);
    // 10 words -> 13
    let text = "one two three four five six seven eight nine ten";
    assert_eq!(estimate_tokens(text), 13);
}

#[test]
fn test_input_is_url() {
    assert!(is_url("https://example.com/article"));
    assert!(is_url("http://example.com/page"));
    assert!(!is_url("./local-file.pdf"));
    assert!(!is_url("/home/user/book.epub"));
}

#[test]
fn threshold_is_thirty_thousand_tokens() {
    assert_eq!(TOKEN_THRESHOLD, 30_000);
}

#[test]
fn tokens_are_thirteen_tenths_of_words_rounded_down() {
    assert_eq!(tokens_from_words(0), 0);
    assert_eq!(tokens_from_words(1), 1);
    assert_eq!(tokens_from_words(7), 9);
    assert_eq!(tokens_from_words(100), 130);
    assert_eq!(tokens_from_words(usize::MAX), usize::MAX);
}

#[test]
fn estimate_counts_words_across_any_whitespace() {
    assert_eq!(estimate_tokens(""), 0);
    assert_eq!(estimate_tokens("   \n\t  "), 0);
    assert_eq!(estimate_tokens("  a\n\nb\tc  d "), 5);
}

#[test]
fn urls_need_the_scheme_at_the_start() {
    assert!(!is_url("ftp://example.com"));
    assert!(!is_url(" https://example.com"));
    assert!(!is_url("HTTPS://example.com"));
    assert!(is_url("http://"));
}
