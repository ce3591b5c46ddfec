use distill::error::DistillError;
use distill::ingest::url::{
    article_document, classify_download, download_kind, extract_article, extract_title,
    fetch_error_step, fetch_failure_step, fetch_retry_delay_secs, is_success_status, preview, truncate, DownloadKind,
    FetchStep, FETCH_RETRIES, FORBIDDEN_ADVICE, TOO_SHORT,
};

#[test]
fn test_extract_title_case_insensitive() {
    assert_eq!(
        extract_title("<html><head><TITLE>Hello</TITLE></head></html>").as_deref(),
        Some("Hello")
    );
}

#[test]
fn test_extract_title_malformed_returns_none() {
    assert_eq!(extract_title("<title>Missing close"), None);
}

#[test]
fn test_preview_truncates() {
    let text = "a".repeat(300);
    assert_eq!(preview(&text, 5), "aaaaa...");
}

#[test]
fn titles_are_trimmed_and_blank_ones_absent() {
    assert_eq!(extract_title("<title>  Spaced Out \n</title>").as_deref(), Some("Spaced Out"));
    assert_eq!(extract_title("<title>   </title>"), None);
    assert_eq!(extract_title("no title here"), None);
    assert_eq!(extract_title("<TiTlE>Mixed</tItLe>").as_deref(), Some("Mixed"));
}

#[test]
fn previews_of_short_and_empty_texts() {
    assert_eq!(preview("", 10), "<empty>");
    assert_eq!(preview("short", 10), "short");
    assert_eq!(truncate("abcdef", 6), "abcdef");
    assert_eq!(truncate("abcdefg", 6), "abcdef...");
    // cut counts bytes, at a character boundary
    assert_eq!(truncate("\u{e9}\u{e9}\u{e9}", 4), "\u{e9}\u{e9}...");
}

#[test]
fn success_is_two_hundreds() {
    assert!(is_success_status(200));
    assert!(is_success_status(299));
    assert!(!is_success_status(199));
    assert!(!is_success_status(300));
    assert!(!is_success_status(404));
}

#[test]
fn transient_failures_are_retried_while_attempts_remain() {
    assert_eq!(FETCH_RETRIES, 2);
    match fetch_failure_step("https://x.test", 0, 503, "503 Service Unavailable", "busy") {
        FetchStep::Retry { next_attempt } => assert_eq!(next_attempt, 1),
        other => panic!("unexpected: {:?}", other),
    }
    match fetch_failure_step("https://x.test", 1, 429, "429 Too Many Requests", "") {
        FetchStep::Retry { next_attempt } => assert_eq!(next_attempt, 2),
        other => panic!("unexpected: {:?}", other),
    }
    match fetch_failure_step("https://x.test", 2, 503, "503 Service Unavailable", "busy") {
        FetchStep::Fail(DistillError::Ingestion { source, cause }) => {
            assert_eq!(source, "https://x.test");
            assert_eq!(cause, "HTTP 503 Service Unavailable: busy");
        }
        other => panic!("unexpected: {:?}", other),
    }
}

#[test]
fn client_errors_fail_at_once() {
    match fetch_failure_step("https://x.test", 0, 404, "404 Not Found", "") {
        FetchStep::Fail(DistillError::Ingestion { cause, .. }) => {
            assert_eq!(cause, "HTTP 404 Not Found: <empty>")
        }
        other => panic!("unexpected: {:?}", other),
    }
    match fetch_failure_step("https://x.test", 0, 403, "403 Forbidden", "denied") {
        FetchStep::Fail(DistillError::Ingestion { cause, .. }) => assert_eq!(cause, FORBIDDEN_ADVICE),
        other => panic!("unexpected: {:?}", other),
    }
}

#[test]
fn connection_errors_retry_only_when_transient() {
    match fetch_error_step("https://x.test", 0, true, "timed out".to_string()) {
        FetchStep::Retry { next_attempt } => assert_eq!(next_attempt, 1),
        other => panic!("unexpected: {:?}", other),
    }
    match fetch_error_step("https://x.test", 0, false, "bad tls".to_string()) {
        FetchStep::Fail(DistillError::Ingestion { source, cause }) => {
            assert_eq!(source, "https://x.test");
            assert_eq!(cause, "bad tls");
        }
        other => panic!("unexpected: {:?}", other),
    }
    match fetch_error_step("https://x.test", 2, true, "timed out".to_string()) {
        FetchStep::Fail(DistillError::Ingestion { cause, .. }) => assert_eq!(cause, "timed out"),
        other => panic!("unexpected: {:?}", other),
    }
}

#[test]
fn downloads_are_classified_by_type_then_url() {
    assert_eq!(download_kind("application/pdf", "https://x.test/a"), DownloadKind::Pdf);
    assert_eq!(download_kind("text/html", "https://x.test/a.pdf"), DownloadKind::Pdf);
    assert_eq!(download_kind("application/epub+zip", "https://x.test/a"), DownloadKind::Epub);
    assert_eq!(download_kind("", "https://x.test/book.epub"), DownloadKind::Epub);
    assert_eq!(download_kind("text/html; charset=utf-8", "https://x.test/"), DownloadKind::Html);
    // the content type is compared in lower case
    assert_eq!(classify_download("Application/PDF", "https://x.test/a"), DownloadKind::Pdf);
    assert_eq!(download_kind("Application/PDF", "https://x.test/a"), DownloadKind::Html);
}

#[test]
fn short_articles_are_refused() {
    match article_document("https://x.test", "<title>T</title>", "only a few words".to_string()) {
        Err(DistillError::Ingestion { source, cause }) => {
            assert_eq!(source, "https://x.test");
            assert_eq!(cause, TOO_SHORT);
        }
        other => panic!("unexpected: {:?}", other),
    }
}

#[test]
fn long_enough_articles_become_documents() {
    let content = "word ".repeat(20);
    let doc = article_document("https://x.test", "<title>The Title</title>", content.clone()).unwrap();
    assert_eq!(doc.title.as_deref(), Some("The Title"));
    assert_eq!(doc.author, None);
    assert_eq!(doc.content, content);
    assert_eq!(doc.estimated_tokens, 26);
}

#[test]
fn invalid_urls_are_refused_before_extraction() {
    match extract_article("<html></html>", "not a url") {
        Err(DistillError::Ingestion { source, cause }) => {
            assert_eq!(source, "not a url");
            assert!(cause.starts_with("invalid URL: "));
            assert!(cause.len() > "invalid URL: ".len());
        }
        other => panic!("unexpected: {:?}", other),
    }
}

#[test]
fn articles_are_extracted_as_markdown() {
    let paragraph = "This is a long paragraph of article text that readability should keep, with enough words, commas, and sentences to look like content. ";
    let html = format!(
        "<html><head><title>T</title></head><body><article><h1>Heading</h1><p>{}</p><p>{}</p></article></body></html>",
        paragraph.repeat(5),
        paragraph.repeat(5)
    );
    let md = extract_article(&html, "https://example.com/post").unwrap();
    assert!(md.contains("long paragraph of article text"));
    assert!(!md.contains("<p>"));
}

#[test]
fn fetch_retries_wait_one_then_three_seconds() {
    let delays: Vec<u64> = (1..=FETCH_RETRIES).map(fetch_retry_delay_secs).collect();
    assert_eq!(delays, vec![1, 3]);
}
