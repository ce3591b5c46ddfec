use distill::error::DistillError;
use distill::llm::parse::{extract_tag, parse_llm_response};

#[test]
fn test_parse_well_formed_response() {
    let response = r#"<compressed>
## Section Title

Compressed content here.
</compressed>"#;

    let parsed = parse_llm_response(response).unwrap();
    assert!(parsed.compressed.contains("Compressed content"));
}

#[test]
fn test_parse_missing_compressed_tag() {
    let response = "Just some text without tags";
    let result = parse_llm_response(response);
    assert!(result.is_err());
}

#[test]
fn test_parse_empty_compressed() {
    let response = "<compressed></compressed>";
    let parsed = parse_llm_response(response).unwrap();
    assert_eq!(parsed.compressed, "");
}

#[test]
fn test_parse_single_pass_response() {
    let response = "<compressed>\n# Title\n\nCompressed article.\n</compressed>";
    let parsed = parse_llm_response(response).unwrap();
    assert!(parsed.compressed.contains("Compressed article"));
}

#[test]
fn wrapped_text_reads_back_trimmed() {
    let body = "  \n# Heading\n\nSome <b>bold</b> text.\n  ";
    let response = format!("Sure! Here it is:\n<compressed>{}</compressed>\nThanks.", body);
    let parsed = parse_llm_response(&response).unwrap();
    assert_eq!(parsed.compressed, body.trim());
}

#[test]
fn closing_tag_before_opening_is_refused() {
    assert!(parse_llm_response("</compressed> x <compressed>").is_err());
}

#[test]
fn only_opening_tag_is_refused() {
    assert!(parse_llm_response("<compressed>unfinished").is_err());
}

#[test]
fn first_closing_tag_ends_the_text() {
    let parsed = parse_llm_response("<compressed>a</compressed>b</compressed>").unwrap();
    assert_eq!(parsed.compressed, "a");
}

#[test]
fn missing_tag_error_carries_its_cause() {
    match parse_llm_response("nothing here") {
        Err(DistillError::Compression { chunk_index, section, cause }) => {
            assert_eq!(chunk_index, 0);
            assert_eq!(section, "");
            assert_eq!(cause, "missing <compressed> tag in LLM response");
        }
        other => panic!("unexpected: {:?}", other),
    }
}

#[test]
fn extract_tag_reads_any_tag() {
    assert_eq!(extract_tag("<a> x </a>", "a"), Some("x".to_string()));
    assert_eq!(extract_tag("<b>x</b>", "a"), None);
}
