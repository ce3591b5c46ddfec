use distill::error::DistillError;
use distill::ingest::epub::epub_document;
use distill::ingest::pdf::pdf_document;
use distill::ingest::{classify_input, kind_for_extension, InputKind};

#[test]
fn urls_are_fetched_files_read_by_extension() {
    assert_eq!(classify_input("https://example.com/a.txt").unwrap(), InputKind::Url);
    assert_eq!(classify_input("book.pdf").unwrap(), InputKind::Pdf);
    assert_eq!(classify_input("/x/Book.EPUB").unwrap(), InputKind::Epub);
    assert_eq!(classify_input("scan.PdF").unwrap(), InputKind::Pdf);
}

#[test]
fn other_extensions_are_unsupported() {
    match classify_input("notes.TXT") {
        Err(DistillError::UnsupportedInput { source, extension }) => {
            assert_eq!(source, "notes.TXT");
            assert_eq!(extension, "txt");
        }
        other => panic!("unexpected: {:?}", other),
    }
    match classify_input("README") {
        Err(DistillError::UnsupportedInput { extension, .. }) => assert_eq!(extension, ""),
        other => panic!("unexpected: {:?}", other),
    }
    assert!(kind_for_extension("x", "PDF".to_string()).is_err());
    assert_eq!(kind_for_extension("x", "epub".to_string()).unwrap(), InputKind::Epub);
}

#[test]
fn extracted_pdf_text_becomes_a_document() {
    let doc = pdf_document("a.pdf", Ok("one two three".to_string())).unwrap();
    assert_eq!(doc.title, None);
    assert_eq!(doc.author, None);
    assert_eq!(doc.content, "one two three");
    assert_eq!(doc.estimated_tokens, 3);
    match pdf_document("a.pdf", Err("encrypted".to_string())) {
        Err(DistillError::Ingestion { source, cause }) => {
            assert_eq!(source, "a.pdf");
            assert_eq!(cause, "failed to extract text from PDF: encrypted");
        }
        other => panic!("unexpected: {:?}", other),
    }
}

#[test]
fn epub_pages_become_markdown_joined_by_blank_lines() {
    let pages = vec![
        "<h1>Title</h1><p>First page.</p>".to_string(),
        "<div>   </div>".to_string(),
        "<p>Second <em>page</em>.</p>".to_string(),
    ];
    let doc = epub_document(Some("Book".to_string()), Some("Ann".to_string()), &pages);
    assert_eq!(doc.title.as_deref(), Some("Book"));
    assert_eq!(doc.author.as_deref(), Some("Ann"));
    let parts: Vec<&str> = doc.content.split("\n\n").collect();
    assert!(doc.content.contains("Title"));
    assert!(doc.content.contains("First page."));
    assert!(doc.content.contains("Second *page*."));
    assert!(!doc.content.contains("<p>"));
    assert!(parts.len() >= 2);
    assert_eq!(doc.estimated_tokens, distill::mode::estimate_tokens(&doc.content));
}

#[test]
fn an_empty_book_has_no_text() {
    let doc = epub_document(None, None, &Vec::new());
    assert_eq!(doc.content, "");
    assert_eq!(doc.estimated_tokens, 0);
}
