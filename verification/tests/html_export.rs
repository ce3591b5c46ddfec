use distill::cli::{output_path, Mode, OutputFormat};
use distill::export::html::{
    build_full_html, build_toc_html, escape_html, extract_toc_entries, md_to_html_fragment,
    slugify,
};
use distill::export::{export, export_html, export_markdown, ExportPlan};

#[test]
fn test_unordered_list_rendering() {
    let html = md_to_html_fragment("- one\n- two");
    assert!(html.contains("<ul>"));
    assert!(html.contains("<li>one</li>"));
    assert!(html.contains("<li>two</li>"));
}

#[test]
fn test_ordered_list_rendering() {
    let html = md_to_html_fragment("1. one\n2. two");
    assert!(html.contains("<ol>"));
    assert!(html.contains("<li>one</li>"));
    assert!(html.contains("<li>two</li>"));
}

#[test]
fn escaping_replaces_markup_characters() {
    assert_eq!(escape_html("a < b & \"c\" > d"), "a &lt; b &amp; &quot;c&quot; &gt; d");
    assert_eq!(escape_html("it's"), "it's");
    assert_eq!(escape_html(""), "");
}

#[test]
fn slugs_join_words_with_dashes() {
    assert_eq!(slugify("Hello, World!"), "hello-world");
    assert_eq!(slugify("  Chapter 1: The Start  "), "chapter-1-the-start");
    assert_eq!(slugify("!!!"), "");
}

#[test]
fn fragment_renders_headers_paragraphs_and_lists() {
    let html = md_to_html_fragment("# Title\n\nFirst line\nsecond line\n\n- a\n- b\n\n1. x\n\nEnd <b>");
    assert_eq!(
        html,
        "<h1 id=\"title\">Title</h1>\n<p>First line\nsecond line</p>\n<ul>\n  <li>a</li>\n  <li>b</li>\n</ul>\n<ol>\n  <li>x</li>\n</ol>\n<p>End &lt;b&gt;</p>\n"
    );
}

#[test]
fn toc_lists_second_level_headers() {
    let entries = extract_toc_entries("# One\n## Two & More\n### Three\n  ## Four\ntext");
    assert_eq!(
        entries,
        vec![
            ("two-more".to_string(), "Two & More".to_string()),
            ("four".to_string(), "Four".to_string())
        ]
    );
    let toc = build_toc_html(&entries);
    assert_eq!(
        toc,
        "<nav id=\"toc\">\n<h2>Contents</h2>\n<ul>\n  <li><a href=\"#two-more\">Two &amp; More</a></li>\n  <li><a href=\"#four\">Four</a></li>\n</ul>\n</nav>\n"
    );
    assert_eq!(build_toc_html(&Vec::new()), "");
}

#[test]
fn full_document_has_title_and_body() {
    let doc = build_full_html("# A & B\n\ntext", Some("My <Book>"));
    assert!(doc.starts_with("<!DOCTYPE html>"));
    assert!(doc.contains("<title>My &lt;Book&gt;</title>"));
    assert!(doc.contains("<h1 id=\"a-b\">A &amp; B</h1>"));
    assert!(doc.ends_with("</html>\n"));
    let untitled = build_full_html("text", None);
    assert!(untitled.contains("<title>Distill Export</title>"));
}

#[test]
fn navigation_appears_only_with_section_headers() {
    let flat = build_full_html("<nav id=\"toc\">\n\n# Only a title\n\n### deep\n\ntext", None);
    assert!(!flat.contains("<nav id=\"toc\">"));
    assert!(flat.contains("&lt;nav id=&quot;toc&quot;&gt;"));
    let sectioned = build_full_html("# Title\n\n## Part one\n\ntext", None);
    assert!(sectioned.contains("<nav id=\"toc\">"));
    assert!(sectioned.find("<nav id=\"toc\">") < sectioned.find("<h2 id=\"part-one\">"));
}

#[test]
fn markdown_export_goes_to_the_file_or_stdout() {
    match export_markdown("body", Some("out.md")) {
        ExportPlan::WriteFile { path, text } => {
            assert_eq!(path, "out.md");
            assert_eq!(text, "body");
        }
        other => panic!("unexpected: {:?}", other),
    }
    match export_markdown("body", None) {
        ExportPlan::Stdout { text } => assert_eq!(text, "body"),
        other => panic!("unexpected: {:?}", other),
    }
}

#[test]
fn html_export_writes_the_full_document() {
    match export_html("# T", Some("Book"), Some("out.html")) {
        ExportPlan::WriteFile { path, text } => {
            assert_eq!(path, "out.html");
            assert_eq!(text, build_full_html("# T", Some("Book")));
        }
        other => panic!("unexpected: {:?}", other),
    }
}

#[test]
fn export_dispatches_on_format() {
    match export("x", None, None, &OutputFormat::Md, None) {
        ExportPlan::Stdout { text } => assert_eq!(text, "x"),
        other => panic!("unexpected: {:?}", other),
    }
    match export("x", Some("T"), None, &OutputFormat::Html, None) {
        ExportPlan::Stdout { text } => assert_eq!(text, build_full_html("x", Some("T"))),
        other => panic!("unexpected: {:?}", other),
    }
}

#[test]
fn every_toc_entry_links_to_a_rendered_header() {
    let md = "# Book\n\n## First Part\n\ntext\n\n## Second: the End!\n\nmore";
    let body = md_to_html_fragment(md);
    let entries = extract_toc_entries(md);
    assert_eq!(entries.len(), 2);
    for (slug, title) in &entries {
        assert_eq!(*slug, slugify(title));
        assert!(body.contains(&format!("<h2 id=\"{}\">{}</h2>", slug, escape_html(title))));
    }
}

#[test]
fn books_are_named_after_their_input() {
    assert_eq!(
        output_path("sapiens.epub", Mode::Book, OutputFormat::Epub, None),
        Some("sapiens-distilled.epub".to_string())
    );
    assert_eq!(
        output_path("thinking-fast-and-slow.pdf", Mode::Book, OutputFormat::Epub, None),
        Some("thinking-fast-and-slow-distilled.epub".to_string())
    );
}

#[test]
fn line_kinds_render_as_blocks() {
    assert_eq!(md_to_html_fragment(""), "");
    assert_eq!(
        md_to_html_fragment("* a\n- b"),
        "<ul>\n  <li>a</li>\n  <li>b</li>\n</ul>\n"
    );
    assert_eq!(
        md_to_html_fragment("1. a\n- b"),
        "<ol>\n  <li>a</li>\n</ol>\n<ul>\n  <li>b</li>\n</ul>\n"
    );
    assert_eq!(
        md_to_html_fragment("para\n# H"),
        "<p>para</p>\n<h1 id=\"h\">H</h1>\n"
    );
    assert_eq!(md_to_html_fragment("#### Four"), "<p>#### Four</p>\n");
    assert_eq!(md_to_html_fragment("#NoSpace"), "<p>#NoSpace</p>\n");
    assert_eq!(md_to_html_fragment("x. y"), "<p>x. y</p>\n");
    assert_eq!(md_to_html_fragment(". y"), "<ol>\n  <li>y</li>\n</ol>\n");
    assert_eq!(md_to_html_fragment("10. ten"), "<ol>\n  <li>ten</li>\n</ol>\n");
    assert_eq!(md_to_html_fragment("-nospace"), "<p>-nospace</p>\n");
    assert_eq!(md_to_html_fragment("  indented para  "), "<p>indented para</p>\n");
    assert_eq!(
        md_to_html_fragment("### Deep & <x>"),
        "<h3 id=\"deep-x\">Deep &amp; &lt;x&gt;</h3>\n"
    );
}
