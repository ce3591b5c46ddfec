use distill::cli::{
    concurrency, format_extension, is_multi_pass, level_name, mode_name, output_path, pipeline_label,
    run_format, run_level, CompressionLevel, Mode, OutputFormat,
};
use distill::llm::strategy::LevelStrategy;

#[test]
fn books_default_to_dense_epub_articles_to_tight_markdown() {
    assert_eq!(run_level(Mode::Book, None), CompressionLevel::Dense);
    assert_eq!(run_level(Mode::Article, None), CompressionLevel::Tight);
    assert_eq!(run_format(Mode::Book, None), OutputFormat::Epub);
    assert_eq!(run_format(Mode::Article, None), OutputFormat::Md);
}

#[test]
fn explicit_choices_win() {
    assert_eq!(run_level(Mode::Book, Some(CompressionLevel::Tldr)), CompressionLevel::Tldr);
    assert_eq!(run_format(Mode::Article, Some(OutputFormat::Html)), OutputFormat::Html);
}

#[test]
fn names_and_extensions() {
    assert_eq!(level_name(&CompressionLevel::Distilled), "Distilled");
    assert_eq!(mode_name(&Mode::Article), "Article");
    assert_eq!(format_extension(OutputFormat::Epub), "epub");
    assert_eq!(format_extension(OutputFormat::Html), "html");
    assert_eq!(format_extension(OutputFormat::Md), "md");
}

#[test]
fn books_are_written_beside_the_working_directory() {
    assert_eq!(
        output_path("/books/thinking-fast.pdf", Mode::Book, OutputFormat::Epub, None),
        Some("thinking-fast-distilled.epub".to_string())
    );
    assert_eq!(
        output_path("https://example.com/", Mode::Book, OutputFormat::Md, None),
        Some("example-distilled.md".to_string())
    );
    assert_eq!(
        output_path("/", Mode::Book, OutputFormat::Html, None),
        Some("-distilled.html".to_string())
    );
}

#[test]
fn articles_go_to_stdout_unless_asked() {
    assert_eq!(output_path("a.pdf", Mode::Article, OutputFormat::Md, None), None);
    assert_eq!(
        output_path("a.pdf", Mode::Article, OutputFormat::Md, Some("out.md".to_string())),
        Some("out.md".to_string())
    );
    assert_eq!(
        output_path("a.pdf", Mode::Book, OutputFormat::Md, Some("x.md".to_string())),
        Some("x.md".to_string())
    );
}

#[test]
fn only_books_at_refining_levels_take_two_passes() {
    assert!(is_multi_pass(Mode::Book, &LevelStrategy::medium()));
    assert!(!is_multi_pass(Mode::Book, &LevelStrategy::tldr()));
    assert!(!is_multi_pass(Mode::Article, &LevelStrategy::medium()));
    assert_eq!(pipeline_label(true), "hierarchical (distill \u{2192} dedup \u{2192} refine)");
    assert_eq!(pipeline_label(false), "single-pass");
}

#[test]
fn jobs_apply_only_in_parallel_mode() {
    assert_eq!(concurrency(true, 8), 8);
    assert_eq!(concurrency(false, 8), 1);
}
