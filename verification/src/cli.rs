//! The command-line settings and the choices that follow from them.
use crate::llm::strategy::{CompressionStrategy, LevelStrategy};
use crate::path::{file_stem, spec_file_stem};
use crate::text::{extend_str, string_of_all};
use vstd::prelude::*;

verus! {

/// Output file format.
#[derive(Debug, Clone, Copy, PartialEq, Eq, Structural)]
pub enum OutputFormat {
    Epub,
    Md,
    Html,
}

/// How strongly the text is compressed.
#[derive(Debug, Clone, Copy, PartialEq, Eq, Structural)]
pub enum CompressionLevel {
    /// About 80% of the input's length: filler removed only.
    Tight,
    /// About 50% of the input's length.
    Dense,
    /// About 30% of the input's length.
    Distilled,
    /// Key ideas as bullet points.
    Tldr,
}

/// Processing mode: a book (two passes) or an article (one pass).
#[derive(Debug, Clone, Copy, PartialEq, Eq, Structural)]
pub enum Mode {
    Book,
    Article,
}

/// The command-line settings.
#[derive(Debug, Clone)]
pub struct Cli {
    /// Input file path (PDF/EPUB) or URL.
    pub input: String,
    /// Output file path.
    pub output: Option<String>,
    /// Output format.
    pub format: Option<OutputFormat>,
    /// Compression level.
    pub level: Option<CompressionLevel>,
    /// Forced mode (auto-detected when absent).
    pub mode: Option<Mode>,
    /// LLM model name.
    pub model: Option<String>,
    /// LLM API base URL.
    pub api_base: Option<String>,
    /// LLM API key.
    pub api_key: Option<String>,
    /// Concurrent chunk processing.
    pub parallel: bool,
    /// Concurrency limit.
    pub jobs: usize,
    /// Resume from a checkpoint.
    pub resume: bool,
    /// Remove the checkpoint file and exit.
    pub clean: bool,
    /// Log verbosity.
    pub verbose: u8,
    /// Errors only.
    pub quiet: bool,
}

/// The name under which a compression level is shown.
pub open spec fn spec_level_name(level: CompressionLevel) -> Seq<char> {
    match level {
        CompressionLevel::Tight => "Tight"@,
        CompressionLevel::Dense => "Dense"@,
        CompressionLevel::Distilled => "Distilled"@,
        CompressionLevel::Tldr => "Tldr"@,
    }
}

/// The name under which a compression level is shown.
pub fn level_name(level: &CompressionLevel) -> (r: &'static str)
    ensures
        r@ == spec_level_name(*level),
{
    let r = match level {
        CompressionLevel::Tight => "Tight",
        CompressionLevel::Dense => "Dense",
        CompressionLevel::Distilled => "Distilled",
        CompressionLevel::Tldr => "Tldr",
    };
    proof {
        reveal_strlit("Tight");
        reveal_strlit("Dense");
        reveal_strlit("Distilled");
        reveal_strlit("Tldr");
    }
    r
}

/// The name under which a mode is shown.
pub fn mode_name(mode: &Mode) -> (r: &'static str)
    ensures
        r@ == (match *mode {
            Mode::Book => "Book"@,
            Mode::Article => "Article"@,
        }),
{
    match mode {
        Mode::Book => "Book",
        Mode::Article => "Article",
    }
}

/// The compression level of a run: the one asked for, else dense for books
/// and tight for articles.
pub open spec fn spec_run_level(mode: Mode, level: Option<CompressionLevel>) -> CompressionLevel {
    match level {
        Some(l) => l,
        None => match mode {
            Mode::Book => CompressionLevel::Dense,
            Mode::Article => CompressionLevel::Tight,
        },
    }
}

/// The compression level of a run: the one asked for, else dense for books
/// and tight for articles.
pub fn run_level(mode: Mode, level: Option<CompressionLevel>) -> (r: CompressionLevel)
    ensures
        r == spec_run_level(mode, level),
{
    match level {
        Some(l) => l,
        None => match mode {
            Mode::Book => CompressionLevel::Dense,
            Mode::Article => CompressionLevel::Tight,
        },
    }
}

/// The output format of a run: the one asked for, else EPUB for books and
/// Markdown for articles.
pub open spec fn spec_run_format(mode: Mode, format: Option<OutputFormat>) -> OutputFormat {
    match format {
        Some(f) => f,
        None => match mode {
            Mode::Book => OutputFormat::Epub,
            Mode::Article => OutputFormat::Md,
        },
    }
}

/// The output format of a run: the one asked for, else EPUB for books and
/// Markdown for articles.
pub fn run_format(mode: Mode, format: Option<OutputFormat>) -> (r: OutputFormat)
    ensures
        r == spec_run_format(mode, format),
{
    match format {
        Some(f) => f,
        None => match mode {
            Mode::Book => OutputFormat::Epub,
            Mode::Article => OutputFormat::Md,
        },
    }
}

/// The file extension of an output format.
pub open spec fn spec_format_extension(format: OutputFormat) -> Seq<char> {
    match format {
        OutputFormat::Epub => "epub"@,
        OutputFormat::Html => "html"@,
        OutputFormat::Md => "md"@,
    }
}

/// The file extension of an output format.
pub fn format_extension(format: OutputFormat) -> (r: &'static str)
    ensures
        r@ == spec_format_extension(format),
{
    let r = match format {
        OutputFormat::Epub => "epub",
        OutputFormat::Html => "html",
        OutputFormat::Md => "md",
    };
    proof {
        reveal_strlit("epub");
        reveal_strlit("html");
        reveal_strlit("md");
    }
    r
}

/// Where the output goes: the path asked for; else, for a book, the input's
/// stem with `-distilled` and the format's extension, in the working
/// directory; else nowhere, meaning standard output.
pub open spec fn spec_output_path(
    input: Seq<char>,
    mode: Mode,
    format: OutputFormat,
    output: Option<Seq<char>>,
) -> Option<Seq<char>> {
    match output {
        Some(p) => Some(p),
        None => match mode {
            Mode::Book => {
                let stem = match spec_file_stem(input) {
                    Some(s) => s,
                    None => Seq::empty(),
                };
                Some(stem + "-distilled."@ + spec_format_extension(format))
            },
            Mode::Article => None,
        },
    }
}

/// Where the output goes: the path asked for; else, for a book, the input's
/// stem with `-distilled` and the format's extension; else standard output.
pub fn output_path(input: &str, mode: Mode, format: OutputFormat, output: Option<String>) -> (r:
    Option<String>)
    ensures
        match r {
            Some(p) => spec_output_path(input@, mode, format, opt_string(output)) == Some(p@),
            None => spec_output_path(input@, mode, format, opt_string(output)) is None,
        },
{
    match output {
        Some(p) => Some(p),
        None => match mode {
            Mode::Book => {
                let mut out: Vec<char> = Vec::new();
                match file_stem(input) {
                    Some(s) => extend_str(&mut out, s.as_str()),
                    None => {},
                }
                extend_str(&mut out, "-distilled.");
                extend_str(&mut out, format_extension(format));
                Some(string_of_all(&out))
            },
            Mode::Article => None,
        },
    }
}

/// The view of an optional string.
pub open spec fn opt_string(o: Option<String>) -> Option<Seq<char>> {
    match o {
        Some(s) => Some(s@),
        None => None,
    }
}

/// Whether a run takes the two-pass pipeline: books at a level whose
/// strategy refines.
pub fn is_multi_pass(mode: Mode, strategy: &LevelStrategy) -> (b: bool)
    ensures
        b == (mode == Mode::Book && strategy.multi_pass),
{
    mode == Mode::Book && strategy.supports_multi_pass()
}

/// How many chunks are distilled at once: the job limit with `--parallel`,
/// else one at a time.
pub fn concurrency(parallel: bool, jobs: usize) -> (r: usize)
    ensures
        r == (if parallel {
            jobs
        } else {
            1
        }),
{
    if parallel {
        jobs
    } else {
        1
    }
}

/// The name of the pipeline shown in verbose output.
pub fn pipeline_label(multi_pass: bool) -> (r: &'static str)
    ensures
        multi_pass ==> r@ == "hierarchical (distill \u{2192} dedup \u{2192} refine)"@,
        !multi_pass ==> r@ == "single-pass"@,
{
    if multi_pass {
        "hierarchical (distill \u{2192} dedup \u{2192} refine)"
    } else {
        "single-pass"
    }
}

} // verus!
