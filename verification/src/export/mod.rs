//! Exporting the distilled text: what to write, and where.
pub mod html;

use crate::cli::OutputFormat;
use html::{build_full_html, opt_view, spec_full_html};
use vstd::prelude::*;

verus! {

/// Where the exported text goes.
#[derive(Debug)]
pub enum ExportPlan {
    /// Written to the file at `path`.
    WriteFile { path: String, text: String },
    /// Printed to standard output.
    Stdout { text: String },
}

/// The plan delivers `text`: to the file at `path` if there is one, else to
/// standard output.
pub open spec fn plan_is(plan: ExportPlan, text: Seq<char>, path: Option<Seq<char>>) -> bool {
    match plan {
        ExportPlan::WriteFile { path: p, text: t } => path == Some(p@) && t@ == text,
        ExportPlan::Stdout { text: t } => path is None && t@ == text,
    }
}

fn deliver(text: String, output_path: Option<&str>) -> (r: ExportPlan)
    ensures
        plan_is(r, text@, opt_view(output_path)),
{
    match output_path {
        Some(p) => ExportPlan::WriteFile { path: String::from_str(p), text },
        None => ExportPlan::Stdout { text },
    }
}

/// Markdown export: the text as it is.
pub fn export_markdown(content: &str, output_path: Option<&str>) -> (r: ExportPlan)
    ensures
        plan_is(r, content@, opt_view(output_path)),
{
    deliver(String::from_str(content), output_path)
}

/// HTML export: a complete document with table of contents.
pub fn export_html(content: &str, title: Option<&str>, output_path: Option<&str>) -> (r: ExportPlan)
    ensures
        plan_is(r, spec_full_html(content@, opt_view(title)), opt_view(output_path)),
{
    deliver(build_full_html(content, title), output_path)
}

/// The export of the distilled text in the chosen format. There is no EPUB
/// writer, so EPUB output is outside what this function accepts.
pub fn export(
    content: &str,
    title: Option<&str>,
    author: Option<&str>,
    format: &OutputFormat,
    output_path: Option<&str>,
) -> (r: ExportPlan)
    requires
        *format != OutputFormat::Epub,
    ensures
        *format == OutputFormat::Md ==> plan_is(r, content@, opt_view(output_path)),
        *format == OutputFormat::Html ==> plan_is(
            r,
            spec_full_html(content@, opt_view(title)),
            opt_view(output_path),
        ),
{
    match format {
        OutputFormat::Md => export_markdown(content, output_path),
        OutputFormat::Html => export_html(content, title, output_path),
        OutputFormat::Epub => vstd::pervasive::unreached(),
    }
}

} // verus!
