//! Reading inputs into documents.
pub mod epub;
pub mod pdf;
pub mod url;

use crate::error::DistillError;
use crate::mode::{is_url, spec_is_url};
use crate::path::{extension, spec_extension};
use vstd::prelude::*;

verus! {

/// A document ready to be segmented.
#[derive(Debug)]
pub struct Document {
    pub title: Option<String>,
    pub author: Option<String>,
    pub content: String,
    pub estimated_tokens: usize,
}

/// How an input is read.
#[derive(Debug, Clone, Copy, PartialEq, Eq, Structural)]
pub enum InputKind {
    Url,
    Pdf,
    Epub,
}

/// The Unicode lower case of a text (`str::to_lowercase`).
pub uninterp spec fn spec_to_lowercase(s: Seq<char>) -> Seq<char>;

/// `str::to_lowercase`. Its result is named by `spec_to_lowercase`; for ASCII
/// text it is stated: each letter lowercased, in place. Other characters follow
/// the Unicode tables of std, which are not stated.
#[verifier::external_body]
fn to_lowercase(s: &str) -> (r: String)
    ensures
        r@ == spec_to_lowercase(s@),
        crate::text::all_ascii(s@) ==> r@ == s@.map_values(|c: char| crate::text::ascii_lower(c)),
{
    s.to_lowercase()
}

/// The kind of a local input from its lower-cased extension, or the refusal.
pub open spec fn spec_kind_for_extension(ext_lower: Seq<char>) -> Option<InputKind> {
    if ext_lower == "pdf"@ {
        Some(InputKind::Pdf)
    } else if ext_lower == "epub"@ {
        Some(InputKind::Epub)
    } else {
        None
    }
}

/// The refusal of an input with an unsupported extension.
pub open spec fn is_unsupported(e: DistillError, input: Seq<char>, ext: Seq<char>) -> bool {
    e matches DistillError::UnsupportedInput { source, extension } && source@ == input && extension@ == ext
}

/// The kind of a local input from its lower-cased extension; other
/// extensions are unsupported.
pub fn kind_for_extension(input: &str, ext_lower: String) -> (r: Result<InputKind, DistillError>)
    ensures
        match r {
            Ok(k) => spec_kind_for_extension(ext_lower@) == Some(k),
            Err(e) => spec_kind_for_extension(ext_lower@) is None && is_unsupported(e, input@, ext_lower@),
        },
{
    if crate::text::str_eq(ext_lower.as_str(), "pdf") {
        Ok(InputKind::Pdf)
    } else if crate::text::str_eq(ext_lower.as_str(), "epub") {
        Ok(InputKind::Epub)
    } else {
        Err(DistillError::UnsupportedInput { source: String::from_str(input), extension: ext_lower })
    }
}

/// The lower-cased extension of a path, empty if it has none.
pub open spec fn spec_ext_lower(input: Seq<char>) -> Seq<char> {
    spec_to_lowercase(
        match spec_extension(input) {
            Some(e) => e,
            None => seq![],
        },
    )
}

/// How an input is read: a URL is fetched; a local file by its extension
/// (`pdf` or `epub`, in any case).
pub fn classify_input(input: &str) -> (r: Result<InputKind, DistillError>)
    ensures
        spec_is_url(input@) ==> r == Ok::<InputKind, DistillError>(InputKind::Url),
        !spec_is_url(input@) ==> match r {
            Ok(k) => spec_kind_for_extension(spec_ext_lower(input@)) == Some(k),
            Err(e) => spec_kind_for_extension(spec_ext_lower(input@)) is None && is_unsupported(
                e,
                input@,
                spec_ext_lower(input@),
            ),
        },
{
    if is_url(input) {
        return Ok(InputKind::Url);
    }
    let ext = match extension(input) {
        Some(e) => e,
        None => String::new(),
    };
    let lower = to_lowercase(ext.as_str());
    kind_for_extension(input, lower)
}

/// The Markdown that `html2md` makes of an HTML text.
pub uninterp spec fn spec_html_to_markdown(html: Seq<char>) -> Seq<char>;

/// `html2md::parse_html`: the result is named by `spec_html_to_markdown`, a
/// function of the HTML text alone.
#[verifier::external_body]
pub(crate) fn html_to_markdown(html: &str) -> (r: String)
    ensures
        r@ == spec_html_to_markdown(html@),
{
    html2md::parse_html(html)
}

} // verus!
