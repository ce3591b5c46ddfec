//! Reading PDF documents.
use super::Document;
use crate::error::DistillError;
use crate::mode::{estimate_tokens, spec_estimate_tokens};
use crate::text::{extend_str, string_of_all};
use vstd::prelude::*;

verus! {

/// The document read from a PDF: its text and token estimate, no title or
/// author; an extraction error names the source.
pub open spec fn pdf_document_ok(source: Seq<char>, extracted: Result<Seq<char>, Seq<char>>, r: Result<Document, DistillError>) -> bool {
    match extracted {
        Ok(text) => r matches Ok(d) && d.title is None && d.author is None && d.content@ == text
            && d.estimated_tokens == spec_estimate_tokens(text),
        Err(cause) => r matches Err(DistillError::Ingestion { source: s, cause: c }) && s@ == source
            && c@ == "failed to extract text from PDF: "@ + cause,
    }
}

/// The view of a text or an error text.
pub open spec fn result_view(r: Result<String, String>) -> Result<Seq<char>, Seq<char>> {
    match r {
        Ok(t) => Ok(t@),
        Err(e) => Err(e@),
    }
}

/// The document for the outcome of text extraction from a PDF.
pub fn pdf_document(source: &str, extracted: Result<String, String>) -> (r: Result<Document, DistillError>)
    ensures
        pdf_document_ok(source@, result_view(extracted), r),
{
    match extracted {
        Ok(content) => {
            let tokens = estimate_tokens(content.as_str());
            Ok(Document { title: None, author: None, content, estimated_tokens: tokens })
        },
        Err(e) => {
            let mut cause: Vec<char> = Vec::new();
            extend_str(&mut cause, "failed to extract text from PDF: ");
            extend_str(&mut cause, e.as_str());
            Err(DistillError::Ingestion { source: String::from_str(source), cause: string_of_all(&cause) })
        },
    }
}

} // verus!
