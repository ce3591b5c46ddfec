//! The errors of the library, and their messages.
use crate::text::{decimal, extend_str, push_decimal, string_of_all};
use vstd::prelude::*;

verus! {

/// Everything that can go wrong while distilling a document.
#[derive(Debug)]
pub enum DistillError {
    Ingestion { source: String, cause: String },
    UnsupportedInput { source: String, extension: String },
    Compression { chunk_index: usize, section: String, cause: String },
    Llm { cause: String },
    Export { cause: String },
    MissingConfig { field: &'static str, env_var: &'static str, flag: &'static str },
    MissingCheckpoint { path: String },
    CheckpointIo { path: String, cause: String },
    CheckpointParse { path: String, cause: String },
    CheckpointMismatch { field: &'static str, expected: String, found: String },
    HttpStatus { source: String, status: String, body: String },
}

/// The message shown for an error.
pub open spec fn error_message(e: &DistillError) -> Seq<char> {
    match e {
        DistillError::Ingestion { source, cause } => "failed to ingest content\n  -> source: "@
            + source@ + "\n  -> caused by: "@ + cause@,
        DistillError::UnsupportedInput { source, extension } =>
            "unsupported input\n  -> source: "@ + source@ + "\n  -> extension: ."@ + extension@,
        DistillError::Compression { chunk_index, section, cause } =>
            "failed to compress chunk "@ + decimal(*chunk_index as nat) + "\n  -> section: \""@
            + section@ + "\"\n  -> caused by: "@ + cause@,
        DistillError::Llm { cause } => "LLM request failed\n  -> caused by: "@ + cause@,
        DistillError::Export { cause } => "failed to export\n  -> caused by: "@ + cause@,
        DistillError::MissingConfig { field, env_var, flag } =>
            "configuration error\n  -> missing "@ + field@ + ". Set "@ + env_var@ + " or pass "@
            + flag@,
        DistillError::MissingCheckpoint { path } => "checkpoint not found\n  -> file: "@ + path@,
        DistillError::CheckpointIo { path, cause } => "checkpoint I/O error\n  -> file: "@
            + path@ + "\n  -> caused by: "@ + cause@,
        DistillError::CheckpointParse { path, cause } => "checkpoint parse error\n  -> file: "@
            + path@ + "\n  -> caused by: "@ + cause@,
        DistillError::CheckpointMismatch { field, expected, found } =>
            "checkpoint mismatch\n  -> "@ + field@ + ": expected "@ + expected@ + ", found "@
            + found@,
        DistillError::HttpStatus { source, status, body } =>
            "HTTP request failed\n  -> source: "@ + source@ + "\n  -> status: "@ + status@
            + "\n  -> body: "@ + body@,
    }
}

impl DistillError {
    /// The message shown for this error.
    pub fn message(&self) -> (m: String)
        ensures
            m@ == error_message(self),
    {
        let mut out: Vec<char> = Vec::new();
        match self {
            DistillError::Ingestion { source, cause } => {
                extend_str(&mut out, "failed to ingest content\n  -> source: ");
                extend_str(&mut out, source.as_str());
                extend_str(&mut out, "\n  -> caused by: ");
                extend_str(&mut out, cause.as_str());
            },
            DistillError::UnsupportedInput { source, extension } => {
                extend_str(&mut out, "unsupported input\n  -> source: ");
                extend_str(&mut out, source.as_str());
                extend_str(&mut out, "\n  -> extension: .");
                extend_str(&mut out, extension.as_str());
            },
            DistillError::Compression { chunk_index, section, cause } => {
                extend_str(&mut out, "failed to compress chunk ");
                push_decimal(&mut out, *chunk_index);
                extend_str(&mut out, "\n  -> section: \"");
                extend_str(&mut out, section.as_str());
                extend_str(&mut out, "\"\n  -> caused by: ");
                extend_str(&mut out, cause.as_str());
            },
            DistillError::Llm { cause } => {
                extend_str(&mut out, "LLM request failed\n  -> caused by: ");
                extend_str(&mut out, cause.as_str());
            },
            DistillError::Export { cause } => {
                extend_str(&mut out, "failed to export\n  -> caused by: ");
                extend_str(&mut out, cause.as_str());
            },
            DistillError::MissingConfig { field, env_var, flag } => {
                extend_str(&mut out, "configuration error\n  -> missing ");
                extend_str(&mut out, field);
                extend_str(&mut out, ". Set ");
                extend_str(&mut out, env_var);
                extend_str(&mut out, " or pass ");
                extend_str(&mut out, flag);
            },
            DistillError::MissingCheckpoint { path } => {
                extend_str(&mut out, "checkpoint not found\n  -> file: ");
                extend_str(&mut out, path.as_str());
            },
            DistillError::CheckpointIo { path, cause } => {
                extend_str(&mut out, "checkpoint I/O error\n  -> file: ");
                extend_str(&mut out, path.as_str());
                extend_str(&mut out, "\n  -> caused by: ");
                extend_str(&mut out, cause.as_str());
            },
            DistillError::CheckpointParse { path, cause } => {
                extend_str(&mut out, "checkpoint parse error\n  -> file: ");
                extend_str(&mut out, path.as_str());
                extend_str(&mut out, "\n  -> caused by: ");
                extend_str(&mut out, cause.as_str());
            },
            DistillError::CheckpointMismatch { field, expected, found } => {
                extend_str(&mut out, "checkpoint mismatch\n  -> ");
                extend_str(&mut out, field);
                extend_str(&mut out, ": expected ");
                extend_str(&mut out, expected.as_str());
                extend_str(&mut out, ", found ");
                extend_str(&mut out, found.as_str());
            },
            DistillError::HttpStatus { source, status, body } => {
                extend_str(&mut out, "HTTP request failed\n  -> source: ");
                extend_str(&mut out, source.as_str());
                extend_str(&mut out, "\n  -> status: ");
                extend_str(&mut out, status.as_str());
                extend_str(&mut out, "\n  -> body: ");
                extend_str(&mut out, body.as_str());
            },
        }
        assert(out@ =~= error_message(self));
        string_of_all(&out)
    }
}

} // verus!
