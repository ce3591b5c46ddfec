//! Run state: compressed chunks and resumable checkpoints.
pub mod checkpoint;

use crate::text::string_views;
use vstd::prelude::*;

verus! {

/// The compressed text of one chunk.
#[derive(Debug, Clone)]
pub struct CompressedChunk {
    pub index: usize,
    pub header_path: Vec<String>,
    pub content: String,
}

/// The mathematical value of a compressed chunk.
pub struct CompressedView {
    pub index: int,
    pub header_path: Seq<Seq<char>>,
    pub content: Seq<char>,
}

impl View for CompressedChunk {
    type V = CompressedView;

    open spec fn view(&self) -> CompressedView {
        CompressedView {
            index: self.index as int,
            header_path: string_views(self.header_path@),
            content: self.content@,
        }
    }
}

} // verus!
