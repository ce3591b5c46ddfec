//! A piece of the input sized for one model request.
use crate::text::string_views;
use vstd::prelude::*;

verus! {

/// A chunk of the input, with the headers above it.
#[derive(Debug, Clone)]
pub struct Chunk {
    /// Position of the chunk in the sequence of chunks.
    pub index: usize,
    /// Titles of the enclosing headers, outermost first.
    pub header_path: Vec<String>,
    /// The chunk's text.
    pub content: String,
    /// Estimated token count of `content`.
    pub token_estimate: usize,
}

/// The mathematical value of a chunk.
pub struct ChunkView {
    pub index: int,
    pub header_path: Seq<Seq<char>>,
    pub content: Seq<char>,
    pub token_estimate: int,
}

impl View for Chunk {
    type V = ChunkView;

    open spec fn view(&self) -> ChunkView {
        ChunkView {
            index: self.index as int,
            header_path: string_views(self.header_path@),
            content: self.content@,
            token_estimate: self.token_estimate as int,
        }
    }
}

} // verus!
