//! Chunking of plain text into strings.
use vstd::prelude::*;
use crate::text::views;
use super::text::{chunk_text, chunks_of};

verus! {

/// Splits plain text into chunks of words.
pub struct TextExtractor;

impl TextExtractor {
    /// The chunks of `input`, as `chunks_of` describes them.
    pub fn extract(&self, input: &str) -> (r: Vec<String>)
        ensures
            views(r@) == chunks_of(input@),
    {
        chunk_text(input)
    }
}

} // verus!
