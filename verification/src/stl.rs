//! Vertices of triangulated-solid files, in their text and binary encodings.

use vstd::prelude::*;

pub mod is_ascii;
pub mod process_ascii_iter;
pub mod process_binary_iter;

pub use is_ascii::is_ascii;
pub use process_ascii_iter::process_ascii_iter;
pub use process_binary_iter::process_binary_iter;

verus! {

/// Why a vertex could not be produced.
#[derive(Clone, Copy, Debug, PartialEq, Eq, Structural)]
pub enum VertexError {
    /// The input ended before the bytes of a record were complete.
    UnexpectedEof,
    /// A text record has three coordinate tokens, and one is not a number.
    InvalidCoordinate,
    /// A text record has fewer than three coordinate tokens.
    IncompleteCoordinate,
}

impl VertexError {
    /// The text of this failure.
    pub open spec fn message_text(self) -> Seq<char> {
        match self {
            VertexError::UnexpectedEof => "failed to fill whole buffer"@,
            VertexError::InvalidCoordinate => "Invalid vertex coordinate"@,
            VertexError::IncompleteCoordinate => "Incomplete vertex coordinate"@,
        }
    }

    /// Renders this failure as text.
    pub fn message(&self) -> (text: String)
        ensures
            text@ == self.message_text(),
    {
        match self {
            VertexError::UnexpectedEof => "failed to fill whole buffer".to_owned(),
            VertexError::InvalidCoordinate => "Invalid vertex coordinate".to_owned(),
            VertexError::IncompleteCoordinate => "Incomplete vertex coordinate".to_owned(),
        }
    }
}

} // verus!
