//! The error model: the closed set of lexical errors.
//!
//! Each error carries a copy of the full source text and a labeled byte
//! span, which is all a generic diagnostic renderer needs to point into the
//! source.

use vstd::prelude::*;

verus! {

/// A labeled byte range of the source: `len` bytes beginning at byte
/// `offset`.
#[derive(Debug, Clone, Copy, PartialEq, Eq, Structural)]
pub struct SourceSpan {
    pub offset: usize,
    pub len: usize,
}

impl SourceSpan {
    pub fn new(offset: usize, len: usize) -> (r: SourceSpan)
        ensures
            r.offset == offset,
            r.len == len,
    {
        SourceSpan { offset, len }
    }
}

/// Error type for the lexer.
#[derive(Debug, PartialEq, Eq)]
pub enum Error {
    /// A character that cannot begin any lexeme. The scan goes on after it,
    /// so one bad character does not abort the whole scan.
    UnexpectedChar { c: char, src: Vec<u8>, at: SourceSpan },
    /// A string literal still open when the input ends. The span runs from
    /// the opening quote to the end of the input.
    UnterminatedString { src: Vec<u8>, at: SourceSpan },
    /// A block comment whose nesting never returns to depth zero. The span
    /// runs from the opening delimiter to the end of the input.
    UnterminatedBlockComment { src: Vec<u8>, at: SourceSpan },
}

impl Error {
    /// The copy of the source text this error carries for rendering.
    pub open spec fn source_view(&self) -> Seq<u8> {
        match self {
            Error::UnexpectedChar { src, .. } => src@,
            Error::UnterminatedString { src, .. } => src@,
            Error::UnterminatedBlockComment { src, .. } => src@,
        }
    }

    /// The labeled byte span this error carries.
    pub open spec fn span(&self) -> SourceSpan {
        match self {
            Error::UnexpectedChar { at, .. } => *at,
            Error::UnterminatedString { at, .. } => *at,
            Error::UnterminatedBlockComment { at, .. } => *at,
        }
    }
}

} // verus!
