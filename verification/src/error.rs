//! Why a string is not a media type.

use vstd::prelude::*;

verus! {

/// The first fault that parsing met. Where a fault has a place, the variant
/// holds it as a byte offset into the input.
#[derive(Clone, Copy, PartialEq, Eq, Debug, Structural)]
pub enum ParseError {
    /// The input holds no `/`.
    MissingSlash,
    /// Nothing stands before the `/`.
    EmptyType,
    /// No token character follows the `/`.
    EmptySubtype,
    /// At this offset a token character was called for and another byte, or
    /// the end of the input, was found.
    InvalidToken(usize),
    /// The parameter whose name should end at this offset has no `=` before
    /// the next `;` or the end of the input.
    MissingEquals(usize),
    /// The quoted string that opens at this offset is never closed.
    UnterminatedQuotedString(usize),
    /// From this offset on the input holds something that is no parameter.
    TrailingGarbage(usize),
}

impl ParseError {
    /// The byte offset of the fault, for the faults that have one.
    pub open spec fn spec_position(&self) -> Option<usize> {
        match *self {
            ParseError::MissingSlash => None,
            ParseError::EmptyType => None,
            ParseError::EmptySubtype => None,
            ParseError::InvalidToken(at) => Some(at),
            ParseError::MissingEquals(at) => Some(at),
            ParseError::UnterminatedQuotedString(at) => Some(at),
            ParseError::TrailingGarbage(at) => Some(at),
        }
    }

    /// The byte offset of the fault, for the faults that have one.
    #[verifier::when_used_as_spec(spec_position)]
    pub fn position(&self) -> (r: Option<usize>)
        ensures
            r == self.spec_position(),
    {
        match *self {
            ParseError::MissingSlash => None,
            ParseError::EmptyType => None,
            ParseError::EmptySubtype => None,
            ParseError::InvalidToken(at) => Some(at),
            ParseError::MissingEquals(at) => Some(at),
            ParseError::UnterminatedQuotedString(at) => Some(at),
            ParseError::TrailingGarbage(at) => Some(at),
        }
    }
}

} // verus!
