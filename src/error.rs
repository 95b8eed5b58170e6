//! Errors of the codecs.

use vstd::prelude::*;

verus! {

/// Why a document, or a part of one, could not be decoded.
#[derive(PartialEq, Eq, Structural, Debug, Clone, Copy)]
pub enum DecodeError {
    /// A version has fewer than three dot-separated segments.
    MissingSegment,
    /// A version has more than three dot-separated segments.
    TooManySegments,
    /// A version segment is not a non-negative integer that fits in 64 bits.
    InvalidInteger,
    /// The input is not well-formed JSON.
    MalformedText,
    /// A required field is absent.
    MissingField,
    /// A tagged value names a variant outside the closed set.
    UnknownVariant,
    /// A value has the wrong JSON shape for the place where it stands.
    TypeMismatch,
    /// Conditional actions nest deeper than the decoder allows.
    NestingTooDeep,
}

/// Why a document could not be encoded.
#[derive(PartialEq, Eq, Structural, Debug, Clone, Copy)]
pub enum EncodeError {
    /// The text writer refused the value.
    WriterFailed,
}

} // verus!
