//! The RapidRecast Definition Language: the abstract syntax tree of a
//! configuration document, its versioned JSON encoding, and a lexer for the
//! language's own text form.

pub mod action;
pub mod ast;
pub mod codec;
pub mod decode;
pub mod encode;
pub mod error;
pub mod json;
pub mod laws;
pub mod rrdl;
pub mod version;

use crate::ast::RapidRecastDefinition;
use crate::error::{DecodeError, EncodeError};
use vstd::prelude::*;

verus! {

/// Reads a definition out of a text encoding. Other encodings can implement
/// it too.
pub trait ParseRRDL {
    /// The definition that `input` holds, or why it holds none.
    fn parse_rrdl(&self, input: &str) -> Result<RapidRecastDefinition, DecodeError>;
}

/// Writes a definition in a text encoding. Other encodings can implement it
/// too.
pub trait SaveRRDL {
    /// The bytes of `definition` in this encoding; the definition is left as
    /// it was.
    fn save_rrdl(&self, definition: &RapidRecastDefinition) -> Result<Vec<u8>, EncodeError>;
}

} // verus!
