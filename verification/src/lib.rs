//! Generation of `TryFrom<Bytes>` decoders for XDR type definitions.

pub mod ast;
pub mod emit;
pub mod index;
pub mod laws;
pub mod printer;
pub mod text;
