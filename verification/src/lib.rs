//! Schema compiler library for custom bit-level binary encodings.

pub mod text;
pub mod syntax;
pub mod ast;
pub mod ir;
pub mod generate2;
pub mod lex;
pub mod parse;
pub mod visit;
