//! Lexing of schema source text into tokens.

pub mod lexer;
pub mod single;
pub mod token;

pub use lexer::{lex, LexError, LexErrorKind, LexResult};
pub use token::{Keyword, Spanned, Token};
