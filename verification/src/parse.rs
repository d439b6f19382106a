//! Parsing of token sequences into syntax trees.

pub mod error;
pub mod grammar;
pub mod laws;
pub mod model;
pub mod parser;
pub mod path;
pub mod single;

pub use error::{ParseError, ParseErrorKind};
pub use parser::{parse, parse_with_limit, ParseResult, MAX_RECURSION_DEPTH};
pub use path::ImportPathError;
