//! Tokens recognized by the parser.

use vstd::prelude::*;

use crate::ast::Span;

verus! {

/// The language's reserved keywords.
#[derive(Clone, Copy, Debug, PartialEq, Eq)]
pub enum Keyword {
    Encoding,
    Enum,
    Include,
    Message,
    Package,
}

/// The tokens recognized by the parser.
#[derive(Clone, Debug, PartialEq)]
pub enum Token {
    /// Input that could not be turned into a valid token (an integer that
    /// overflows `u64`, or a string holding a line break).
    Invalid(String),
    BlockClose,
    BlockOpen,
    Colon,
    Comma,
    Dot,
    Equal,
    FnClose,
    FnOpen,
    Keyword(Keyword),
    ListClose,
    ListOpen,
    Semicolon,
    /// One or more consecutive line breaks.
    Newline,
    /// A comment's text (without `//` and one following blank).
    Comment(String),
    /// An identifier.
    Ident(String),
    /// A string literal's content (without the quotes).
    String(String),
    /// An unsigned integer.
    Uint(u64),
}

/// A value together with the span of source text it came from.
#[derive(Clone, Debug, PartialEq)]
pub struct Spanned<T> {
    pub inner: T,
    pub span: Span,
}

} // verus!
