//! Errors reported by the parser.

use vstd::prelude::*;
use vstd::string::StringExecFns;

use crate::ast::Span;
use crate::text::{decimal, push_decimal};

use super::grammar::{ParseErrorKindView, ParseErrorView};
use super::path::{import_error_text, ImportPathError};

verus! {

/// What went wrong.
#[derive(Debug, Clone, PartialEq)]
pub enum ParseErrorKind {
    /// There were no tokens at all.
    MissingInput,
    /// The grammar could not go on at this token.
    UnexpectedToken,
    /// A message is nested as deep as the limit, or deeper.
    DepthLimit(usize),
    /// An include path was rejected.
    InvalidImport(ImportPathError),
}

/// An error found while parsing, with the span of source text it concerns.
#[derive(Debug, Clone, PartialEq)]
pub struct ParseError {
    pub kind: ParseErrorKind,
    pub span: Span,
}

pub open spec fn error_v(e: ParseError) -> ParseErrorView {
    ParseErrorView {
        kind: match e.kind {
            ParseErrorKind::MissingInput => ParseErrorKindView::MissingInput,
            ParseErrorKind::UnexpectedToken => ParseErrorKindView::UnexpectedToken,
            ParseErrorKind::DepthLimit(n) => ParseErrorKindView::DepthLimit(n),
            ParseErrorKind::InvalidImport(i) => ParseErrorKindView::InvalidImport(i.view_error()),
        },
        span: e.span,
    }
}

pub open spec fn errors_v(es: Seq<ParseError>) -> Seq<ParseErrorView> {
    es.map_values(|e: ParseError| error_v(e))
}

/// The description of an error.
pub open spec fn error_text(k: ParseErrorKindView) -> Seq<char> {
    match k {
        ParseErrorKindView::MissingInput => "missing input"@,
        ParseErrorKindView::UnexpectedToken => "unexpected token"@,
        ParseErrorKindView::DepthLimit(n) => "exceeded maximum type depth limit: "@ + decimal(
            n as nat,
        ),
        ParseErrorKindView::InvalidImport(i) => import_error_text(i),
    }
}

impl ParseError {
    /// The human readable description of the error.
    pub fn message(&self) -> (r: String)
        ensures
            r@ == error_text(error_v(*self).kind),
    {
        match &self.kind {
            ParseErrorKind::MissingInput => String::from_str("missing input"),
            ParseErrorKind::UnexpectedToken => String::from_str("unexpected token"),
            ParseErrorKind::DepthLimit(n) => {
                let mut m = String::from_str("exceeded maximum type depth limit: ");
                push_decimal(&mut m, *n as u64);
                m
            },
            ParseErrorKind::InvalidImport(i) => i.message(),
        }
    }
}

} // verus!
