//! Each production of the grammar applied to a whole token sequence.
//!
//! The production must match at the first token and end at the last one;
//! otherwise there is no output and a single error: at the first token not
//! consumed, or (when the production does not match at all) at the first
//! token, or `MissingInput` when there are no tokens.

use vstd::prelude::*;

use crate::ast;
use crate::ast::Span;
use crate::lex::{Spanned, Token};

use super::error::{error_v, errors_v, ParseError, ParseErrorKind};
use super::grammar::{
    self, eoi, ident_at, parse_outcome, text_at, too_deep, uint_at, ParseErrorKindView,
    ParseErrorView, Tokens,
};
use super::model::{
    block_v, comment_v, encoding_v, enum_v, ident_v, include_v, message_v, package_v, type_v, BlockM,
    EncodingM, EnumM, IdentM, IncludeM, MessageM, PackageM, TypeM,
};
use super::parser::{
    p_comment_block, p_encoding, p_inline_comment, p_enumeration, p_field_index, p_import, p_message, p_package,
    p_type, parse_with_limit, result_v, ParseResult,
};

verus! {

/// The output of a production applied to a whole token sequence.
pub struct Parsed<T> {
    pub output: Option<T>,
    pub errors: Vec<ParseError>,
}

/// The error at position `k`, where the grammar could not go on.
pub open spec fn stop_error(ts: Tokens, k: int) -> ParseErrorView {
    if 0 <= k < ts.len() {
        ParseErrorView { kind: ParseErrorKindView::UnexpectedToken, span: ts[k].span }
    } else {
        ParseErrorView {
            kind: ParseErrorKindView::MissingInput,
            span: Span { start: eoi(ts), end: eoi(ts) },
        }
    }
}

/// A production's result `r` taken over the whole of `ts`.
pub open spec fn whole<M>(ts: Tokens, r: Option<(M, int)>) -> Result<M, ParseErrorView> {
    match r {
        Some((m, k)) => if k == ts.len() {
            Ok(m)
        } else {
            Err(stop_error(ts, k))
        },
        None => Err(stop_error(ts, 0)),
    }
}

/// `p` holds the whole-input result `w` under the view `v`.
pub open spec fn gives<T, M>(p: Parsed<T>, w: Result<M, ParseErrorView>, v: spec_fn(T) -> M) -> bool {
    match w {
        Ok(m) => p.output matches Some(x) && v(x) == m && p.errors@.len() == 0,
        Err(e) => p.output is None && errors_v(p.errors@) == seq![e],
    }
}

fn stop_at(ts: &Vec<Spanned<Token>>, k: usize) -> (r: ParseError)
    ensures
        error_v(r) == stop_error(ts@, k as int),
{
    if k < ts.len() {
        ParseError { kind: ParseErrorKind::UnexpectedToken, span: ts[k].span }
    } else {
        let n = ts.len();
        let end = if n > 0 {
            ts[n - 1].span.end
        } else {
            0
        };
        ParseError { kind: ParseErrorKind::MissingInput, span: Span { start: end, end } }
    }
}

fn finish<T>(ts: &Vec<Spanned<Token>>, r: Option<(T, usize)>) -> (p: Parsed<T>)
    ensures
        match r {
            Some((x, k)) => if k == ts@.len() {
                p.output == Some(x) && p.errors@.len() == 0
            } else {
                p.output is None && errors_v(p.errors@) == seq![stop_error(ts@, k as int)]
            },
            None => p.output is None && errors_v(p.errors@) == seq![stop_error(ts@, 0)],
        },
{
    let mut errors: Vec<ParseError> = Vec::new();
    match r {
        Some((x, k)) => {
            if k == ts.len() {
                Parsed { output: Some(x), errors }
            } else {
                let e = stop_at(ts, k);
                errors.push(e);
                assert(errors_v(errors@) =~= seq![error_v(e)]);
                Parsed { output: None, errors }
            }
        },
        None => {
            let e = stop_at(ts, 0);
            errors.push(e);
            assert(errors_v(errors@) =~= seq![error_v(e)]);
            Parsed { output: None, errors }
        },
    }
}

/// An identifier.
pub fn ident(ts: &Vec<Spanned<Token>>) -> (p: Parsed<ast::Ident>)
    ensures
        gives(
            p,
            whole(
                ts@,
                match ident_at(ts@, 0) {
                    Some(id) => Some((id, 1int)),
                    None => None::<(IdentM, int)>,
                },
            ),
            |x: ast::Ident| ident_v(x),
        ),
{
    let r = if ts.len() > 0 {
        match &ts[0].inner {
            Token::Ident(s) => Some((ast::Ident { name: s.clone(), span: ts[0].span }, 1usize)),
            _ => None,
        }
    } else {
        None
    };
    finish(ts, r)
}

/// An unsigned integer.
pub fn uint(ts: &Vec<Spanned<Token>>) -> (p: Parsed<ast::Uint>)
    ensures
        gives(
            p,
            whole(
                ts@,
                match uint_at(ts@, 0) {
                    Some(u) => Some((u, 1int)),
                    None => None::<(ast::Uint, int)>,
                },
            ),
            |x: ast::Uint| x,
        ),
{
    let r = if ts.len() > 0 {
        match &ts[0].inner {
            Token::Uint(n) => Some((ast::Uint { value: *n, span: ts[0].span }, 1usize)),
            _ => None,
        }
    } else {
        None
    };
    finish(ts, r)
}

/// A string literal.
pub fn text(ts: &Vec<Spanned<Token>>) -> (p: Parsed<ast::Text>)
    ensures
        gives(
            p,
            whole(
                ts@,
                match text_at(ts@, 0) {
                    Some(t) => Some(((t, ts@[0].span), 1int)),
                    None => None::<((Seq<char>, Span), int)>,
                },
            ),
            |x: ast::Text| (x.content@, x.span),
        ),
{
    let r = if ts.len() > 0 {
        match &ts[0].inner {
            Token::String(s) => Some((ast::Text { content: s.clone(), span: ts[0].span }, 1usize)),
            _ => None,
        }
    } else {
        None
    };
    finish(ts, r)
}

/// A comment block.
pub fn comment_block(ts: &Vec<Spanned<Token>>) -> (p: Parsed<ast::CommentBlock>)
    ensures
        gives(p, whole(ts@, grammar::comment_block(ts@, 0)), |x: ast::CommentBlock| block_v(x)),
{
    finish(ts, p_comment_block(ts, 0))
}

/// An inline comment: a comment that ends its line.
pub fn inline_comment(ts: &Vec<Spanned<Token>>) -> (p: Parsed<ast::Comment>)
    ensures
        gives(p, whole(ts@, grammar::inline_comment(ts@, 0)), |x: ast::Comment| comment_v(x)),
{
    finish(ts, p_inline_comment(ts, 0))
}

/// A type.
pub fn typ(ts: &Vec<Spanned<Token>>) -> (p: Parsed<ast::Type>)
    ensures
        gives(p, whole(ts@, grammar::typ(ts@, 0)), |x: ast::Type| type_v(x)),
{
    finish(ts, p_type(ts, 0))
}

/// A field's encoding.
pub fn encoding(ts: &Vec<Spanned<Token>>) -> (p: Parsed<ast::Encoding>)
    ensures
        gives(p, whole(ts@, grammar::encoding(ts@, 0)), |x: ast::Encoding| encoding_v(x)),
{
    finish(ts, p_encoding(ts, 0))
}

/// A field or variant index.
pub fn field_index(ts: &Vec<Spanned<Token>>) -> (p: Parsed<ast::FieldIndex>)
    ensures
        gives(p, whole(ts@, grammar::field_index(ts@, 0)), |x: ast::FieldIndex| x),
{
    finish(ts, p_field_index(ts, 0))
}

/// An enum.
pub fn enumeration(ts: &Vec<Spanned<Token>>) -> (p: Parsed<ast::Enum>)
    ensures
        gives(p, whole(ts@, grammar::enumeration(ts@, 0)), |x: ast::Enum| enum_v(x)),
{
    finish(ts, p_enumeration(ts, 0))
}

/// A package declaration.
pub fn package(ts: &Vec<Spanned<Token>>) -> (p: Parsed<ast::Package>)
    ensures
        gives(p, whole(ts@, grammar::package(ts@, 0)), |x: ast::Package| package_v(x)),
{
    finish(ts, p_package(ts, 0))
}

/// A message whose nested messages are less than `depth_limit` deep (the
/// message itself is at depth 1); a deeper one gives a `DepthLimit` error at
/// the first such message.
pub fn message(ts: &Vec<Spanned<Token>>, depth_limit: usize) -> (p: Parsed<ast::Message>)
    ensures
        match whole(ts@, grammar::message(ts@, 0)) {
            Ok(m) => match too_deep(m, 1, depth_limit as int) {
                Some(sp) => p.output is None && errors_v(p.errors@) == seq![
                    ParseErrorView { kind: ParseErrorKindView::DepthLimit(depth_limit), span: sp },
                ],
                None => p.output matches Some(x) && message_v(x) == m && p.errors@.len() == 0,
            },
            Err(e) => p.output is None && errors_v(p.errors@) == seq![e],
        },
{
    let p = finish(ts, p_message(ts, 0));
    match p.output {
        Some(m) => match super::parser::message_too_deep(&m, 1, depth_limit) {
            Some(sp) => {
                let mut errors: Vec<ParseError> = Vec::new();
                errors.push(ParseError { kind: ParseErrorKind::DepthLimit(depth_limit), span: sp });
                assert(errors_v(errors@) =~= seq![error_v(errors@[0])]);
                Parsed { output: None, errors }
            },
            None => Parsed { output: Some(m), errors: p.errors },
        },
        None => p,
    }
}

/// An include statement; a rejected path gives an include with an empty path
/// and the error.
pub fn import(ts: &Vec<Spanned<Token>>) -> (p: Parsed<ast::Include>)
    ensures
        match grammar::import(ts@, 0) {
            Some((inc, err, k)) => if k == ts@.len() {
                &&& p.output matches Some(x) && include_v(x) == inc
                &&& errors_v(p.errors@) == match err {
                    Some(e) => seq![
                        ParseErrorView { kind: ParseErrorKindView::InvalidImport(e), span: inc.span },
                    ],
                    None => Seq::empty(),
                }
            } else {
                p.output is None && errors_v(p.errors@) == seq![stop_error(ts@, k)]
            },
            None => p.output is None && errors_v(p.errors@) == seq![stop_error(ts@, 0)],
        },
{
    match p_import(ts, 0) {
        Some((inc, err, k)) => {
            if k == ts.len() {
                let mut errors: Vec<ParseError> = Vec::new();
                match err {
                    Some(e) => {
                        errors.push(e);
                    },
                    None => {},
                }
                assert(errors_v(errors@) =~= super::parser::opt_errors_v(err));
                Parsed { output: Some(inc), errors }
            } else {
                finish(ts, Some((inc, k)))
            }
        },
        None => finish(ts, None::<(ast::Include, usize)>),
    }
}

/// A schema whose messages nest less than `depth_limit` deep; the same as
/// [`super::parse_with_limit`] but for an input without tokens, which is an
/// empty schema.
pub fn schema(ts: &Vec<Spanned<Token>>, depth_limit: usize) -> (r: ParseResult)
    ensures
        ts@.len() > 0 ==> result_v(r) == parse_outcome(ts@, depth_limit),
        ts@.len() == 0 ==> (r.ast matches Some(s) && s.items@.len() == 0 && r.errors@.len() == 0),
{
    if ts.len() == 0 {
        let items: Vec<ast::SchemaItem> = Vec::new();
        return ParseResult {
            ast: Some(ast::Schema { items, span: Span { start: 0, end: 0 } }),
            errors: Vec::new(),
        };
    }
    parse_with_limit(ts, depth_limit)
}

} // verus!
