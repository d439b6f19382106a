//! The schema parser: each function here computes one production of the
//! grammar in [`super::grammar`] and is proved to give what it states.

use vstd::prelude::*;
use vstd::string::{StrSliceExecFns, StringExecFns};

use crate::ast;
use crate::ast::Span;
use crate::lex::{Keyword, Spanned, Token};
use crate::text::text_eq;

use super::grammar::{
    array, call_arg, comment_at, comment_block, comment_tail, dotted, dotted_tail, encoding,
    encoding_kind, encoding_list, encoding_tail, enum_item, enum_items, enumeration, field,
    field_index, ident_at, inline_comment, is_keyword, is_tok, is_word, mapping, opt_comment, opt_encoding,
    opt_index, reference, scalar, scalar_kind, skip_newlines, span_of, text_at, typ, uint_at,
    unit_variant, message, message_item, message_items, package, import, header_item,
    header_items, body_item, body_items, schema, too_deep, items_too_deep, schema_too_deep,
    parse_outcome, ParseErrorKindView, ParseErrorView,
};
use super::error::{error_v, errors_v, ParseError, ParseErrorKind};
use super::path::import_path;
use crate::text::texts;
use super::model::{
    block_v, comment_v, encoding_v, enum_item_v, enum_v, field_v, ident_v, idents_v, include_v,
    message_item_v, message_items_v, message_v, package_v, reference_v, schema_item_v,
    schema_items_v, schema_v, type_v, unit_variant_v, CommentM, EnumItemM, IdentM, MessageItemM,
    SchemaItemM, SchemaM, TypeM,
};

verus! {

/// `r`, computed by an exec parser at a position within the input, agrees
/// with the production's value `s` under the view `v`.
/// The errors of an optional error.
pub open spec fn opt_errors_v(e: Option<ParseError>) -> Seq<ParseErrorView> {
    match e {
        Some(x) => seq![error_v(x)],
        None => Seq::empty(),
    }
}

pub open spec fn agrees<A, M>(r: Option<(A, usize)>, s: Option<(M, int)>, v: spec_fn(A) -> M, n: int) -> bool {
    match s {
        Some((m, j)) => r matches Some((a, k)) && v(a) == m && k == j && k <= n,
        None => r is None,
    }
}

/// The tokens without a payload.
pub open spec fn is_mark(t: Token) -> bool {
    ||| t is BlockClose
    ||| t is BlockOpen
    ||| t is Colon
    ||| t is Comma
    ||| t is Dot
    ||| t is Equal
    ||| t is FnClose
    ||| t is FnOpen
    ||| t is ListClose
    ||| t is ListOpen
    ||| t is Semicolon
    ||| t is Newline
}

fn same_mark(a: &Token, b: &Token) -> (r: bool)
    requires
        is_mark(*b),
    ensures
        r == (*a == *b),
{
    match (a, b) {
        (Token::BlockClose, Token::BlockClose) => true,
        (Token::BlockOpen, Token::BlockOpen) => true,
        (Token::Colon, Token::Colon) => true,
        (Token::Comma, Token::Comma) => true,
        (Token::Dot, Token::Dot) => true,
        (Token::Equal, Token::Equal) => true,
        (Token::FnClose, Token::FnClose) => true,
        (Token::FnOpen, Token::FnOpen) => true,
        (Token::ListClose, Token::ListClose) => true,
        (Token::ListOpen, Token::ListOpen) => true,
        (Token::Semicolon, Token::Semicolon) => true,
        (Token::Newline, Token::Newline) => true,
        _ => false,
    }
}

/// Whether token `i` is the payload-free token `t`.
fn at_mark(ts: &Vec<Spanned<Token>>, i: usize, t: Token) -> (r: bool)
    requires
        is_mark(t),
    ensures
        r == is_tok(ts@, i as int, t),
{
    i < ts.len() && same_mark(&ts[i].inner, &t)
}

/// Whether token `i` is the identifier `w`.
fn at_word(ts: &Vec<Spanned<Token>>, i: usize, w: &str) -> (r: bool)
    ensures
        r == is_word(ts@, i as int, w@),
{
    if i < ts.len() {
        match &ts[i].inner {
            Token::Ident(s) => text_eq(s.as_str(), w),
            _ => false,
        }
    } else {
        false
    }
}

/// Whether token `i` is the keyword `k`.
fn at_keyword(ts: &Vec<Spanned<Token>>, i: usize, k: Keyword) -> (r: bool)
    ensures
        r == is_keyword(ts@, i as int, k),
{
    if i < ts.len() {
        match &ts[i].inner {
            Token::Keyword(x) => match (x, k) {
                (Keyword::Encoding, Keyword::Encoding) => true,
                (Keyword::Enum, Keyword::Enum) => true,
                (Keyword::Include, Keyword::Include) => true,
                (Keyword::Message, Keyword::Message) => true,
                (Keyword::Package, Keyword::Package) => true,
                _ => false,
            },
            _ => false,
        }
    } else {
        false
    }
}

/// The first position at or after `i` that is not a line break.
fn skip_nl(ts: &Vec<Spanned<Token>>, i: usize) -> (r: usize)
    requires
        i <= ts.len(),
    ensures
        r == skip_newlines(ts@, i as int),
        i <= r <= ts.len(),
{
    let mut j = i;
    while j < ts.len() && at_mark(ts, j, Token::Newline)
        invariant
            i <= j <= ts.len(),
            skip_newlines(ts@, j as int) == skip_newlines(ts@, i as int),
        decreases ts.len() - j,
    {
        j = j + 1;
    }
    j
}

/// The span of the tokens `a..b`.
fn span_at(ts: &Vec<Spanned<Token>>, a: usize, b: usize) -> (r: Span)
    requires
        b <= ts.len(),
    ensures
        r == span_of(ts@, a as int, b as int),
{
    let n = ts.len();
    let end_of_input = if n > 0 {
        ts[n - 1].span.end
    } else {
        0
    };
    if a < n {
        let end = if b > 0 {
            ts[b - 1].span.end
        } else {
            end_of_input
        };
        Span { start: ts[a].span.start, end }
    } else {
        Span { start: end_of_input, end: end_of_input }
    }
}

/* ------------------------------- Terminals ------------------------------- */

fn p_comment(ts: &Vec<Spanned<Token>>, i: usize) -> (r: Option<ast::Comment>)
    ensures
        match comment_at(ts@, i as int) {
            Some(c) => r matches Some(x) && comment_v(x) == c,
            None => r is None,
        },
{
    if i < ts.len() {
        match &ts[i].inner {
            Token::Comment(c) => Some(ast::Comment { content: c.clone(), span: ts[i].span }),
            _ => None,
        }
    } else {
        None
    }
}

fn p_ident(ts: &Vec<Spanned<Token>>, i: usize) -> (r: Option<ast::Ident>)
    ensures
        match ident_at(ts@, i as int) {
            Some(id) => r matches Some(x) && ident_v(x) == id,
            None => r is None,
        },
{
    if i < ts.len() {
        match &ts[i].inner {
            Token::Ident(s) => Some(ast::Ident { name: s.clone(), span: ts[i].span }),
            _ => None,
        }
    } else {
        None
    }
}

fn p_uint(ts: &Vec<Spanned<Token>>, i: usize) -> (r: Option<ast::Uint>)
    ensures
        r == uint_at(ts@, i as int),
{
    if i < ts.len() {
        match &ts[i].inner {
            Token::Uint(n) => Some(ast::Uint { value: *n, span: ts[i].span }),
            _ => None,
        }
    } else {
        None
    }
}

fn p_text(ts: &Vec<Spanned<Token>>, i: usize) -> (r: Option<String>)
    ensures
        match text_at(ts@, i as int) {
            Some(t) => r matches Some(x) && x@ == t,
            None => r is None,
        },
{
    if i < ts.len() {
        match &ts[i].inner {
            Token::String(s) => Some(s.clone()),
            _ => None,
        }
    } else {
        None
    }
}

/* -------------------------------- Comments ------------------------------- */

pub(crate) fn p_comment_block(ts: &Vec<Spanned<Token>>, i: usize) -> (r: Option<(ast::CommentBlock, usize)>)
    requires
        i <= ts.len(),
    ensures
        agrees(r, comment_block(ts@, i as int), |x: ast::CommentBlock| block_v(x), ts@.len() as int),
        r matches Some((_, k)) ==> k > i,
{
    if i >= ts.len() {
        return None;
    }
    let first = match p_comment(ts, i) {
        Some(c) => c,
        None => {
            return None;
        },
    };
    let mut comments: Vec<ast::Comment> = Vec::new();
    comments.push(first);
    let mut k = i + 1;
    let ghost base = seq![comment_at(ts@, i as int)->0];
    proof {
        assert(comments@.map_values(|c: ast::Comment| comment_v(c)) =~= base);
    }
    while ts.len() - k > 1 && at_mark(ts, k, Token::Newline) && p_comment(ts, k + 1).is_some()
        invariant
            i < ts.len(),
            i + 1 <= k <= ts.len(),
            ({
                let t = comment_tail(ts@, k as int);
                let t0 = comment_tail(ts@, i + 1);
                comments@.map_values(|c: ast::Comment| comment_v(c)) + t.0 == base + t0.0 && t.1
                    == t0.1
            }),
            base == seq![comment_at(ts@, i as int)->0],
        decreases ts.len() - k,
    {
        let c = p_comment(ts, k + 1).unwrap();
        let ghost old = comments@;
        comments.push(c);
        proof {
            let t = comment_tail(ts@, k as int);
            let t2 = comment_tail(ts@, k + 2);
            assert(t.0 == seq![comment_v(c)] + t2.0);
            assert(comments@.map_values(|c: ast::Comment| comment_v(c)) =~= old.map_values(
                |c: ast::Comment| comment_v(c),
            ).push(comment_v(c)));
            assert(old.map_values(|c: ast::Comment| comment_v(c)) + t.0 =~= comments@.map_values(
                |c: ast::Comment| comment_v(c),
            ) + t2.0);
        }
        k = k + 2;
    }
    proof {
        let t = comment_tail(ts@, k as int);
        assert(t.0 =~= Seq::<CommentM>::empty());
        assert(comments@.map_values(|c: ast::Comment| comment_v(c)) =~= base + comment_tail(
            ts@,
            i + 1,
        ).0);
    }
    if at_mark(ts, k, Token::Newline) {
        let span = span_at(ts, i, k + 1);
        Some((ast::CommentBlock { comments, span }, k + 1))
    } else {
        None
    }
}

pub(crate) fn p_inline_comment(ts: &Vec<Spanned<Token>>, i: usize) -> (r: Option<(ast::Comment, usize)>)
    requires
        i <= ts.len(),
    ensures
        agrees(r, inline_comment(ts@, i as int), |x: ast::Comment| comment_v(x), ts@.len() as int),
{
    match p_comment(ts, i) {
        Some(c) => if ts.len() - i > 1 && at_mark(ts, i + 1, Token::Newline) {
            Some((c, i + 2))
        } else {
            None
        },
        None => None,
    }
}

fn p_opt_comment(ts: &Vec<Spanned<Token>>, i: usize) -> (r: (Option<ast::CommentBlock>, usize))
    requires
        i <= ts.len(),
    ensures
        ({
            let s = opt_comment(ts@, i as int);
            &&& r.1 == s.1
            &&& i <= r.1 <= ts@.len()
            &&& match s.0 {
                Some(b) => r.0 matches Some(x) && block_v(x) == b,
                None => r.0 is None,
            }
        }),
{
    match p_comment_block(ts, i) {
        Some((b, j)) => (Some(b), j),
        None => (None, i),
    }
}

/* ---------------------------------- Types -------------------------------- */

fn scalar_named(name: &str) -> (r: Option<ast::ScalarType>)
    ensures
        r == scalar_kind(name@),
{
    if text_eq(name, "bit") {
        Some(ast::ScalarType::Bit)
    } else if text_eq(name, "bool") {
        Some(ast::ScalarType::Bool)
    } else if text_eq(name, "byte") {
        Some(ast::ScalarType::Byte)
    } else if text_eq(name, "u8") {
        Some(ast::ScalarType::Uint8)
    } else if text_eq(name, "u16") {
        Some(ast::ScalarType::Uint16)
    } else if text_eq(name, "u32") {
        Some(ast::ScalarType::Uint32)
    } else if text_eq(name, "u64") {
        Some(ast::ScalarType::Uint64)
    } else if text_eq(name, "i8") {
        Some(ast::ScalarType::Int8)
    } else if text_eq(name, "i16") {
        Some(ast::ScalarType::Int16)
    } else if text_eq(name, "i32") {
        Some(ast::ScalarType::Int32)
    } else if text_eq(name, "i64") {
        Some(ast::ScalarType::Int64)
    } else if text_eq(name, "f32") {
        Some(ast::ScalarType::Float32)
    } else if text_eq(name, "f64") {
        Some(ast::ScalarType::Float64)
    } else if text_eq(name, "string") {
        Some(ast::ScalarType::String)
    } else {
        None
    }
}

fn p_scalar(ts: &Vec<Spanned<Token>>, i: usize) -> (r: Option<ast::Scalar>)
    ensures
        r == scalar(ts@, i as int),
{
    if i < ts.len() {
        match &ts[i].inner {
            Token::Ident(s) => match scalar_named(s.as_str()) {
                Some(k) => Some(ast::Scalar { kind: k, span: ts[i].span }),
                None => None,
            },
            _ => None,
        }
    } else {
        None
    }
}

fn p_dotted(ts: &Vec<Spanned<Token>>, i: usize) -> (r: Option<(Vec<ast::Ident>, usize)>)
    requires
        i <= ts.len(),
    ensures
        agrees(r, dotted(ts@, i as int), |x: Vec<ast::Ident>| idents_v(x@), ts@.len() as int),
        r matches Some((_, k)) ==> k > i,
{
    let first = match p_ident(ts, i) {
        Some(id) => id,
        None => {
            return None;
        },
    };
    let mut ids: Vec<ast::Ident> = Vec::new();
    ids.push(first);
    let ghost base = seq![ident_at(ts@, i as int)->0];
    proof {
        assert(idents_v(ids@) =~= base);
    }
    let mut k = i + 1;
    while ts.len() - k > 1 && at_mark(ts, k, Token::Dot) && p_ident(ts, k + 1).is_some()
        invariant
            i < ts.len(),
            i + 1 <= k <= ts.len(),
            ({
                let t = dotted_tail(ts@, k as int);
                let t0 = dotted_tail(ts@, i + 1);
                idents_v(ids@) + t.0 == base + t0.0 && t.1 == t0.1
            }),
            base == seq![ident_at(ts@, i as int)->0],
        decreases ts.len() - k,
    {
        let id = p_ident(ts, k + 1).unwrap();
        let ghost old = ids@;
        ids.push(id);
        proof {
            let t = dotted_tail(ts@, k as int);
            let t2 = dotted_tail(ts@, k + 2);
            assert(t.0 == seq![ident_v(id)] + t2.0);
            assert(idents_v(ids@) =~= idents_v(old).push(ident_v(id)));
            assert(idents_v(old) + t.0 =~= idents_v(ids@) + t2.0);
        }
        k = k + 2;
    }
    proof {
        assert(dotted_tail(ts@, k as int).0 =~= Seq::<IdentM>::empty());
        assert(idents_v(ids@) =~= base + dotted_tail(ts@, i + 1).0);
    }
    Some((ids, k))
}

fn p_reference(ts: &Vec<Spanned<Token>>, i: usize) -> (r: Option<(ast::Reference, usize)>)
    requires
        i <= ts.len(),
    ensures
        agrees(r, reference(ts@, i as int), |x: ast::Reference| reference_v(x), ts@.len() as int),
        r matches Some((_, k)) ==> k > i,
{
    let abs = at_mark(ts, i, Token::Dot);
    let j = if abs {
        i + 1
    } else {
        i
    };
    match p_dotted(ts, j) {
        Some((cs, k)) => {
            let span = span_at(ts, i, k);
            Some((ast::Reference { components: cs, is_absolute: abs, span }, k))
        },
        None => None,
    }
}

fn p_array(ts: &Vec<Spanned<Token>>, i: usize) -> (r: Option<(ast::Type, usize)>)
    requires
        i <= ts.len(),
    ensures
        agrees(r, array(ts@, i as int), |x: ast::Type| type_v(x), ts@.len() as int),
        r matches Some((_, k)) ==> k > i,
{
    if !at_mark(ts, i, Token::ListOpen) {
        return None;
    }
    let size = p_uint(ts, i + 1);
    let j = if size.is_some() {
        i + 2
    } else {
        i + 1
    };
    if j < ts.len() && at_mark(ts, j, Token::ListClose) {
        match p_scalar(ts, j + 1) {
            Some(el) => {
                assert(type_v(ast::Type::Scalar(el)) == TypeM::Scalar(el));
                let span = span_at(ts, i, j + 2);
                let t = ast::Type::Array(
                    ast::Array { element: Box::new(ast::Type::Scalar(el)), size, span },
                );
                Some((t, j + 2))
            },
            None => None,
        }
    } else {
        None
    }
}

fn p_mapping(ts: &Vec<Spanned<Token>>, i: usize) -> (r: Option<(ast::Type, usize)>)
    requires
        i <= ts.len(),
    ensures
        agrees(r, mapping(ts@, i as int), |x: ast::Type| type_v(x), ts@.len() as int),
        r matches Some((_, k)) ==> k > i,
{
    if !at_mark(ts, i, Token::ListOpen) {
        return None;
    }
    let key = match p_scalar(ts, i + 1) {
        Some(k) => k,
        None => {
            return None;
        },
    };
    if !at_mark(ts, i + 2, Token::ListClose) {
        return None;
    }
    let value = match p_scalar(ts, i + 3) {
        Some(v) => v,
        None => {
            return None;
        },
    };
    assert(type_v(ast::Type::Scalar(key)) == TypeM::Scalar(key));
    assert(type_v(ast::Type::Scalar(value)) == TypeM::Scalar(value));
    let span = span_at(ts, i, i + 4);
    let t = ast::Type::Mapping(
        ast::Mapping {
            key: Box::new(ast::Type::Scalar(key)),
            value: Box::new(ast::Type::Scalar(value)),
            span,
        },
    );
    Some((t, i + 4))
}

pub(crate) fn p_type(ts: &Vec<Spanned<Token>>, i: usize) -> (r: Option<(ast::Type, usize)>)
    requires
        i <= ts.len(),
    ensures
        agrees(r, typ(ts@, i as int), |x: ast::Type| type_v(x), ts@.len() as int),
        r matches Some((_, k)) ==> k > i,
{
    match p_array(ts, i) {
        Some(r) => {
            return Some(r);
        },
        None => {},
    }
    match p_mapping(ts, i) {
        Some(r) => {
            return Some(r);
        },
        None => {},
    }
    match p_scalar(ts, i) {
        Some(s) => {
            return Some((ast::Type::Scalar(s), i + 1));
        },
        None => {},
    }
    match p_reference(ts, i) {
        Some((r, k)) => Some((ast::Type::Reference(r), k)),
        None => None,
    }
}

/* -------------------------------- Encodings ------------------------------ */

fn p_call_arg(ts: &Vec<Spanned<Token>>, i: usize) -> (r: Option<ast::Uint>)
    ensures
        r == call_arg(ts@, i as int),
{
    if i < ts.len() && ts.len() - i > 2 && at_mark(ts, i, Token::FnOpen) && at_mark(ts, i + 2, Token::FnClose) {
        p_uint(ts, i + 1)
    } else {
        None
    }
}

pub(crate) fn p_encoding_kind(ts: &Vec<Spanned<Token>>, i: usize) -> (r: Option<(ast::EncodingKind, usize)>)
    requires
        i <= ts.len(),
    ensures
        agrees(r, encoding_kind(ts@, i as int), |x: ast::EncodingKind| x, ts@.len() as int),
        r matches Some((_, k)) ==> k > i,
{
    if i >= ts.len() {
        return None;
    }
    if at_word(ts, i, "bits") {
        match p_call_arg(ts, i + 1) {
            Some(u) => {
                return Some((ast::EncodingKind::Bits(u), i + 4));
            },
            None => {},
        }
        if at_mark(ts, i + 1, Token::FnOpen) && at_word(ts, i + 2, "var") && ts.len() - i > 6
            && at_mark(ts, i + 6, Token::FnClose) {
            match p_call_arg(ts, i + 3) {
                Some(u) => {
                    return Some((ast::EncodingKind::BitsVariable(u), i + 7));
                },
                None => {},
            }
        }
    }
    if at_word(ts, i, "fixed_point") && at_mark(ts, i + 1, Token::FnOpen) && ts.len() - i > 5
        && at_mark(ts, i + 3, Token::Comma) && at_mark(ts, i + 5, Token::FnClose) {
        match (p_uint(ts, i + 2), p_uint(ts, i + 4)) {
            (Some(a), Some(b)) => {
                return Some((ast::EncodingKind::FixedPoint(a, b), i + 6));
            },
            _ => {},
        }
    }
    if at_word(ts, i, "delta") {
        return Some((ast::EncodingKind::Delta, i + 1));
    }
    if at_word(ts, i, "zigzag") {
        return Some((ast::EncodingKind::ZigZag, i + 1));
    }
    if at_word(ts, i, "pad") {
        match p_call_arg(ts, i + 1) {
            Some(u) => {
                return Some((ast::EncodingKind::Pad(u), i + 4));
            },
            None => {},
        }
    }
    None
}

fn p_encoding_list(ts: &Vec<Spanned<Token>>, i: usize) -> (r: (Vec<ast::EncodingKind>, usize))
    requires
        i <= ts.len(),
    ensures
        r.0@ == encoding_list(ts@, i as int).0,
        r.1 == encoding_list(ts@, i as int).1,
        i <= r.1 <= ts.len(),
{
    let mut ks: Vec<ast::EncodingKind> = Vec::new();
    let mut k = match p_encoding_kind(ts, i) {
        Some((x, m)) => {
            ks.push(x);
            m
        },
        None => {
            return (ks, i);
        },
    };
    let ghost first = ks@;
    let ghost k0 = k as int;
    loop
        invariant
            i < k <= ts.len(),
            i < k0,
            ks@ + encoding_tail(ts@, k as int).0 == first + encoding_tail(ts@, k0).0,
            encoding_tail(ts@, k as int).1 == encoding_tail(ts@, k0).1,
            encoding_list(ts@, i as int) == (first + encoding_tail(ts@, k0).0, encoding_tail(
                ts@,
                k0,
            ).1),
        decreases ts.len() - k,
    {
        if !at_mark(ts, k, Token::Comma) {
            assert(encoding_tail(ts@, k as int).0 =~= Seq::<ast::EncodingKind>::empty());
            assert(ks@ =~= encoding_list(ts@, i as int).0);
            return (ks, k);
        }
        let j = skip_nl(ts, k + 1);
        match p_encoding_kind(ts, j) {
            Some((x, m)) => {
                let ghost old = ks@;
                ks.push(x);
                assert(old + encoding_tail(ts@, k as int).0 =~= ks@ + encoding_tail(ts@, m as int).0);
                k = m;
            },
            None => {
                assert(encoding_tail(ts@, k as int).0 =~= Seq::<ast::EncodingKind>::empty());
                assert(ks@ =~= encoding_list(ts@, i as int).0);
                return (ks, j);
            },
        }
    }
}

pub(crate) fn p_encoding(ts: &Vec<Spanned<Token>>, i: usize) -> (r: Option<(ast::Encoding, usize)>)
    requires
        i <= ts.len(),
    ensures
        agrees(r, encoding(ts@, i as int), |x: ast::Encoding| encoding_v(x), ts@.len() as int),
        r matches Some((_, k)) ==> k > i,
{
    match p_encoding_kind(ts, i) {
        Some((k, j)) => {
            let mut encodings: Vec<ast::EncodingKind> = Vec::new();
            encodings.push(k);
            let span = span_at(ts, i, j);
            assert(encodings@ =~= seq![k]);
            return Some((ast::Encoding { encodings, span }, j));
        },
        None => {},
    }
    if !at_mark(ts, i, Token::ListOpen) {
        return None;
    }
    let start = skip_nl(ts, i + 1);
    let (encodings, k) = p_encoding_list(ts, start);
    let c = skip_nl(ts, k);
    if at_mark(ts, c, Token::ListClose) {
        let span = span_at(ts, i, c + 1);
        Some((ast::Encoding { encodings, span }, c + 1))
    } else {
        None
    }
}

/* ------------------------------ Declarations ----------------------------- */

pub(crate) fn p_field_index(ts: &Vec<Spanned<Token>>, i: usize) -> (r: Option<(ast::FieldIndex, usize)>)
    requires
        i <= ts.len(),
    ensures
        agrees(r, field_index(ts@, i as int), |x: ast::FieldIndex| x, ts@.len() as int),
        r matches Some((_, k)) ==> k > i,
{
    match p_uint(ts, i) {
        Some(u) => if at_mark(ts, i + 1, Token::Colon) {
            let span = span_at(ts, i, i + 2);
            Some((ast::FieldIndex { value: u, span }, i + 2))
        } else {
            None
        },
        None => None,
    }
}

fn p_opt_index(ts: &Vec<Spanned<Token>>, i: usize) -> (r: (Option<ast::FieldIndex>, usize))
    requires
        i <= ts.len(),
    ensures
        r == (opt_index(ts@, i as int).0, opt_index(ts@, i as int).1 as usize),
        i <= r.1 <= ts.len(),
{
    match p_field_index(ts, i) {
        Some((f, j)) => (Some(f), j),
        None => (None, i),
    }
}

fn p_opt_encoding(ts: &Vec<Spanned<Token>>, i: usize) -> (r: (Option<ast::Encoding>, usize))
    requires
        i <= ts.len(),
    ensures
        r.1 == opt_encoding(ts@, i as int).1,
        i <= r.1 <= ts.len(),
        match opt_encoding(ts@, i as int).0 {
            Some(e) => r.0 matches Some(x) && encoding_v(x) == e,
            None => r.0 is None,
        },
{
    if at_mark(ts, i, Token::Equal) {
        match p_encoding(ts, i + 1) {
            Some((e, j)) => (Some(e), j),
            None => (None, i),
        }
    } else {
        (None, i)
    }
}

pub(crate) fn p_field(ts: &Vec<Spanned<Token>>, i: usize) -> (r: Option<(ast::Field, usize)>)
    requires
        i <= ts.len(),
    ensures
        agrees(r, field(ts@, i as int), |x: ast::Field| field_v(x), ts@.len() as int),
        r matches Some((_, k)) ==> k > i,
{
    let (comment, a) = p_opt_comment(ts, i);
    let (index, b) = p_opt_index(ts, a);
    let (kind, d) = match p_type(ts, b) {
        Some(x) => x,
        None => {
            return None;
        },
    };
    let name = match p_ident(ts, d) {
        Some(n) => n,
        None => {
            return None;
        },
    };
    let (encoding, e) = p_opt_encoding(ts, d + 1);
    if at_mark(ts, e, Token::Semicolon) {
        let span = span_at(ts, i, e + 1);
        Some((ast::Field { comment, encoding, index, kind, name, span }, e + 1))
    } else {
        None
    }
}

fn p_unit_variant(ts: &Vec<Spanned<Token>>, i: usize) -> (r: Option<(ast::UnitVariant, usize)>)
    requires
        i <= ts.len(),
    ensures
        agrees(r, unit_variant(ts@, i as int), |x: ast::UnitVariant| unit_variant_v(x), ts@.len() as int),
        r matches Some((_, k)) ==> k > i,
{
    let (comment, a) = p_opt_comment(ts, i);
    let (index, b) = p_opt_index(ts, a);
    let name = match p_ident(ts, b) {
        Some(n) => n,
        None => {
            return None;
        },
    };
    if at_mark(ts, b + 1, Token::Semicolon) {
        let span = span_at(ts, i, b + 2);
        Some((ast::UnitVariant { comment, index, name, span }, b + 2))
    } else {
        None
    }
}

fn p_enum_item(ts: &Vec<Spanned<Token>>, i: usize) -> (r: Option<(ast::EnumItem, usize)>)
    requires
        i <= ts.len(),
    ensures
        agrees(r, enum_item(ts@, i as int), |x: ast::EnumItem| enum_item_v(x), ts@.len() as int),
        r matches Some((_, k)) ==> k > i,
{
    match p_field(ts, i) {
        Some((f, j)) => {
            return Some((ast::EnumItem::FieldVariant(f), j));
        },
        None => {},
    }
    match p_unit_variant(ts, i) {
        Some((u, j)) => {
            return Some((ast::EnumItem::UnitVariant(u), j));
        },
        None => {},
    }
    match p_comment_block(ts, i) {
        Some((b, j)) => Some((ast::EnumItem::CommentBlock(b), j)),
        None => None,
    }
}

fn p_enum_items(ts: &Vec<Spanned<Token>>, i: usize) -> (r: (Vec<ast::EnumItem>, usize))
    requires
        i <= ts.len(),
    ensures
        r.0@.map_values(|x: ast::EnumItem| enum_item_v(x)) == enum_items(ts@, i as int).0,
        r.1 == enum_items(ts@, i as int).1,
        i <= r.1 <= ts.len(),
{
    let mut items: Vec<ast::EnumItem> = Vec::new();
    let mut k = i;
    loop
        invariant
            i <= k <= ts.len(),
            items@.map_values(|x: ast::EnumItem| enum_item_v(x)) + enum_items(ts@, k as int).0
                == enum_items(ts@, i as int).0,
            enum_items(ts@, k as int).1 == enum_items(ts@, i as int).1,
        decreases ts.len() - k,
    {
        let j = skip_nl(ts, k);
        match p_enum_item(ts, j) {
            Some((x, m)) => {
                let ghost old = items@;
                let ghost xv = enum_item_v(x);
                items.push(x);
                assert(items@.map_values(|x: ast::EnumItem| enum_item_v(x)) =~= old.map_values(
                    |x: ast::EnumItem| enum_item_v(x),
                ).push(xv));
                assert(old.map_values(|x: ast::EnumItem| enum_item_v(x)) + enum_items(
                    ts@,
                    k as int,
                ).0 =~= items@.map_values(|x: ast::EnumItem| enum_item_v(x)) + enum_items(
                    ts@,
                    m as int,
                ).0);
                k = m;
            },
            None => {
                assert(enum_items(ts@, k as int).0 =~= Seq::<EnumItemM>::empty());
                assert(items@.map_values(|x: ast::EnumItem| enum_item_v(x)) =~= enum_items(
                    ts@,
                    i as int,
                ).0);
                return (items, j);
            },
        }
    }
}

pub(crate) fn p_enumeration(ts: &Vec<Spanned<Token>>, i: usize) -> (r: Option<(ast::Enum, usize)>)
    requires
        i <= ts.len(),
    ensures
        agrees(r, enumeration(ts@, i as int), |x: ast::Enum| enum_v(x), ts@.len() as int),
        r matches Some((_, k)) ==> k > i,
{
    let (comment, a) = p_opt_comment(ts, i);
    if !(at_keyword(ts, a, Keyword::Enum) && ts.len() - a > 2 && at_mark(
        ts,
        a + 2,
        Token::BlockOpen,
    )) {
        return None;
    }
    let name = match p_ident(ts, a + 1) {
        Some(n) => n,
        None => {
            return None;
        },
    };
    let (items, k) = p_enum_items(ts, a + 3);
    if !at_mark(ts, k, Token::BlockClose) {
        return None;
    }
    let e = skip_nl(ts, k + 1);
    let span = span_at(ts, i, e);
    Some((ast::Enum { comment, items, name, span }, e))
}

pub(crate) fn p_message(ts: &Vec<Spanned<Token>>, i: usize) -> (r: Option<(ast::Message, usize)>)
    requires
        i <= ts.len(),
    ensures
        agrees(r, message(ts@, i as int), |x: ast::Message| message_v(x), ts@.len() as int),
        r matches Some((_, k)) ==> k > i,
    decreases ts.len() - i, 0int,
{
    let (comment, a) = p_opt_comment(ts, i);
    if !(at_keyword(ts, a, Keyword::Message) && ts.len() - a > 2 && at_mark(
        ts,
        a + 2,
        Token::BlockOpen,
    )) {
        return None;
    }
    let name = match p_ident(ts, a + 1) {
        Some(n) => n,
        None => {
            return None;
        },
    };
    let (items, k) = p_message_items(ts, a + 3);
    if !at_mark(ts, k, Token::BlockClose) {
        return None;
    }
    let e = skip_nl(ts, k + 1);
    let span = span_at(ts, i, e);
    let m = ast::Message { comment, items, name, span };
    proof {
        assert(message_v(m).items =~= message_items_v(m.items@));
    }
    Some((m, e))
}

fn p_message_item(ts: &Vec<Spanned<Token>>, i: usize) -> (r: Option<(ast::MessageItem, usize)>)
    requires
        i <= ts.len(),
    ensures
        agrees(r, message_item(ts@, i as int), |x: ast::MessageItem| message_item_v(x), ts@.len() as int),
        r matches Some((_, k)) ==> k > i,
    decreases ts.len() - i, 1int,
{
    match p_message(ts, i) {
        Some((m, j)) => {
            return Some((ast::MessageItem::Message(m), j));
        },
        None => {},
    }
    match p_enumeration(ts, i) {
        Some((e, j)) => {
            return Some((ast::MessageItem::Enum(e), j));
        },
        None => {},
    }
    match p_field(ts, i) {
        Some((f, j)) => {
            return Some((ast::MessageItem::Field(f), j));
        },
        None => {},
    }
    match p_comment_block(ts, i) {
        Some((b, j)) => Some((ast::MessageItem::CommentBlock(b), j)),
        None => None,
    }
}

fn p_message_items(ts: &Vec<Spanned<Token>>, i: usize) -> (r: (Vec<ast::MessageItem>, usize))
    requires
        i <= ts.len(),
    ensures
        message_items_v(r.0@) == message_items(ts@, i as int).0,
        r.1 == message_items(ts@, i as int).1,
        i <= r.1 <= ts.len(),
    decreases ts.len() - i, 2int,
{
    let mut items: Vec<ast::MessageItem> = Vec::new();
    let mut k = i;
    loop
        invariant
            i <= k <= ts.len(),
            message_items_v(items@) + message_items(ts@, k as int).0 == message_items(
                ts@,
                i as int,
            ).0,
            message_items(ts@, k as int).1 == message_items(ts@, i as int).1,
        decreases ts.len() - k,
    {
        let j = skip_nl(ts, k);
        match p_message_item(ts, j) {
            Some((x, m)) => {
                let ghost old = items@;
                let ghost xv = message_item_v(x);
                items.push(x);
                assert(message_items_v(items@) =~= message_items_v(old).push(xv));
                assert(message_items_v(old) + message_items(ts@, k as int).0 =~= message_items_v(
                    items@,
                ) + message_items(ts@, m as int).0);
                k = m;
            },
            None => {
                assert(message_items(ts@, k as int).0 =~= Seq::<MessageItemM>::empty());
                assert(message_items_v(items@) =~= message_items(ts@, i as int).0);
                return (items, j);
            },
        }
    }
}

pub(crate) fn p_package(ts: &Vec<Spanned<Token>>, i: usize) -> (r: Option<(ast::Package, usize)>)
    requires
        i <= ts.len(),
    ensures
        agrees(r, package(ts@, i as int), |x: ast::Package| package_v(x), ts@.len() as int),
        r matches Some((_, k)) ==> k > i,
{
    let (comment, a) = p_opt_comment(ts, i);
    if !at_keyword(ts, a, Keyword::Package) {
        return None;
    }
    match p_dotted(ts, a + 1) {
        Some((components, k)) => if at_mark(ts, k, Token::Semicolon) {
            let span = span_at(ts, i, k + 1);
            Some((ast::Package { comment, components, span }, k + 1))
        } else {
            None
        },
        None => None,
    }
}

/// The include at `i`, with the error of its rejected path, if any.
pub(crate) fn p_import(ts: &Vec<Spanned<Token>>, i: usize) -> (r: Option<(ast::Include, Option<ParseError>, usize)>)
    requires
        i <= ts.len(),
    ensures
        match import(ts@, i as int) {
            Some((inc, err, j)) => r matches Some((x, e, k)) && include_v(x) == inc && k == j
                && k <= ts@.len() && match err {
                Some(pe) => e matches Some(y) && error_v(y) == ParseErrorView {
                    kind: ParseErrorKindView::InvalidImport(pe),
                    span: inc.span,
                },
                None => e is None,
            },
            None => r is None,
        },
        r matches Some((_, _, k)) ==> k > i,
{
    if !(at_keyword(ts, i, Keyword::Include) && ts.len() - i > 2 && at_mark(
        ts,
        i + 2,
        Token::Semicolon,
    )) {
        return None;
    }
    let text = match p_text(ts, i + 1) {
        Some(t) => t,
        None => {
            return None;
        },
    };
    let span = span_at(ts, i, i + 3);
    match import_path(text.as_str()) {
        Ok(path) => {
            assert(include_v(ast::Include { path, span }).path =~= texts(path@));
            Some((ast::Include { path, span }, None, i + 3))
        },
        Err(e) => {
            let path: Vec<String> = Vec::new();
            assert(include_v(ast::Include { path, span }).path =~= Seq::<Seq<char>>::empty());
            let err = ParseError { kind: ParseErrorKind::InvalidImport(e), span };
            Some((ast::Include { path, span }, Some(err), i + 3))
        },
    }
}

/* ---------------------------------- Schema ------------------------------- */

fn p_header_item(ts: &Vec<Spanned<Token>>, i: usize) -> (r: Option<(ast::SchemaItem, usize)>)
    requires
        i <= ts.len(),
    ensures
        agrees(r, header_item(ts@, i as int), |x: ast::SchemaItem| schema_item_v(x), ts@.len() as int),
        r matches Some((_, k)) ==> k > i,
{
    match p_package(ts, i) {
        Some((p, j)) => {
            return Some((ast::SchemaItem::Package(p), j));
        },
        None => {},
    }
    match p_comment_block(ts, i) {
        Some((b, j)) => Some((ast::SchemaItem::CommentBlock(b), j)),
        None => None,
    }
}

fn p_header_items(ts: &Vec<Spanned<Token>>, i: usize, items: &mut Vec<ast::SchemaItem>) -> (r: usize)
    requires
        i <= ts.len(),
    ensures
        schema_items_v(final(items)@) == schema_items_v(old(items)@) + header_items(ts@, i as int).0,
        r == header_items(ts@, i as int).1,
        i <= r <= ts.len(),
{
    let ghost start = items@;
    let mut k = i;
    loop
        invariant
            i <= k <= ts.len(),
            start == old(items)@,
            schema_items_v(items@) + header_items(ts@, k as int).0 == schema_items_v(start)
                + header_items(ts@, i as int).0,
            header_items(ts@, k as int).1 == header_items(ts@, i as int).1,
        decreases ts.len() - k,
    {
        let j = skip_nl(ts, k);
        match p_header_item(ts, j) {
            Some((x, m)) => {
                let ghost old = items@;
                let ghost xv = schema_item_v(x);
                items.push(x);
                assert(schema_items_v(items@) =~= schema_items_v(old).push(xv));
                assert(schema_items_v(old) + header_items(ts@, k as int).0 =~= schema_items_v(
                    items@,
                ) + header_items(ts@, m as int).0);
                k = m;
            },
            None => {
                assert(header_items(ts@, k as int).0 =~= Seq::<SchemaItemM>::empty());
                assert(schema_items_v(items@) =~= schema_items_v(start) + header_items(
                    ts@,
                    i as int,
                ).0);
                return j;
            },
        }
    }
}

fn p_body_item(ts: &Vec<Spanned<Token>>, i: usize) -> (r: Option<(ast::SchemaItem, Option<ParseError>, usize)>)
    requires
        i <= ts.len(),
    ensures
        match body_item(ts@, i as int) {
            Some((x, es, j)) => r matches Some((y, e, k)) && schema_item_v(y) == x && k == j && k
                <= ts@.len() && opt_errors_v(e) == es,
            None => r is None,
        },
        r matches Some((_, _, k)) ==> k > i,
{
    match p_import(ts, i) {
        Some((inc, e, j)) => {
            return Some((ast::SchemaItem::Include(inc), e, j));
        },
        None => {},
    }
    match p_enumeration(ts, i) {
        Some((e, j)) => {
            return Some((ast::SchemaItem::Enum(e), None, j));
        },
        None => {},
    }
    match p_message(ts, i) {
        Some((m, j)) => {
            return Some((ast::SchemaItem::Message(m), None, j));
        },
        None => {},
    }
    match p_comment_block(ts, i) {
        Some((b, j)) => Some((ast::SchemaItem::CommentBlock(b), None, j)),
        None => None,
    }
}

fn p_body_items(
    ts: &Vec<Spanned<Token>>,
    i: usize,
    items: &mut Vec<ast::SchemaItem>,
    errors: &mut Vec<ParseError>,
) -> (r: usize)
    requires
        i <= ts.len(),
    ensures
        schema_items_v(final(items)@) == schema_items_v(old(items)@) + body_items(ts@, i as int).0,
        errors_v(final(errors)@) == errors_v(old(errors)@) + body_items(ts@, i as int).1,
        r == body_items(ts@, i as int).2,
        i <= r <= ts.len(),
{
    let ghost start = items@;
    let ghost estart = errors@;
    let mut k = i;
    loop
        invariant
            i <= k <= ts.len(),
            start == old(items)@,
            estart == old(errors)@,
            schema_items_v(items@) + body_items(ts@, k as int).0 == schema_items_v(start)
                + body_items(ts@, i as int).0,
            errors_v(errors@) + body_items(ts@, k as int).1 == errors_v(estart) + body_items(
                ts@,
                i as int,
            ).1,
            body_items(ts@, k as int).2 == body_items(ts@, i as int).2,
        decreases ts.len() - k,
    {
        let j = skip_nl(ts, k);
        match p_body_item(ts, j) {
            Some((x, e, m)) => {
                let ghost old = items@;
                let ghost olde = errors@;
                let ghost xv = schema_item_v(x);
                items.push(x);
                match e {
                    Some(err) => {
                        errors.push(err);
                    },
                    None => {},
                }
                assert(errors_v(errors@) =~= errors_v(olde) + opt_errors_v(e));
                assert(schema_items_v(items@) =~= schema_items_v(old).push(xv));
                assert(schema_items_v(old) + body_items(ts@, k as int).0 =~= schema_items_v(
                    items@,
                ) + body_items(ts@, m as int).0);
                assert(errors_v(olde) + body_items(ts@, k as int).1 =~= errors_v(errors@)
                    + body_items(ts@, m as int).1);
                k = m;
            },
            None => {
                assert(body_items(ts@, k as int).0 =~= Seq::<SchemaItemM>::empty());
                assert(body_items(ts@, k as int).1 =~= Seq::<ParseErrorView>::empty());
                assert(schema_items_v(items@) =~= schema_items_v(start) + body_items(ts@, i as int).0);
                assert(errors_v(errors@) =~= errors_v(estart) + body_items(ts@, i as int).1);
                return j;
            },
        }
    }
}

/// The schema at the start of `ts`, the errors of its rejected include
/// paths, and the position after it.
pub(crate) fn p_schema(ts: &Vec<Spanned<Token>>) -> (r: (ast::Schema, Vec<ParseError>, usize))
    ensures
        schema_v(r.0) == schema(ts@).0,
        errors_v(r.1@) == schema(ts@).1,
        r.2 == schema(ts@).2,
        r.2 <= ts@.len(),
{
    let mut items: Vec<ast::SchemaItem> = Vec::new();
    let mut errors: Vec<ParseError> = Vec::new();
    proof {
        assert(schema_items_v(items@) =~= Seq::<SchemaItemM>::empty());
        assert(errors_v(errors@) =~= Seq::<ParseErrorView>::empty());
    }
    let p = p_header_items(ts, 0, &mut items);
    let q = p_body_items(ts, p, &mut items, &mut errors);
    let span = span_at(ts, 0, q);
    let s = ast::Schema { items, span };
    proof {
        assert(schema_v(s).items =~= schema_items_v(s.items@));
        assert(Seq::<SchemaItemM>::empty() + header_items(ts@, 0).0 =~= header_items(ts@, 0).0);
        assert(Seq::<ParseErrorView>::empty() + body_items(ts@, p as int).1 =~= body_items(ts@, p as int).1);
    }
    (s, errors, q)
}

/* ------------------------------ Nesting depth ---------------------------- */

/// The span of the first message nested `limit` deep or deeper, where `m` is
/// at `level`.
pub(crate) fn message_too_deep(m: &ast::Message, level: usize, limit: usize) -> (r: Option<Span>)
    ensures
        r == too_deep(message_v(*m), level as int, limit as int),
    decreases message_v(*m), message_v(*m).items.len() + 1,
{
    if level >= limit {
        return Some(m.span);
    }
    let ghost mv = message_v(*m);
    let mut k: usize = 0;
    while k < m.items.len()
        invariant
            level < limit,
            mv == message_v(*m),
            k <= m.items.len(),
            items_too_deep(mv, 0, level + 1, limit as int) == items_too_deep(
                mv,
                k as int,
                level + 1,
                limit as int,
            ),
        decreases m.items.len() - k,
    {
        match &m.items[k] {
            ast::MessageItem::Message(n) => {
                assert(mv.items[k as int] == MessageItemM::Message(message_v(*n)));
                let h = message_too_deep(n, level + 1, limit);
                if h.is_some() {
                    return h;
                }
            },
            _ => {},
        }
        k = k + 1;
    }
    None
}

fn schema_too_deep_at(items: &Vec<ast::SchemaItem>, limit: usize) -> (r: Option<Span>)
    ensures
        r == schema_too_deep(schema_items_v(items@), 0, limit as int),
{
    let ghost iv = schema_items_v(items@);
    let mut k: usize = 0;
    while k < items.len()
        invariant
            k <= items.len(),
            iv == schema_items_v(items@),
            schema_too_deep(iv, 0, limit as int) == schema_too_deep(iv, k as int, limit as int),
        decreases items.len() - k,
    {
        match &items[k] {
            ast::SchemaItem::Message(m) => {
                let h = message_too_deep(m, 1, limit);
                if h.is_some() {
                    return h;
                }
            },
            _ => {},
        }
        k = k + 1;
    }
    None
}

/* ---------------------------------- Parse -------------------------------- */

/// The nesting depth at which messages are rejected.
pub const MAX_RECURSION_DEPTH: usize = 10;

/// The result of parsing a `.baproto` file.
pub struct ParseResult {
    /// The parsed tree, if parsing succeeded (possibly with rejected include
    /// paths).
    pub ast: Option<ast::Schema>,
    /// Errors encountered during parsing.
    pub errors: Vec<ParseError>,
}

pub open spec fn result_v(r: ParseResult) -> (Option<SchemaM>, Seq<ParseErrorView>) {
    (
        match r.ast {
            Some(s) => Some(schema_v(s)),
            None => None,
        },
        errors_v(r.errors@),
    )
}

/// Parses `input` into a schema whose messages nest less than
/// `depth_limit` deep.
pub fn parse_with_limit(input: &Vec<Spanned<Token>>, depth_limit: usize) -> (r: ParseResult)
    ensures
        result_v(r) == parse_outcome(input@, depth_limit),
{
    if input.len() == 0 {
        let mut errors: Vec<ParseError> = Vec::new();
        errors.push(
            ParseError { kind: ParseErrorKind::MissingInput, span: Span { start: 0, end: 0 } },
        );
        assert(errors_v(errors@) =~= parse_outcome(input@, depth_limit).1);
        return ParseResult { ast: None, errors };
    }
    let (s, mut errors, q) = p_schema(input);
    let ghost es = errors@;
    if q < input.len() {
        errors.push(ParseError { kind: ParseErrorKind::UnexpectedToken, span: input[q].span });
        assert(errors_v(errors@) =~= errors_v(es).push(
            ParseErrorView { kind: ParseErrorKindView::UnexpectedToken, span: input@[q as int].span },
        ));
        return ParseResult { ast: None, errors };
    }
    assert(schema_v(s).items == schema_items_v(s.items@));
    match schema_too_deep_at(&s.items, depth_limit) {
        Some(sp) => {
            errors.push(ParseError { kind: ParseErrorKind::DepthLimit(depth_limit), span: sp });
            assert(errors_v(errors@) =~= errors_v(es).push(
                ParseErrorView { kind: ParseErrorKindView::DepthLimit(depth_limit), span: sp },
            ));
            ParseResult { ast: None, errors }
        },
        None => ParseResult { ast: Some(s), errors },
    }
}

/// Parses `input` into a schema, with messages nested less than
/// [`MAX_RECURSION_DEPTH`] deep.
pub fn parse(input: &Vec<Spanned<Token>>) -> (r: ParseResult)
    ensures
        result_v(r) == parse_outcome(input@, MAX_RECURSION_DEPTH),
{
    parse_with_limit(input, MAX_RECURSION_DEPTH)
}

} // verus!
