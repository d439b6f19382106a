//! The schema grammar over token sequences.
//!
//! Each production is a function from a token sequence and a start position
//! to the parsed value and the position after it, or `None` where the
//! production does not match. Alternatives are tried in order and the first
//! that matches is taken; repetitions are greedy and never backtrack; an
//! optional part that fails to match leaves the position unchanged.
//!
//! A span runs from the start of the first token a production consumed to the
//! end of the last one (see [`span_of`]).
//!
//! Repetitions and nested productions are guarded by conditions saying that
//! the position moved forward; they always hold, and make it evident that
//! the definitions terminate.

use vstd::prelude::*;

use crate::ast;
use crate::ast::Span;
use crate::lex::{Keyword, Spanned, Token};

use super::model::{
    BlockM, CommentM, EncodingM, EnumItemM, EnumM, FieldM, IdentM, IncludeM, MessageItemM, MessageM,
    PackageM, ReferenceM, SchemaItemM, SchemaM, TypeM, UnitVariantM,
};
use super::path::{import_path_result, ImportPathErrorView};

verus! {

/// A sequence of tokens.
pub type Tokens = Seq<Spanned<Token>>;

/// The end of the input: the end of the last token's span, or 0.
pub open spec fn eoi(ts: Tokens) -> usize {
    if ts.len() > 0 {
        ts.last().span.end
    } else {
        0
    }
}

/// The span of the tokens `ts[a..b]`: from the start of token `a` to the end
/// of token `b - 1` (the end of the input when `b` is 0); the empty span at
/// the end of the input when there is no token `a`.
pub open spec fn span_of(ts: Tokens, a: int, b: int) -> Span {
    if 0 <= a < ts.len() {
        Span {
            start: ts[a].span.start,
            end: if 0 < b <= ts.len() {
                ts[b - 1].span.end
            } else {
                eoi(ts)
            },
        }
    } else {
        Span { start: eoi(ts), end: eoi(ts) }
    }
}

/// Token `i` is `t`.
pub open spec fn is_tok(ts: Tokens, i: int, t: Token) -> bool {
    0 <= i < ts.len() && ts[i].inner == t
}

/// Token `i` is the identifier `w`.
pub open spec fn is_word(ts: Tokens, i: int, w: Seq<char>) -> bool {
    0 <= i < ts.len() && (ts[i].inner matches Token::Ident(s) && s@ == w)
}

/// Token `i` is the keyword `k`.
pub open spec fn is_keyword(ts: Tokens, i: int, k: Keyword) -> bool {
    is_tok(ts, i, Token::Keyword(k))
}

/// The first position at or after `i` that is not a line break.
pub open spec fn skip_newlines(ts: Tokens, i: int) -> int
    decreases ts.len() - i,
{
    if 0 <= i < ts.len() && ts[i].inner is Newline {
        skip_newlines(ts, i + 1)
    } else {
        i
    }
}

/* ------------------------------- Terminals ------------------------------- */

pub open spec fn comment_at(ts: Tokens, i: int) -> Option<CommentM> {
    if 0 <= i < ts.len() {
        match ts[i].inner {
            Token::Comment(c) => Some(CommentM { content: c@, span: ts[i].span }),
            _ => None,
        }
    } else {
        None
    }
}

pub open spec fn ident_at(ts: Tokens, i: int) -> Option<IdentM> {
    if 0 <= i < ts.len() {
        match ts[i].inner {
            Token::Ident(s) => Some(IdentM { name: s@, span: ts[i].span }),
            _ => None,
        }
    } else {
        None
    }
}

pub open spec fn uint_at(ts: Tokens, i: int) -> Option<ast::Uint> {
    if 0 <= i < ts.len() {
        match ts[i].inner {
            Token::Uint(n) => Some(ast::Uint { value: n, span: ts[i].span }),
            _ => None,
        }
    } else {
        None
    }
}

pub open spec fn text_at(ts: Tokens, i: int) -> Option<Seq<char>> {
    if 0 <= i < ts.len() {
        match ts[i].inner {
            Token::String(s) => Some(s@),
            _ => None,
        }
    } else {
        None
    }
}

/* -------------------------------- Comments ------------------------------- */

/// Further comment lines of a block: each a line break then a comment.
pub open spec fn comment_tail(ts: Tokens, i: int) -> (Seq<CommentM>, int)
    decreases ts.len() - i,
{
    if is_tok(ts, i, Token::Newline) && comment_at(ts, i + 1) is Some {
        let rest = comment_tail(ts, i + 2);
        (seq![comment_at(ts, i + 1)->0] + rest.0, rest.1)
    } else {
        (Seq::empty(), i)
    }
}

/// A comment block: comment lines separated by line breaks, then a line break.
pub open spec fn comment_block(ts: Tokens, i: int) -> Option<(BlockM, int)> {
    match comment_at(ts, i) {
        Some(c) => {
            let (cs, k) = comment_tail(ts, i + 1);
            if is_tok(ts, k, Token::Newline) {
                Some((BlockM { comments: seq![c] + cs, span: span_of(ts, i, k + 1) }, k + 1))
            } else {
                None
            }
        },
        None => None,
    }
}

/// An inline comment: a comment that ends its line (a comment then a line
/// break).
pub open spec fn inline_comment(ts: Tokens, i: int) -> Option<(CommentM, int)> {
    match comment_at(ts, i) {
        Some(c) => if is_tok(ts, i + 1, Token::Newline) {
            Some((c, i + 2))
        } else {
            None
        },
        None => None,
    }
}

/// An optional comment block.
pub open spec fn opt_comment(ts: Tokens, i: int) -> (Option<BlockM>, int) {
    match comment_block(ts, i) {
        Some((b, j)) => (Some(b), j),
        None => (None, i),
    }
}

/* ---------------------------------- Types -------------------------------- */

/// The scalar type named `name`, if any.
pub open spec fn scalar_kind(name: Seq<char>) -> Option<ast::ScalarType> {
    if name == "bit"@ {
        Some(ast::ScalarType::Bit)
    } else if name == "bool"@ {
        Some(ast::ScalarType::Bool)
    } else if name == "byte"@ {
        Some(ast::ScalarType::Byte)
    } else if name == "u8"@ {
        Some(ast::ScalarType::Uint8)
    } else if name == "u16"@ {
        Some(ast::ScalarType::Uint16)
    } else if name == "u32"@ {
        Some(ast::ScalarType::Uint32)
    } else if name == "u64"@ {
        Some(ast::ScalarType::Uint64)
    } else if name == "i8"@ {
        Some(ast::ScalarType::Int8)
    } else if name == "i16"@ {
        Some(ast::ScalarType::Int16)
    } else if name == "i32"@ {
        Some(ast::ScalarType::Int32)
    } else if name == "i64"@ {
        Some(ast::ScalarType::Int64)
    } else if name == "f32"@ {
        Some(ast::ScalarType::Float32)
    } else if name == "f64"@ {
        Some(ast::ScalarType::Float64)
    } else if name == "string"@ {
        Some(ast::ScalarType::String)
    } else {
        None
    }
}

/// A scalar type: an identifier naming one of the built-in scalars.
pub open spec fn scalar(ts: Tokens, i: int) -> Option<ast::Scalar> {
    match ident_at(ts, i) {
        Some(id) => match scalar_kind(id.name) {
            Some(k) => Some(ast::Scalar { kind: k, span: ts[i].span }),
            None => None,
        },
        None => None,
    }
}

/// Further components of a dotted name: each a `.` then an identifier.
pub open spec fn dotted_tail(ts: Tokens, i: int) -> (Seq<IdentM>, int)
    decreases ts.len() - i,
{
    if is_tok(ts, i, Token::Dot) && ident_at(ts, i + 1) is Some {
        let rest = dotted_tail(ts, i + 2);
        (seq![ident_at(ts, i + 1)->0] + rest.0, rest.1)
    } else {
        (Seq::empty(), i)
    }
}

/// A dotted name: identifiers separated by `.`, at least one.
pub open spec fn dotted(ts: Tokens, i: int) -> Option<(Seq<IdentM>, int)> {
    match ident_at(ts, i) {
        Some(id) => {
            let (rest, k) = dotted_tail(ts, i + 1);
            Some((seq![id] + rest, k))
        },
        None => None,
    }
}

/// A reference: an optional leading `.` then a dotted name.
pub open spec fn reference(ts: Tokens, i: int) -> Option<(ReferenceM, int)> {
    let abs = is_tok(ts, i, Token::Dot);
    let j = if abs { i + 1 } else { i };
    match dotted(ts, j) {
        Some((cs, k)) => Some(
            (ReferenceM { components: cs, is_absolute: abs, span: span_of(ts, i, k) }, k),
        ),
        None => None,
    }
}

/// An array type: `[`, an optional size, `]`, a scalar.
pub open spec fn array(ts: Tokens, i: int) -> Option<(TypeM, int)> {
    if is_tok(ts, i, Token::ListOpen) {
        let size = uint_at(ts, i + 1);
        let j = if size is Some { i + 2 } else { i + 1 };
        if is_tok(ts, j, Token::ListClose) && scalar(ts, j + 1) is Some {
            Some(
                (
                    TypeM::Array(
                        Box::new(TypeM::Scalar(scalar(ts, j + 1)->0)),
                        size,
                        span_of(ts, i, j + 2),
                    ),
                    j + 2,
                ),
            )
        } else {
            None
        }
    } else {
        None
    }
}

/// A map type: `[`, a key scalar, `]`, a value scalar.
pub open spec fn mapping(ts: Tokens, i: int) -> Option<(TypeM, int)> {
    if is_tok(ts, i, Token::ListOpen) && scalar(ts, i + 1) is Some && is_tok(
        ts,
        i + 2,
        Token::ListClose,
    ) && scalar(ts, i + 3) is Some {
        Some(
            (
                TypeM::Mapping(
                    Box::new(TypeM::Scalar(scalar(ts, i + 1)->0)),
                    Box::new(TypeM::Scalar(scalar(ts, i + 3)->0)),
                    span_of(ts, i, i + 4),
                ),
                i + 4,
            ),
        )
    } else {
        None
    }
}

/// A type: an array, a map, a scalar or a reference, in that order.
pub open spec fn typ(ts: Tokens, i: int) -> Option<(TypeM, int)> {
    if array(ts, i) is Some {
        array(ts, i)
    } else if mapping(ts, i) is Some {
        mapping(ts, i)
    } else if scalar(ts, i) is Some {
        Some((TypeM::Scalar(scalar(ts, i)->0), i + 1))
    } else {
        match reference(ts, i) {
            Some((r, k)) => Some((TypeM::Reference(r), k)),
            None => None,
        }
    }
}

/* -------------------------------- Encodings ------------------------------ */

/// `(` integer `)` at `i`.
pub open spec fn call_arg(ts: Tokens, i: int) -> Option<ast::Uint> {
    if is_tok(ts, i, Token::FnOpen) && uint_at(ts, i + 1) is Some && is_tok(
        ts,
        i + 2,
        Token::FnClose,
    ) {
        uint_at(ts, i + 1)
    } else {
        None
    }
}

/// An encoding: `bits(N)`, `bits(var(N))`, `fixed_point(N, M)`, `delta`,
/// `zigzag` or `pad(N)`, tried in that order.
pub open spec fn encoding_kind(ts: Tokens, i: int) -> Option<(ast::EncodingKind, int)> {
    if is_word(ts, i, "bits"@) && call_arg(ts, i + 1) is Some {
        Some((ast::EncodingKind::Bits(call_arg(ts, i + 1)->0), i + 4))
    } else if is_word(ts, i, "bits"@) && is_tok(ts, i + 1, Token::FnOpen) && is_word(
        ts,
        i + 2,
        "var"@,
    ) && call_arg(ts, i + 3) is Some && is_tok(ts, i + 6, Token::FnClose) {
        Some((ast::EncodingKind::BitsVariable(call_arg(ts, i + 3)->0), i + 7))
    } else if is_word(ts, i, "fixed_point"@) && is_tok(ts, i + 1, Token::FnOpen) && uint_at(
        ts,
        i + 2,
    ) is Some && is_tok(ts, i + 3, Token::Comma) && uint_at(ts, i + 4) is Some && is_tok(
        ts,
        i + 5,
        Token::FnClose,
    ) {
        Some(
            (
                ast::EncodingKind::FixedPoint(uint_at(ts, i + 2)->0, uint_at(ts, i + 4)->0),
                i + 6,
            ),
        )
    } else if is_word(ts, i, "delta"@) {
        Some((ast::EncodingKind::Delta, i + 1))
    } else if is_word(ts, i, "zigzag"@) {
        Some((ast::EncodingKind::ZigZag, i + 1))
    } else if is_word(ts, i, "pad"@) && call_arg(ts, i + 1) is Some {
        Some((ast::EncodingKind::Pad(call_arg(ts, i + 1)->0), i + 4))
    } else {
        None
    }
}

/// Further encodings of a list: each a `,` and line breaks, then an encoding;
/// a trailing `,` (with its line breaks) is consumed.
pub open spec fn encoding_tail(ts: Tokens, i: int) -> (Seq<ast::EncodingKind>, int)
    decreases ts.len() - i,
{
    if is_tok(ts, i, Token::Comma) {
        let j = skip_newlines(ts, i + 1);
        match encoding_kind(ts, j) {
            Some((k, m)) => if m > i {
                let rest = encoding_tail(ts, m);
                (seq![k] + rest.0, rest.1)
            } else {
                (seq![k], m)
            },
            None => (Seq::empty(), j),
        }
    } else {
        (Seq::empty(), i)
    }
}

/// An encoding list body: zero or more encodings separated by commas.
pub open spec fn encoding_list(ts: Tokens, i: int) -> (Seq<ast::EncodingKind>, int) {
    match encoding_kind(ts, i) {
        Some((k, m)) => {
            let rest = encoding_tail(ts, m);
            (seq![k] + rest.0, rest.1)
        },
        None => (Seq::empty(), i),
    }
}

/// A field's encoding: one encoding, or a bracketed list of them.
pub open spec fn encoding(ts: Tokens, i: int) -> Option<(EncodingM, int)> {
    match encoding_kind(ts, i) {
        Some((k, j)) => Some((EncodingM { kinds: seq![k], span: span_of(ts, i, j) }, j)),
        None => if is_tok(ts, i, Token::ListOpen) {
            let (ks, k) = encoding_list(ts, skip_newlines(ts, i + 1));
            let c = skip_newlines(ts, k);
            if is_tok(ts, c, Token::ListClose) {
                Some((EncodingM { kinds: ks, span: span_of(ts, i, c + 1) }, c + 1))
            } else {
                None
            }
        } else {
            None
        },
    }
}

/* ------------------------------ Declarations ----------------------------- */

/// A field or variant index: an integer then `:`.
pub open spec fn field_index(ts: Tokens, i: int) -> Option<(ast::FieldIndex, int)> {
    match uint_at(ts, i) {
        Some(u) => if is_tok(ts, i + 1, Token::Colon) {
            Some((ast::FieldIndex { value: u, span: span_of(ts, i, i + 2) }, i + 2))
        } else {
            None
        },
        None => None,
    }
}

/// An optional field index.
pub open spec fn opt_index(ts: Tokens, i: int) -> (Option<ast::FieldIndex>, int) {
    match field_index(ts, i) {
        Some((f, j)) => (Some(f), j),
        None => (None, i),
    }
}

/// An optional `=` and encoding.
pub open spec fn opt_encoding(ts: Tokens, i: int) -> (Option<EncodingM>, int) {
    if is_tok(ts, i, Token::Equal) {
        match encoding(ts, i + 1) {
            Some((e, j)) => (Some(e), j),
            None => (None, i),
        }
    } else {
        (None, i)
    }
}

/// A field: optional comment block and index, a type, a name, an optional
/// `=` encoding, then `;`.
pub open spec fn field(ts: Tokens, i: int) -> Option<(FieldM, int)> {
    let (c, a) = opt_comment(ts, i);
    let (ix, b) = opt_index(ts, a);
    match typ(ts, b) {
        Some((t, d)) => match ident_at(ts, d) {
            Some(n) => {
                let (enc, e) = opt_encoding(ts, d + 1);
                if is_tok(ts, e, Token::Semicolon) {
                    Some(
                        (
                            FieldM {
                                comment: c,
                                encoding: enc,
                                index: ix,
                                kind: t,
                                name: n,
                                span: span_of(ts, i, e + 1),
                            },
                            e + 1,
                        ),
                    )
                } else {
                    None
                }
            },
            None => None,
        },
        None => None,
    }
}

/// A unit variant: optional comment block and index, a name, then `;`.
pub open spec fn unit_variant(ts: Tokens, i: int) -> Option<(UnitVariantM, int)> {
    let (c, a) = opt_comment(ts, i);
    let (ix, b) = opt_index(ts, a);
    match ident_at(ts, b) {
        Some(n) => if is_tok(ts, b + 1, Token::Semicolon) {
            Some(
                (
                    UnitVariantM { comment: c, index: ix, name: n, span: span_of(ts, i, b + 2) },
                    b + 2,
                ),
            )
        } else {
            None
        },
        None => None,
    }
}

/// An enum item: a field variant, a unit variant or a comment block.
pub open spec fn enum_item(ts: Tokens, i: int) -> Option<(EnumItemM, int)> {
    match field(ts, i) {
        Some((f, j)) => Some((EnumItemM::FieldVariant(f), j)),
        None => match unit_variant(ts, i) {
            Some((u, j)) => Some((EnumItemM::UnitVariant(u), j)),
            None => match comment_block(ts, i) {
                Some((b, j)) => Some((EnumItemM::CommentBlock(b), j)),
                None => None,
            },
        },
    }
}

/// Enum items, each preceded by any number of line breaks; line breaks after
/// the last item are consumed.
pub open spec fn enum_items(ts: Tokens, i: int) -> (Seq<EnumItemM>, int)
    decreases ts.len() - i,
{
    let j = skip_newlines(ts, i);
    match enum_item(ts, j) {
        Some((x, k)) => if k > i {
            let rest = enum_items(ts, k);
            (seq![x] + rest.0, rest.1)
        } else {
            (seq![x], k)
        },
        None => (Seq::empty(), j),
    }
}

/// Token `k` closes a block.
pub open spec fn closes_at(ts: Tokens, k: int) -> bool {
    is_tok(ts, k, Token::BlockClose)
}

/// An enum: optional comment block, `enum`, a name, `{`, items, `}`, and any
/// line breaks after it.
pub open spec fn enumeration(ts: Tokens, i: int) -> Option<(EnumM, int)> {
    let (c, a) = opt_comment(ts, i);
    if is_keyword(ts, a, Keyword::Enum) && ident_at(ts, a + 1) is Some && is_tok(
        ts,
        a + 2,
        Token::BlockOpen,
    ) {
        let (items, k) = enum_items(ts, a + 3);
        if closes_at(ts, k) {
            let e = skip_newlines(ts, k + 1);
            Some(
                (
                    EnumM {
                        comment: c,
                        items: items,
                        name: ident_at(ts, a + 1)->0,
                        span: span_of(ts, i, e),
                    },
                    e,
                ),
            )
        } else {
            None
        }
    } else {
        None
    }
}

/// A message: optional comment block, `message`, a name, `{`, items, `}`,
/// and any line breaks after it.
pub open spec fn message(ts: Tokens, i: int) -> Option<(MessageM, int)>
    decreases ts.len() - i, 0int,
{
    let (c, a) = opt_comment(ts, i);
    if a >= i && is_keyword(ts, a, Keyword::Message) && ident_at(ts, a + 1) is Some && is_tok(
        ts,
        a + 2,
        Token::BlockOpen,
    ) {
        let (items, k) = message_items(ts, a + 3);
        if closes_at(ts, k) {
            let e = skip_newlines(ts, k + 1);
            Some(
                (
                    MessageM {
                        comment: c,
                        items: items,
                        name: ident_at(ts, a + 1)->0,
                        span: span_of(ts, i, e),
                    },
                    e,
                ),
            )
        } else {
            None
        }
    } else {
        None
    }
}

/// A message item: a message, an enum, a field or a comment block.
pub open spec fn message_item(ts: Tokens, i: int) -> Option<(MessageItemM, int)>
    decreases ts.len() - i, 1int,
{
    match message(ts, i) {
        Some((m, j)) => Some((MessageItemM::Message(m), j)),
        None => match enumeration(ts, i) {
            Some((e, j)) => Some((MessageItemM::Enum(e), j)),
            None => match field(ts, i) {
                Some((f, j)) => Some((MessageItemM::Field(f), j)),
                None => match comment_block(ts, i) {
                    Some((b, j)) => Some((MessageItemM::CommentBlock(b), j)),
                    None => None,
                },
            },
        },
    }
}

/// Message items, each preceded by any number of line breaks; line breaks
/// after the last item are consumed.
pub open spec fn message_items(ts: Tokens, i: int) -> (Seq<MessageItemM>, int)
    decreases ts.len() - i, 2int,
{
    let j = skip_newlines(ts, i);
    if i <= j <= ts.len() {
        match message_item(ts, j) {
            Some((x, k)) => if i < k <= ts.len() {
                let rest = message_items(ts, k);
                (seq![x] + rest.0, rest.1)
            } else {
                (seq![x], k)
            },
            None => (Seq::empty(), j),
        }
    } else {
        (Seq::empty(), i)
    }
}

/// A package declaration: optional comment block, `package`, a dotted name,
/// then `;`.
pub open spec fn package(ts: Tokens, i: int) -> Option<(PackageM, int)> {
    let (c, a) = opt_comment(ts, i);
    if is_keyword(ts, a, Keyword::Package) {
        match dotted(ts, a + 1) {
            Some((cs, k)) => if is_tok(ts, k, Token::Semicolon) {
                Some((PackageM { comment: c, components: cs, span: span_of(ts, i, k + 1) }, k + 1))
            } else {
                None
            },
            None => None,
        }
    } else {
        None
    }
}

/// An include statement: `include`, a string, then `;`. The path is the
/// string's validated segments, or empty when the string is rejected.
pub open spec fn import(ts: Tokens, i: int) -> Option<(IncludeM, Option<ImportPathErrorView>, int)> {
    if is_keyword(ts, i, Keyword::Include) && text_at(ts, i + 1) is Some && is_tok(
        ts,
        i + 2,
        Token::Semicolon,
    ) {
        let span = span_of(ts, i, i + 3);
        match import_path_result(text_at(ts, i + 1)->0) {
            Ok(p) => Some((IncludeM { path: p, span }, None, i + 3)),
            Err(e) => Some((IncludeM { path: Seq::empty(), span }, Some(e), i + 3)),
        }
    } else {
        None
    }
}

/* ---------------------------------- Schema ------------------------------- */

/// An item of the header of a schema: a package declaration or a comment
/// block.
pub open spec fn header_item(ts: Tokens, i: int) -> Option<(SchemaItemM, int)> {
    match package(ts, i) {
        Some((p, j)) => Some((SchemaItemM::Package(p), j)),
        None => match comment_block(ts, i) {
            Some((b, j)) => Some((SchemaItemM::CommentBlock(b), j)),
            None => None,
        },
    }
}

/// Header items, each preceded by any number of line breaks.
pub open spec fn header_items(ts: Tokens, i: int) -> (Seq<SchemaItemM>, int)
    decreases ts.len() - i,
{
    let j = skip_newlines(ts, i);
    match header_item(ts, j) {
        Some((x, k)) => if k > i {
            let rest = header_items(ts, k);
            (seq![x] + rest.0, rest.1)
        } else {
            (seq![x], k)
        },
        None => (Seq::empty(), j),
    }
}

/// An error found while parsing, as a value.
pub enum ParseErrorKindView {
    MissingInput,
    UnexpectedToken,
    DepthLimit(usize),
    InvalidImport(ImportPathErrorView),
}

pub struct ParseErrorView {
    pub kind: ParseErrorKindView,
    pub span: Span,
}

/// An item of the body of a schema: an include, an enum, a message or a
/// comment block, with the error of a rejected include path.
pub open spec fn body_item(ts: Tokens, i: int) -> Option<(SchemaItemM, Seq<ParseErrorView>, int)> {
    match import(ts, i) {
        Some((inc, err, j)) => Some(
            (
                SchemaItemM::Include(inc),
                match err {
                    Some(e) => seq![
                        ParseErrorView { kind: ParseErrorKindView::InvalidImport(e), span: inc.span },
                    ],
                    None => Seq::empty(),
                },
                j,
            ),
        ),
        None => match enumeration(ts, i) {
            Some((e, j)) => Some((SchemaItemM::Enum(e), Seq::empty(), j)),
            None => match message(ts, i) {
                Some((m, j)) => Some((SchemaItemM::Message(m), Seq::empty(), j)),
                None => match comment_block(ts, i) {
                    Some((b, j)) => Some((SchemaItemM::CommentBlock(b), Seq::empty(), j)),
                    None => None,
                },
            },
        },
    }
}

/// Body items, each preceded by any number of line breaks, with the errors
/// of their rejected include paths in order.
pub open spec fn body_items(ts: Tokens, i: int) -> (Seq<SchemaItemM>, Seq<ParseErrorView>, int)
    decreases ts.len() - i,
{
    let j = skip_newlines(ts, i);
    match body_item(ts, j) {
        Some((x, es, k)) => if i < k <= ts.len() {
            let rest = body_items(ts, k);
            (seq![x] + rest.0, es + rest.1, rest.2)
        } else {
            (seq![x], es, k)
        },
        None => (Seq::empty(), Seq::empty(), j),
    }
}

/// A schema: header items, then body items. Always matches; the position
/// tells how far.
pub open spec fn schema(ts: Tokens) -> (SchemaM, Seq<ParseErrorView>, int) {
    let (head, p) = header_items(ts, 0);
    let (body, es, q) = body_items(ts, p);
    (SchemaM { items: head + body, span: span_of(ts, 0, q) }, es, q)
}

/* ------------------------------ Nesting depth ---------------------------- */

/// The span of the first message, in document order, nested at `level` or
/// deeper below `m` (which is at `level`), where `limit` is the first level
/// not allowed.
pub open spec fn too_deep(m: MessageM, level: int, limit: int) -> Option<Span>
    decreases m, m.items.len() + 1,
{
    if level >= limit {
        Some(m.span)
    } else {
        items_too_deep(m, 0, level + 1, limit)
    }
}

/// The first too-deep message among the items `k..` of `m`, whose nested
/// messages are at `level`.
pub open spec fn items_too_deep(m: MessageM, k: int, level: int, limit: int) -> Option<Span>
    decreases m, m.items.len() - k,
{
    if 0 <= k < m.items.len() {
        let here = match m.items[k] {
            MessageItemM::Message(n) => too_deep(n, level, limit),
            _ => None,
        };
        if here is Some {
            here
        } else {
            items_too_deep(m, k + 1, level, limit)
        }
    } else {
        None
    }
}

/// The first too-deep message among the schema items `k..`, where top-level
/// messages are at level 1.
pub open spec fn schema_too_deep(items: Seq<SchemaItemM>, k: int, limit: int) -> Option<Span>
    decreases items.len() - k,
{
    if 0 <= k < items.len() {
        let here = match items[k] {
            SchemaItemM::Message(m) => too_deep(m, 1, limit),
            _ => None,
        };
        if here is Some {
            here
        } else {
            schema_too_deep(items, k + 1, limit)
        }
    } else {
        None
    }
}

/// The outcome of parsing a whole token sequence as a schema, with messages
/// allowed to nest below level `limit`: the tree when the tokens form a
/// schema whose messages are nested less than `limit` deep, and the errors
/// found (rejected include paths first, in order).
pub open spec fn parse_outcome(ts: Tokens, limit: usize) -> (Option<SchemaM>, Seq<ParseErrorView>) {
    if ts.len() == 0 {
        (
            None,
            seq![
                ParseErrorView { kind: ParseErrorKindView::MissingInput, span: Span { start: 0, end: 0 } },
            ],
        )
    } else {
        let (s, es, q) = schema(ts);
        if q < ts.len() {
            (
                None,
                es.push(ParseErrorView { kind: ParseErrorKindView::UnexpectedToken, span: ts[q].span }),
            )
        } else {
            match schema_too_deep(s.items, 0, limit as int) {
                Some(sp) => (
                    None,
                    es.push(ParseErrorView { kind: ParseErrorKindView::DepthLimit(limit), span: sp }),
                ),
                None => (Some(s), es),
            }
        }
    }
}

} // verus!
