//! Lexing a single token of a given class at the start of a text.
//!
//! Each function here recognizes one class of token at the start of its
//! input (leading blanks are not skipped) and ignores what follows it. A
//! token whose text has a fault (a string holding a line break, an integer
//! above `u64::MAX`) is given as [`Token::Invalid`].

use vstd::prelude::*;

use super::lexer::{
    collect_chars, ident_char, is_digit, is_ident_start, is_line_break, keyword_at,
    lemma_token_at_bounds, mark_lexeme, scan, scan_class, spanned_matches, token, token_at, Lexeme,
};
use crate::text::byte_positions;
use vstd::utf8::encode_utf8;
use super::token::{Spanned, Token};
use crate::ast::Span;

verus! {

/// The classes of tokens.
#[derive(Clone, Copy, Debug, PartialEq, Eq)]
pub enum TokenClass {
    Comment,
    Identifier,
    Keyword,
    LineBreak,
    Operator,
    Punctuation,
    Str,
    Uint,
}

/// A token of class `k` can start with the first character of `s`.
pub open spec fn class_starts(k: TokenClass, s: Seq<char>) -> bool {
    s.len() > 0 && match k {
        TokenClass::Comment => s[0] == '/',
        TokenClass::Identifier => is_ident_start(s[0]),
        TokenClass::Keyword => keyword_at(s, 0) is Some,
        TokenClass::LineBreak => is_line_break(s[0]),
        TokenClass::Operator => s[0] == '=',
        TokenClass::Punctuation => mark_lexeme(s[0]) is Some && s[0] != '=',
        TokenClass::Str => s[0] == '"',
        TokenClass::Uint => is_digit(s[0]),
    }
}

/// The token of class `k` at the start of `s`: its lexeme and the span of
/// its text. An identifier is a letter or `_` followed by letters, digits
/// and `_` (a keyword too is an identifier here); the other classes are
/// recognized as the lexer recognizes them.
pub open spec fn single_token(k: TokenClass, s: Seq<char>) -> Option<(Lexeme, int, int)> {
    if !class_starts(k, s) {
        None
    } else if k is Identifier {
        Some((Lexeme::Ident, 0, scan(s, 1, ident_char())))
    } else {
        match token_at(s, 0) {
            Some((lx, a, b, _, _)) => Some((lx, a, b)),
            None => None,
        }
    }
}

fn starts(k: TokenClass, input: &str, chars: &Vec<char>) -> (r: bool)
    requires
        chars@ == input@,
    ensures
        r == class_starts(k, input@),
{
    if chars.len() == 0 {
        return false;
    }
    let c = chars[0];
    match k {
        TokenClass::Comment => c == '/',
        TokenClass::Identifier => ('a' <= c && c <= 'z') || ('A' <= c && c <= 'Z') || c == '_',
        TokenClass::Keyword => super::lexer::keyword_exec(chars, 0).is_some(),
        TokenClass::LineBreak => c == '\n' || c == '\r' || c == '\x0B' || c == '\x0C' || c
            == '\u{85}' || c == '\u{2028}' || c == '\u{2029}',
        TokenClass::Operator => c == '=',
        TokenClass::Punctuation => c == ',' || c == '.' || c == ';' || c == ':' || c == '(' || c
            == ')' || c == '[' || c == ']' || c == '{' || c == '}',
        TokenClass::Str => c == '"',
        TokenClass::Uint => '0' <= c && c <= '9',
    }
}

/// The token of class `k` at the start of `input`, if one is there; its
/// span counts bytes of the UTF-8 encoding of `input`.
pub fn lex_single(input: &str, k: TokenClass) -> (r: Option<Spanned<Token>>)
    requires
        encode_utf8(input@).len() <= usize::MAX,
    ensures
        match single_token(k, input@) {
            Some(t) => r matches Some(x) && spanned_matches(x, t, input@),
            None => r is None,
        },
{
    let chars = collect_chars(input);
    if !starts(k, input, &chars) {
        return None;
    }
    let pos = byte_positions(&chars);
    match k {
        TokenClass::Identifier => {
            let end = scan_class(&chars, 1, 5);
            let text = input.substring_char(0, end).to_string();
            Some(Spanned { inner: Token::Ident(text), span: Span { start: pos[0], end: pos[end] } })
        },
        _ => {
            proof {
                lemma_token_at_bounds(input@, 0);
            }
            match token(input, &chars, 0) {
                Some((t, a, b, _, _)) => Some(
                    Spanned { inner: t, span: Span { start: pos[a], end: pos[b] } },
                ),
                None => None,
            }
        },
    }
}

/// A `//` comment.
pub fn comment(input: &str) -> (r: Option<Spanned<Token>>)
    requires
        encode_utf8(input@).len() <= usize::MAX,
    ensures
        match single_token(TokenClass::Comment, input@) {
            Some(t) => r matches Some(x) && spanned_matches(x, t, input@),
            None => r is None,
        },
{
    lex_single(input, TokenClass::Comment)
}

/// An identifier.
pub fn identifier(input: &str) -> (r: Option<Spanned<Token>>)
    requires
        encode_utf8(input@).len() <= usize::MAX,
    ensures
        match single_token(TokenClass::Identifier, input@) {
            Some(t) => r matches Some(x) && spanned_matches(x, t, input@),
            None => r is None,
        },
{
    lex_single(input, TokenClass::Identifier)
}

/// A keyword written as a whole word.
pub fn keyword(input: &str) -> (r: Option<Spanned<Token>>)
    requires
        encode_utf8(input@).len() <= usize::MAX,
    ensures
        match single_token(TokenClass::Keyword, input@) {
            Some(t) => r matches Some(x) && spanned_matches(x, t, input@),
            None => r is None,
        },
{
    lex_single(input, TokenClass::Keyword)
}

/// A run of line breaks.
pub fn line_break(input: &str) -> (r: Option<Spanned<Token>>)
    requires
        encode_utf8(input@).len() <= usize::MAX,
    ensures
        match single_token(TokenClass::LineBreak, input@) {
            Some(t) => r matches Some(x) && spanned_matches(x, t, input@),
            None => r is None,
        },
{
    lex_single(input, TokenClass::LineBreak)
}

/// The operator `=`.
pub fn operator(input: &str) -> (r: Option<Spanned<Token>>)
    requires
        encode_utf8(input@).len() <= usize::MAX,
    ensures
        match single_token(TokenClass::Operator, input@) {
            Some(t) => r matches Some(x) && spanned_matches(x, t, input@),
            None => r is None,
        },
{
    lex_single(input, TokenClass::Operator)
}

/// A punctuation mark.
pub fn punctuation(input: &str) -> (r: Option<Spanned<Token>>)
    requires
        encode_utf8(input@).len() <= usize::MAX,
    ensures
        match single_token(TokenClass::Punctuation, input@) {
            Some(t) => r matches Some(x) && spanned_matches(x, t, input@),
            None => r is None,
        },
{
    lex_single(input, TokenClass::Punctuation)
}

/// A string literal.
pub fn string(input: &str) -> (r: Option<Spanned<Token>>)
    requires
        encode_utf8(input@).len() <= usize::MAX,
    ensures
        match single_token(TokenClass::Str, input@) {
            Some(t) => r matches Some(x) && spanned_matches(x, t, input@),
            None => r is None,
        },
{
    lex_single(input, TokenClass::Str)
}

/// An unsigned integer literal.
pub fn uint(input: &str) -> (r: Option<Spanned<Token>>)
    requires
        encode_utf8(input@).len() <= usize::MAX,
    ensures
        match single_token(TokenClass::Uint, input@) {
            Some(t) => r matches Some(x) && spanned_matches(x, t, input@),
            None => r is None,
        },
{
    lex_single(input, TokenClass::Uint)
}

} // verus!
