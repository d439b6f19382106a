//! The lexer: schema source text to a sequence of spanned tokens.
//!
//! Blanks (spaces and tabs) separate tokens. At each position the first of
//! these that applies gives the token: a string literal, a `//` comment, a
//! run of line breaks, `=`, a punctuation mark, a keyword (a whole word),
//! an unsigned integer, an ASCII identifier. Where no token starts, the
//! lexer skips characters until one starts that lexes without a fault and
//! reports the skipped stretch. Input that ends in text where no token ever
//! starts again gives no token list at all.

use vstd::prelude::*;
use vstd::string::{StrSliceExecFns, StringExecFns};

use super::token::{Keyword, Spanned, Token};
use crate::ast::Span;
use crate::text::{byte_pos, byte_positions};
use vstd::utf8::encode_utf8;

verus! {

/// Why a stretch of input could not be lexed.
#[derive(Clone, Copy, Debug, PartialEq, Eq)]
pub enum LexErrorKind {
    /// The input is empty.
    MissingInput,
    /// No token starts at the reported stretch; it was skipped.
    UnexpectedInput,
    /// An integer literal exceeds `u64::MAX`.
    IntegerOverflow,
    /// A string literal holds a line break.
    StringLineBreak,
    /// The input ends in text where no token starts.
    TrailingInput,
}

/// An error found while lexing, with the span it concerns.
#[derive(Clone, Copy, Debug, PartialEq, Eq)]
pub struct LexError {
    pub kind: LexErrorKind,
    pub span: Span,
}

/// The first character position of `s`, from `k` on, whose UTF-8 position
/// is at least `b` (the end of `s` when there is none).
pub open spec fn char_at_byte_from(s: Seq<char>, b: int, k: int) -> int
    decreases s.len() - k,
{
    if k >= s.len() || byte_pos(s, k) >= b {
        k
    } else {
        char_at_byte_from(s, b, k + 1)
    }
}

/// The text of `s` that the byte span `span` covers.
pub open spec fn span_text(s: Seq<char>, span: Span) -> Seq<char> {
    let a = char_at_byte_from(s, span.start as int, 0);
    let b = char_at_byte_from(s, span.end as int, 0);
    if a <= b {
        s.subrange(a, b)
    } else {
        Seq::empty()
    }
}

/// The description of a lexer error found in `s`.
pub open spec fn lex_error_text(e: LexError, s: Seq<char>) -> Seq<char> {
    match e.kind {
        LexErrorKind::MissingInput => "missing input"@,
        LexErrorKind::IntegerOverflow => "invalid input: integer value exceeds maximum (18446744073709551615): "@
            + span_text(s, e.span),
        LexErrorKind::StringLineBreak => "invalid input: strings cannot contain line breaks"@,
        LexErrorKind::UnexpectedInput => "invalid input: unexpected text: "@ + span_text(s, e.span),
        LexErrorKind::TrailingInput => "invalid input: unexpected text: "@ + span_text(s, e.span),
    }
}

/// The first character position whose UTF-8 position is at least `b`.
fn char_at_byte(pos: &Vec<usize>, n: usize, b: usize, Ghost(s): Ghost<Seq<char>>) -> (r: usize)
    requires
        n == s.len(),
        pos@.len() == n + 1,
        forall|i: int| 0 <= i <= n ==> pos@[i] == byte_pos(s, i),
    ensures
        r == char_at_byte_from(s, b as int, 0),
        r <= n,
{
    let mut k: usize = 0;
    while k < n && pos[k] < b
        invariant
            k <= n,
            n == s.len(),
            pos@.len() == n + 1,
            forall|i: int| 0 <= i <= n ==> pos@[i] == byte_pos(s, i),
            char_at_byte_from(s, b as int, 0) == char_at_byte_from(s, b as int, k as int),
        decreases n - k,
    {
        k = k + 1;
    }
    k
}

impl LexError {
    /// The human readable description of the error, for the input `input`
    /// it was found in.
    pub fn message(&self, input: &str) -> (r: String)
        requires
            encode_utf8(input@).len() <= usize::MAX,
        ensures
            r@ == lex_error_text(*self, input@),
    {
        match self.kind {
            LexErrorKind::MissingInput => {
                return String::from_str("missing input");
            },
            LexErrorKind::StringLineBreak => {
                return String::from_str("invalid input: strings cannot contain line breaks");
            },
            _ => {},
        }
        let chars = collect_chars(input);
        let n = chars.len();
        let pos = byte_positions(&chars);
        let a = char_at_byte(&pos, n, self.span.start, Ghost(input@));
        let b = char_at_byte(&pos, n, self.span.end, Ghost(input@));
        let text = if a <= b {
            input.substring_char(a, b)
        } else {
            proof {
                reveal_strlit("");
            }
            ""
        };
        let mut m = match self.kind {
            LexErrorKind::IntegerOverflow => String::from_str(
                "invalid input: integer value exceeds maximum (18446744073709551615): ",
            ),
            _ => String::from_str("invalid input: unexpected text: "),
        };
        m.append(text);
        m
    }
}

/// The outcome of lexing: the tokens (absent when the input ends in text
/// that cannot be lexed) and the errors found.
pub struct LexResult {
    pub tokens: Option<Vec<Spanned<Token>>>,
    pub errors: Vec<LexError>,
}

/// The kind of token found, with the value of an integer.
pub enum Lexeme {
    Invalid,
    BlockClose,
    BlockOpen,
    Colon,
    Comma,
    Dot,
    Equal,
    FnClose,
    FnOpen,
    Keyword(Keyword),
    ListClose,
    ListOpen,
    Semicolon,
    Newline,
    Comment,
    Ident,
    Str,
    Uint(u64),
}

/// A blank that separates tokens.
pub open spec fn is_blank(c: char) -> bool {
    c == ' ' || c == '\t'
}

/// A line break character.
pub open spec fn is_line_break(c: char) -> bool {
    c == '\n' || c == '\r' || c == '\x0B' || c == '\x0C' || c == '\u{85}' || c == '\u{2028}' || c
        == '\u{2029}'
}

pub open spec fn is_digit(c: char) -> bool {
    '0' <= c && c <= '9'
}

pub open spec fn is_ident_start(c: char) -> bool {
    ('a' <= c && c <= 'z') || ('A' <= c && c <= 'Z') || c == '_'
}

pub open spec fn is_ident_char(c: char) -> bool {
    is_ident_start(c) || is_digit(c)
}

/// Whether `c` has the Unicode property XID_Continue, as
/// `unicode_ident::is_xid_continue` computes it.
pub uninterp spec fn xid_continue(c: char) -> bool;

/// Calls `unicode_ident::is_xid_continue`. The contract ties the result to
/// the name of that function's result and states the ASCII part of its
/// table (letters, digits and `_`); the rest of the Unicode tables is not
/// stated.
#[verifier::external_body]
fn is_xid_continue(c: char) -> (r: bool)
    ensures
        r == xid_continue(c),
        (c as u32) < 128 ==> (r <==> (crate::text::is_ascii_alnum(c) || c == '_')),
{
    unicode_ident::is_xid_continue(c)
}

/// Whether `c` continues a word, so that a keyword directly before it is
/// not a whole word: for ASCII, a letter, a digit or `_`; otherwise, a
/// character with the Unicode property XID_Continue.
pub open spec fn continues_word(c: char) -> bool {
    if (c as u32) < 128 {
        crate::text::is_word_char(c)
    } else {
        xid_continue(c)
    }
}

/// Whether `c` continues a word.
fn char_continues_word(c: char) -> (r: bool)
    ensures
        r == continues_word(c),
{
    if (c as u32) < 128 {
        crate::text::char_is_word(c)
    } else {
        is_xid_continue(c)
    }
}

/// The first position at or after `i` whose character does not satisfy
/// `keep` (or the end of `s`).
pub open spec fn scan(s: Seq<char>, i: int, keep: spec_fn(char) -> bool) -> int
    decreases s.len() - i,
{
    if 0 <= i < s.len() && keep(s[i]) {
        scan(s, i + 1, keep)
    } else {
        i
    }
}

pub proof fn lemma_scan(s: Seq<char>, i: int, keep: spec_fn(char) -> bool)
    requires
        0 <= i <= s.len(),
    ensures
        i <= scan(s, i, keep) <= s.len(),
        forall|j: int| i <= j < scan(s, i, keep) ==> keep(#[trigger] s[j]),
        scan(s, i, keep) < s.len() ==> !keep(s[scan(s, i, keep)]),
    decreases s.len() - i,
{
    if i < s.len() && keep(s[i]) {
        lemma_scan(s, i + 1, keep);
    }
}

pub proof fn lemma_scan_unique(s: Seq<char>, i: int, e: int, keep: spec_fn(char) -> bool)
    requires
        0 <= i <= e <= s.len(),
        forall|j: int| i <= j < e ==> keep(#[trigger] s[j]),
        e < s.len() ==> !keep(s[e]),
    ensures
        scan(s, i, keep) == e,
    decreases e - i,
{
    if i < e {
        lemma_scan_unique(s, i + 1, e, keep);
    }
}

pub open spec fn blank() -> spec_fn(char) -> bool {
    |c: char| is_blank(c)
}

pub open spec fn not_quote() -> spec_fn(char) -> bool {
    |c: char| c != '"'
}

pub open spec fn not_line_break() -> spec_fn(char) -> bool {
    |c: char| !is_line_break(c)
}

pub open spec fn line_break() -> spec_fn(char) -> bool {
    |c: char| is_line_break(c)
}

pub open spec fn digit() -> spec_fn(char) -> bool {
    |c: char| is_digit(c)
}

pub open spec fn ident_char() -> spec_fn(char) -> bool {
    |c: char| is_ident_char(c)
}

/// The value of a sequence of decimal digits.
pub open spec fn digits_value(t: Seq<char>) -> nat
    decreases t.len(),
{
    if t.len() == 0 {
        0
    } else {
        digits_value(t.drop_last()) * 10 + ((t.last() as int - '0' as int) as nat)
    }
}

pub open spec fn keyword_text(k: Keyword) -> Seq<char> {
    match k {
        Keyword::Encoding => "encoding"@,
        Keyword::Enum => "enum"@,
        Keyword::Include => "include"@,
        Keyword::Message => "message"@,
        Keyword::Package => "package"@,
    }
}

/// Keyword `k` is written at `q` as a whole word.
pub open spec fn keyword_here(s: Seq<char>, q: int, k: Keyword) -> bool {
    let t = keyword_text(k);
    q + t.len() <= s.len() && s.subrange(q, q + t.len()) == t && (q + t.len() == s.len()
        || !continues_word(s[q + t.len()]))
}

/// The keyword written at `q`, if any.
pub open spec fn keyword_at(s: Seq<char>, q: int) -> Option<Keyword> {
    if keyword_here(s, q, Keyword::Encoding) {
        Some(Keyword::Encoding)
    } else if keyword_here(s, q, Keyword::Enum) {
        Some(Keyword::Enum)
    } else if keyword_here(s, q, Keyword::Include) {
        Some(Keyword::Include)
    } else if keyword_here(s, q, Keyword::Message) {
        Some(Keyword::Message)
    } else if keyword_here(s, q, Keyword::Package) {
        Some(Keyword::Package)
    } else {
        None
    }
}

/// The punctuation or operator token written as `c`, if any.
pub open spec fn mark_lexeme(c: char) -> Option<Lexeme> {
    if c == '=' {
        Some(Lexeme::Equal)
    } else if c == ',' {
        Some(Lexeme::Comma)
    } else if c == '.' {
        Some(Lexeme::Dot)
    } else if c == ';' {
        Some(Lexeme::Semicolon)
    } else if c == ':' {
        Some(Lexeme::Colon)
    } else if c == '(' {
        Some(Lexeme::FnOpen)
    } else if c == ')' {
        Some(Lexeme::FnClose)
    } else if c == '[' {
        Some(Lexeme::ListOpen)
    } else if c == ']' {
        Some(Lexeme::ListClose)
    } else if c == '{' {
        Some(Lexeme::BlockOpen)
    } else if c == '}' {
        Some(Lexeme::BlockClose)
    } else {
        None
    }
}

/// The token that starts at `q` (`q < s.len()`): its lexeme, the span of
/// its text, the position after it, and the fault found in it, if any.
pub open spec fn token_at(s: Seq<char>, q: int) -> Option<
    (Lexeme, int, int, int, Option<LexErrorKind>),
> {
    let c = s[q];
    if c == '"' {
        let close = scan(s, q + 1, not_quote());
        if close < s.len() {
            if exists|j: int| q + 1 <= j < close && is_line_break(#[trigger] s[j]) {
                Some((Lexeme::Invalid, q + 1, close, close + 1, Some(LexErrorKind::StringLineBreak)))
            } else {
                Some((Lexeme::Str, q + 1, close, close + 1, None))
            }
        } else {
            None
        }
    } else if c == '/' {
        if q + 1 < s.len() && s[q + 1] == '/' {
            let start = if q + 2 < s.len() && is_blank(s[q + 2]) {
                q + 3
            } else {
                q + 2
            };
            let end = scan(s, start, not_line_break());
            Some((Lexeme::Comment, start, end, end, None))
        } else {
            None
        }
    } else if is_line_break(c) {
        let end = scan(s, q, line_break());
        Some((Lexeme::Newline, q, end, end, None))
    } else if mark_lexeme(c) is Some {
        Some((mark_lexeme(c)->0, q, q + 1, q + 1, None))
    } else if keyword_at(s, q) is Some {
        let k = keyword_at(s, q)->0;
        let end = q + keyword_text(k).len();
        Some((Lexeme::Keyword(k), q, end, end, None))
    } else if is_digit(c) {
        let end = if c == '0' {
            q + 1
        } else {
            scan(s, q + 1, digit())
        };
        let v = digits_value(s.subrange(q, end));
        if v <= u64::MAX {
            Some((Lexeme::Uint(v as u64), q, end, end, None))
        } else {
            Some((Lexeme::Invalid, q, end, end, Some(LexErrorKind::IntegerOverflow)))
        }
    } else if is_ident_start(c) {
        let end = scan(s, q + 1, ident_char());
        Some((Lexeme::Ident, q, end, end, None))
    } else {
        None
    }
}

/// One lexing step at `p`: blanks, a token, blanks. Gives the token's
/// lexeme and text span, the position after the trailing blanks, and the
/// fault found in the token.
pub open spec fn step_at(s: Seq<char>, p: int) -> Option<
    (Lexeme, int, int, int, Option<LexErrorKind>),
> {
    let q = scan(s, p, blank());
    if 0 <= q < s.len() {
        match token_at(s, q) {
            Some((lx, a, b, e, f)) => Some((lx, a, b, scan(s, e, blank()), f)),
            None => None,
        }
    } else {
        None
    }
}

/// A lexing step at `p` succeeds without a fault.
pub open spec fn clean_step(s: Seq<char>, p: int) -> bool {
    step_at(s, p) matches Some((_, _, _, _, f)) && f is None
}

/// The first position in `r..s.len()` where a lexing step succeeds without
/// a fault.
pub open spec fn resume_at(s: Seq<char>, r: int) -> Option<int>
    decreases s.len() - r,
{
    if r < 0 || r >= s.len() {
        None
    } else if clean_step(s, r) {
        Some(r)
    } else {
        resume_at(s, r + 1)
    }
}

/// A token: lexeme and text span.
pub type TokenSpec = (Lexeme, int, int);

/// An error: kind and span.
pub type ErrorSpec = (LexErrorKind, int, int);

/// Lexing from `p` on: the tokens, the errors, and the position where
/// lexing stopped.
pub open spec fn lex_from(s: Seq<char>, p: int) -> (Seq<TokenSpec>, Seq<ErrorSpec>, int)
    decreases s.len() - p, 1int,
{
    if p < 0 || p >= s.len() {
        (Seq::empty(), Seq::empty(), p)
    } else {
        match step_at(s, p) {
            Some((lx, a, b, next, f)) => {
                if next <= p || next > s.len() {
                    (Seq::empty(), Seq::empty(), p)
                } else {
                    let rest = lex_from(s, next);
                    let errs = match f {
                        Some(k) => seq![(k, a, b)],
                        None => Seq::empty(),
                    };
                    (seq![(lx, a, b)] + rest.0, errs + rest.1, rest.2)
                }
            },
            None => match resume_at(s, p + 1) {
                Some(r) => lex_resumed(s, p, r),
                None => (Seq::empty(), Seq::empty(), p),
            },
        }
    }
}

/// Lexing after the stretch `p..r` was skipped and a clean step found at `r`.
pub open spec fn lex_resumed(s: Seq<char>, p: int, r: int) -> (Seq<TokenSpec>, Seq<ErrorSpec>, int)
    decreases s.len() - p, 0int,
{
    if p < r && r < s.len() {
        match step_at(s, r) {
            Some((lx, a, b, next, _)) => {
                if next <= p || next > s.len() {
                    (Seq::empty(), Seq::empty(), p)
                } else {
                    let rest = lex_from(s, next);
                    (
                        seq![(lx, a, b)] + rest.0,
                        seq![(LexErrorKind::UnexpectedInput, p, r)] + rest.1,
                        rest.2,
                    )
                }
            },
            None => (Seq::empty(), Seq::empty(), p),
        }
    } else {
        (Seq::empty(), Seq::empty(), p)
    }
}

/// The result of lexing `s`: the tokens (absent when lexing stops before
/// the end) and the errors.
pub open spec fn lex_spec(s: Seq<char>) -> (Option<Seq<TokenSpec>>, Seq<ErrorSpec>) {
    if s.len() == 0 {
        (Some(Seq::empty()), seq![(LexErrorKind::MissingInput, 0, 0)])
    } else {
        let (tokens, errors, stop) = lex_from(s, 0);
        if stop == s.len() {
            (Some(tokens), errors)
        } else {
            (None, errors.push((LexErrorKind::TrailingInput, stop, s.len() as int)))
        }
    }
}

/// Token `t` is the lexeme `lx` whose text is `text`.
pub open spec fn token_matches(t: Token, lx: Lexeme, text: Seq<char>) -> bool {
    match (t, lx) {
        (Token::Invalid(x), Lexeme::Invalid) => x@ == text,
        (Token::BlockClose, Lexeme::BlockClose) => true,
        (Token::BlockOpen, Lexeme::BlockOpen) => true,
        (Token::Colon, Lexeme::Colon) => true,
        (Token::Comma, Lexeme::Comma) => true,
        (Token::Dot, Lexeme::Dot) => true,
        (Token::Equal, Lexeme::Equal) => true,
        (Token::FnClose, Lexeme::FnClose) => true,
        (Token::FnOpen, Lexeme::FnOpen) => true,
        (Token::Keyword(k1), Lexeme::Keyword(k2)) => k1 == k2,
        (Token::ListClose, Lexeme::ListClose) => true,
        (Token::ListOpen, Lexeme::ListOpen) => true,
        (Token::Semicolon, Lexeme::Semicolon) => true,
        (Token::Newline, Lexeme::Newline) => true,
        (Token::Comment(x), Lexeme::Comment) => x@ == text,
        (Token::Ident(x), Lexeme::Ident) => x@ == text,
        (Token::String(x), Lexeme::Str) => x@ == text,
        (Token::Uint(v), Lexeme::Uint(w)) => v == w,
        _ => false,
    }
}

/// The spanned token `t` is the specified token `ts` of source `s`; its
/// span is given in bytes of the UTF-8 encoding of `s`.
pub open spec fn spanned_matches(t: Spanned<Token>, ts: TokenSpec, s: Seq<char>) -> bool {
    &&& t.span.start == byte_pos(s, ts.1)
    &&& t.span.end == byte_pos(s, ts.2)
    &&& 0 <= ts.1 <= ts.2 <= s.len()
    &&& token_matches(t.inner, ts.0, s.subrange(ts.1, ts.2))
}

/// The tokens `ts` are the specified tokens `spec` of source `s`.
pub open spec fn tokens_match(ts: Seq<Spanned<Token>>, spec: Seq<TokenSpec>, s: Seq<char>) -> bool {
    ts.len() == spec.len() && forall|i: int|
        0 <= i < ts.len() ==> spanned_matches(#[trigger] ts[i], spec[i], s)
}

/// The errors `es` are the specified errors `spec` of source `s`; their
/// spans are given in bytes of the UTF-8 encoding of `s`.
pub open spec fn errors_match(es: Seq<LexError>, spec: Seq<ErrorSpec>, s: Seq<char>) -> bool {
    es.len() == spec.len() && forall|i: int|
        0 <= i < es.len() ==> (#[trigger] es[i]).kind == spec[i].0 && es[i].span.start
            == byte_pos(s, spec[i].1) && es[i].span.end == byte_pos(s, spec[i].2)
}

/// Lexes `input` into spanned tokens; spans count bytes of its UTF-8
/// encoding (whose length fits in `usize`, as that of every `str` does).
pub fn lex(input: &str) -> (r: LexResult)
    requires
        encode_utf8(input@).len() <= usize::MAX,
    ensures
        errors_match(r.errors@, lex_spec(input@).1, input@),
        r.tokens is Some == lex_spec(input@).0 is Some,
        r.tokens matches Some(ts) ==> tokens_match(ts@, lex_spec(input@).0->0, input@),
{
    let chars = collect_chars(input);
    let n = chars.len();
    let pos = byte_positions(&chars);
    if n == 0 {
        let mut errors: Vec<LexError> = Vec::new();
        errors.push(LexError { kind: LexErrorKind::MissingInput, span: Span { start: 0, end: 0 } });
        assert(pos@[0] == byte_pos(input@, 0));
        return LexResult { tokens: Some(Vec::new()), errors };
    }
    let ghost s = input@;
    let mut tokens: Vec<Spanned<Token>> = Vec::new();
    let mut errors: Vec<LexError> = Vec::new();
    let mut p: usize = 0;
    loop
        invariant
            s == input@,
            chars@ == s,
            n == s.len(),
            n > 0,
            p <= n,
            pos@.len() == n + 1,
            forall|i: int| 0 <= i <= n ==> pos@[i] == byte_pos(s, i),
            tokens_match(tokens@, lex_from(s, 0).0.take(tokens@.len() as int), s),
            lex_from(s, 0).0 == lex_from(s, 0).0.take(tokens@.len() as int) + lex_from(s, p as int).0,
            errors_match(errors@, lex_from(s, 0).1.take(errors@.len() as int), s),
            lex_from(s, 0).1 == lex_from(s, 0).1.take(errors@.len() as int) + lex_from(s, p as int).1,
            lex_from(s, 0).2 == lex_from(s, p as int).2,
        ensures
            s == input@,
            chars@ == s,
            n == s.len(),
            p <= n,
            tokens_match(tokens@, lex_from(s, 0).0.take(tokens@.len() as int), s),
            lex_from(s, 0).0 == lex_from(s, 0).0.take(tokens@.len() as int) + lex_from(s, p as int).0,
            errors_match(errors@, lex_from(s, 0).1.take(errors@.len() as int), s),
            lex_from(s, 0).1 == lex_from(s, 0).1.take(errors@.len() as int) + lex_from(s, p as int).1,
            lex_from(s, 0).2 == lex_from(s, p as int).2,
            lex_from(s, p as int).0 == Seq::<TokenSpec>::empty(),
            lex_from(s, p as int).1 == Seq::<ErrorSpec>::empty(),
            lex_from(s, p as int).2 == p,
        decreases n - p,
    {
        let ghost old_tokens = tokens@;
        let ghost old_errors = errors@;
        let ghost whole = lex_from(s, 0);
        if p == n {
            proof {
                assert(lex_from(s, p as int).0 =~= Seq::<TokenSpec>::empty());
                assert(lex_from(s, p as int).1 =~= Seq::<ErrorSpec>::empty());
            }
            break ;
        }
        match step(input, &chars, p) {
            Some((tok, a, b, next, fault)) => {
                if next <= p || next > n {
                    proof {
                        assert(lex_from(s, p as int).0 =~= Seq::<TokenSpec>::empty());
                        assert(lex_from(s, p as int).1 =~= Seq::<ErrorSpec>::empty());
                    }
                    break ;
                }
                let ghost rest = lex_from(s, next as int);
                proof {
                    lemma_step_bounds(s, p as int);
                    let e = match fault {
                        Some(k) => seq![(k, a as int, b as int)],
                        None => Seq::<ErrorSpec>::empty(),
                    };
                    let lx = (step_at(s, p as int)->0).0;
                    assert(lex_from(s, p as int).0 == seq![(lx, a as int, b as int)] + rest.0);
                    assert(lex_from(s, p as int).1 == e + rest.1);
                    assert(whole.0[old_tokens.len() as int] == (lx, a as int, b as int));
                    assert(whole.0.subrange(old_tokens.len() as int + 1, whole.0.len() as int) =~= rest.0);
                }
                tokens.push(Spanned { inner: tok, span: Span { start: pos[a], end: pos[b] } });
                match fault {
                    Some(k) => {
                        errors.push(LexError { kind: k, span: Span { start: pos[a], end: pos[b] } });
                    },
                    None => {},
                }
                proof {
                    assert(tokens@.drop_last() =~= old_tokens);
                    assert(errors@.subrange(0, old_errors.len() as int) =~= old_errors);
                    lemma_push_tokens(whole.0, old_tokens, tokens@, rest.0, s);
                    let e = match fault {
                        Some(k) => seq![(k, a as int, b as int)],
                        None => Seq::<ErrorSpec>::empty(),
                    };
                    lemma_push_errors(whole.1, old_errors, errors@, e, rest.1, s);
                }
                p = next;
            },
            None => {
                match resume(input, &chars, p + 1) {
                    Some((r, tok, a, b, next)) => {
                        if next <= p || next > n {
                            proof {
                                assert(lex_from(s, p as int) == lex_resumed(s, p as int, r as int));
                                assert(lex_from(s, p as int).0 =~= Seq::<TokenSpec>::empty());
                                assert(lex_from(s, p as int).1 =~= Seq::<ErrorSpec>::empty());
                            }
                            break ;
                        }
                        let ghost rest = lex_from(s, next as int);
                        proof {
                            lemma_step_bounds(s, r as int);
                            let lx = (step_at(s, r as int)->0).0;
                            assert(lex_from(s, p as int) == lex_resumed(s, p as int, r as int));
                            assert(lex_from(s, p as int).0 == seq![(lx, a as int, b as int)] + rest.0);
                            assert(whole.0[old_tokens.len() as int] == (lx, a as int, b as int));
                            assert(whole.0.subrange(old_tokens.len() as int + 1, whole.0.len() as int) =~= rest.0);
                        }
                        tokens.push(Spanned { inner: tok, span: Span { start: pos[a], end: pos[b] } });
                        errors.push(
                            LexError {
                                kind: LexErrorKind::UnexpectedInput,
                                span: Span { start: pos[p], end: pos[r] },
                            },
                        );
                        proof {
                            assert(tokens@.drop_last() =~= old_tokens);
                            assert(errors@.subrange(0, old_errors.len() as int) =~= old_errors);
                            lemma_push_tokens(whole.0, old_tokens, tokens@, rest.0, s);
                            lemma_push_errors(
                                whole.1,
                                old_errors,
                                errors@,
                                seq![(LexErrorKind::UnexpectedInput, p as int, r as int)],
                                rest.1,
                                s,
                            );
                        }
                        p = next;
                    },
                    None => {
                        proof {
                            assert(lex_from(s, p as int).0 =~= Seq::<TokenSpec>::empty());
                            assert(lex_from(s, p as int).1 =~= Seq::<ErrorSpec>::empty());
                        }
                        break ;
                    },
                }
            },
        }
    }
    proof {
        let whole = lex_from(s, 0);
        assert(whole.0 =~= whole.0.take(tokens@.len() as int));
        assert(whole.1 =~= whole.1.take(errors@.len() as int));
    }
    if p == n {
        LexResult { tokens: Some(tokens), errors }
    } else {
        let ghost before = errors@;
        errors.push(
            LexError { kind: LexErrorKind::TrailingInput, span: Span { start: pos[p], end: pos[n] } },
        );
        proof {
            assert forall|i: int| 0 <= i < errors@.len() implies (#[trigger] errors@[i]).kind
                == lex_from(s, 0).1.push(
                (LexErrorKind::TrailingInput, p as int, n as int),
            )[i].0 by {
                if i < before.len() {
                    assert(errors@[i] == before[i]);
                }
            }
        }
        LexResult { tokens: None, errors }
    }
}

proof fn lemma_push_tokens(
    whole: Seq<TokenSpec>,
    old_tokens: Seq<Spanned<Token>>,
    tokens: Seq<Spanned<Token>>,
    rest: Seq<TokenSpec>,
    s: Seq<char>,
)
    requires
        tokens.len() == old_tokens.len() + 1,
        tokens.drop_last() == old_tokens,
        tokens_match(old_tokens, whole.take(old_tokens.len() as int), s),
        whole.len() > old_tokens.len(),
        spanned_matches(tokens.last(), whole[old_tokens.len() as int], s),
        whole.subrange(old_tokens.len() as int + 1, whole.len() as int) == rest,
    ensures
        tokens_match(tokens, whole.take(tokens.len() as int), s),
        whole == whole.take(tokens.len() as int) + rest,
{
    assert forall|i: int| 0 <= i < tokens.len() implies spanned_matches(
        #[trigger] tokens[i],
        whole.take(tokens.len() as int)[i],
        s,
    ) by {
        if i < old_tokens.len() {
            assert(tokens[i] == old_tokens[i]);
        }
    }
    assert(whole =~= whole.take(tokens.len() as int) + rest);
}

proof fn lemma_push_errors(
    whole: Seq<ErrorSpec>,
    old_errors: Seq<LexError>,
    errors: Seq<LexError>,
    e: Seq<ErrorSpec>,
    rest: Seq<ErrorSpec>,
    s: Seq<char>,
)
    requires
        errors_match(old_errors, whole.take(old_errors.len() as int), s),
        whole == whole.take(old_errors.len() as int) + (e + rest),
        errors.len() == old_errors.len() + e.len(),
        errors.subrange(0, old_errors.len() as int) == old_errors,
        forall|i: int|
            0 <= i < e.len() ==> (#[trigger] errors[old_errors.len() + i]).kind == e[i].0
                && errors[old_errors.len() + i].span.start == byte_pos(s, e[i].1)
                && errors[old_errors.len() + i].span.end == byte_pos(s, e[i].2),
    ensures
        errors_match(errors, whole.take(errors.len() as int), s),
        whole == whole.take(errors.len() as int) + rest,
{
    let k = old_errors.len() as int;
    assert forall|i: int| 0 <= i < errors.len() implies (#[trigger] errors[i]).kind == whole.take(
        errors.len() as int,
    )[i].0 && errors[i].span.start == byte_pos(s, whole.take(errors.len() as int)[i].1)
        && errors[i].span.end == byte_pos(s, whole.take(errors.len() as int)[i].2) by {
        if i < k {
            assert(errors[i] == errors.subrange(0, k)[i]);
            assert(whole.take(errors.len() as int)[i] == whole.take(k)[i]);
        } else {
            assert(whole[i] == (e + rest)[i - k]);
            assert(errors[k + (i - k)] == errors[i]);
        }
    }
    assert(whole =~= whole.take(errors.len() as int) + rest);
}

/// Exec counterparts of the character classes used by [`scan`]:
/// 0 blank, 1 not a quote, 2 not a line break, 3 line break, 4 digit,
/// 5 identifier character.
pub open spec fn class(w: u8) -> spec_fn(char) -> bool {
    if w == 0 {
        blank()
    } else if w == 1 {
        not_quote()
    } else if w == 2 {
        not_line_break()
    } else if w == 3 {
        line_break()
    } else if w == 4 {
        digit()
    } else {
        ident_char()
    }
}

fn char_is_line_break(c: char) -> (r: bool)
    ensures
        r == is_line_break(c),
{
    c == '\n' || c == '\r' || c == '\x0B' || c == '\x0C' || c == '\u{85}' || c == '\u{2028}' || c
        == '\u{2029}'
}

fn in_class(w: u8, c: char) -> (r: bool)
    ensures
        r == (class(w))(c),
{
    if w == 0 {
        c == ' ' || c == '\t'
    } else if w == 1 {
        c != '"'
    } else if w == 2 {
        !char_is_line_break(c)
    } else if w == 3 {
        char_is_line_break(c)
    } else if w == 4 {
        '0' <= c && c <= '9'
    } else {
        ('a' <= c && c <= 'z') || ('A' <= c && c <= 'Z') || c == '_' || ('0' <= c && c <= '9')
    }
}

/// The first position at or after `i` whose character is not in class `w`.
pub(crate) fn scan_class(chars: &Vec<char>, i: usize, w: u8) -> (r: usize)
    requires
        i <= chars@.len(),
    ensures
        r == scan(chars@, i as int, class(w)),
        i <= r <= chars@.len(),
{
    let mut j = i;
    while j < chars.len() && in_class(w, chars[j])
        invariant
            i <= j <= chars@.len(),
            forall|k: int| i <= k < j ==> (class(w))(#[trigger] chars@[k]),
        decreases chars.len() - j,
    {
        j = j + 1;
    }
    proof {
        lemma_scan_unique(chars@, i as int, j as int, class(w));
    }
    j
}

/// Whether `word` is written at `q`.
fn word_at(chars: &Vec<char>, q: usize, word: &str) -> (r: bool)
    ensures
        r == (q + word@.len() <= chars@.len() && chars@.subrange(q as int, q + word@.len())
            == word@),
{
    let k = word.unicode_len();
    let n = chars.len();
    if q > n || k > n - q {
        return false;
    }
    let mut i: usize = 0;
    while i < k
        invariant
            k == word@.len(),
            n == chars@.len(),
            q + k <= n,
            i <= k,
            forall|j: int| 0 <= j < i ==> chars@[q + j] == word@[j],
        decreases k - i,
    {
        if chars[q + i] != word.get_char(i) {
            proof {
                assert(chars@.subrange(q as int, q + k)[i as int] == chars@[q + i]);
            }
            return false;
        }
        i = i + 1;
    }
    assert(chars@.subrange(q as int, q + k) =~= word@);
    true
}

/// Whether keyword `k` (spelled `word`) is written at `q` as a whole word.
fn keyword_is_here(chars: &Vec<char>, q: usize, k: Keyword, word: &str) -> (r: bool)
    requires
        word@ == keyword_text(k),
    ensures
        r == keyword_here(chars@, q as int, k),
{
    if !word_at(chars, q, word) {
        return false;
    }
    let k = word.unicode_len();
    let n = chars.len();
    let end = q + k;
    end == n || !char_continues_word(chars[end])
}

/// The keyword written at `q` as a whole word, if any.
pub(crate) fn keyword_exec(chars: &Vec<char>, q: usize) -> (r: Option<Keyword>)
    ensures
        r == keyword_at(chars@, q as int),
{
    proof {
        reveal_strlit("encoding");
        reveal_strlit("enum");
        reveal_strlit("include");
        reveal_strlit("message");
        reveal_strlit("package");
    }
    if keyword_is_here(chars, q, Keyword::Encoding, "encoding") {
        Some(Keyword::Encoding)
    } else if keyword_is_here(chars, q, Keyword::Enum, "enum") {
        Some(Keyword::Enum)
    } else if keyword_is_here(chars, q, Keyword::Include, "include") {
        Some(Keyword::Include)
    } else if keyword_is_here(chars, q, Keyword::Message, "message") {
        Some(Keyword::Message)
    } else if keyword_is_here(chars, q, Keyword::Package, "package") {
        Some(Keyword::Package)
    } else {
        None
    }
}

fn keyword_len(k: Keyword) -> (r: usize)
    ensures
        r == keyword_text(k).len(),
{
    proof {
        reveal_strlit("encoding");
        reveal_strlit("enum");
        reveal_strlit("include");
        reveal_strlit("message");
        reveal_strlit("package");
    }
    match k {
        Keyword::Encoding => 8,
        Keyword::Enum => 4,
        Keyword::Include => 7,
        Keyword::Message => 7,
        Keyword::Package => 7,
    }
}

proof fn lemma_keyword_at(s: Seq<char>, q: int)
    ensures
        keyword_at(s, q) matches Some(k) ==> keyword_here(s, q, k) && keyword_text(k).len() > 0,
{
    reveal_strlit("encoding");
    reveal_strlit("enum");
    reveal_strlit("include");
    reveal_strlit("message");
    reveal_strlit("package");
}

/// The punctuation or operator token written as `c`, if any.
fn mark_token(c: char) -> (r: Option<Token>)
    ensures
        match r {
            Some(t) => mark_lexeme(c) matches Some(lx) && token_matches(t, lx, Seq::empty()),
            None => mark_lexeme(c) is None,
        },
{
    if c == '=' {
        Some(Token::Equal)
    } else if c == ',' {
        Some(Token::Comma)
    } else if c == '.' {
        Some(Token::Dot)
    } else if c == ';' {
        Some(Token::Semicolon)
    } else if c == ':' {
        Some(Token::Colon)
    } else if c == '(' {
        Some(Token::FnOpen)
    } else if c == ')' {
        Some(Token::FnClose)
    } else if c == '[' {
        Some(Token::ListOpen)
    } else if c == ']' {
        Some(Token::ListClose)
    } else if c == '{' {
        Some(Token::BlockOpen)
    } else if c == '}' {
        Some(Token::BlockClose)
    } else {
        None
    }
}

/// The value of the digits `chars[a..b]`, or `None` when it exceeds `u64::MAX`.
fn digits_exec(chars: &Vec<char>, a: usize, b: usize) -> (r: Option<u64>)
    requires
        a <= b <= chars@.len(),
        forall|j: int| a <= j < b ==> is_digit(#[trigger] chars@[j]),
    ensures
        match r {
            Some(v) => v == digits_value(chars@.subrange(a as int, b as int)),
            None => digits_value(chars@.subrange(a as int, b as int)) > u64::MAX,
        },
{
    let mut v: u64 = 0;
    let mut over = false;
    let mut i = a;
    assert(chars@.subrange(a as int, a as int) =~= Seq::<char>::empty());
    while i < b
        invariant
            a <= i <= b <= chars@.len(),
            forall|j: int| a <= j < b ==> is_digit(#[trigger] chars@[j]),
            over == (digits_value(chars@.subrange(a as int, i as int)) > u64::MAX),
            !over ==> v == digits_value(chars@.subrange(a as int, i as int)),
        decreases b - i,
    {
        let ghost prev = digits_value(chars@.subrange(a as int, i as int));
        let c = chars[i];
        let d: u64 = (c as u32 - '0' as u32) as u64;
        proof {
            assert(chars@.subrange(a as int, i + 1).drop_last() =~= chars@.subrange(a as int, i as int));
            assert(is_digit(chars@[i as int]));
        }
        let ghost next = digits_value(chars@.subrange(a as int, i + 1));
        assert(next == prev * 10 + d);
        if over {
            assert(prev * 10 + d >= prev) by (nonlinear_arith)
                requires
                    prev >= 0,
                    d >= 0,
            ;
        } else if v > (u64::MAX - d) / 10 {
            over = true;
            assert(prev * 10 + d > u64::MAX) by (nonlinear_arith)
                requires
                    prev == v,
                    v > (u64::MAX - d) / 10,
                    0 <= d <= 9,
            ;
        } else {
            assert(v * 10 + d <= u64::MAX) by (nonlinear_arith)
                requires
                    v <= (u64::MAX - d) / 10,
                    0 <= d <= 9,
            ;
            v = v * 10 + d;
        }
        i = i + 1;
    }
    if over {
        None
    } else {
        Some(v)
    }
}

/// Relates an exec token result to [`token_at`].
pub open spec fn token_result(
    r: Option<(Token, usize, usize, usize, Option<LexErrorKind>)>,
    s: Seq<char>,
    q: int,
) -> bool {
    match r {
        None => token_at(s, q) is None,
        Some((t, a, b, e, f)) => token_at(s, q) matches Some((lx, a2, b2, e2, f2)) && a2 == a
            && b2 == b && e2 == e && f2 == f && a <= b && token_matches(t, lx, s.subrange(a as int, b as int)),
    }
}

/// The token that starts at `q`.
pub(crate) fn token(input: &str, chars: &Vec<char>, q: usize) -> (r: Option<
    (Token, usize, usize, usize, Option<LexErrorKind>),
>)
    requires
        chars@ == input@,
        q < chars@.len(),
    ensures
        token_result(r, input@, q as int),
        r matches Some((_, _, _, e, _)) ==> q < e <= chars@.len(),
{
    let ghost s = chars@;
    let n = chars.len();
    let c = chars[q];
    if c == '"' {
        let close = scan_class(chars, q + 1, 1);
        if close < n {
            let mut has_break = false;
            let mut j = q + 1;
            while j < close
                invariant
                    q + 1 <= j <= close < n,
                    n == s.len(),
                    s == chars@,
                    has_break == (exists|k: int| q + 1 <= k < j && is_line_break(#[trigger] s[k])),
                decreases close - j,
            {
                if char_is_line_break(chars[j]) {
                    has_break = true;
                }
                j = j + 1;
            }
            let text = input.substring_char(q + 1, close).to_owned();
            if has_break {
                return Some((Token::Invalid(text), q + 1, close, close + 1, Some(LexErrorKind::StringLineBreak)));
            } else {
                return Some((Token::String(text), q + 1, close, close + 1, None));
            }
        } else {
            return None;
        }
    } else if c == '/' {
        if q + 1 < n && chars[q + 1] == '/' {
            let start = if q + 2 < n && (chars[q + 2] == ' ' || chars[q + 2] == '\t') {
                q + 3
            } else {
                q + 2
            };
            let end = scan_class(chars, start, 2);
            let text = input.substring_char(start, end).to_owned();
            return Some((Token::Comment(text), start, end, end, None));
        } else {
            return None;
        }
    } else if char_is_line_break(c) {
        let end = scan_class(chars, q, 3);
        proof {
            lemma_scan(s, q + 1, line_break());
            lemma_scan_unique(s, q as int, end as int, line_break());
        }
        return Some((Token::Newline, q, end, end, None));
    }
    match mark_token(c) {
        Some(t) => {
            return Some((t, q, q + 1, q + 1, None));
        },
        None => {},
    }
    proof {
        lemma_keyword_at(s, q as int);
    }
    match keyword_exec(chars, q) {
        Some(k) => {
            let end = q + keyword_len(k);
            return Some((Token::Keyword(k), q, end, end, None));
        },
        None => {},
    }
    if '0' <= c && c <= '9' {
        let end = if c == '0' {
            q + 1
        } else {
            scan_class(chars, q + 1, 4)
        };
        let text = input.substring_char(q, end).to_owned();
        proof {
            if c != '0' {
                lemma_scan(s, q + 1, digit());
            }
        }
        match digits_exec(chars, q, end) {
            Some(v) => {
                return Some((Token::Uint(v), q, end, end, None));
            },
            None => {
                return Some((Token::Invalid(text), q, end, end, Some(LexErrorKind::IntegerOverflow)));
            },
        }
    }
    if ('a' <= c && c <= 'z') || ('A' <= c && c <= 'Z') || c == '_' {
        let end = scan_class(chars, q + 1, 5);
        let text = input.substring_char(q, end).to_owned();
        return Some((Token::Ident(text), q, end, end, None));
    }
    None
}

/// Relates an exec step result to [`step_at`].
pub open spec fn step_result(
    r: Option<(Token, usize, usize, usize, Option<LexErrorKind>)>,
    s: Seq<char>,
    p: int,
) -> bool {
    match r {
        None => step_at(s, p) is None,
        Some((t, a, b, next, f)) => step_at(s, p) matches Some((lx, a2, b2, n2, f2)) && a2 == a
            && b2 == b && n2 == next && f2 == f && a <= b && token_matches(
            t,
            lx,
            s.subrange(a as int, b as int),
        ),
    }
}

/// One lexing step at `p`: blanks, a token, blanks.
fn step(input: &str, chars: &Vec<char>, p: usize) -> (r: Option<
    (Token, usize, usize, usize, Option<LexErrorKind>),
>)
    requires
        chars@ == input@,
        p <= chars@.len(),
    ensures
        step_result(r, input@, p as int),
        r matches Some((_, _, _, next, _)) ==> p < next <= chars@.len(),
{
    let q = scan_class(chars, p, 0);
    if q >= chars.len() {
        return None;
    }
    match token(input, chars, q) {
        Some((t, a, b, e, f)) => {
            let next = scan_class(chars, e, 0);
            Some((t, a, b, next, f))
        },
        None => None,
    }
}

/// Looks for the first position in `r..` where a clean step succeeds and
/// takes that step.
fn resume(input: &str, chars: &Vec<char>, r: usize) -> (res: Option<
    (usize, Token, usize, usize, usize),
>)
    requires
        chars@ == input@,
        r <= chars@.len(),
    ensures
        match res {
            None => resume_at(input@, r as int) is None,
            Some((at, t, a, b, next)) => resume_at(input@, r as int) == Some(at as int)
                && step_result(Some((t, a, b, next, None)), input@, at as int) && r <= at < next
                <= chars@.len(),
        },
{
    let mut at = r;
    while at < chars.len()
        invariant
            chars@ == input@,
            r <= at <= chars@.len(),
            resume_at(input@, r as int) == resume_at(input@, at as int),
        decreases chars.len() - at,
    {
        match step(input, chars, at) {
            Some((t, a, b, next, f)) => {
                if f.is_none() {
                    return Some((at, t, a, b, next));
                }
            },
            None => {},
        }
        at = at + 1;
    }
    None
}

/// The characters of `input`.
pub(crate) fn collect_chars(input: &str) -> (r: Vec<char>)
    ensures
        r@ == input@,
{
    let mut out: Vec<char> = Vec::new();
    for c in it: input.chars()
        invariant
            it.seq() == input@,
            out@ == input@.take(it.index() as int),
    {
        out.push(c);
        proof {
            assert(input@.take(it.index() + 1) =~= input@.take(it.index() as int).push(c));
        }
    }
    proof {
        assert(input@.take(input@.len() as int) =~= input@);
    }
    out
}


/// The tokens' spans lie within `lo..hi`, each in order after the one
/// before it.
pub open spec fn spans_in_order(toks: Seq<TokenSpec>, lo: int, hi: int) -> bool {
    &&& forall|i: int| 0 <= i < toks.len() ==> lo <= (#[trigger] toks[i]).1 <= toks[i].2 <= hi
    &&& forall|i: int, j: int| 0 <= i < j < toks.len() ==> (#[trigger] toks[i]).2 <= (#[trigger] toks[j]).1
}

pub(crate) proof fn lemma_token_at_bounds(s: Seq<char>, q: int)
    requires
        0 <= q < s.len(),
    ensures
        token_at(s, q) matches Some((lx, a, b, e, f)) ==> q <= a <= b <= e <= s.len() && q < e,
{
    let c = s[q];
    if c == '"' {
        lemma_scan(s, q + 1, not_quote());
    } else if c == '/' {
        if q + 1 < s.len() && s[q + 1] == '/' {
            let start = if q + 2 < s.len() && is_blank(s[q + 2]) {
                q + 3
            } else {
                q + 2
            };
            lemma_scan(s, start, not_line_break());
        }
    } else if is_line_break(c) {
        lemma_scan(s, q, line_break());
        assert(line_break()(s[q]));
        lemma_scan(s, q + 1, line_break());
        assert(scan(s, q, line_break()) == scan(s, q + 1, line_break()));
    } else if mark_lexeme(c) is Some {
    } else if keyword_at(s, q) is Some {
        lemma_keyword_at(s, q);
    } else if is_digit(c) {
        lemma_scan(s, q + 1, digit());
    } else if is_ident_start(c) {
        lemma_scan(s, q + 1, ident_char());
    }
}

pub(crate) proof fn lemma_step_bounds(s: Seq<char>, p: int)
    requires
        0 <= p <= s.len(),
    ensures
        step_at(s, p) matches Some((lx, a, b, next, f)) ==> p <= a <= b <= next <= s.len(),
{
    lemma_scan(s, p, blank());
    let q = scan(s, p, blank());
    if 0 <= q < s.len() {
        lemma_token_at_bounds(s, q);
        match token_at(s, q) {
            Some((lx, a, b, e, f)) => {
                lemma_scan(s, e, blank());
            },
            None => {},
        }
    }
}

proof fn lemma_prepend_in_order(t: TokenSpec, rest: Seq<TokenSpec>, lo: int, mid: int, hi: int)
    requires
        lo <= t.1 <= t.2 <= mid <= hi,
        spans_in_order(rest, mid, hi),
    ensures
        spans_in_order(seq![t] + rest, lo, hi),
{
    let all = seq![t] + rest;
    assert forall|i: int| 0 <= i < all.len() implies lo <= (#[trigger] all[i]).1 <= all[i].2 <= hi by {
        if i > 0 {
            assert(all[i] == rest[i - 1]);
        }
    }
    assert forall|i: int, j: int| 0 <= i < j < all.len() implies (#[trigger] all[i]).2 <= (
    #[trigger] all[j]).1 by {
        assert(all[j] == rest[j - 1]);
        if i > 0 {
            assert(all[i] == rest[i - 1]);
        }
    }
}

proof fn lemma_lex_from_in_order(s: Seq<char>, p: int)
    requires
        0 <= p,
    ensures
        spans_in_order(lex_from(s, p).0, p, s.len() as int),
    decreases s.len() - p, 1int,
{
    if p < s.len() {
        lemma_step_bounds(s, p);
        match step_at(s, p) {
            Some((lx, a, b, next, f)) => {
                if !(next <= p || next > s.len()) {
                    lemma_lex_from_in_order(s, next);
                    lemma_prepend_in_order((lx, a, b), lex_from(s, next).0, p, next, s.len() as int);
                }
            },
            None => match resume_at(s, p + 1) {
                Some(r) => {
                    lemma_lex_resumed_in_order(s, p, r);
                },
                None => {},
            },
        }
    }
}

proof fn lemma_lex_resumed_in_order(s: Seq<char>, p: int, r: int)
    requires
        0 <= p,
    ensures
        spans_in_order(lex_resumed(s, p, r).0, p, s.len() as int),
    decreases s.len() - p, 0int,
{
    if p < r && r < s.len() {
        lemma_step_bounds(s, r);
        match step_at(s, r) {
            Some((lx, a, b, next, _)) => {
                if !(next <= p || next > s.len()) {
                    lemma_lex_from_in_order(s, next);
                    lemma_prepend_in_order((lx, a, b), lex_from(s, next).0, p, next, s.len() as int);
                }
            },
            None => {},
        }
    }
}

/// The tokens of a lexed input lie within it, each after the one before it:
/// their spans are in order and do not overlap.
pub proof fn lemma_token_spans_in_order(s: Seq<char>)
    ensures
        lex_spec(s).0 matches Some(toks) ==> spans_in_order(toks, 0, s.len() as int),
{
    if s.len() > 0 {
        lemma_lex_from_in_order(s, 0);
    }
}

} // verus!
