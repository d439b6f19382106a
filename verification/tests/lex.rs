//! Tests of the lexer, and of lexing one token of each class.

use baproto::ast::Span;
use baproto::lex::single::{
    comment, identifier, keyword, line_break, operator, punctuation, string, uint,
};
use baproto::lex::{lex, Keyword, LexError, LexErrorKind, Spanned, Token};

/// Asserts that a token was lexed and that it is `expected`.
fn assert_parses_to(result: Option<Spanned<Token>>, expected: Token) {
    match result {
        Some(spanned) => assert_eq!(spanned.inner, expected),
        None => panic!("expected success but got no token"),
    }
}

/// Asserts that a token was lexed and that it is invalid.
fn assert_parses_to_invalid(result: Option<Spanned<Token>>) {
    match result {
        Some(spanned) => assert!(
            matches!(spanned.inner, Token::Invalid(_)),
            "expected Invalid token but got: {:?}",
            spanned.inner
        ),
        None => panic!("expected Invalid token but got no token"),
    }
}

/// Asserts that no token was lexed.
fn assert_fails(result: Option<Spanned<Token>>) {
    assert!(result.is_none(), "expected lexing to fail but it succeeded");
}

#[test]
fn test_lexer_handles_leading_whitespace() {
    // Given: Input with leading whitespace.
    let input = "   package";

    // When: Lexing the input.
    let output = lex(input);

    // Then: The whitespace is ignored and the keyword is parsed.
    assert!(output.errors.is_empty());
    let tokens = vec![Spanned {
        inner: Token::Keyword(Keyword::Package),
        span: Span::new(3, 10),
    }];
    assert_eq!(output.tokens.as_ref(), Some(&tokens));
}
#[test]
fn test_lexer_handles_trailing_whitespace() {
    // Given: Input with trailing whitespace.
    let input = "package   ";

    // When: Lexing the input.
    let output = lex(input);

    // Then: The whitespace is ignored and the keyword is parsed.
    assert!(output.errors.is_empty());
    let tokens = vec![Spanned {
        inner: Token::Keyword(Keyword::Package),
        span: Span::new(0, 7),
    }];
    assert_eq!(output.tokens.as_ref(), Some(&tokens));
}
#[test]
fn test_lexer_handles_whitespace_between_tokens() {
    // Given: Input with multiple spaces between tokens.
    let input = "package    abc";

    // When: Lexing the input.
    let output = lex(input);

    // Then: Tokens are correctly identified with whitespace removed.
    assert!(output.errors.is_empty());
    let tokens = vec![
        Spanned {
            inner: Token::Keyword(Keyword::Package),
            span: Span::new(0, 7),
        },
        Spanned {
            inner: Token::Ident("abc".to_string()),
            span: Span::new(11, 14),
        },
    ];
    assert_eq!(output.tokens.as_ref(), Some(&tokens));
}
#[test]
fn test_lexer_handles_tabs_as_whitespace() {
    // Given: Input with tabs as whitespace.
    let input = "\tpackage\tabc\t";

    // When: Lexing the input.
    let output = lex(input);

    // Then: Tabs are treated as whitespace.
    assert!(output.errors.is_empty());
    let tokens = vec![
        Spanned {
            inner: Token::Keyword(Keyword::Package),
            span: Span::new(1, 8),
        },
        Spanned {
            inner: Token::Ident("abc".to_string()),
            span: Span::new(9, 12),
        },
    ];
    assert_eq!(output.tokens.as_ref(), Some(&tokens));
}
#[test]
fn test_lexer_preserves_newlines() {
    // Given: Input with newlines.
    let input = "package\nabc";

    // When: Lexing the input.
    let output = lex(input);

    // Then: Newlines are included as tokens.
    assert!(output.errors.is_empty());
    let tokens = vec![
        Spanned {
            inner: Token::Keyword(Keyword::Package),
            span: Span::new(0, 7),
        },
        Spanned {
            inner: Token::Newline,
            span: Span::new(7, 8),
        },
        Spanned {
            inner: Token::Ident("abc".to_string()),
            span: Span::new(8, 11),
        },
    ];
    assert_eq!(output.tokens.as_ref(), Some(&tokens));
}
#[test]
fn test_lexer_handles_inline_comment() {
    // Given: Input with an inline comment after code.
    let input = "package abc // comment";

    // When: Lexing the input.
    let output = lex(input);

    // Then: Both code and comment are parsed.
    assert!(output.errors.is_empty());
    let tokens = vec![
        Spanned {
            inner: Token::Keyword(Keyword::Package),
            span: Span::new(0, 7),
        },
        Spanned {
            inner: Token::Ident("abc".to_string()),
            span: Span::new(8, 11),
        },
        Spanned {
            inner: Token::Comment("comment".to_string()),
            span: Span::new(15, 22),
        },
    ];
    assert_eq!(output.tokens.as_ref(), Some(&tokens));
}
#[test]
fn test_lexer_handles_comment_only_line() {
    // Given: Input with a full-line comment.
    let input = "// this is a comment";

    // When: Lexing the input.
    let output = lex(input);

    // Then: Only the comment token is created.
    assert!(output.errors.is_empty());
    let tokens = vec![Spanned {
        inner: Token::Comment("this is a comment".to_string()),
        span: Span::new(3, 20),
    }];
    assert_eq!(output.tokens.as_ref(), Some(&tokens));
}
#[test]
fn test_lexer_respects_keyword_word_boundaries() {
    // Given: An identifier that starts with a keyword substring.
    let input = "enumerate";

    // When: Lexing the input.
    let output = lex(input);

    // Then: The identifier is parsed as a single token, not split.
    assert!(output.errors.is_empty());
    let tokens = vec![Spanned {
        inner: Token::Ident("enumerate".to_string()),
        span: Span::new(0, 9),
    }];
    assert_eq!(output.tokens.as_ref(), Some(&tokens));
}
#[test]
fn test_lexer_collapses_multiple_newlines() {
    // Given: Input with multiple consecutive newlines.
    let input = "package\n\n\nabc";

    // When: Lexing the input.
    let output = lex(input);

    // Then: Multiple newlines are collapsed into a single newline token.
    assert!(output.errors.is_empty());
    let tokens = vec![
        Spanned {
            inner: Token::Keyword(Keyword::Package),
            span: Span::new(0, 7),
        },
        Spanned {
            inner: Token::Newline,
            span: Span::new(7, 10),
        },
        Spanned {
            inner: Token::Ident("abc".to_string()),
            span: Span::new(10, 13),
        },
    ];
    assert_eq!(output.tokens.as_ref(), Some(&tokens));
}
#[test]
fn test_lexer_parses_all_punctuation_together() {
    // Given: Input with all punctuation tokens.
    let input = ",.;:()[]{}";

    // When: Lexing the input.
    let output = lex(input);

    // Then: All punctuation tokens are correctly identified.
    assert!(output.errors.is_empty());
    let tokens = vec![
        Spanned {
            inner: Token::Comma,
            span: Span::new(0, 1),
        },
        Spanned {
            inner: Token::Dot,
            span: Span::new(1, 2),
        },
        Spanned {
            inner: Token::Semicolon,
            span: Span::new(2, 3),
        },
        Spanned {
            inner: Token::Colon,
            span: Span::new(3, 4),
        },
        Spanned {
            inner: Token::FnOpen,
            span: Span::new(4, 5),
        },
        Spanned {
            inner: Token::FnClose,
            span: Span::new(5, 6),
        },
        Spanned {
            inner: Token::ListOpen,
            span: Span::new(6, 7),
        },
        Spanned {
            inner: Token::ListClose,
            span: Span::new(7, 8),
        },
        Spanned {
            inner: Token::BlockOpen,
            span: Span::new(8, 9),
        },
        Spanned {
            inner: Token::BlockClose,
            span: Span::new(9, 10),
        },
    ];
    assert_eq!(output.tokens.as_ref(), Some(&tokens));
}
#[test]
fn test_lexer_parses_empty_input() {
    // Given: Empty input.
    let input = "";

    // When: Lexing the input.
    let output = lex(input);

    // Then: An error is reported for missing input.
    assert!(!output.errors.is_empty());
    assert_eq!(
        output.errors,
        vec![LexError {
            kind: LexErrorKind::MissingInput,
            span: Span::new(0, 0),
        }]
    );

    // Then: An empty token list is still returned.
    assert_eq!(output.tokens.as_ref(), Some(&vec![]));
}
#[test]
fn test_lexer_parses_include_with_string() {
    // Given: An include statement with a string path.
    let input = "include \"foo/bar/baz.baproto\"";

    // When: Lexing the input.
    let output = lex(input);

    // Then: The include keyword and string are parsed correctly.
    assert!(output.errors.is_empty());
    let tokens = vec![
        Spanned {
            inner: Token::Keyword(Keyword::Include),
            span: Span::new(0, 7),
        },
        Spanned {
            inner: Token::String("foo/bar/baz.baproto".to_string()),
            span: Span::new(9, 28),
        },
    ];
    assert_eq!(output.tokens.as_ref(), Some(&tokens));
}
#[test]
fn test_lexer_parses_enum_definition() {
    // Given: An enum definition with a block.
    let input = "enum SomeEnum { \n }";

    // When: Lexing the input.
    let output = lex(input);

    // Then: The enum structure is parsed correctly.
    assert!(output.errors.is_empty());
    let tokens = vec![
        Spanned {
            inner: Token::Keyword(Keyword::Enum),
            span: Span::new(0, 4),
        },
        Spanned {
            inner: Token::Ident("SomeEnum".to_string()),
            span: Span::new(5, 13),
        },
        Spanned {
            inner: Token::BlockOpen,
            span: Span::new(14, 15),
        },
        Spanned {
            inner: Token::Newline,
            span: Span::new(16, 17),
        },
        Spanned {
            inner: Token::BlockClose,
            span: Span::new(18, 19),
        },
    ];
    assert_eq!(output.tokens.as_ref(), Some(&tokens));
}
#[test]
fn test_lexer_parses_enum_variant() {
    // Given: A simple enum variant definition.
    let input = "VARIANT_1;";

    // When: Lexing the input.
    let output = lex(input);

    // Then: The variant and semicolon are parsed correctly.
    assert!(output.errors.is_empty());
    let tokens = vec![
        Spanned {
            inner: Token::Ident("VARIANT_1".to_string()),
            span: Span::new(0, 9),
        },
        Spanned {
            inner: Token::Semicolon,
            span: Span::new(9, 10),
        },
    ];
    assert_eq!(output.tokens.as_ref(), Some(&tokens));
}
#[test]
fn test_lexer_parses_indexed_enum_variant() {
    // Given: An indexed enum variant definition.
    let input = "0: VARIANT_1;";

    // When: Lexing the input.
    let output = lex(input);

    // Then: The index, colon, variant, and semicolon are parsed correctly.
    assert!(output.errors.is_empty());
    let tokens = vec![
        Spanned {
            inner: Token::Uint(0),
            span: Span::new(0, 1),
        },
        Spanned {
            inner: Token::Colon,
            span: Span::new(1, 2),
        },
        Spanned {
            inner: Token::Ident("VARIANT_1".to_string()),
            span: Span::new(3, 12),
        },
        Spanned {
            inner: Token::Semicolon,
            span: Span::new(12, 13),
        },
    ];
    assert_eq!(output.tokens.as_ref(), Some(&tokens));
}
#[test]
fn test_lexer_parses_field_definition() {
    // Given: A field definition with brackets.
    let input = "[key]value array_field;";

    // When: Lexing the input.
    let output = lex(input);

    // Then: The brackets and identifiers are parsed correctly.
    assert!(output.errors.is_empty());
    let tokens = vec![
        Spanned {
            inner: Token::ListOpen,
            span: Span::new(0, 1),
        },
        Spanned {
            inner: Token::Ident("key".to_string()),
            span: Span::new(1, 4),
        },
        Spanned {
            inner: Token::ListClose,
            span: Span::new(4, 5),
        },
        Spanned {
            inner: Token::Ident("value".to_string()),
            span: Span::new(5, 10),
        },
        Spanned {
            inner: Token::Ident("array_field".to_string()),
            span: Span::new(11, 22),
        },
        Spanned {
            inner: Token::Semicolon,
            span: Span::new(22, 23),
        },
    ];
    assert_eq!(output.tokens.as_ref(), Some(&tokens));
}
#[test]
fn test_lexer_parses_indexed_field_definition() {
    // Given: An indexed field definition with brackets.
    let input = "1: [key]value array_field;";

    // When: Lexing the input.
    let output = lex(input);

    // Then: The index, colon, brackets, and identifiers are parsed correctly.
    assert!(output.errors.is_empty());
    let tokens = vec![
        Spanned {
            inner: Token::Uint(1),
            span: Span::new(0, 1),
        },
        Spanned {
            inner: Token::Colon,
            span: Span::new(1, 2),
        },
        Spanned {
            inner: Token::ListOpen,
            span: Span::new(3, 4),
        },
        Spanned {
            inner: Token::Ident("key".to_string()),
            span: Span::new(4, 7),
        },
        Spanned {
            inner: Token::ListClose,
            span: Span::new(7, 8),
        },
        Spanned {
            inner: Token::Ident("value".to_string()),
            span: Span::new(8, 13),
        },
        Spanned {
            inner: Token::Ident("array_field".to_string()),
            span: Span::new(14, 25),
        },
        Spanned {
            inner: Token::Semicolon,
            span: Span::new(25, 26),
        },
    ];
    assert_eq!(output.tokens.as_ref(), Some(&tokens));
}
#[test]
fn test_lexer_parses_field_with_encoding() {
    // Given: A field definition with complex nested encoding.
    let input = "u8 array_field = [delta, bits(var(8))];";

    // When: Lexing the input.
    let output = lex(input);

    // Then: The complex nested structure is parsed correctly.
    assert!(output.errors.is_empty());
    let tokens = vec![
        Spanned {
            inner: Token::Ident("u8".to_string()),
            span: Span::new(0, 2),
        },
        Spanned {
            inner: Token::Ident("array_field".to_string()),
            span: Span::new(3, 14),
        },
        Spanned {
            inner: Token::Equal,
            span: Span::new(15, 16),
        },
        Spanned {
            inner: Token::ListOpen,
            span: Span::new(17, 18),
        },
        Spanned {
            inner: Token::Ident("delta".to_string()),
            span: Span::new(18, 23),
        },
        Spanned {
            inner: Token::Comma,
            span: Span::new(23, 24),
        },
        Spanned {
            inner: Token::Ident("bits".to_string()),
            span: Span::new(25, 29),
        },
        Spanned {
            inner: Token::FnOpen,
            span: Span::new(29, 30),
        },
        Spanned {
            inner: Token::Ident("var".to_string()),
            span: Span::new(30, 33),
        },
        Spanned {
            inner: Token::FnOpen,
            span: Span::new(33, 34),
        },
        Spanned {
            inner: Token::Uint(8),
            span: Span::new(34, 35),
        },
        Spanned {
            inner: Token::FnClose,
            span: Span::new(35, 36),
        },
        Spanned {
            inner: Token::FnClose,
            span: Span::new(36, 37),
        },
        Spanned {
            inner: Token::ListClose,
            span: Span::new(37, 38),
        },
        Spanned {
            inner: Token::Semicolon,
            span: Span::new(38, 39),
        },
    ];
    assert_eq!(output.tokens.as_ref(), Some(&tokens));
}
#[test]
fn test_identifier_parses_simple_name() {
    // Given: A simple identifier string.
    let input = "myvar";

    // When: Parsing the identifier.
    let result = identifier(input);

    // Then: The identifier token is created successfully.
    assert_parses_to(result, Token::Ident("myvar".to_string()));
}
#[test]
fn test_identifier_parses_with_underscores() {
    // Given: An identifier with underscores.
    let input = "my_var_name";

    // When: Parsing the identifier.
    let result = identifier(input);

    // Then: The identifier token is created successfully.
    assert_parses_to(result, Token::Ident("my_var_name".to_string()));
}
#[test]
fn test_identifier_parses_with_numbers() {
    // Given: An identifier with numbers (not starting with a number).
    let input = "var123";

    // When: Parsing the identifier.
    let result = identifier(input);

    // Then: The identifier token is created successfully.
    assert_parses_to(result, Token::Ident("var123".to_string()));
}
#[test]
fn test_identifier_parses_uppercase() {
    // Given: An identifier in uppercase.
    let input = "MY_CONSTANT";

    // When: Parsing the identifier.
    let result = identifier(input);

    // Then: The identifier token is created successfully.
    assert_parses_to(result, Token::Ident("MY_CONSTANT".to_string()));
}
#[test]
fn test_identifier_parses_camel_case() {
    // Given: An identifier in camelCase.
    let input = "myVariableName";

    // When: Parsing the identifier.
    let result = identifier(input);

    // Then: The identifier token is created successfully.
    assert_parses_to(result, Token::Ident("myVariableName".to_string()));
}
#[test]
fn test_identifier_parses_pascal_case() {
    // Given: An identifier in PascalCase.
    let input = "MyTypeName";

    // When: Parsing the identifier.
    let result = identifier(input);

    // Then: The identifier token is created successfully.
    assert_parses_to(result, Token::Ident("MyTypeName".to_string()));
}
#[test]
fn test_identifier_rejects_starting_with_number() {
    // Given: An invalid identifier starting with a number.
    let input = "123invalid";

    // When: Attempting to parse the identifier.
    let result = identifier(input);

    // Then: Parsing fails.
    assert_fails(result);
}
#[test]
fn test_identifier_with_trailing_underscore() {
    // Given: An identifier ending with an underscore.
    let input = "foo_";

    // When: Parsing the identifier.
    let result = identifier(input);

    // Then: The entire identifier is consumed.
    assert_parses_to(result, Token::Ident("foo_".to_string()));
}
#[test]
fn test_comment_parses_simple() {
    // Given: A simple comment.
    let input = "// this is a comment";

    // When: Parsing the comment.
    let result = comment(input);

    // Then: The comment token is created successfully.
    assert_parses_to(result, Token::Comment("this is a comment".to_string()));
}
#[test]
fn test_comment_parses_empty() {
    // Given: An empty comment.
    let input = "//";

    // When: Parsing the comment.
    let result = comment(input);

    // Then: The comment token is created with empty content.
    assert_parses_to(result, Token::Comment("".to_string()));
}
#[test]
fn test_comment_parses_with_single_space() {
    // Given: A comment with a single space after the slashes.
    let input = "// comment text";

    // When: Parsing the comment.
    let result = comment(input);

    // Then: The comment token is created successfully.
    assert_parses_to(result, Token::Comment("comment text".to_string()));
}
#[test]
fn test_comment_preserves_multiple_spaces() {
    // Given: A comment with multiple spaces after the slashes.
    let input = "//  comment with extra spaces";

    // When: Parsing the comment.
    let result = comment(input);

    // Then: The comment includes all spaces after the first.
    assert_parses_to(result, Token::Comment(" comment with extra spaces".to_string()));
}
#[test]
fn test_comment_parses_with_special_characters() {
    // Given: A comment containing special characters.
    let input = "// TODO: fix @bug #123 (important!)";

    // When: Parsing the comment.
    let result = comment(input);

    // Then: The comment token preserves all special characters.
    assert_parses_to(result, Token::Comment("TODO: fix @bug #123 (important!)".to_string()));
}
#[test]
fn test_comment_parses_with_nested_slashes() {
    // Given: A comment containing additional slashes.
    let input = "// http://example.com // nested comment";

    // When: Parsing the comment.
    let result = comment(input);

    // Then: The comment token includes the nested slashes.
    assert_parses_to(
        result,
        Token::Comment("http://example.com // nested comment".to_string()),
    );
}
#[test]
fn test_keyword_parses_encoding() {
    // Given: The "encoding" keyword.
    let input = "encoding";

    // When: Parsing the keyword.
    let result = keyword(input);

    // Then: The keyword token is created successfully.
    assert_parses_to(result, Token::Keyword(Keyword::Encoding));
}
#[test]
fn test_keyword_parses_enum() {
    // Given: The "enum" keyword.
    let input = "enum";

    // When: Parsing the keyword.
    let result = keyword(input);

    // Then: The keyword token is created successfully.
    assert_parses_to(result, Token::Keyword(Keyword::Enum));
}
#[test]
fn test_keyword_parses_include() {
    // Given: The "include" keyword.
    let input = "include";

    // When: Parsing the keyword.
    let result = keyword(input);

    // Then: The keyword token is created successfully.
    assert_parses_to(result, Token::Keyword(Keyword::Include));
}
#[test]
fn test_keyword_parses_message() {
    // Given: The "message" keyword.
    let input = "message";

    // When: Parsing the keyword.
    let result = keyword(input);

    // Then: The keyword token is created successfully.
    assert_parses_to(result, Token::Keyword(Keyword::Message));
}
#[test]
fn test_keyword_parses_package() {
    // Given: The "package" keyword.
    let input = "package";

    // When: Parsing the keyword.
    let result = keyword(input);

    // Then: The keyword token is created successfully.
    assert_parses_to(result, Token::Keyword(Keyword::Package));
}
#[test]
fn test_keyword_rejects_partial_match() {
    // Given: A string that starts like a keyword but isn't complete.
    let input = "enumerate";

    // When: Attempting to parse as a keyword.
    let result = keyword(input);

    // Then: Parsing fails.
    assert_fails(result);
}
#[test]
fn test_keyword_rejects_capitalized() {
    // Given: A capitalized keyword.
    let input = "Enum";

    // When: Attempting to parse as a keyword.
    let result = keyword(input);

    // Then: Parsing fails (keywords are case-sensitive).
    assert_fails(result);
}
#[test]
fn test_keyword_followed_by_space() {
    // Given: A keyword followed by a space.
    let input = "enum ";

    // When: Parsing the keyword.
    let result = keyword(input);

    // Then: The keyword is parsed successfully.
    assert_parses_to(result, Token::Keyword(Keyword::Enum));
}
#[test]
fn test_keyword_followed_by_tab() {
    // Given: A keyword followed by a tab.
    let input = "message\t";

    // When: Parsing the keyword.
    let result = keyword(input);

    // Then: The keyword is parsed successfully.
    assert_parses_to(result, Token::Keyword(Keyword::Message));
}
#[test]
fn test_keyword_followed_by_newline() {
    // Given: A keyword followed by a newline.
    let input = "package\n";

    // When: Parsing the keyword.
    let result = keyword(input);

    // Then: The keyword is parsed successfully.
    assert_parses_to(result, Token::Keyword(Keyword::Package));
}
#[test]
fn test_keyword_followed_by_comma() {
    // Given: A keyword followed by a comma.
    let input = "enum,";

    // When: Parsing the keyword.
    let result = keyword(input);

    // Then: The keyword is parsed successfully.
    assert_parses_to(result, Token::Keyword(Keyword::Enum));
}
#[test]
fn test_keyword_followed_by_semicolon() {
    // Given: A keyword followed by a semicolon.
    let input = "enum;";

    // When: Parsing the keyword.
    let result = keyword(input);

    // Then: The keyword is parsed successfully.
    assert_parses_to(result, Token::Keyword(Keyword::Enum));
}
#[test]
fn test_keyword_followed_by_open_brace() {
    // Given: A keyword followed by an open brace.
    let input = "message{";

    // When: Parsing the keyword.
    let result = keyword(input);

    // Then: The keyword is parsed successfully.
    assert_parses_to(result, Token::Keyword(Keyword::Message));
}
#[test]
fn test_keyword_followed_by_close_brace() {
    // Given: A keyword followed by a close brace.
    let input = "enum}";

    // When: Parsing the keyword.
    let result = keyword(input);

    // Then: The keyword is parsed successfully.
    assert_parses_to(result, Token::Keyword(Keyword::Enum));
}
#[test]
fn test_keyword_followed_by_dot() {
    // Given: A keyword followed by a dot.
    let input = "package.";

    // When: Parsing the keyword.
    let result = keyword(input);

    // Then: The keyword is parsed successfully.
    assert_parses_to(result, Token::Keyword(Keyword::Package));
}
#[test]
fn test_keyword_followed_by_equal() {
    // Given: A keyword followed by an equal sign.
    let input = "encoding=";

    // When: Parsing the keyword.
    let result = keyword(input);

    // Then: The keyword is parsed successfully.
    assert_parses_to(result, Token::Keyword(Keyword::Encoding));
}
#[test]
fn test_line_break_parses_single_newline() {
    // Given: A single newline character.
    let input = "\n";

    // When: Parsing the line break.
    let result = line_break(input);

    // Then: A newline token is created.
    assert_parses_to(result, Token::Newline);
}
#[test]
fn test_line_break_parses_multiple_newlines() {
    // Given: Multiple sequential newline characters.
    let input = "\n\n\n";

    // When: Parsing the line breaks.
    let result = line_break(input);

    // Then: A single newline token is created.
    assert_parses_to(result, Token::Newline);
}
#[test]
fn test_operator_parses_equal() {
    // Given: The equal sign operator.
    let input = "=";

    // When: Parsing the operator.
    let result = operator(input);

    // Then: The operator token is created successfully.
    assert_parses_to(result, Token::Equal);
}
#[test]
fn test_punctuation_parses_comma() {
    // Given: A comma character.
    let input = ",";

    // When: Parsing the punctuation.
    let result = punctuation(input);

    // Then: The punctuation token is created successfully.
    assert_parses_to(result, Token::Comma);
}
#[test]
fn test_punctuation_parses_dot() {
    // Given: A dot character.
    let input = ".";

    // When: Parsing the punctuation.
    let result = punctuation(input);

    // Then: The punctuation token is created successfully.
    assert_parses_to(result, Token::Dot);
}
#[test]
fn test_punctuation_parses_semicolon() {
    // Given: A semicolon character.
    let input = ";";

    // When: Parsing the punctuation.
    let result = punctuation(input);

    // Then: The punctuation token is created successfully.
    assert_parses_to(result, Token::Semicolon);
}
#[test]
fn test_punctuation_parses_colon() {
    // Given: A colon character.
    let input = ":";

    // When: Parsing the punctuation.
    let result = punctuation(input);

    // Then: The punctuation token is created successfully.
    assert_parses_to(result, Token::Colon);
}
#[test]
fn test_punctuation_parses_fn_open() {
    // Given: An open parenthesis.
    let input = "(";

    // When: Parsing the punctuation.
    let result = punctuation(input);

    // Then: The punctuation token is created successfully.
    assert_parses_to(result, Token::FnOpen);
}
#[test]
fn test_punctuation_parses_fn_close() {
    // Given: A close parenthesis.
    let input = ")";

    // When: Parsing the punctuation.
    let result = punctuation(input);

    // Then: The punctuation token is created successfully.
    assert_parses_to(result, Token::FnClose);
}
#[test]
fn test_punctuation_parses_list_open() {
    // Given: An open bracket.
    let input = "[";

    // When: Parsing the punctuation.
    let result = punctuation(input);

    // Then: The punctuation token is created successfully.
    assert_parses_to(result, Token::ListOpen);
}
#[test]
fn test_punctuation_parses_list_close() {
    // Given: A close bracket.
    let input = "]";

    // When: Parsing the punctuation.
    let result = punctuation(input);

    // Then: The punctuation token is created successfully.
    assert_parses_to(result, Token::ListClose);
}
#[test]
fn test_punctuation_parses_block_open() {
    // Given: An open brace.
    let input = "{";

    // When: Parsing the punctuation.
    let result = punctuation(input);

    // Then: The punctuation token is created successfully.
    assert_parses_to(result, Token::BlockOpen);
}
#[test]
fn test_punctuation_parses_block_close() {
    // Given: A close brace.
    let input = "}";

    // When: Parsing the punctuation.
    let result = punctuation(input);

    // Then: The punctuation token is created successfully.
    assert_parses_to(result, Token::BlockClose);
}
#[test]
fn test_string_parses_empty() {
    // Given: An empty string literal.
    let input = r#""""#;

    // When: Parsing the string.
    let result = string(input);

    // Then: An empty string token is created successfully.
    assert_parses_to(result, Token::String("".to_string()));
}
#[test]
fn test_string_parses_simple_text() {
    // Given: A simple string literal.
    let input = r#""hello world""#;

    // When: Parsing the string.
    let result = string(input);

    // Then: The string token is created successfully.
    assert_parses_to(result, Token::String("hello world".to_string()));
}
#[test]
fn test_string_parses_path() {
    // Given: A string containing a file path.
    let input = r#""foo/bar/baz.baproto""#;

    // When: Parsing the string.
    let result = string(input);

    // Then: The string token is created successfully.
    assert_parses_to(result, Token::String("foo/bar/baz.baproto".to_string()));
}
#[test]
fn test_string_parses_with_spaces() {
    // Given: A string with multiple spaces.
    let input = r#""multiple   spaces   here""#;

    // When: Parsing the string.
    let result = string(input);

    // Then: The string token preserves all spaces.
    assert_parses_to(result, Token::String("multiple   spaces   here".to_string()));
}
#[test]
fn test_string_parses_with_special_characters() {
    // Given: A string with special characters.
    let input = r#""hello@world!#$%^&*()""#;

    // When: Parsing the string.
    let result = string(input);

    // Then: The string token is created successfully.
    assert_parses_to(result, Token::String("hello@world!#$%^&*()".to_string()));
}
#[test]
fn test_string_parses_with_numbers() {
    // Given: A string containing numbers.
    let input = r#""version123""#;

    // When: Parsing the string.
    let result = string(input);

    // Then: The string token is created successfully.
    assert_parses_to(result, Token::String("version123".to_string()));
}
#[test]
fn test_string_rejects_newline() {
    // Given: A string literal containing a newline character.
    let input = "\"hello\nworld\"";

    // When: Parsing the string.
    let result = string(input);

    // Then: Parsing produces an Invalid token with an error.
    assert_parses_to_invalid(result);
}
#[test]
fn test_string_rejects_unclosed() {
    // Given: An unclosed string literal.
    let input = r#""unclosed"#;

    // When: Parsing the string.
    let result = string(input);

    // Then: Parsing fails.
    assert_fails(result);
}
#[test]
fn test_uint_parses_zero() {
    // Given: The number zero.
    let input = "0";

    // When: Parsing the uint.
    let result = uint(input);

    // Then: The uint token is created successfully.
    assert_parses_to(result, Token::Uint(0));
}
#[test]
fn test_uint_parses_max_u64() {
    // Given: The maximum u64 value.
    let input = "18446744073709551615";

    // When: Parsing the uint.
    let result = uint(input);

    // Then: The uint token is created successfully.
    assert_parses_to(result, Token::Uint(u64::MAX));
}
#[test]
fn test_uint_rejects_overflow() {
    // Given: A number exceeding u64::MAX.
    let input = "18446744073709551616"; // u64::MAX + 1

    // When: Parsing the uint.
    let result = uint(input);

    // Then: Parsing produces an 'Invalid' token with an error.
    assert_parses_to_invalid(result);
}
#[test]
fn test_uint_rejects_negative() {
    // Given: A negative number.
    let input = "-123";

    // When: Parsing the uint.
    let result = uint(input);

    // Then: Parsing fails (negative numbers are not valid uints).
    assert_fails(result);
}
#[test]
fn test_uint_rejects_leading_plus() {
    // Given: A number with a leading plus sign.
    let input = "+123";

    // When: Parsing the uint.
    let result = uint(input);

    // Then: Parsing fails (plus signs are not allowed).
    assert_fails(result);
}
