# baproto

A verified library for an interface definition language (IDL) compiler that
creates custom, bit-level binary encodings: lexing and parsing of `.baproto`
schemas, lowering of syntax trees into an intermediate representation, and
the Rust code generator: the text it emits for each package, message, enum,
field and variant, and its indentation.

## Layout

- `src/` — the library, verified with Verus:
  - `lex` — the lexer (`lex::lexer`) and single-token lexing (`lex::single`);
  - `parse` — the grammar as spec functions (`parse::grammar`), the parser
    (`parse::parser`), include path validation (`parse::path`), properties
    of parsing (`parse::laws`) and each production over a whole input
    (`parse::single`);
  - `ast`, `visit` — the syntax tree and its traversal;
  - `ir` — the intermediate representation and lowering into it;
  - `generate2` — generator output, writers, indented code text
    (`generate2::code`) and the Rust code generator (`generate2::codegen`);
  - `syntax`, `text` — validated references and text utilities.
- `tests/` — tests run against the compiled library.
- `app/` — the command-line program, file and process I/O, and the JSON
  forms of the intermediate representation.
