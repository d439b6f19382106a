//! Tests of syntax tree traversal with a visitor that records names.

use baproto::ast;
use baproto::lex::lex;
use baproto::parse::parse;
use baproto::visit::{
    walk_array, walk_comment_block, walk_enum, walk_field, walk_map, walk_message, walk_package,
    walk_schema, walk_type, walk_unit_variant, Visitor,
};

/// Records identifier names and comment texts in visiting order.
struct Recorder {
    seen: Vec<String>,
}

impl<'ast> Visitor<'ast> for Recorder {
    fn after_array(self, _node: ast::Array) -> Self {
        unreachable!("used in proofs only")
    }

    fn after_comment_block(self, _node: ast::CommentBlock) -> Self {
        unreachable!("used in proofs only")
    }

    fn after_comment(self, _node: ast::Comment) -> Self {
        unreachable!("used in proofs only")
    }

    fn after_encoding(self, _node: ast::Encoding) -> Self {
        unreachable!("used in proofs only")
    }

    fn after_enum(self, _node: ast::Enum) -> Self {
        unreachable!("used in proofs only")
    }

    fn after_field_index(self, _node: ast::FieldIndex) -> Self {
        unreachable!("used in proofs only")
    }

    fn after_field(self, _node: ast::Field) -> Self {
        unreachable!("used in proofs only")
    }

    fn after_ident(self, _node: ast::Ident) -> Self {
        unreachable!("used in proofs only")
    }

    fn after_include(self, _node: ast::Include) -> Self {
        unreachable!("used in proofs only")
    }

    fn after_map(self, _node: ast::Mapping) -> Self {
        unreachable!("used in proofs only")
    }

    fn after_message(self, _node: ast::Message) -> Self {
        unreachable!("used in proofs only")
    }

    fn after_package(self, _node: ast::Package) -> Self {
        unreachable!("used in proofs only")
    }

    fn after_reference(self, _node: ast::Reference) -> Self {
        unreachable!("used in proofs only")
    }

    fn after_scalar(self, _node: ast::Scalar) -> Self {
        unreachable!("used in proofs only")
    }

    fn after_schema(self, _node: ast::Schema) -> Self {
        unreachable!("used in proofs only")
    }

    fn after_text(self, _node: ast::Text) -> Self {
        unreachable!("used in proofs only")
    }

    fn after_type(self, _node: ast::Type) -> Self {
        unreachable!("used in proofs only")
    }

    fn after_uint(self, _node: ast::Uint) -> Self {
        unreachable!("used in proofs only")
    }

    fn after_unit_variant(self, _node: ast::UnitVariant) -> Self {
        unreachable!("used in proofs only")
    }

    fn visit_array(&mut self, node: &'ast ast::Array) {
        walk_array(self, node);
    }

    fn visit_comment_block(&mut self, node: &'ast ast::CommentBlock) {
        walk_comment_block(self, node);
    }

    fn visit_comment(&mut self, node: &'ast ast::Comment) {
        self.seen.push(node.content.clone());
    }

    fn visit_encoding(&mut self, _node: &'ast ast::Encoding) {}

    fn visit_enum(&mut self, node: &'ast ast::Enum) {
        walk_enum(self, node);
    }

    fn visit_field_index(&mut self, _node: &'ast ast::FieldIndex) {}

    fn visit_field(&mut self, node: &'ast ast::Field) {
        walk_field(self, node);
    }

    fn visit_ident(&mut self, node: &'ast ast::Ident) {
        self.seen.push(node.name.clone());
    }

    fn visit_include(&mut self, _node: &'ast ast::Include) {}

    fn visit_map(&mut self, node: &'ast ast::Mapping) {
        walk_map(self, node);
    }

    fn visit_message(&mut self, node: &'ast ast::Message) {
        walk_message(self, node);
    }

    fn visit_package(&mut self, node: &'ast ast::Package) {
        walk_package(self, node);
    }

    fn visit_reference(&mut self, node: &'ast ast::Reference) {
        let names: Vec<String> = node.components.iter().map(|c| c.name.clone()).collect();
        self.seen.push(names.join("."));
    }

    fn visit_scalar(&mut self, _node: &'ast ast::Scalar) {}

    fn visit_schema(&mut self, node: &'ast ast::Schema) {
        walk_schema(self, node);
    }

    fn visit_text(&mut self, _node: &'ast ast::Text) {}

    fn visit_type(&mut self, node: &'ast ast::Type) {
        walk_type(self, node);
    }

    fn visit_uint(&mut self, _node: &'ast ast::Uint) {}

    fn visit_unit_variant(&mut self, node: &'ast ast::UnitVariant) {
        walk_unit_variant(self, node);
    }
}

#[test]
fn test_walk_visits_in_source_order() {
    let input = "package p;\n// c\nmessage M {\nu8 a;\nenum E {\nX;\n}\n}";
    let tokens = lex(input).tokens.expect("tokens");
    let schema = parse(&tokens).ast.expect("schema");
    let mut recorder = Recorder { seen: Vec::new() };
    recorder.visit_schema(&schema);
    assert_eq!(recorder.seen, vec!["p", "c", "M", "a", "E", "X"]);
}

#[test]
fn test_walk_field_visits_name_before_type() {
    let input = "message M {\nFoo.Bar r;\n[string]u32 m;\n}";
    let tokens = lex(input).tokens.expect("tokens");
    let schema = parse(&tokens).ast.expect("schema");
    let mut recorder = Recorder { seen: Vec::new() };
    recorder.visit_schema(&schema);
    assert_eq!(recorder.seen, vec!["M", "r", "Foo.Bar", "m"]);
}
