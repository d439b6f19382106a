//! The visitor trait.

use vstd::prelude::*;

use crate::ast;

verus! {

/// A pass over a syntax tree, with one method per kind of node.
///
/// `after_x(node)` is the visitor's value once `visit_x` has visited
/// `node`. A method that traverses the node's children calls the matching
/// function of [`super::walk`] (the methods of nodes without children
/// usually record or do nothing), and its `after_x` is then what that
/// function gives.
pub trait Visitor<'ast>: Sized {
    spec fn after_array(self, node: ast::Array) -> Self;

    spec fn after_comment_block(self, node: ast::CommentBlock) -> Self;

    spec fn after_comment(self, node: ast::Comment) -> Self;

    spec fn after_encoding(self, node: ast::Encoding) -> Self;

    spec fn after_enum(self, node: ast::Enum) -> Self;

    spec fn after_field_index(self, node: ast::FieldIndex) -> Self;

    spec fn after_field(self, node: ast::Field) -> Self;

    spec fn after_ident(self, node: ast::Ident) -> Self;

    spec fn after_include(self, node: ast::Include) -> Self;

    spec fn after_map(self, node: ast::Mapping) -> Self;

    spec fn after_message(self, node: ast::Message) -> Self;

    spec fn after_package(self, node: ast::Package) -> Self;

    spec fn after_reference(self, node: ast::Reference) -> Self;

    spec fn after_scalar(self, node: ast::Scalar) -> Self;

    spec fn after_schema(self, node: ast::Schema) -> Self;

    spec fn after_text(self, node: ast::Text) -> Self;

    spec fn after_type(self, node: ast::Type) -> Self;

    spec fn after_uint(self, node: ast::Uint) -> Self;

    spec fn after_unit_variant(self, node: ast::UnitVariant) -> Self;

    /// Visits a [`ast::Array`]; to traverse its children, call [`super::walk::walk_array`].
    fn visit_array(&mut self, node: &'ast ast::Array)
        ensures
            *final(self) == old(self).after_array(*node),
    ;

    /// Visits a [`ast::CommentBlock`]; to traverse its children, call [`super::walk::walk_comment_block`].
    fn visit_comment_block(&mut self, node: &'ast ast::CommentBlock)
        ensures
            *final(self) == old(self).after_comment_block(*node),
    ;

    /// Visits a [`ast::Comment`].
    fn visit_comment(&mut self, node: &'ast ast::Comment)
        ensures
            *final(self) == old(self).after_comment(*node),
    ;

    /// Visits a [`ast::Encoding`].
    fn visit_encoding(&mut self, node: &'ast ast::Encoding)
        ensures
            *final(self) == old(self).after_encoding(*node),
    ;

    /// Visits a [`ast::Enum`]; to traverse its children, call [`super::walk::walk_enum`].
    fn visit_enum(&mut self, node: &'ast ast::Enum)
        ensures
            *final(self) == old(self).after_enum(*node),
    ;

    /// Visits a [`ast::FieldIndex`].
    fn visit_field_index(&mut self, node: &'ast ast::FieldIndex)
        ensures
            *final(self) == old(self).after_field_index(*node),
    ;

    /// Visits a [`ast::Field`]; to traverse its children, call [`super::walk::walk_field`].
    fn visit_field(&mut self, node: &'ast ast::Field)
        ensures
            *final(self) == old(self).after_field(*node),
    ;

    /// Visits a [`ast::Ident`].
    fn visit_ident(&mut self, node: &'ast ast::Ident)
        ensures
            *final(self) == old(self).after_ident(*node),
    ;

    /// Visits a [`ast::Include`].
    fn visit_include(&mut self, node: &'ast ast::Include)
        ensures
            *final(self) == old(self).after_include(*node),
    ;

    /// Visits a [`ast::Mapping`]; to traverse its children, call [`super::walk::walk_map`].
    fn visit_map(&mut self, node: &'ast ast::Mapping)
        ensures
            *final(self) == old(self).after_map(*node),
    ;

    /// Visits a [`ast::Message`]; to traverse its children, call [`super::walk::walk_message`].
    fn visit_message(&mut self, node: &'ast ast::Message)
        ensures
            *final(self) == old(self).after_message(*node),
    ;

    /// Visits a [`ast::Package`]; to traverse its children, call [`super::walk::walk_package`].
    fn visit_package(&mut self, node: &'ast ast::Package)
        ensures
            *final(self) == old(self).after_package(*node),
    ;

    /// Visits a [`ast::Reference`].
    fn visit_reference(&mut self, node: &'ast ast::Reference)
        ensures
            *final(self) == old(self).after_reference(*node),
    ;

    /// Visits a [`ast::Scalar`].
    fn visit_scalar(&mut self, node: &'ast ast::Scalar)
        ensures
            *final(self) == old(self).after_scalar(*node),
    ;

    /// Visits a [`ast::Schema`]; to traverse its children, call [`super::walk::walk_schema`].
    fn visit_schema(&mut self, node: &'ast ast::Schema)
        ensures
            *final(self) == old(self).after_schema(*node),
    ;

    /// Visits a [`ast::Text`].
    fn visit_text(&mut self, node: &'ast ast::Text)
        ensures
            *final(self) == old(self).after_text(*node),
    ;

    /// Visits a [`ast::Type`]; to traverse its children, call [`super::walk::walk_type`].
    fn visit_type(&mut self, node: &'ast ast::Type)
        ensures
            *final(self) == old(self).after_type(*node),
    ;

    /// Visits a [`ast::Uint`].
    fn visit_uint(&mut self, node: &'ast ast::Uint)
        ensures
            *final(self) == old(self).after_uint(*node),
    ;

    /// Visits a [`ast::UnitVariant`]; to traverse its children, call [`super::walk::walk_unit_variant`].
    fn visit_unit_variant(&mut self, node: &'ast ast::UnitVariant)
        ensures
            *final(self) == old(self).after_unit_variant(*node),
    ;
}

} // verus!
