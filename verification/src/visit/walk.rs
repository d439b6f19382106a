//! Traversal of the children of each kind of node, in source order.

use vstd::prelude::*;

use crate::ast;

use super::{Visitable, Visitor};

verus! {

/// Walks a schema, visiting all items.
pub fn walk_schema<'ast, V: Visitor<'ast>>(visitor: &mut V, schema: &'ast ast::Schema)
    ensures
        *final(visitor) == schema.items.visited(*old(visitor)),
{
    schema.items.visit(visitor);
}

/// Walks a message, visiting its comment, name and all items.
pub fn walk_message<'ast, V: Visitor<'ast>>(visitor: &mut V, message: &'ast ast::Message)
    ensures
        *final(visitor) == message.items.visited(
            message.name.visited(message.comment.visited(*old(visitor))),
        ),
{
    message.comment.visit(visitor);
    message.name.visit(visitor);
    message.items.visit(visitor);
}

/// Walks an enum, visiting its comment, name and all items.
pub fn walk_enum<'ast, V: Visitor<'ast>>(visitor: &mut V, enum_: &'ast ast::Enum)
    ensures
        *final(visitor) == enum_.items.visited(
            enum_.name.visited(enum_.comment.visited(*old(visitor))),
        ),
{
    enum_.comment.visit(visitor);
    enum_.name.visit(visitor);
    enum_.items.visit(visitor);
}

/// Walks a field, visiting its comment, name, type, encoding and index.
pub fn walk_field<'ast, V: Visitor<'ast>>(visitor: &mut V, field: &'ast ast::Field)
    ensures
        *final(visitor) == field.index.visited(
            field.encoding.visited(
                field.kind.visited(field.name.visited(field.comment.visited(*old(visitor)))),
            ),
        ),
{
    field.comment.visit(visitor);
    field.name.visit(visitor);
    field.kind.visit(visitor);
    field.encoding.visit(visitor);
    field.index.visit(visitor);
}

/// Walks a unit variant, visiting its comment, name and index.
pub fn walk_unit_variant<'ast, V: Visitor<'ast>>(visitor: &mut V, variant: &'ast ast::UnitVariant)
    ensures
        *final(visitor) == variant.index.visited(
            variant.name.visited(variant.comment.visited(*old(visitor))),
        ),
{
    variant.comment.visit(visitor);
    variant.name.visit(visitor);
    variant.index.visit(visitor);
}

/// Walks a type, visiting the node its variant holds.
pub fn walk_type<'ast, V: Visitor<'ast>>(visitor: &mut V, typ: &'ast ast::Type)
    ensures
        *final(visitor) == match typ {
            ast::Type::Array(arr) => arr.visited(*old(visitor)),
            ast::Type::Mapping(map) => map.visited(*old(visitor)),
            ast::Type::Reference(ref_) => ref_.visited(*old(visitor)),
            ast::Type::Scalar(scalar) => scalar.visited(*old(visitor)),
        },
{
    match typ {
        ast::Type::Array(arr) => arr.visit(visitor),
        ast::Type::Mapping(map) => map.visit(visitor),
        ast::Type::Reference(ref_) => ref_.visit(visitor),
        ast::Type::Scalar(scalar) => scalar.visit(visitor),
    }
}

/// Walks an array type, visiting the element type.
pub fn walk_array<'ast, V: Visitor<'ast>>(visitor: &mut V, array: &'ast ast::Array)
    ensures
        *final(visitor) == array.element.visited(*old(visitor)),
{
    array.element.visit(visitor);
}

/// Walks a map type, visiting the key and value types.
pub fn walk_map<'ast, V: Visitor<'ast>>(visitor: &mut V, map: &'ast ast::Mapping)
    ensures
        *final(visitor) == map.value.visited(map.key.visited(*old(visitor))),
{
    map.key.visit(visitor);
    map.value.visit(visitor);
}

/// Walks a package declaration, visiting its comment and all components.
pub fn walk_package<'ast, V: Visitor<'ast>>(visitor: &mut V, package: &'ast ast::Package)
    ensures
        *final(visitor) == package.components.visited(package.comment.visited(*old(visitor))),
{
    package.comment.visit(visitor);
    package.components.visit(visitor);
}

/// Walks a comment block, visiting all comments.
pub fn walk_comment_block<'ast, V: Visitor<'ast>>(visitor: &mut V, block: &'ast ast::CommentBlock)
    ensures
        *final(visitor) == block.comments.visited(*old(visitor)),
{
    block.comments.visit(visitor);
}

} // verus!
