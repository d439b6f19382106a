//! Nodes that can be visited, and containers of them.

use vstd::prelude::*;

use crate::ast;

use super::Visitor;

verus! {

/// A node, or a container of nodes, that a [`Visitor`] can visit.
pub trait Visitable<'ast, V: Visitor<'ast>> {
    /// The visitor's value after visiting `self`, starting from `v`.
    spec fn visited(&self, v: V) -> V;

    fn visit(&'ast self, visitor: &mut V)
        ensures
            *final(visitor) == self.visited(*old(visitor)),
    ;
}

impl<'ast, V: Visitor<'ast>, T: Visitable<'ast, V>> Visitable<'ast, V> for Box<T> {
    open spec fn visited(&self, v: V) -> V {
        (**self).visited(v)
    }

    fn visit(&'ast self, visitor: &mut V) {
        (**self).visit(visitor)
    }
}

/// An absent value visits nothing.
impl<'ast, V: Visitor<'ast>, T: Visitable<'ast, V>> Visitable<'ast, V> for Option<T> {
    open spec fn visited(&self, v: V) -> V {
        match self {
            Some(x) => x.visited(v),
            None => v,
        }
    }

    fn visit(&'ast self, visitor: &mut V) {
        if let Some(inner) = self {
            inner.visit(visitor);
        }
    }
}

/// The visitor's value after visiting `items` in order, starting from `v`.
pub open spec fn visited_all<'ast, V: Visitor<'ast>, T: Visitable<'ast, V>>(items: Seq<T>, v: V) -> V
    decreases items.len(),
{
    if items.len() == 0 {
        v
    } else {
        items.last().visited(visited_all(items.drop_last(), v))
    }
}

/// The items of a vector are visited in order.
impl<'ast, V: Visitor<'ast>, T: Visitable<'ast, V>> Visitable<'ast, V> for Vec<T> {
    open spec fn visited(&self, v: V) -> V {
        visited_all(self@, v)
    }

    fn visit(&'ast self, visitor: &mut V) {
        let ghost v0 = *visitor;
        let mut i: usize = 0;
        while i < self.len()
            invariant
                i <= self.len(),
                *visitor == visited_all(self@.take(i as int), v0),
            decreases self.len() - i,
        {
            assert(self@.take(i + 1).drop_last() =~= self@.take(i as int));
            self[i].visit(visitor);
            i = i + 1;
        }
        assert(self@.take(self.len() as int) =~= self@);
    }
}

impl<'ast, V: Visitor<'ast>> Visitable<'ast, V> for ast::Array {
    open spec fn visited(&self, v: V) -> V {
        v.after_array(*self)
    }

    fn visit(&'ast self, visitor: &mut V) {
        visitor.visit_array(self)
    }
}

impl<'ast, V: Visitor<'ast>> Visitable<'ast, V> for ast::CommentBlock {
    open spec fn visited(&self, v: V) -> V {
        v.after_comment_block(*self)
    }

    fn visit(&'ast self, visitor: &mut V) {
        visitor.visit_comment_block(self)
    }
}

impl<'ast, V: Visitor<'ast>> Visitable<'ast, V> for ast::Comment {
    open spec fn visited(&self, v: V) -> V {
        v.after_comment(*self)
    }

    fn visit(&'ast self, visitor: &mut V) {
        visitor.visit_comment(self)
    }
}

impl<'ast, V: Visitor<'ast>> Visitable<'ast, V> for ast::Encoding {
    open spec fn visited(&self, v: V) -> V {
        v.after_encoding(*self)
    }

    fn visit(&'ast self, visitor: &mut V) {
        visitor.visit_encoding(self)
    }
}

impl<'ast, V: Visitor<'ast>> Visitable<'ast, V> for ast::Enum {
    open spec fn visited(&self, v: V) -> V {
        v.after_enum(*self)
    }

    fn visit(&'ast self, visitor: &mut V) {
        visitor.visit_enum(self)
    }
}

impl<'ast, V: Visitor<'ast>> Visitable<'ast, V> for ast::FieldIndex {
    open spec fn visited(&self, v: V) -> V {
        v.after_field_index(*self)
    }

    fn visit(&'ast self, visitor: &mut V) {
        visitor.visit_field_index(self)
    }
}

impl<'ast, V: Visitor<'ast>> Visitable<'ast, V> for ast::Field {
    open spec fn visited(&self, v: V) -> V {
        v.after_field(*self)
    }

    fn visit(&'ast self, visitor: &mut V) {
        visitor.visit_field(self)
    }
}

impl<'ast, V: Visitor<'ast>> Visitable<'ast, V> for ast::Ident {
    open spec fn visited(&self, v: V) -> V {
        v.after_ident(*self)
    }

    fn visit(&'ast self, visitor: &mut V) {
        visitor.visit_ident(self)
    }
}

impl<'ast, V: Visitor<'ast>> Visitable<'ast, V> for ast::Include {
    open spec fn visited(&self, v: V) -> V {
        v.after_include(*self)
    }

    fn visit(&'ast self, visitor: &mut V) {
        visitor.visit_include(self)
    }
}

impl<'ast, V: Visitor<'ast>> Visitable<'ast, V> for ast::Mapping {
    open spec fn visited(&self, v: V) -> V {
        v.after_map(*self)
    }

    fn visit(&'ast self, visitor: &mut V) {
        visitor.visit_map(self)
    }
}

impl<'ast, V: Visitor<'ast>> Visitable<'ast, V> for ast::Message {
    open spec fn visited(&self, v: V) -> V {
        v.after_message(*self)
    }

    fn visit(&'ast self, visitor: &mut V) {
        visitor.visit_message(self)
    }
}

impl<'ast, V: Visitor<'ast>> Visitable<'ast, V> for ast::Package {
    open spec fn visited(&self, v: V) -> V {
        v.after_package(*self)
    }

    fn visit(&'ast self, visitor: &mut V) {
        visitor.visit_package(self)
    }
}

impl<'ast, V: Visitor<'ast>> Visitable<'ast, V> for ast::Reference {
    open spec fn visited(&self, v: V) -> V {
        v.after_reference(*self)
    }

    fn visit(&'ast self, visitor: &mut V) {
        visitor.visit_reference(self)
    }
}

impl<'ast, V: Visitor<'ast>> Visitable<'ast, V> for ast::Scalar {
    open spec fn visited(&self, v: V) -> V {
        v.after_scalar(*self)
    }

    fn visit(&'ast self, visitor: &mut V) {
        visitor.visit_scalar(self)
    }
}

impl<'ast, V: Visitor<'ast>> Visitable<'ast, V> for ast::Schema {
    open spec fn visited(&self, v: V) -> V {
        v.after_schema(*self)
    }

    fn visit(&'ast self, visitor: &mut V) {
        visitor.visit_schema(self)
    }
}

impl<'ast, V: Visitor<'ast>> Visitable<'ast, V> for ast::Text {
    open spec fn visited(&self, v: V) -> V {
        v.after_text(*self)
    }

    fn visit(&'ast self, visitor: &mut V) {
        visitor.visit_text(self)
    }
}

impl<'ast, V: Visitor<'ast>> Visitable<'ast, V> for ast::Type {
    open spec fn visited(&self, v: V) -> V {
        v.after_type(*self)
    }

    fn visit(&'ast self, visitor: &mut V) {
        visitor.visit_type(self)
    }
}

impl<'ast, V: Visitor<'ast>> Visitable<'ast, V> for ast::Uint {
    open spec fn visited(&self, v: V) -> V {
        v.after_uint(*self)
    }

    fn visit(&'ast self, visitor: &mut V) {
        visitor.visit_uint(self)
    }
}

impl<'ast, V: Visitor<'ast>> Visitable<'ast, V> for ast::UnitVariant {
    open spec fn visited(&self, v: V) -> V {
        v.after_unit_variant(*self)
    }

    fn visit(&'ast self, visitor: &mut V) {
        visitor.visit_unit_variant(self)
    }
}

/// An item is visited as the node it holds.
impl<'ast, V: Visitor<'ast>> Visitable<'ast, V> for ast::EnumItem {
    open spec fn visited(&self, v: V) -> V {
        match self {
            ast::EnumItem::CommentBlock(inner) => inner.visited(v),
            ast::EnumItem::FieldVariant(inner) => inner.visited(v),
            ast::EnumItem::UnitVariant(inner) => inner.visited(v),
        }
    }

    fn visit(&'ast self, visitor: &mut V) {
        match self {
            ast::EnumItem::CommentBlock(inner) => inner.visit(visitor),
            ast::EnumItem::FieldVariant(inner) => inner.visit(visitor),
            ast::EnumItem::UnitVariant(inner) => inner.visit(visitor),
        }
    }
}

/// An item is visited as the node it holds.
impl<'ast, V: Visitor<'ast>> Visitable<'ast, V> for ast::MessageItem {
    open spec fn visited(&self, v: V) -> V {
        match self {
            ast::MessageItem::CommentBlock(inner) => inner.visited(v),
            ast::MessageItem::Enum(inner) => inner.visited(v),
            ast::MessageItem::Field(inner) => inner.visited(v),
            ast::MessageItem::Message(inner) => inner.visited(v),
        }
    }

    fn visit(&'ast self, visitor: &mut V) {
        match self {
            ast::MessageItem::CommentBlock(inner) => inner.visit(visitor),
            ast::MessageItem::Enum(inner) => inner.visit(visitor),
            ast::MessageItem::Field(inner) => inner.visit(visitor),
            ast::MessageItem::Message(inner) => inner.visit(visitor),
        }
    }
}

/// An item is visited as the node it holds.
impl<'ast, V: Visitor<'ast>> Visitable<'ast, V> for ast::SchemaItem {
    open spec fn visited(&self, v: V) -> V {
        match self {
            ast::SchemaItem::CommentBlock(inner) => inner.visited(v),
            ast::SchemaItem::Enum(inner) => inner.visited(v),
            ast::SchemaItem::Include(inner) => inner.visited(v),
            ast::SchemaItem::Message(inner) => inner.visited(v),
            ast::SchemaItem::Package(inner) => inner.visited(v),
        }
    }

    fn visit(&'ast self, visitor: &mut V) {
        match self {
            ast::SchemaItem::CommentBlock(inner) => inner.visit(visitor),
            ast::SchemaItem::Enum(inner) => inner.visit(visitor),
            ast::SchemaItem::Include(inner) => inner.visit(visitor),
            ast::SchemaItem::Message(inner) => inner.visit(visitor),
            ast::SchemaItem::Package(inner) => inner.visit(visitor),
        }
    }
}

} // verus!
