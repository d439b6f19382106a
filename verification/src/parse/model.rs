//! Abstract values of syntax tree nodes, used to state what the parser gives.

use vstd::prelude::*;

use crate::ast;
use crate::ast::Span;

verus! {

pub struct IdentM {
    pub name: Seq<char>,
    pub span: Span,
}

pub struct CommentM {
    pub content: Seq<char>,
    pub span: Span,
}

pub struct BlockM {
    pub comments: Seq<CommentM>,
    pub span: Span,
}

pub struct EncodingM {
    pub kinds: Seq<ast::EncodingKind>,
    pub span: Span,
}

pub struct ReferenceM {
    pub components: Seq<IdentM>,
    pub is_absolute: bool,
    pub span: Span,
}

pub enum TypeM {
    Array(Box<TypeM>, Option<ast::Uint>, Span),
    Mapping(Box<TypeM>, Box<TypeM>, Span),
    Reference(ReferenceM),
    Scalar(ast::Scalar),
}

pub struct FieldM {
    pub comment: Option<BlockM>,
    pub encoding: Option<EncodingM>,
    pub index: Option<ast::FieldIndex>,
    pub kind: TypeM,
    pub name: IdentM,
    pub span: Span,
}

pub struct UnitVariantM {
    pub comment: Option<BlockM>,
    pub index: Option<ast::FieldIndex>,
    pub name: IdentM,
    pub span: Span,
}

pub enum EnumItemM {
    CommentBlock(BlockM),
    FieldVariant(FieldM),
    UnitVariant(UnitVariantM),
}

pub struct EnumM {
    pub comment: Option<BlockM>,
    pub items: Seq<EnumItemM>,
    pub name: IdentM,
    pub span: Span,
}

pub enum MessageItemM {
    CommentBlock(BlockM),
    Enum(EnumM),
    Field(FieldM),
    Message(MessageM),
}

pub struct MessageM {
    pub comment: Option<BlockM>,
    pub items: Seq<MessageItemM>,
    pub name: IdentM,
    pub span: Span,
}

pub struct PackageM {
    pub comment: Option<BlockM>,
    pub components: Seq<IdentM>,
    pub span: Span,
}

pub struct IncludeM {
    pub path: Seq<Seq<char>>,
    pub span: Span,
}

pub enum SchemaItemM {
    CommentBlock(BlockM),
    Enum(EnumM),
    Include(IncludeM),
    Message(MessageM),
    Package(PackageM),
}

pub struct SchemaM {
    pub items: Seq<SchemaItemM>,
    pub span: Span,
}

pub open spec fn ident_v(x: ast::Ident) -> IdentM {
    IdentM { name: x.name@, span: x.span }
}

pub open spec fn idents_v(x: Seq<ast::Ident>) -> Seq<IdentM> {
    x.map_values(|i: ast::Ident| ident_v(i))
}

pub open spec fn comment_v(x: ast::Comment) -> CommentM {
    CommentM { content: x.content@, span: x.span }
}

pub open spec fn block_v(x: ast::CommentBlock) -> BlockM {
    BlockM { comments: x.comments@.map_values(|c: ast::Comment| comment_v(c)), span: x.span }
}

pub open spec fn opt_block_v(x: Option<ast::CommentBlock>) -> Option<BlockM> {
    match x {
        Some(b) => Some(block_v(b)),
        None => None,
    }
}

pub open spec fn encoding_v(x: ast::Encoding) -> EncodingM {
    EncodingM { kinds: x.encodings@, span: x.span }
}

pub open spec fn opt_encoding_v(x: Option<ast::Encoding>) -> Option<EncodingM> {
    match x {
        Some(e) => Some(encoding_v(e)),
        None => None,
    }
}

pub open spec fn reference_v(x: ast::Reference) -> ReferenceM {
    ReferenceM { components: idents_v(x.components@), is_absolute: x.is_absolute, span: x.span }
}

pub open spec fn type_v(x: ast::Type) -> TypeM
    decreases x,
{
    match x {
        ast::Type::Array(a) => TypeM::Array(Box::new(type_v(*a.element)), a.size, a.span),
        ast::Type::Mapping(m) => TypeM::Mapping(
            Box::new(type_v(*m.key)),
            Box::new(type_v(*m.value)),
            m.span,
        ),
        ast::Type::Reference(r) => TypeM::Reference(reference_v(r)),
        ast::Type::Scalar(s) => TypeM::Scalar(s),
    }
}

pub open spec fn field_v(x: ast::Field) -> FieldM {
    FieldM {
        comment: opt_block_v(x.comment),
        encoding: opt_encoding_v(x.encoding),
        index: x.index,
        kind: type_v(x.kind),
        name: ident_v(x.name),
        span: x.span,
    }
}

pub open spec fn unit_variant_v(x: ast::UnitVariant) -> UnitVariantM {
    UnitVariantM { comment: opt_block_v(x.comment), index: x.index, name: ident_v(x.name), span: x.span }
}

pub open spec fn enum_item_v(x: ast::EnumItem) -> EnumItemM {
    match x {
        ast::EnumItem::CommentBlock(b) => EnumItemM::CommentBlock(block_v(b)),
        ast::EnumItem::FieldVariant(f) => EnumItemM::FieldVariant(field_v(f)),
        ast::EnumItem::UnitVariant(u) => EnumItemM::UnitVariant(unit_variant_v(u)),
    }
}

pub open spec fn enum_v(x: ast::Enum) -> EnumM {
    EnumM {
        comment: opt_block_v(x.comment),
        items: x.items@.map_values(|i: ast::EnumItem| enum_item_v(i)),
        name: ident_v(x.name),
        span: x.span,
    }
}

pub open spec fn message_item_v(x: ast::MessageItem) -> MessageItemM
    decreases x,
{
    match x {
        ast::MessageItem::CommentBlock(b) => MessageItemM::CommentBlock(block_v(b)),
        ast::MessageItem::Enum(e) => MessageItemM::Enum(enum_v(e)),
        ast::MessageItem::Field(f) => MessageItemM::Field(field_v(f)),
        ast::MessageItem::Message(m) => MessageItemM::Message(message_v(m)),
    }
}

pub open spec fn message_v(x: ast::Message) -> MessageM
    decreases x,
{
    MessageM {
        comment: opt_block_v(x.comment),
        items: Seq::new(
            x.items@.len(),
            |i: int|
                if 0 <= i < x.items@.len() {
                    message_item_v(x.items@[i])
                } else {
                    arbitrary()
                },
        ),
        name: ident_v(x.name),
        span: x.span,
    }
}

pub open spec fn message_items_v(x: Seq<ast::MessageItem>) -> Seq<MessageItemM> {
    Seq::new(
        x.len(),
        |i: int|
            if 0 <= i < x.len() {
                message_item_v(x[i])
            } else {
                arbitrary()
            },
    )
}

pub open spec fn package_v(x: ast::Package) -> PackageM {
    PackageM { comment: opt_block_v(x.comment), components: idents_v(x.components@), span: x.span }
}

pub open spec fn include_v(x: ast::Include) -> IncludeM {
    IncludeM { path: x.path@.map_values(|s: String| s@), span: x.span }
}

pub open spec fn schema_item_v(x: ast::SchemaItem) -> SchemaItemM {
    match x {
        ast::SchemaItem::CommentBlock(b) => SchemaItemM::CommentBlock(block_v(b)),
        ast::SchemaItem::Enum(e) => SchemaItemM::Enum(enum_v(e)),
        ast::SchemaItem::Include(i) => SchemaItemM::Include(include_v(i)),
        ast::SchemaItem::Message(m) => SchemaItemM::Message(message_v(m)),
        ast::SchemaItem::Package(p) => SchemaItemM::Package(package_v(p)),
    }
}

pub open spec fn schema_items_v(x: Seq<ast::SchemaItem>) -> Seq<SchemaItemM> {
    x.map_values(|i: ast::SchemaItem| schema_item_v(i))
}

pub open spec fn schema_v(x: ast::Schema) -> SchemaM {
    SchemaM { items: schema_items_v(x.items@), span: x.span }
}

} // verus!
