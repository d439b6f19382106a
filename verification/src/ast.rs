//! Syntax tree of a parsed schema file.

use vstd::prelude::*;

verus! {

/// A half-open range `start..end` of positions in a source text.
#[derive(Clone, Copy, Debug, PartialEq, Eq)]
pub struct Span {
    pub start: usize,
    pub end: usize,
}

impl Span {
    pub fn new(start: usize, end: usize) -> (r: Span)
        ensures
            r.start == start,
            r.end == end,
    {
        Span { start, end }
    }
}

impl Default for Span {
    fn default() -> (r: Span)
        ensures
            r.start == 0 && r.end == 0,
    {
        Span { start: 0, end: 0 }
    }
}

/// An identifier (a name or a reference component).
#[derive(Clone, Debug, PartialEq)]
pub struct Ident {
    pub name: String,
    pub span: Span,
}

/// A string literal.
#[derive(Clone, Debug, PartialEq)]
pub struct Text {
    pub content: String,
    pub span: Span,
}

/// An unsigned integer literal.
#[derive(Clone, Debug, PartialEq)]
pub struct Uint {
    pub value: u64,
    pub span: Span,
}

/// A single line comment.
#[derive(Clone, Debug, PartialEq)]
pub struct Comment {
    pub content: String,
    pub span: Span,
}

/// A group of consecutive comment lines.
#[derive(Clone, Debug, PartialEq)]
pub struct CommentBlock {
    pub comments: Vec<Comment>,
    pub span: Span,
}

/// An explicit field or variant index (`N:`).
#[derive(Clone, Debug, PartialEq)]
pub struct FieldIndex {
    pub value: Uint,
    pub span: Span,
}

/// An encoding annotation of a field.
#[derive(Clone, Debug, PartialEq)]
pub enum EncodingKind {
    Bits(Uint),
    BitsVariable(Uint),
    FixedPoint(Uint, Uint),
    Delta,
    ZigZag,
    Pad(Uint),
}

/// A list of encoding annotations.
#[derive(Clone, Debug, PartialEq)]
pub struct Encoding {
    pub encodings: Vec<EncodingKind>,
    pub span: Span,
}

/// The built-in scalar types.
#[derive(Clone, Copy, Debug, PartialEq, Eq)]
pub enum ScalarType {
    Bit,
    Bool,
    Byte,
    Uint8,
    Uint16,
    Uint32,
    Uint64,
    Int8,
    Int16,
    Int32,
    Int64,
    Float32,
    Float64,
    String,
}

/// A scalar type use.
#[derive(Clone, Debug, PartialEq)]
pub struct Scalar {
    pub kind: ScalarType,
    pub span: Span,
}

/// A reference to a named type (`.a.b.C` or `b.C`).
#[derive(Clone, Debug, PartialEq)]
pub struct Reference {
    pub components: Vec<Ident>,
    pub is_absolute: bool,
    pub span: Span,
}

/// An array type (`[N]T` or `[]T`).
#[derive(Debug, PartialEq)]
pub struct Array {
    pub element: Box<Type>,
    pub size: Option<Uint>,
    pub span: Span,
}

/// A map type (`[K]V`).
#[derive(Debug, PartialEq)]
pub struct Mapping {
    pub key: Box<Type>,
    pub value: Box<Type>,
    pub span: Span,
}

/// A field type.
#[derive(Debug, PartialEq)]
pub enum Type {
    Array(Array),
    Mapping(Mapping),
    Reference(Reference),
    Scalar(Scalar),
}

/// A message field (or a field variant of an enum).
#[derive(Debug, PartialEq)]
pub struct Field {
    pub comment: Option<CommentBlock>,
    pub encoding: Option<Encoding>,
    pub index: Option<FieldIndex>,
    pub kind: Type,
    pub name: Ident,
    pub span: Span,
}

/// A unit variant of an enum.
#[derive(Clone, Debug, PartialEq)]
pub struct UnitVariant {
    pub comment: Option<CommentBlock>,
    pub index: Option<FieldIndex>,
    pub name: Ident,
    pub span: Span,
}

/// An item of an enum body.
#[derive(Debug, PartialEq)]
pub enum EnumItem {
    CommentBlock(CommentBlock),
    FieldVariant(Field),
    UnitVariant(UnitVariant),
}

/// An enum definition.
#[derive(Debug, PartialEq)]
pub struct Enum {
    pub comment: Option<CommentBlock>,
    pub items: Vec<EnumItem>,
    pub name: Ident,
    pub span: Span,
}

/// An item of a message body.
#[derive(Debug, PartialEq)]
pub enum MessageItem {
    CommentBlock(CommentBlock),
    Enum(Enum),
    Field(Field),
    Message(Message),
}

/// A message definition.
#[derive(Debug, PartialEq)]
pub struct Message {
    pub comment: Option<CommentBlock>,
    pub items: Vec<MessageItem>,
    pub name: Ident,
    pub span: Span,
}

/// A package declaration.
#[derive(Clone, Debug, PartialEq)]
pub struct Package {
    pub comment: Option<CommentBlock>,
    pub components: Vec<Ident>,
    pub span: Span,
}

/// An include statement; `path` holds the validated path segments.
#[derive(Clone, Debug, PartialEq)]
pub struct Include {
    pub path: Vec<String>,
    pub span: Span,
}

/// A top-level schema item.
#[derive(Debug, PartialEq)]
pub enum SchemaItem {
    CommentBlock(CommentBlock),
    Enum(Enum),
    Include(Include),
    Message(Message),
    Package(Package),
}

/// A parsed schema file.
#[derive(Debug, PartialEq)]
pub struct Schema {
    pub items: Vec<SchemaItem>,
    pub span: Span,
}

} // verus!
