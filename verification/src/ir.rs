//! Intermediate representation handed to code generators.
//!
//! The representation is hierarchical (packages hold messages, messages hold
//! their nested types) and self-describing (every type carries its full
//! descriptor).

use vstd::prelude::*;

pub mod descriptor;
pub mod encoding;
pub mod lower;

pub use descriptor::Descriptor;
pub use encoding::{Encoding, NativeType, Transform, WireFormat};

verus! {

/// A fully resolved field of a message or of an enum variant.
#[derive(Debug)]
pub struct Field {
    /// Field name.
    pub name: String,
    /// Field index in serialization order.
    pub index: u32,
    /// Encoding of the field.
    pub encoding: Encoding,
    /// Documentation comment.
    pub doc: Option<String>,
}

/// An enum variant (unit or data-carrying).
#[derive(Debug)]
pub enum Variant {
    /// Unit variant with no associated data.
    Unit { name: String, index: u32, doc: Option<String> },
    /// Variant with an associated field.
    Field { name: String, index: u32, field: Field, doc: Option<String> },
}

/// A fully resolved enum type.
#[derive(Debug)]
pub struct Enum {
    /// Uniquely identifies the enum.
    pub descriptor: Descriptor,
    /// Encoding of the discriminant.
    pub discriminant: Encoding,
    /// Documentation comment.
    pub doc: Option<String>,
    /// Variants in serialization order.
    pub variants: Vec<Variant>,
}

impl Enum {
    /// The name of the enum (last component of its descriptor).
    pub fn name(&self) -> (r: Option<&str>)
        ensures
            r.is_some() == (self.descriptor.path@.len() > 0),
            r matches Some(n) ==> n@ == self.descriptor.path@.last()@,
    {
        self.descriptor.name()
    }
}

/// A fully resolved message type with its nested types inline.
#[derive(Debug)]
pub struct Message {
    /// Uniquely identifies the message.
    pub descriptor: Descriptor,
    /// Documentation comment.
    pub doc: Option<String>,
    /// Direct nested enums.
    pub enums: Vec<Enum>,
    /// Fields in serialization order.
    pub fields: Vec<Field>,
    /// Direct nested messages.
    pub messages: Vec<Message>,
}

impl Message {
    /// The name of the message (last component of its descriptor).
    pub fn name(&self) -> (r: Option<&str>)
        ensures
            r.is_some() == (self.descriptor.path@.len() > 0),
            r matches Some(n) ==> n@ == self.descriptor.path@.last()@,
    {
        self.descriptor.name()
    }
}

/// A package: a namespace that one or more source files contribute to.
#[derive(Debug)]
pub struct Package {
    /// Full package path, e.g. `foo.bar`.
    pub path: String,
    /// Top-level messages (nested types inline).
    pub messages: Vec<Message>,
    /// Top-level enums.
    pub enums: Vec<Enum>,
}

/// The root of the intermediate representation.
#[derive(Debug)]
pub struct Schema {
    /// All packages.
    pub packages: Vec<Package>,
}

} // verus!
