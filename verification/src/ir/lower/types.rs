//! Lowering of field types to encodings.

use vstd::prelude::*;

use crate::ast;
use crate::ir::descriptor::descriptor_text;
use crate::ir::encoding::{apply_all, encoding_view, EncodingSpec, NativeSpec};
use crate::ir::{Descriptor, Encoding, NativeType, Transform, WireFormat};
use crate::text::{decimal, texts};

use super::{resolved_view, scope_of, FieldTypeContext, Lower, ScopeSpec, TypeKind, TypeResolver};

verus! {

/// The native type of a scalar.
pub open spec fn scalar_native(k: ast::ScalarType) -> NativeSpec {
    match k {
        ast::ScalarType::Bool | ast::ScalarType::Bit => NativeSpec::Bool,
        ast::ScalarType::Byte | ast::ScalarType::Uint8 => NativeSpec::Int { bits: 8, signed: false },
        ast::ScalarType::Uint16 => NativeSpec::Int { bits: 16, signed: false },
        ast::ScalarType::Uint32 => NativeSpec::Int { bits: 32, signed: false },
        ast::ScalarType::Uint64 => NativeSpec::Int { bits: 64, signed: false },
        ast::ScalarType::Int8 => NativeSpec::Int { bits: 8, signed: true },
        ast::ScalarType::Int16 => NativeSpec::Int { bits: 16, signed: true },
        ast::ScalarType::Int32 => NativeSpec::Int { bits: 32, signed: true },
        ast::ScalarType::Int64 => NativeSpec::Int { bits: 64, signed: true },
        ast::ScalarType::Float32 => NativeSpec::Float { bits: 32 },
        ast::ScalarType::Float64 => NativeSpec::Float { bits: 64 },
        ast::ScalarType::String => NativeSpec::String,
    }
}

/// The default wire format of a scalar: its width in bits, or a 32-bit
/// length prefix for strings.
pub open spec fn scalar_wire(k: ast::ScalarType) -> WireFormat {
    match k {
        ast::ScalarType::Bool | ast::ScalarType::Bit => WireFormat::Bits { count: 1 },
        ast::ScalarType::Byte | ast::ScalarType::Uint8 | ast::ScalarType::Int8 => WireFormat::Bits {
            count: 8,
        },
        ast::ScalarType::Uint16 | ast::ScalarType::Int16 => WireFormat::Bits { count: 16 },
        ast::ScalarType::Uint32 | ast::ScalarType::Int32 | ast::ScalarType::Float32 => WireFormat::Bits {
            count: 32,
        },
        ast::ScalarType::Uint64 | ast::ScalarType::Int64 | ast::ScalarType::Float64 => WireFormat::Bits {
            count: 64,
        },
        ast::ScalarType::String => WireFormat::LengthPrefixed { prefix_bits: 32 },
    }
}

/// The wire format, transforms and padding from a default wire format and
/// optional annotations.
pub open spec fn with_encoding(default_wire: WireFormat, enc: Option<ast::Encoding>) -> (
    WireFormat,
    Seq<Transform>,
    Option<u64>,
) {
    match enc {
        Some(e) => apply_all(default_wire, e.encodings@),
        None => (default_wire, Seq::empty(), None),
    }
}

/// The encoding of a referenced type, given what the resolver answered.
pub open spec fn resolved_encoding(res: Option<(ScopeSpec, TypeKind)>) -> Option<EncodingSpec> {
    match res {
        Some((d, TypeKind::Message)) => Some(
            EncodingSpec {
                wire: WireFormat::Embedded,
                native: NativeSpec::Message(descriptor_text(d.0, d.1)),
                transforms: Seq::empty(),
                padding_bits: None,
            },
        ),
        Some((d, TypeKind::Enum)) => Some(
            EncodingSpec {
                wire: WireFormat::Embedded,
                native: NativeSpec::Enum(descriptor_text(d.0, d.1)),
                transforms: Seq::empty(),
                padding_bits: None,
            },
        ),
        _ => None,
    }
}

/// The encoding of field type `t` with annotations `enc`, references being
/// resolved by `resolver` in `scope`. Element, key and value types are
/// lowered without annotations; annotations on an array set its wire format
/// and padding only; annotations on a map are ignored.
pub open spec fn lower_type_spec<R: TypeResolver>(
    t: ast::Type,
    enc: Option<ast::Encoding>,
    resolver: &R,
    scope: ScopeSpec,
) -> Option<EncodingSpec>
    decreases t,
{
    match t {
        ast::Type::Scalar(s) => {
            let (wire, transforms, padding_bits) = with_encoding(scalar_wire(s.kind), enc);
            Some(EncodingSpec { wire, native: scalar_native(s.kind), transforms, padding_bits })
        },
        ast::Type::Reference(r) => resolved_encoding(resolver.resolution(scope, r)),
        ast::Type::Array(a) => match lower_type_spec(*a.element, None, resolver, scope) {
            Some(el) => {
                let (wire, _, padding_bits) = with_encoding(
                    WireFormat::LengthPrefixed { prefix_bits: 32 },
                    enc,
                );
                Some(
                    EncodingSpec {
                        wire,
                        native: NativeSpec::Array(Box::new(el)),
                        transforms: Seq::empty(),
                        padding_bits,
                    },
                )
            },
            None => None,
        },
        ast::Type::Mapping(m) => match (
            lower_type_spec(*m.key, None, resolver, scope),
            lower_type_spec(*m.value, None, resolver, scope),
        ) {
            (Some(k), Some(v)) => Some(
                EncodingSpec {
                    wire: WireFormat::LengthPrefixed { prefix_bits: 32 },
                    native: NativeSpec::Mapping(Box::new(k), Box::new(v)),
                    transforms: Seq::empty(),
                    padding_bits: None,
                },
            ),
            _ => None,
        },
    }
}

/// The annotations behind an optional reference.
pub open spec fn deref_opt(enc: Option<&ast::Encoding>) -> Option<ast::Encoding> {
    match enc {
        Some(e) => Some(*e),
        None => None,
    }
}

/// Relates an exec lowering result to its specification.
pub open spec fn lowered_as(r: Option<Encoding>, spec: Option<EncodingSpec>) -> bool {
    match r {
        Some(e) => spec == Some(encoding_view(e)),
        None => spec is None,
    }
}

fn apply_optional(default_wire: WireFormat, enc: Option<&ast::Encoding>) -> (r: (
    WireFormat,
    Vec<Transform>,
    Option<u64>,
))
    ensures
        (r.0, r.1@, r.2) == with_encoding(default_wire, deref_opt(enc)),
{
    match enc {
        Some(e) => match e.apply_to_wire(&default_wire) {
            Some(t) => t,
            None => (default_wire, Vec::new(), None),
        },
        None => (default_wire, Vec::new(), None),
    }
}

/// Lowers a scalar with optional annotations.
pub fn lower_scalar(s: &ast::Scalar, enc: Option<&ast::Encoding>) -> (r: Encoding)
    ensures
        encoding_view(r) == (EncodingSpec {
            wire: with_encoding(scalar_wire(s.kind), deref_opt(enc)).0,
            native: scalar_native(s.kind),
            transforms: with_encoding(scalar_wire(s.kind), deref_opt(enc)).1,
            padding_bits: with_encoding(scalar_wire(s.kind), deref_opt(enc)).2,
        }),
{
    let (native, default_wire) = match s.kind {
        ast::ScalarType::Bool | ast::ScalarType::Bit => (
            NativeType::Bool,
            WireFormat::Bits { count: 1 },
        ),
        ast::ScalarType::Byte | ast::ScalarType::Uint8 => (
            NativeType::Int { bits: 8, signed: false },
            WireFormat::Bits { count: 8 },
        ),
        ast::ScalarType::Uint16 => (
            NativeType::Int { bits: 16, signed: false },
            WireFormat::Bits { count: 16 },
        ),
        ast::ScalarType::Uint32 => (
            NativeType::Int { bits: 32, signed: false },
            WireFormat::Bits { count: 32 },
        ),
        ast::ScalarType::Uint64 => (
            NativeType::Int { bits: 64, signed: false },
            WireFormat::Bits { count: 64 },
        ),
        ast::ScalarType::Int8 => (
            NativeType::Int { bits: 8, signed: true },
            WireFormat::Bits { count: 8 },
        ),
        ast::ScalarType::Int16 => (
            NativeType::Int { bits: 16, signed: true },
            WireFormat::Bits { count: 16 },
        ),
        ast::ScalarType::Int32 => (
            NativeType::Int { bits: 32, signed: true },
            WireFormat::Bits { count: 32 },
        ),
        ast::ScalarType::Int64 => (
            NativeType::Int { bits: 64, signed: true },
            WireFormat::Bits { count: 64 },
        ),
        ast::ScalarType::Float32 => (NativeType::Float { bits: 32 }, WireFormat::Bits { count: 32 }),
        ast::ScalarType::Float64 => (NativeType::Float { bits: 64 }, WireFormat::Bits { count: 64 }),
        ast::ScalarType::String => (
            NativeType::String,
            WireFormat::LengthPrefixed { prefix_bits: 32 },
        ),
    };
    let (wire, transforms, padding_bits) = apply_optional(default_wire, enc);
    Encoding { wire, native, transforms, padding_bits }
}

/// The encoding of a referenced type, given what the resolver answered:
/// an embedded message or enum; `None` for a package or no answer.
pub fn encoding_for_resolved(res: Option<(Descriptor, TypeKind)>) -> (r: Option<Encoding>)
    ensures
        lowered_as(r, resolved_encoding(resolved_view(res))),
{
    match res {
        Some((d, TypeKind::Message)) => Some(
            Encoding {
                wire: WireFormat::Embedded,
                native: NativeType::Message { descriptor: d.to_string() },
                transforms: Vec::new(),
                padding_bits: None,
            },
        ),
        Some((d, TypeKind::Enum)) => Some(
            Encoding {
                wire: WireFormat::Embedded,
                native: NativeType::Enum { descriptor: d.to_string() },
                transforms: Vec::new(),
                padding_bits: None,
            },
        ),
        _ => None,
    }
}

/// Lowers a field type with optional annotations.
pub fn lower_type<R: TypeResolver>(
    t: &ast::Type,
    enc: Option<&ast::Encoding>,
    resolver: &R,
    scope: &Descriptor,
) -> (r: Option<Encoding>)
    ensures
        lowered_as(r, lower_type_spec(*t, deref_opt(enc), resolver, scope_of(*scope))),
    decreases t,
{
    match t {
        ast::Type::Scalar(s) => Some(lower_scalar(s, enc)),
        ast::Type::Reference(r) => {
            let res = resolver.resolve(scope, r);
            encoding_for_resolved(res)
        },
        ast::Type::Array(a) => lower_array(a, enc, resolver, scope),
        ast::Type::Mapping(m) => lower_mapping(m, enc, resolver, scope),
    }
}

/// Lowers an array type: a length-prefixed sequence of its lowered element
/// type; annotations set the wire format and padding only.
pub fn lower_array<R: TypeResolver>(
    a: &ast::Array,
    enc: Option<&ast::Encoding>,
    resolver: &R,
    scope: &Descriptor,
) -> (r: Option<Encoding>)
    ensures
        lowered_as(r, lower_type_spec(ast::Type::Array(*a), deref_opt(enc), resolver, scope_of(*scope))),
    decreases a,
{
    let element = lower_type(&a.element, None, resolver, scope);
    match element {
        Some(el) => {
            let (wire, _, padding_bits) = apply_optional(
                WireFormat::LengthPrefixed { prefix_bits: 32 },
                enc,
            );
            Some(
                Encoding {
                    wire,
                    native: NativeType::Array { element: Box::new(el) },
                    transforms: Vec::new(),
                    padding_bits,
                },
            )
        },
        None => None,
    }
}

/// Lowers a map type: a length-prefixed sequence of lowered key and value
/// types; annotations are ignored.
pub fn lower_mapping<R: TypeResolver>(
    m: &ast::Mapping,
    enc: Option<&ast::Encoding>,
    resolver: &R,
    scope: &Descriptor,
) -> (r: Option<Encoding>)
    ensures
        lowered_as(r, lower_type_spec(ast::Type::Mapping(*m), deref_opt(enc), resolver, scope_of(*scope))),
    decreases m,
{
    let key = lower_type(&m.key, None, resolver, scope);
    let value = lower_type(&m.value, None, resolver, scope);
    match (key, value) {
        (Some(k), Some(v)) => Some(
            Encoding {
                wire: WireFormat::LengthPrefixed { prefix_bits: 32 },
                native: NativeType::Mapping { key: Box::new(k), value: Box::new(v) },
                transforms: Vec::new(),
                padding_bits: None,
            },
        ),
        _ => None,
    }
}

impl<'a, 'b, R: TypeResolver> Lower<Encoding, FieldTypeContext<'a, 'b, R>> for ast::Type {
    fn lower(&self, ctx: &FieldTypeContext<'a, 'b, R>) -> (r: Option<Encoding>)
        ensures
            lowered_as(r, lower_type_spec(*self, deref_opt(ctx.encoding), ctx.ctx.resolver, scope_of(ctx.ctx.scope))),
    {
        lower_type(self, ctx.encoding, ctx.ctx.resolver, &ctx.ctx.scope)
    }
}

impl<'a, 'b, R: TypeResolver> Lower<Encoding, FieldTypeContext<'a, 'b, R>> for ast::Scalar {
    fn lower(&self, ctx: &FieldTypeContext<'a, 'b, R>) -> (r: Option<Encoding>)
        ensures
            lowered_as(
                r,
                lower_type_spec(ast::Type::Scalar(*self), deref_opt(ctx.encoding), ctx.ctx.resolver, scope_of(ctx.ctx.scope)),
            ),
    {
        Some(lower_scalar(self, ctx.encoding))
    }
}

impl<'a, 'b, R: TypeResolver> Lower<Encoding, FieldTypeContext<'a, 'b, R>> for ast::Reference {
    fn lower(&self, ctx: &FieldTypeContext<'a, 'b, R>) -> (r: Option<Encoding>)
        ensures
            lowered_as(r, resolved_encoding(ctx.ctx.resolver.resolution(scope_of(ctx.ctx.scope), *self))),
    {
        let res = ctx.ctx.resolver.resolve(&ctx.ctx.scope, self);
        encoding_for_resolved(res)
    }
}

impl<'a, 'b, R: TypeResolver> Lower<Encoding, FieldTypeContext<'a, 'b, R>> for ast::Array {
    fn lower(&self, ctx: &FieldTypeContext<'a, 'b, R>) -> (r: Option<Encoding>)
        ensures
            lowered_as(
                r,
                lower_type_spec(ast::Type::Array(*self), deref_opt(ctx.encoding), ctx.ctx.resolver, scope_of(ctx.ctx.scope)),
            ),
    {
        lower_array(self, ctx.encoding, ctx.ctx.resolver, &ctx.ctx.scope)
    }
}

impl<'a, 'b, R: TypeResolver> Lower<Encoding, FieldTypeContext<'a, 'b, R>> for ast::Mapping {
    fn lower(&self, ctx: &FieldTypeContext<'a, 'b, R>) -> (r: Option<Encoding>)
        ensures
            lowered_as(
                r,
                lower_type_spec(ast::Type::Mapping(*self), deref_opt(ctx.encoding), ctx.ctx.resolver, scope_of(ctx.ctx.scope)),
            ),
    {
        lower_mapping(self, ctx.encoding, ctx.ctx.resolver, &ctx.ctx.scope)
    }
}


/// A built-in numeric type is lowered as its name says: `iN` to a signed
/// `N`-bit integer, `uN` to an unsigned one, `fN` to an `N`-bit float, and
/// by default each takes `N` bits on the wire.
pub proof fn lemma_scalar_follows_name(name: Seq<char>)
    requires
        crate::parse::grammar::scalar_kind(name) is Some,
        name.len() >= 1,
        name[0] == 'i' || name[0] == 'u' || name[0] == 'f',
    ensures
        ({
            let k = crate::parse::grammar::scalar_kind(name)->0;
            &&& name[0] == 'f' ==> (scalar_native(k) matches NativeSpec::Float { bits } && decimal(
                bits as nat,
            ) == name.drop_first() && scalar_wire(k) == WireFormat::Bits { count: bits as u64 })
            &&& name[0] != 'f' ==> (scalar_native(k) matches NativeSpec::Int { bits, signed }
                && signed == (name[0] == 'i') && decimal(bits as nat) == name.drop_first()
                && scalar_wire(k) == WireFormat::Bits { count: bits as u64 })
        }),
{
    reveal_strlit("bit");
    reveal_strlit("bool");
    reveal_strlit("byte");
    reveal_strlit("u8");
    reveal_strlit("u16");
    reveal_strlit("u32");
    reveal_strlit("u64");
    reveal_strlit("i8");
    reveal_strlit("i16");
    reveal_strlit("i32");
    reveal_strlit("i64");
    reveal_strlit("f32");
    reveal_strlit("f64");
    reveal_strlit("string");
    reveal_with_fuel(decimal, 3);
    assert(decimal(8) =~= seq!['8']);
    assert(decimal(16) =~= seq!['1', '6']);
    assert(decimal(32) =~= seq!['3', '2']);
    assert(decimal(64) =~= seq!['6', '4']);
    let d = name.drop_first();
    if name == "u8"@ {
        assert(d =~= seq!['8']);
    } else if name == "u16"@ || name == "i16"@ {
        assert(d =~= seq!['1', '6']);
    } else if name == "u32"@ || name == "i32"@ || name == "f32"@ {
        assert(d =~= seq!['3', '2']);
    } else if name == "u64"@ || name == "i64"@ || name == "f64"@ {
        assert(d =~= seq!['6', '4']);
    } else if name == "i8"@ {
        assert(d =~= seq!['8']);
    }
}

} // verus!
