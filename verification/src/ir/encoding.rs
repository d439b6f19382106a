//! Wire encodings of fields in the intermediate representation.

use vstd::prelude::*;

use crate::ast;

verus! {

/// How a field is serialized to the wire format.
#[derive(Debug)]
pub struct Encoding {
    /// Wire format specification (bits, length-prefixed, embedded).
    pub wire: WireFormat,
    /// Native type representation for code generation.
    pub native: NativeType,
    /// Transformations applied during encoding/decoding.
    pub transforms: Vec<Transform>,
    /// Padding bits added after this field.
    pub padding_bits: Option<u64>,
}

/// How data is laid out in the binary stream.
#[derive(Debug, Clone, Copy, PartialEq, Eq)]
pub enum WireFormat {
    /// Fixed number of bits.
    Bits { count: u64 },
    /// Variable-length with a length prefix.
    LengthPrefixed { prefix_bits: u8 },
    /// Embedded message (recursively encoded).
    Embedded,
}

/// The language-level type used by code generators.
#[derive(Debug)]
pub enum NativeType {
    Bool,
    Int { bits: u8, signed: bool },
    Float { bits: u8 },
    String,
    Bytes,
    Array { element: Box<Encoding> },
    Mapping { key: Box<Encoding>, value: Box<Encoding> },
    /// Reference to a message by descriptor string.
    Message { descriptor: String },
    /// Reference to an enum by descriptor string.
    Enum { descriptor: String },
}

/// Encoding transformations applied to values.
#[derive(Debug, Clone, Copy, PartialEq, Eq)]
pub enum Transform {
    ZigZag,
    Delta,
    FixedPoint { integer_bits: u8, fractional_bits: u8 },
}

/// The abstract value of a [`NativeType`].
pub enum NativeSpec {
    Bool,
    Int { bits: u8, signed: bool },
    Float { bits: u8 },
    String,
    Bytes,
    Array(Box<EncodingSpec>),
    Mapping(Box<EncodingSpec>, Box<EncodingSpec>),
    Message(Seq<char>),
    Enum(Seq<char>),
}

/// The abstract value of an [`Encoding`].
pub struct EncodingSpec {
    pub wire: WireFormat,
    pub native: NativeSpec,
    pub transforms: Seq<Transform>,
    pub padding_bits: Option<u64>,
}

pub open spec fn encoding_view(e: Encoding) -> EncodingSpec
    decreases e,
{
    EncodingSpec {
        wire: e.wire,
        native: native_view(e.native),
        transforms: e.transforms@,
        padding_bits: e.padding_bits,
    }
}

pub open spec fn native_view(n: NativeType) -> NativeSpec
    decreases n,
{
    match n {
        NativeType::Bool => NativeSpec::Bool,
        NativeType::Int { bits, signed } => NativeSpec::Int { bits, signed },
        NativeType::Float { bits } => NativeSpec::Float { bits },
        NativeType::String => NativeSpec::String,
        NativeType::Bytes => NativeSpec::Bytes,
        NativeType::Array { element } => NativeSpec::Array(Box::new(encoding_view(*element))),
        NativeType::Mapping { key, value } => NativeSpec::Mapping(
            Box::new(encoding_view(*key)),
            Box::new(encoding_view(*value)),
        ),
        NativeType::Message { descriptor } => NativeSpec::Message(descriptor@),
        NativeType::Enum { descriptor } => NativeSpec::Enum(descriptor@),
    }
}

/// Number of bits needed to write `v` in binary (0 for 0).
pub open spec fn bit_length(v: nat) -> nat
    decreases v,
{
    if v == 0 {
        0
    } else {
        1 + bit_length(v / 2)
    }
}

/// Width of the length prefix used for a variable-length field whose
/// length is at most `max_bits`: the bit length of `max_bits`, at least 8.
pub open spec fn prefix_bits_for(max_bits: u64) -> u8 {
    if bit_length(max_bits as nat) < 8 {
        8
    } else {
        bit_length(max_bits as nat) as u8
    }
}

/// The wire format, transforms and padding after applying one annotation.
pub open spec fn apply_kind(
    state: (WireFormat, Seq<Transform>, Option<u64>),
    kind: ast::EncodingKind,
) -> (WireFormat, Seq<Transform>, Option<u64>) {
    let (wire, transforms, padding) = state;
    match kind {
        ast::EncodingKind::Bits(b) => (WireFormat::Bits { count: b.value }, transforms, padding),
        ast::EncodingKind::BitsVariable(m) => (
            WireFormat::LengthPrefixed { prefix_bits: prefix_bits_for(m.value) },
            transforms,
            padding,
        ),
        ast::EncodingKind::ZigZag => (wire, transforms.push(Transform::ZigZag), padding),
        ast::EncodingKind::Delta => (wire, transforms.push(Transform::Delta), padding),
        ast::EncodingKind::FixedPoint(i, f) => (
            wire,
            transforms.push(
                Transform::FixedPoint {
                    integer_bits: i.value as u8,
                    fractional_bits: f.value as u8,
                },
            ),
            padding,
        ),
        ast::EncodingKind::Pad(b) => (wire, transforms, Some(b.value)),
    }
}

/// The result of applying the annotations `kinds`, in order, to `default_wire`.
pub open spec fn apply_all(default_wire: WireFormat, kinds: Seq<ast::EncodingKind>) -> (
    WireFormat,
    Seq<Transform>,
    Option<u64>,
)
    decreases kinds.len(),
{
    if kinds.len() == 0 {
        (default_wire, Seq::empty(), None)
    } else {
        apply_kind(apply_all(default_wire, kinds.drop_last()), kinds.last())
    }
}

pub proof fn lemma_bit_length_lz(v: u64)
    ensures
        64 - vstd::std_specs::bits::u64_leading_zeros(v) == bit_length(v as nat),
        bit_length(v as nat) <= 64,
    decreases v,
{
    reveal(vstd::std_specs::bits::u64_leading_zeros);
    if v != 0 {
        lemma_bit_length_lz(v / 2);
    }
}

/// The length prefix width for a variable-length field bounded by `max_bits`.
fn prefix_bits(max_bits: u64) -> (r: u8)
    ensures
        r == prefix_bits_for(max_bits),
{
    proof {
        lemma_bit_length_lz(max_bits);
    }
    if max_bits == 0 {
        8
    } else {
        let n: u32 = 64 - max_bits.leading_zeros();
        if n < 8 {
            8
        } else {
            n as u8
        }
    }
}

impl ast::Encoding {
    /// Applies the encoding annotations, in order, to a default wire format,
    /// giving the wire format, the transforms and the padding.
    pub fn apply_to_wire(&self, default_wire: &WireFormat) -> (r: Option<
        (WireFormat, Vec<Transform>, Option<u64>),
    >)
        ensures
            r matches Some((w, t, p)) && (w, t@, p) == apply_all(*default_wire, self.encodings@),
    {
        let mut wire = *default_wire;
        let mut transforms: Vec<Transform> = Vec::new();
        let mut padding_bits: Option<u64> = None;
        let mut i: usize = 0;
        while i < self.encodings.len()
            invariant
                i <= self.encodings.len(),
                (wire, transforms@, padding_bits) == apply_all(
                    *default_wire,
                    self.encodings@.take(i as int),
                ),
            decreases self.encodings.len() - i,
        {
            proof {
                assert(self.encodings@.take(i + 1).drop_last() =~= self.encodings@.take(i as int));
            }
            match &self.encodings[i] {
                ast::EncodingKind::Bits(bits) => {
                    wire = WireFormat::Bits { count: bits.value };
                },
                ast::EncodingKind::BitsVariable(max_bits) => {
                    wire = WireFormat::LengthPrefixed { prefix_bits: prefix_bits(max_bits.value) };
                },
                ast::EncodingKind::ZigZag => {
                    transforms.push(Transform::ZigZag);
                },
                ast::EncodingKind::Delta => {
                    transforms.push(Transform::Delta);
                },
                ast::EncodingKind::FixedPoint(int_bits, frac_bits) => {
                    transforms.push(
                        Transform::FixedPoint {
                            integer_bits: int_bits.value as u8,
                            fractional_bits: frac_bits.value as u8,
                        },
                    );
                },
                ast::EncodingKind::Pad(bits) => {
                    padding_bits = Some(bits.value);
                },
            }
            i = i + 1;
        }
        assert(self.encodings@.take(self.encodings.len() as int) =~= self.encodings@);
        Some((wire, transforms, padding_bits))
    }
}

} // verus!
