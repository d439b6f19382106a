//! Lowering of enums and their variants.

use vstd::arithmetic::power2::{
    lemma2_to64, lemma_pow2_pos, lemma_pow2_strictly_increases, lemma_pow2_unfold, pow2,
};
use vstd::prelude::*;

use crate::ast;
use crate::ir::encoding::{bit_length, encoding_view, lemma_bit_length_lz, EncodingSpec, NativeSpec};
use crate::ir::{Encoding, Enum, NativeType, Variant, WireFormat};
use crate::text::texts;

use super::field::{field_view, lower_field, lower_field_spec, FieldSpec};
use super::{child_of, doc_of, lower_comment, opt_text, scope_of, Lower, LowerContext, ScopeSpec, TypeResolver};

verus! {

/// Context marking that a field is lowered as an enum variant.
pub struct FieldVariantContext<'a, 'b, R: TypeResolver>(pub &'a LowerContext<'b, R>);

/// The abstract value of a lowered variant.
pub enum VariantSpec {
    Unit { name: Seq<char>, index: u32, doc: Option<Seq<char>> },
    Field { name: Seq<char>, index: u32, field: FieldSpec, doc: Option<Seq<char>> },
}

pub open spec fn variant_view(v: Variant) -> VariantSpec {
    match v {
        Variant::Unit { name, index, doc } => VariantSpec::Unit {
            name: name@,
            index,
            doc: opt_text(doc),
        },
        Variant::Field { name, index, field, doc } => VariantSpec::Field {
            name: name@,
            index,
            field: field_view(field),
            doc: opt_text(doc),
        },
    }
}

/// A unit variant lowers when it has an index (truncated to 32 bits).
pub open spec fn lower_unit_variant_spec(uv: ast::UnitVariant) -> Option<VariantSpec> {
    match uv.index {
        Some(ix) => Some(
            VariantSpec::Unit { name: uv.name.name@, index: ix.value.value as u32, doc: doc_of(uv.comment) },
        ),
        None => None,
    }
}

/// A field variant lowers when its field does.
pub open spec fn lower_field_variant_spec<R: TypeResolver>(
    f: ast::Field,
    resolver: &R,
    scope: ScopeSpec,
) -> Option<VariantSpec> {
    match lower_field_spec(f, resolver, scope) {
        Some(fs) => Some(
            VariantSpec::Field { name: f.name.name@, index: fs.index, field: fs, doc: doc_of(f.comment) },
        ),
        None => None,
    }
}

pub open spec fn lower_enum_item_spec<R: TypeResolver>(
    item: ast::EnumItem,
    resolver: &R,
    scope: ScopeSpec,
) -> Option<VariantSpec> {
    match item {
        ast::EnumItem::UnitVariant(uv) => lower_unit_variant_spec(uv),
        ast::EnumItem::FieldVariant(f) => lower_field_variant_spec(f, resolver, scope),
        ast::EnumItem::CommentBlock(_) => None,
    }
}

/// The variants of an enum body: those items that lower, in order.
pub open spec fn lower_variants_spec<R: TypeResolver>(
    items: Seq<ast::EnumItem>,
    resolver: &R,
    scope: ScopeSpec,
) -> Seq<VariantSpec>
    decreases items.len(),
{
    if items.len() == 0 {
        Seq::empty()
    } else {
        let before = lower_variants_spec(items.drop_last(), resolver, scope);
        match lower_enum_item_spec(items.last(), resolver, scope) {
            Some(v) => before.push(v),
            None => before,
        }
    }
}

/// Width of the discriminant for `count` variants: the smallest of 8, 16,
/// 32, 64 bits that can number at least `max(count, 2)` values.
pub open spec fn discriminant_bits(count: nat) -> u8 {
    let c = if count < 2 {
        2
    } else {
        count
    };
    let needed = bit_length((c - 1) as nat);
    if needed <= 8 {
        8
    } else if needed <= 16 {
        16
    } else if needed <= 32 {
        32
    } else {
        64
    }
}

/// The encoding of a discriminant of `bits` bits.
pub open spec fn discriminant_spec(bits: u8) -> EncodingSpec {
    EncodingSpec {
        wire: WireFormat::Bits { count: bits as u64 },
        native: NativeSpec::Int { bits, signed: false },
        transforms: Seq::empty(),
        padding_bits: None,
    }
}

/// The abstract value of a lowered enum.
pub struct EnumSpec {
    pub package: Seq<Seq<char>>,
    pub path: Seq<Seq<char>>,
    pub discriminant: EncodingSpec,
    pub doc: Option<Seq<char>>,
    pub variants: Seq<VariantSpec>,
}

pub open spec fn enum_view(e: Enum) -> EnumSpec {
    EnumSpec {
        package: texts(e.descriptor.package@),
        path: texts(e.descriptor.path@),
        discriminant: encoding_view(e.discriminant),
        doc: opt_text(e.doc),
        variants: e.variants@.map_values(|v: Variant| variant_view(v)),
    }
}

/// The lowering of enum `e` in `scope`: its descriptor extends the scope
/// by its name, and its variants are lowered in that scope.
pub open spec fn lower_enum_spec<R: TypeResolver>(
    e: ast::Enum,
    resolver: &R,
    scope: ScopeSpec,
) -> EnumSpec {
    let child = child_of(scope, e.name.name@);
    let variants = lower_variants_spec(e.items@, resolver, child);
    EnumSpec {
        package: child.0,
        path: child.1,
        discriminant: discriminant_spec(discriminant_bits(variants.len())),
        doc: doc_of(e.comment),
        variants,
    }
}

/// Lowers a unit variant.
pub fn lower_unit_variant(uv: &ast::UnitVariant) -> (r: Option<Variant>)
    ensures
        match r {
            Some(v) => lower_unit_variant_spec(*uv) == Some(variant_view(v)),
            None => lower_unit_variant_spec(*uv) is None,
        },
{
    let index = match &uv.index {
        Some(ix) => ix.value.value as u32,
        None => {
            return None;
        },
    };
    let doc = lower_comment(&uv.comment);
    Some(Variant::Unit { name: uv.name.name.clone(), index, doc })
}

/// Lowers a field as an enum variant.
pub fn lower_field_variant<'a, R: TypeResolver>(f: &ast::Field, ctx: &LowerContext<'a, R>) -> (r:
    Option<Variant>)
    ensures
        match r {
            Some(v) => lower_field_variant_spec(*f, ctx.resolver, scope_of(ctx.scope)) == Some(variant_view(v)),
            None => lower_field_variant_spec(*f, ctx.resolver, scope_of(ctx.scope)) is None,
        },
{
    let field = match lower_field(f, ctx) {
        Some(field) => field,
        None => {
            return None;
        },
    };
    let doc = lower_comment(&f.comment);
    let index = field.index;
    Some(Variant::Field { name: f.name.name.clone(), index, field, doc })
}

/// The discriminant width for `count` variants.
fn discriminant_width(count: usize) -> (r: u8)
    ensures
        r == discriminant_bits(count as nat),
{
    let c: usize = if count < 2 {
        2
    } else {
        count
    };
    let v: u64 = (c - 1) as u64;
    proof {
        lemma_bit_length_lz(v);
    }
    let needed: u32 = 64 - v.leading_zeros();
    if needed <= 8 {
        8
    } else if needed <= 16 {
        16
    } else if needed <= 32 {
        32
    } else {
        64
    }
}

/// Lowers an enum in the given context.
pub fn lower_enum<'a, R: TypeResolver>(e: &ast::Enum, ctx: &LowerContext<'a, R>) -> (r: Enum)
    ensures
        enum_view(r) == lower_enum_spec(*e, ctx.resolver, scope_of(ctx.scope)),
{
    let child_ctx = ctx.with(e.name.name.as_str());
    let ghost items = e.items@;
    let mut variants: Vec<Variant> = Vec::new();
    let mut i: usize = 0;
    while i < e.items.len()
        invariant
            i <= e.items.len(),
            items == e.items@,
            variants@.map_values(|v: Variant| variant_view(v)) == lower_variants_spec(
                items.take(i as int),
                child_ctx.resolver,
                scope_of(child_ctx.scope),
            ),
        decreases e.items.len() - i,
    {
        let ghost before = variants@;
        proof {
            assert(items.take(i + 1).drop_last() =~= items.take(i as int));
            assert(items.take(i + 1).last() == items[i as int]);
        }
        match &e.items[i] {
            ast::EnumItem::UnitVariant(uv) => {
                match lower_unit_variant(uv) {
                    Some(v) => {
                        variants.push(v);
                        assert(variants@.map_values(|v: Variant| variant_view(v)) =~= before.map_values(
                            |v: Variant| variant_view(v),
                        ).push(variant_view(v)));
                    },
                    None => {},
                }
            },
            ast::EnumItem::FieldVariant(f) => {
                match lower_field_variant(f, &child_ctx) {
                    Some(v) => {
                        variants.push(v);
                        assert(variants@.map_values(|v: Variant| variant_view(v)) =~= before.map_values(
                            |v: Variant| variant_view(v),
                        ).push(variant_view(v)));
                    },
                    None => {},
                }
            },
            ast::EnumItem::CommentBlock(_) => {},
        }
        i = i + 1;
    }
    proof {
        assert(items.take(e.items.len() as int) =~= items);
    }
    let bits = discriminant_width(variants.len());
    let discriminant = Encoding {
        wire: WireFormat::Bits { count: bits as u64 },
        native: NativeType::Int { bits, signed: false },
        transforms: Vec::new(),
        padding_bits: None,
    };
    let doc = lower_comment(&e.comment);
    let r = Enum { descriptor: child_ctx.scope, discriminant, doc, variants };
    proof {
        assert(r.variants@.map_values(|v: Variant| variant_view(v)).len() == r.variants@.len());
        assert(enum_view(r) == lower_enum_spec(*e, ctx.resolver, scope_of(ctx.scope)));
    }
    r
}

impl<'a, R: TypeResolver> Lower<Enum, LowerContext<'a, R>> for ast::Enum {
    fn lower(&self, ctx: &LowerContext<'a, R>) -> (r: Option<Enum>)
        ensures
            r matches Some(en) && enum_view(en) == lower_enum_spec(*self, ctx.resolver, scope_of(ctx.scope)),
    {
        Some(lower_enum(self, ctx))
    }
}

impl<'a, R: TypeResolver> Lower<Variant, LowerContext<'a, R>> for ast::UnitVariant {
    fn lower(&self, _ctx: &LowerContext<'a, R>) -> (r: Option<Variant>)
        ensures
            match r {
                Some(v) => lower_unit_variant_spec(*self) == Some(variant_view(v)),
                None => lower_unit_variant_spec(*self) is None,
            },
    {
        lower_unit_variant(self)
    }
}

impl<'a, 'b, R: TypeResolver> Lower<Variant, FieldVariantContext<'a, 'b, R>> for ast::Field {
    fn lower(&self, ctx: &FieldVariantContext<'a, 'b, R>) -> (r: Option<Variant>)
        ensures
            match r {
                Some(v) => lower_field_variant_spec(*self, ctx.0.resolver, scope_of(ctx.0.scope)) == Some(
                    variant_view(v),
                ),
                None => lower_field_variant_spec(*self, ctx.0.resolver, scope_of(ctx.0.scope)) is None,
            },
    {
        lower_field_variant(self, ctx.0)
    }
}


proof fn lemma_bit_length_bounds(v: nat)
    ensures
        v < pow2(bit_length(v)),
        v > 0 ==> pow2((bit_length(v) - 1) as nat) <= v,
    decreases v,
{
    lemma_pow2_pos(bit_length(v));
    if v > 0 {
        let h = v / 2;
        lemma_bit_length_bounds(h);
        assert(bit_length(v) == 1 + bit_length(h));
        lemma_pow2_unfold(bit_length(v));
        assert(pow2(bit_length(v)) == 2 * pow2(bit_length(h)));
        assert(v <= 2 * h + 1);
        if h > 0 {
            lemma_pow2_unfold(bit_length(h));
            assert(pow2(bit_length(h)) == 2 * pow2((bit_length(h) - 1) as nat));
            assert(2 * h <= v);
        } else {
            assert(bit_length(h) == 0);
            assert(pow2(0) == 1) by {
                lemma2_to64();
            }
        }
    }
}

proof fn lemma_pow2_monotone(a: nat, b: nat)
    requires
        a <= b,
    ensures
        pow2(a) <= pow2(b),
{
    if a < b {
        lemma_pow2_strictly_increases(a, b);
    }
}

/// The discriminant of an enum with `count` variants is the smallest of 8,
/// 16, 32 and 64 bits that numbers every variant: `count` fits in it, and
/// it does not fit in the next smaller width.
pub proof fn lemma_discriminant_smallest_fit(count: nat)
    requires
        count <= pow2(64),
    ensures
        count <= pow2(discriminant_bits(count) as nat),
        discriminant_bits(count) == 16 ==> count > pow2(8),
        discriminant_bits(count) == 32 ==> count > pow2(16),
        discriminant_bits(count) == 64 ==> count > pow2(32),
{
    let c: nat = if count < 2 {
        2
    } else {
        count
    };
    let v = (c - 1) as nat;
    let needed = bit_length(v);
    lemma_bit_length_bounds(v);
    lemma2_to64();
    let bits = discriminant_bits(count) as nat;
    if needed > 64 {
        lemma_pow2_monotone(64, (needed - 1) as nat);
    }
    assert(needed <= 64);
    lemma_pow2_monotone(needed, bits);
    if needed > 8 {
        lemma_pow2_monotone(8, (needed - 1) as nat);
    }
    if needed > 16 {
        lemma_pow2_monotone(16, (needed - 1) as nat);
    }
    if needed > 32 {
        lemma_pow2_monotone(32, (needed - 1) as nat);
    }
}

/// Whether an enum item yields a variant: a unit variant that has an
/// index, or a field variant whose field lowers.
pub open spec fn yields_variant<R: TypeResolver>(
    item: ast::EnumItem,
    resolver: &R,
    scope: ScopeSpec,
) -> bool {
    match item {
        ast::EnumItem::UnitVariant(uv) => uv.index is Some,
        ast::EnumItem::FieldVariant(f) => lower_field_spec(f, resolver, scope) is Some,
        ast::EnumItem::CommentBlock(_) => false,
    }
}

/// How many of `items` yield a variant.
pub open spec fn yielding_count<R: TypeResolver>(
    items: Seq<ast::EnumItem>,
    resolver: &R,
    scope: ScopeSpec,
) -> nat
    decreases items.len(),
{
    if items.len() == 0 {
        0
    } else {
        yielding_count(items.drop_last(), resolver, scope) + if yields_variant(
            items.last(),
            resolver,
            scope,
        ) {
            1nat
        } else {
            0nat
        }
    }
}

/// Item `i` of `items`, if it yields a variant, stands in `variants` after
/// the variants of the items before it: a unit variant with its name, index
/// and doc, a field variant with its name, its lowered field, that field's
/// index and its doc.
pub open spec fn item_in_place<R: TypeResolver>(
    items: Seq<ast::EnumItem>,
    i: int,
    variants: Seq<VariantSpec>,
    resolver: &R,
    scope: ScopeSpec,
) -> bool {
    let at = yielding_count(items.take(i), resolver, scope);
    match items[i] {
        ast::EnumItem::UnitVariant(uv) => match uv.index {
            Some(ix) => at < variants.len() && variants[at as int] == VariantSpec::Unit {
                name: uv.name.name@,
                index: ix.value.value as u32,
                doc: doc_of(uv.comment),
            },
            None => true,
        },
        ast::EnumItem::FieldVariant(f) => match lower_field_spec(f, resolver, scope) {
            Some(fs) => at < variants.len() && variants[at as int] == VariantSpec::Field {
                name: f.name.name@,
                index: fs.index,
                field: fs,
                doc: doc_of(f.comment),
            },
            None => true,
        },
        ast::EnumItem::CommentBlock(_) => true,
    }
}

proof fn lemma_variants_in_place<R: TypeResolver>(
    items: Seq<ast::EnumItem>,
    resolver: &R,
    scope: ScopeSpec,
)
    ensures
        lower_variants_spec(items, resolver, scope).len() == yielding_count(items, resolver, scope),
        forall|i: int|
            0 <= i < items.len() ==> #[trigger] item_in_place(
                items,
                i,
                lower_variants_spec(items, resolver, scope),
                resolver,
                scope,
            ),
    decreases items.len(),
{
    if items.len() > 0 {
        let p = items.drop_last();
        lemma_variants_in_place(p, resolver, scope);
        let vp = lower_variants_spec(p, resolver, scope);
        let vs = lower_variants_spec(items, resolver, scope);
        assert forall|i: int| 0 <= i < items.len() implies #[trigger] item_in_place(
            items,
            i,
            vs,
            resolver,
            scope,
        ) by {
            if i < items.len() - 1 {
                assert(items[i] == p[i]);
                assert(items.take(i) =~= p.take(i));
                assert(item_in_place(p, i, vp, resolver, scope));
            } else {
                assert(items.take(i) =~= p);
                assert(items[i] == items.last());
            }
        }
    }
}

/// The variants of a lowered enum are exactly those of its items that
/// yield one, in source order: every unit variant with an index and every
/// field variant whose field lowers appears, after the variants of the items
/// before it, and nothing else does.
pub proof fn lemma_enum_variants<R: TypeResolver>(e: ast::Enum, resolver: &R, scope: ScopeSpec)
    ensures
        ({
            let child = child_of(scope, e.name.name@);
            let vs = lower_enum_spec(e, resolver, scope).variants;
            &&& vs.len() == yielding_count(e.items@, resolver, child)
            &&& forall|i: int|
                0 <= i < e.items@.len() ==> #[trigger] item_in_place(
                    e.items@,
                    i,
                    vs,
                    resolver,
                    child,
                )
        }),
{
    lemma_variants_in_place(e.items@, resolver, child_of(scope, e.name.name@));
}

} // verus!
