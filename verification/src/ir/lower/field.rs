//! Lowering of fields.

use vstd::prelude::*;

use crate::ast;
use crate::ir::encoding::{encoding_view, EncodingSpec};
use crate::ir::Field;

use super::types::{lower_type, lower_type_spec};
use super::{doc_of, lower_comment, opt_text, scope_of, Lower, LowerContext, ScopeSpec, TypeResolver};

verus! {

/// Context for lowering a field type: the lowering context and the field's
/// encoding annotations.
pub struct FieldTypeContext<'a, 'b, R: TypeResolver> {
    pub ctx: &'a LowerContext<'b, R>,
    pub encoding: Option<&'a ast::Encoding>,
}

/// The abstract value of a lowered field.
pub struct FieldSpec {
    pub name: Seq<char>,
    pub index: u32,
    pub encoding: EncodingSpec,
    pub doc: Option<Seq<char>>,
}

pub open spec fn field_view(f: Field) -> FieldSpec {
    FieldSpec {
        name: f.name@,
        index: f.index,
        encoding: encoding_view(f.encoding),
        doc: opt_text(f.doc),
    }
}

/// The lowering of field `f` in `scope`: `None` without an index or when its
/// type cannot be lowered; the index is truncated to 32 bits.
pub open spec fn lower_field_spec<R: TypeResolver>(
    f: ast::Field,
    resolver: &R,
    scope: ScopeSpec,
) -> Option<FieldSpec> {
    match f.index {
        None => None,
        Some(ix) => match lower_type_spec(f.kind, f.encoding, resolver, scope) {
            None => None,
            Some(e) => Some(
                FieldSpec {
                    name: f.name.name@,
                    index: ix.value.value as u32,
                    encoding: e,
                    doc: doc_of(f.comment),
                },
            ),
        },
    }
}

/// Relates an exec field lowering to its specification.
pub open spec fn field_lowered_as(r: Option<Field>, spec: Option<FieldSpec>) -> bool {
    match r {
        Some(f) => spec == Some(field_view(f)),
        None => spec is None,
    }
}

/// Lowers a field in the given context.
pub fn lower_field<'a, R: TypeResolver>(f: &ast::Field, ctx: &LowerContext<'a, R>) -> (r: Option<
    Field,
>)
    ensures
        field_lowered_as(r, lower_field_spec(*f, ctx.resolver, scope_of(ctx.scope))),
{
    let index = match &f.index {
        Some(ix) => ix.value.value as u32,
        None => {
            return None;
        },
    };
    let encoding = match lower_type(&f.kind, f.encoding.as_ref(), ctx.resolver, &ctx.scope) {
        Some(e) => e,
        None => {
            return None;
        },
    };
    let doc = lower_comment(&f.comment);
    Some(Field { name: f.name.name.clone(), index, encoding, doc })
}

impl<'a, R: TypeResolver> Lower<Field, LowerContext<'a, R>> for ast::Field {
    fn lower(&self, ctx: &LowerContext<'a, R>) -> (r: Option<Field>)
        ensures
            field_lowered_as(r, lower_field_spec(*self, ctx.resolver, scope_of(ctx.scope))),
    {
        lower_field(self, ctx)
    }
}

} // verus!
