//! Lowering of a schema file to its package.

use vstd::prelude::*;

use crate::ast;
use crate::ir::{Descriptor, Enum, Message, Package};
use crate::text::{join, join_strings, lemma_texts_push, texts};

use super::enumeration::{enum_view, lower_enum, lower_enum_spec, EnumSpec};
use super::message::{lower_message, lower_message_spec, message_view, message_views, MessageSpec};
use super::{scope_of, Lower, LowerContext, ScopeSpec, TypeResolver};

verus! {

/// The names of a sequence of identifiers.
pub open spec fn ident_names(ids: Seq<ast::Ident>) -> Seq<Seq<char>> {
    ids.map_values(|id: ast::Ident| id.name@)
}

/// The components of the first package declaration among `items`.
pub open spec fn package_components(items: Seq<ast::SchemaItem>) -> Option<Seq<Seq<char>>>
    decreases items.len(),
{
    if items.len() == 0 {
        None
    } else {
        match items[0] {
            ast::SchemaItem::Package(p) => Some(ident_names(p.components@)),
            _ => package_components(items.drop_first()),
        }
    }
}

/// The abstract value of a lowered package.
pub struct PackageSpec {
    pub path: Seq<char>,
    pub messages: Seq<MessageSpec>,
    pub enums: Seq<EnumSpec>,
}

pub open spec fn package_view(p: Package) -> PackageSpec {
    PackageSpec {
        path: p.path@,
        messages: message_views(p.messages@),
        enums: p.enums@.map_values(|e: Enum| enum_view(e)),
    }
}

/// The top-level messages of a schema, lowered in `scope`, in order.
pub open spec fn schema_messages_spec<R: TypeResolver>(
    items: Seq<ast::SchemaItem>,
    resolver: &R,
    scope: ScopeSpec,
) -> Seq<MessageSpec>
    decreases items.len(),
{
    if items.len() == 0 {
        Seq::empty()
    } else {
        let before = schema_messages_spec(items.drop_last(), resolver, scope);
        match items.last() {
            ast::SchemaItem::Message(m) => before.push(lower_message_spec(m, resolver, scope)),
            _ => before,
        }
    }
}

/// The top-level enums of a schema, lowered in `scope`, in order.
pub open spec fn schema_enums_spec<R: TypeResolver>(
    items: Seq<ast::SchemaItem>,
    resolver: &R,
    scope: ScopeSpec,
) -> Seq<EnumSpec>
    decreases items.len(),
{
    if items.len() == 0 {
        Seq::empty()
    } else {
        let before = schema_enums_spec(items.drop_last(), resolver, scope);
        match items.last() {
            ast::SchemaItem::Enum(e) => before.push(lower_enum_spec(e, resolver, scope)),
            _ => before,
        }
    }
}

/// The lowering of a schema: `None` without a package declaration; else
/// the package named by the first declaration, holding the top-level
/// messages and enums lowered in the package's root scope.
pub open spec fn lower_schema_spec<R: TypeResolver>(s: ast::Schema, resolver: &R) -> Option<
    PackageSpec,
> {
    match package_components(s.items@) {
        None => None,
        Some(components) => {
            let root = (components, Seq::<Seq<char>>::empty());
            Some(
                PackageSpec {
                    path: join(components, "."@),
                    messages: schema_messages_spec(s.items@, resolver, root),
                    enums: schema_enums_spec(s.items@, resolver, root),
                },
            )
        },
    }
}

impl ast::Schema {
    /// The components of the schema's first package declaration.
    pub fn get_package_name(&self) -> (r: Option<Vec<String>>)
        ensures
            match r {
                Some(c) => package_components(self.items@) == Some(texts(c@)),
                None => package_components(self.items@) is None,
            },
    {
        let ghost items = self.items@;
        let mut i: usize = 0;
        assert(items.skip(0) =~= items);
        while i < self.items.len()
            invariant
                i <= self.items.len(),
                items == self.items@,
                package_components(items) == package_components(items.skip(i as int)),
            decreases self.items.len() - i,
        {
            proof {
                assert(items.skip(i as int).drop_first() =~= items.skip(i + 1));
                assert(items.skip(i as int)[0] == items[i as int]);
            }
            match &self.items[i] {
                ast::SchemaItem::Package(p) => {
                    let mut names: Vec<String> = Vec::new();
                    let mut j: usize = 0;
                    while j < p.components.len()
                        invariant
                            j <= p.components.len(),
                            texts(names@) == ident_names(p.components@).take(j as int),
                        decreases p.components.len() - j,
                    {
                        let ghost before = names@;
                        let n = p.components[j].name.clone();
                        names.push(n);
                        proof {
                            lemma_texts_push(before, n);
                            assert(ident_names(p.components@).take(j + 1) =~= ident_names(
                                p.components@,
                            ).take(j as int).push(p.components@[j as int].name@));
                        }
                        j = j + 1;
                    }
                    assert(ident_names(p.components@).take(p.components.len() as int) =~= ident_names(
                        p.components@,
                    ));
                    return Some(names);
                },
                _ => {},
            }
            i = i + 1;
        }
        None
    }
}

/// Lowers a schema to its package; `None` when it declares no package.
pub fn lower_schema<'a, R: TypeResolver>(s: &ast::Schema, ctx: &LowerContext<'a, R>) -> (r: Option<
    Package,
>)
    ensures
        match r {
            Some(p) => lower_schema_spec(*s, ctx.resolver) == Some(package_view(p)),
            None => lower_schema_spec(*s, ctx.resolver) is None,
        },
{
    let components = match s.get_package_name() {
        Some(c) => c,
        None => {
            return None;
        },
    };
    let path = join_strings(&components, ".");
    let root = Descriptor { package: components, path: Vec::new() };
    let pkg_ctx = LowerContext::new(ctx.resolver, root);
    let ghost items = s.items@;
    let ghost scope = scope_of(pkg_ctx.scope);
    assert(texts(pkg_ctx.scope.path@) =~= Seq::<Seq<char>>::empty());
    let mut messages: Vec<Message> = Vec::new();
    let mut enums: Vec<Enum> = Vec::new();
    let mut i: usize = 0;
    while i < s.items.len()
        invariant
            i <= s.items.len(),
            items == s.items@,
            scope == scope_of(pkg_ctx.scope),
            pkg_ctx.resolver == ctx.resolver,
            message_views(messages@) == schema_messages_spec(items.take(i as int), ctx.resolver, scope),
            enums@.map_values(|e: Enum| enum_view(e)) == schema_enums_spec(
                items.take(i as int),
                ctx.resolver,
                scope,
            ),
        decreases s.items.len() - i,
    {
        proof {
            assert(items.take(i + 1).drop_last() =~= items.take(i as int));
            assert(items.take(i + 1).last() == items[i as int]);
        }
        match &s.items[i] {
            ast::SchemaItem::Message(m) => {
                let lm = lower_message(m, &pkg_ctx);
                let ghost before = messages@;
                messages.push(lm);
                assert(message_views(messages@) =~= message_views(before).push(message_view(lm)));
            },
            ast::SchemaItem::Enum(e) => {
                let le = lower_enum(e, &pkg_ctx);
                let ghost before = enums@;
                enums.push(le);
                assert(enums@.map_values(|e: Enum| enum_view(e)) =~= before.map_values(
                    |e: Enum| enum_view(e),
                ).push(enum_view(le)));
            },
            _ => {},
        }
        i = i + 1;
    }
    proof {
        assert(items.take(s.items.len() as int) =~= items);
    }
    Some(Package { path, messages, enums })
}

impl<'a, R: TypeResolver> Lower<Package, LowerContext<'a, R>> for ast::Schema {
    fn lower(&self, ctx: &LowerContext<'a, R>) -> (r: Option<Package>)
        ensures
            match r {
                Some(p) => lower_schema_spec(*self, ctx.resolver) == Some(package_view(p)),
                None => lower_schema_spec(*self, ctx.resolver) is None,
            },
    {
        lower_schema(self, ctx)
    }
}

} // verus!
