//! Lowering of the syntax tree into the intermediate representation.

use vstd::prelude::*;
use vstd::string::StringExecFns;

use crate::ast;
use crate::ir::descriptor::clone_strings;
use crate::ir::Descriptor;
use crate::text::{join, texts, trim, trimmed};

pub mod enumeration;
pub mod field;
pub mod message;
pub mod schema;
pub mod types;

pub use field::FieldTypeContext;
pub use enumeration::FieldVariantContext;

verus! {

/// Converts a syntax tree node into its intermediate representation, in
/// a context of type `Ctx`. `None` means the node cannot be lowered.
pub trait Lower<T, Ctx> {
    fn lower(&self, ctx: &Ctx) -> Option<T>;
}

/// The kind of a named definition.
#[derive(Clone, Copy, Debug, PartialEq, Eq)]
pub enum TypeKind {
    Message,
    Enum,
    Package,
}

/// Symbol resolution used while lowering references.
///
/// Implementors check that a reference exists, as seen from `scope`, and
/// give its descriptor and kind. `resolution` names the answer for given
/// arguments, with the descriptor as text; `resolve` computes it.
pub trait TypeResolver {
    spec fn resolution(&self, scope: ScopeSpec, reference: ast::Reference) -> Option<
        (ScopeSpec, TypeKind),
    >;

    fn resolve(&self, scope: &Descriptor, reference: &ast::Reference) -> (r: Option<
        (Descriptor, TypeKind),
    >)
        ensures
            resolved_view(r) == self.resolution(scope_of(*scope), *reference),
    ;
}

/// A resolver's answer with the descriptor as text.
pub open spec fn resolved_view(r: Option<(Descriptor, TypeKind)>) -> Option<(ScopeSpec, TypeKind)> {
    match r {
        Some((d, k)) => Some((scope_of(d), k)),
        None => None,
    }
}

/// A resolver that gives the same answer for every reference.
pub struct MockResolver {
    pub result: Option<(Descriptor, TypeKind)>,
}

impl MockResolver {
    /// A resolver that resolves no reference.
    pub fn new() -> (r: Self)
        ensures
            r.result is None,
    {
        MockResolver { result: None }
    }

    /// A resolver that resolves every reference to `result`.
    pub fn with_result(result: (Descriptor, TypeKind)) -> (r: Self)
        ensures
            r.result == Some(result),
    {
        MockResolver { result: Some(result) }
    }
}

impl TypeResolver for MockResolver {
    open spec fn resolution(&self, scope: ScopeSpec, reference: ast::Reference) -> Option<
        (ScopeSpec, TypeKind),
    > {
        resolved_view(self.result)
    }

    fn resolve(&self, scope: &Descriptor, reference: &ast::Reference) -> (r: Option<
        (Descriptor, TypeKind),
    >) {
        match &self.result {
            Some((d, k)) => Some(
                (
                    Descriptor {
                        package: clone_strings(&d.package),
                        path: clone_strings(&d.path),
                    },
                    *k,
                ),
            ),
            None => None,
        }
    }
}

/// A scope as text: package components and enclosing type names.
pub type ScopeSpec = (Seq<Seq<char>>, Seq<Seq<char>>);

/// The scope described by a descriptor.
pub open spec fn scope_of(d: Descriptor) -> ScopeSpec {
    (texts(d.package@), texts(d.path@))
}

/// The scope `scope` extended by `name`.
pub open spec fn child_of(scope: ScopeSpec, name: Seq<char>) -> ScopeSpec {
    (scope.0, scope.1.push(name))
}

/// The environment of lowering: the resolver and the current scope.
pub struct LowerContext<'a, R: TypeResolver> {
    /// Resolver for referenced types.
    pub resolver: &'a R,
    /// The current scope (package and enclosing types).
    pub scope: Descriptor,
}

impl<'a, R: TypeResolver> LowerContext<'a, R> {
    /// A root context with the given scope.
    pub fn new(resolver: &'a R, scope: Descriptor) -> (r: Self)
        ensures
            r.resolver == resolver,
            r.scope == scope,
    {
        LowerContext { resolver, scope }
    }

    /// A child context whose scope is extended by `name`.
    pub fn with(&self, name: &str) -> (r: Self)
        ensures
            r.resolver == self.resolver,
            scope_of(r.scope) == child_of(scope_of(self.scope), name@),
    {
        LowerContext { resolver: self.resolver, scope: self.scope.child(name) }
    }
}

/// The documentation text of a comment block: each comment trimmed, one
/// per line; `None` when that text is empty.
pub open spec fn doc_text(block: ast::CommentBlock) -> Option<Seq<char>> {
    let lines = block.comments@.map_values(|c: ast::Comment| trimmed(c.content@));
    let doc = join(lines, "\n"@);
    if doc.len() == 0 {
        None
    } else {
        Some(doc)
    }
}

/// The documentation of an optional comment block.
pub open spec fn doc_of(comment: Option<ast::CommentBlock>) -> Option<Seq<char>> {
    match comment {
        Some(c) => doc_text(c),
        None => None,
    }
}

/// The view of an optional string.
pub open spec fn opt_text(s: Option<String>) -> Option<Seq<char>> {
    match s {
        Some(t) => Some(t@),
        None => None,
    }
}

impl ast::CommentBlock {
    /// The documentation text of this block: each comment trimmed, joined
    /// with line breaks; `None` when empty.
    pub fn lower_doc(&self) -> (r: Option<String>)
        ensures
            opt_text(r) == doc_text(*self),
    {
        let ghost lines = self.comments@.map_values(|c: ast::Comment| trimmed(c.content@));
        let mut doc = String::new();
        let mut i: usize = 0;
        while i < self.comments.len()
            invariant
                i <= self.comments.len(),
                lines == self.comments@.map_values(|c: ast::Comment| trimmed(c.content@)),
                doc@ == join(lines.take(i as int), "\n"@),
            decreases self.comments.len() - i,
        {
            if i > 0 {
                doc.append("\n");
            }
            let line = trim(self.comments[i].content.as_str());
            doc.append(line.as_str());
            proof {
                assert(lines.take(i + 1).drop_last() =~= lines.take(i as int));
                assert(lines[i as int] == line@);
                if i == 0 {
                    assert(doc@ =~= lines.take(1)[0]);
                }
            }
            i = i + 1;
        }
        assert(lines.take(self.comments.len() as int) =~= lines);
        if doc.as_str().is_empty() {
            None
        } else {
            Some(doc)
        }
    }
}

impl<'a, R: TypeResolver> Lower<String, LowerContext<'a, R>> for ast::CommentBlock {
    fn lower(&self, _ctx: &LowerContext<'a, R>) -> (r: Option<String>)
        ensures
            opt_text(r) == doc_text(*self),
    {
        self.lower_doc()
    }
}

/// The documentation of an optional comment block.
pub fn lower_comment(comment: &Option<ast::CommentBlock>) -> (r: Option<String>)
    ensures
        opt_text(r) == doc_of(*comment),
{
    match comment {
        Some(c) => c.lower_doc(),
        None => None,
    }
}

} // verus!
