//! Lowering of messages with their nested types.

use vstd::prelude::*;

use crate::ast;
use crate::ir::{Enum, Field, Message};
use crate::text::texts;

use super::enumeration::{enum_view, lower_enum, lower_enum_spec, EnumSpec};
use super::field::{field_view, lower_field, lower_field_spec, FieldSpec};
use super::{child_of, doc_of, lower_comment, opt_text, scope_of, Lower, LowerContext, ScopeSpec, TypeResolver};

verus! {

/// The abstract value of a lowered message.
pub struct MessageSpec {
    pub package: Seq<Seq<char>>,
    pub path: Seq<Seq<char>>,
    pub doc: Option<Seq<char>>,
    pub enums: Seq<EnumSpec>,
    pub fields: Seq<FieldSpec>,
    pub messages: Seq<MessageSpec>,
}

pub open spec fn message_view(m: Message) -> MessageSpec
    decreases m,
{
    MessageSpec {
        package: texts(m.descriptor.package@),
        path: texts(m.descriptor.path@),
        doc: opt_text(m.doc),
        enums: m.enums@.map_values(|e: Enum| enum_view(e)),
        fields: m.fields@.map_values(|f: Field| field_view(f)),
        messages: Seq::new(
            m.messages@.len(),
            |i: int|
                {
                    if 0 <= i < m.messages@.len() {
                        message_view(m.messages@[i])
                    } else {
                        arbitrary()
                    }
                },
        ),
    }
}

/// The fields of a message body: the field items that lower, in order.
pub open spec fn lower_fields_spec<R: TypeResolver>(
    items: Seq<ast::MessageItem>,
    resolver: &R,
    scope: ScopeSpec,
) -> Seq<FieldSpec>
    decreases items.len(),
{
    if items.len() == 0 {
        Seq::empty()
    } else {
        let before = lower_fields_spec(items.drop_last(), resolver, scope);
        match items.last() {
            ast::MessageItem::Field(f) => match lower_field_spec(f, resolver, scope) {
                Some(fs) => before.push(fs),
                None => before,
            },
            _ => before,
        }
    }
}

/// The enums of a message body, in order.
pub open spec fn lower_enums_spec<R: TypeResolver>(
    items: Seq<ast::MessageItem>,
    resolver: &R,
    scope: ScopeSpec,
) -> Seq<EnumSpec>
    decreases items.len(),
{
    if items.len() == 0 {
        Seq::empty()
    } else {
        let before = lower_enums_spec(items.drop_last(), resolver, scope);
        match items.last() {
            ast::MessageItem::Enum(e) => before.push(lower_enum_spec(e, resolver, scope)),
            _ => before,
        }
    }
}

/// The nested messages of a message body, in order.
pub open spec fn lower_messages_spec<R: TypeResolver>(
    items: Seq<ast::MessageItem>,
    resolver: &R,
    scope: ScopeSpec,
) -> Seq<MessageSpec>
    decreases items, 0int,
{
    if items.len() == 0 {
        Seq::empty()
    } else {
        let before = lower_messages_spec(items.drop_last(), resolver, scope);
        match items.last() {
            ast::MessageItem::Message(m) => before.push(lower_message_spec(m, resolver, scope)),
            _ => before,
        }
    }
}

/// The lowering of message `m` in `scope`: its descriptor extends the
/// scope by its name; its fields, enums and nested messages are lowered in
/// that scope, in order, dropping fields that do not lower.
pub open spec fn lower_message_spec<R: TypeResolver>(
    m: ast::Message,
    resolver: &R,
    scope: ScopeSpec,
) -> MessageSpec
    decreases m, 1int,
{
    let child = child_of(scope, m.name.name@);
    MessageSpec {
        package: child.0,
        path: child.1,
        doc: doc_of(m.comment),
        enums: lower_enums_spec(m.items@, resolver, child),
        fields: lower_fields_spec(m.items@, resolver, child),
        messages: lower_messages_spec(m.items@, resolver, child),
    }
}

/// The abstract values of a sequence of messages.
pub open spec fn message_views(v: Seq<Message>) -> Seq<MessageSpec> {
    Seq::new(
        v.len(),
        |i: int|
            {
                if 0 <= i < v.len() {
                    message_view(v[i])
                } else {
                    arbitrary()
                }
            },
    )
}

/// Lowers a message, with its nested types, in the given context.
pub fn lower_message<'a, R: TypeResolver>(m: &ast::Message, ctx: &LowerContext<'a, R>) -> (r:
    Message)
    ensures
        message_view(r) == lower_message_spec(*m, ctx.resolver, scope_of(ctx.scope)),
    decreases m,
{
    let child_ctx = ctx.with(m.name.name.as_str());
    let ghost items = m.items@;
    let ghost child = scope_of(child_ctx.scope);
    let mut fields: Vec<Field> = Vec::new();
    let mut messages: Vec<Message> = Vec::new();
    let mut enums: Vec<Enum> = Vec::new();
    let mut i: usize = 0;
    while i < m.items.len()
        invariant
            i <= m.items.len(),
            items == m.items@,
            child == scope_of(child_ctx.scope),
            child_ctx.resolver == ctx.resolver,
            fields@.map_values(|f: Field| field_view(f)) == lower_fields_spec(
                items.take(i as int),
                ctx.resolver,
                child,
            ),
            enums@.map_values(|e: Enum| enum_view(e)) == lower_enums_spec(
                items.take(i as int),
                ctx.resolver,
                child,
            ),
            message_views(messages@) == lower_messages_spec(items.take(i as int), ctx.resolver, child),
        decreases m.items.len() - i,
    {
        proof {
            assert(items.take(i + 1).drop_last() =~= items.take(i as int));
            assert(items.take(i + 1).last() == items[i as int]);
        }
        match &m.items[i] {
            ast::MessageItem::Field(f) => {
                match lower_field(f, &child_ctx) {
                    Some(lf) => {
                        let ghost before = fields@;
                        fields.push(lf);
                        assert(fields@.map_values(|f: Field| field_view(f)) =~= before.map_values(
                            |f: Field| field_view(f),
                        ).push(field_view(lf)));
                    },
                    None => {},
                }
            },
            ast::MessageItem::Enum(e) => {
                let le = lower_enum(e, &child_ctx);
                let ghost before = enums@;
                enums.push(le);
                assert(enums@.map_values(|e: Enum| enum_view(e)) =~= before.map_values(
                    |e: Enum| enum_view(e),
                ).push(enum_view(le)));
            },
            ast::MessageItem::Message(nested) => {
                proof {
                    assert(decreases_to!(m => m.items));
                }
                let lm = lower_message(nested, &child_ctx);
                let ghost before = messages@;
                messages.push(lm);
                assert(message_views(messages@) =~= message_views(before).push(message_view(lm)));
            },
            ast::MessageItem::CommentBlock(_) => {},
        }
        i = i + 1;
    }
    proof {
        assert(items.take(m.items.len() as int) =~= items);
    }
    let doc = lower_comment(&m.comment);
    let r = Message { descriptor: child_ctx.scope, doc, enums, fields, messages };
    proof {
        assert(message_view(r).messages =~= message_views(r.messages@));
    }
    r
}

impl<'a, R: TypeResolver> Lower<Message, LowerContext<'a, R>> for ast::Message {
    fn lower(&self, ctx: &LowerContext<'a, R>) -> (r: Option<Message>)
        ensures
            r matches Some(msg) && message_view(msg) == lower_message_spec(
                *self,
                ctx.resolver,
                scope_of(ctx.scope),
            ),
    {
        Some(lower_message(self, ctx))
    }
}

} // verus!
