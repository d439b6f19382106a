//! Properties of parsing that hold for every token sequence.

use vstd::prelude::*;

use crate::ast::Span;

use super::grammar::{
    body_items, items_too_deep, parse_outcome, schema, schema_too_deep, too_deep, Tokens,
};
use super::model::{MessageItemM, MessageM, SchemaItemM};

verus! {

/// The errors of body items are all rejected include paths.
proof fn lemma_body_errors_are_imports(ts: Tokens, i: int)
    ensures
        forall|k: int|
            0 <= k < body_items(ts, i).1.len() ==> (#[trigger] body_items(ts, i).1[k]).kind
                is InvalidImport,
    decreases ts.len() - i,
{
    let r = body_items(ts, i);
    let j = super::grammar::skip_newlines(ts, i);
    match super::grammar::body_item(ts, j) {
        Some((x, es, k)) => if i < k <= ts.len() {
            lemma_body_errors_are_imports(ts, k);
            let rest = body_items(ts, k);
            assert forall|m: int| 0 <= m < r.1.len() implies (#[trigger] r.1[m]).kind
                is InvalidImport by {
                if m < es.len() {
                    assert(r.1[m] == es[m]);
                } else {
                    assert(r.1[m] == rest.1[m - es.len()]);
                }
            }
        },
        None => {},
    }
}

/// Parsing that gives no tree reports at least one error.
pub proof fn lemma_no_tree_has_error(ts: Tokens, limit: usize)
    ensures
        parse_outcome(ts, limit).0 is None ==> parse_outcome(ts, limit).1.len() > 0,
{
}

/// When parsing gives a tree, every error it reports is a rejected include
/// path.
pub proof fn lemma_tree_errors_are_imports(ts: Tokens, limit: usize)
    ensures
        parse_outcome(ts, limit).0 is Some ==> forall|k: int|
            0 <= k < parse_outcome(ts, limit).1.len() ==> (#[trigger] parse_outcome(
                ts,
                limit,
            ).1[k]).kind is InvalidImport,
{
    if ts.len() > 0 {
        let p = super::grammar::header_items(ts, 0).1;
        lemma_body_errors_are_imports(ts, p);
    }
}

/// A parsed tree holds no message nested `limit` deep or deeper.
pub proof fn lemma_tree_within_depth(ts: Tokens, limit: usize)
    ensures
        parse_outcome(ts, limit).0 matches Some(s) ==> (schema_too_deep(s.items, 0, limit as int)
            is None),
{
}

/// A parsed tree spans the whole input: from the start of the first token to
/// the end of the last.
pub proof fn lemma_tree_spans_input(ts: Tokens, limit: usize)
    ensures
        parse_outcome(ts, limit).0 matches Some(s) ==> (s.span == (Span {
            start: ts[0].span.start,
            end: ts.last().span.end,
        })),
{
}

/// Raising the depth limit never turns a parsed tree into a failure: a tree
/// within a limit is within any larger one.
pub proof fn lemma_depth_monotone(ts: Tokens, limit: usize, larger: usize)
    requires
        limit <= larger,
    ensures
        parse_outcome(ts, limit).0 is Some ==> parse_outcome(ts, larger).0 is Some,
{
    if ts.len() > 0 && parse_outcome(ts, limit).0 is Some {
        let s = schema(ts).0;
        lemma_schema_depth_monotone(s.items, 0, limit as int, larger as int);
    }
}

proof fn lemma_too_deep_monotone(m: MessageM, level: int, limit: int, larger: int)
    requires
        limit <= larger,
        too_deep(m, level, limit) is None,
    ensures
        too_deep(m, level, larger) is None,
    decreases m, m.items.len() + 1,
{
    if level < limit {
        lemma_items_too_deep_monotone(m, 0, level + 1, limit, larger);
    }
}

proof fn lemma_items_too_deep_monotone(m: MessageM, k: int, level: int, limit: int, larger: int)
    requires
        limit <= larger,
        items_too_deep(m, k, level, limit) is None,
    ensures
        items_too_deep(m, k, level, larger) is None,
    decreases m, m.items.len() - k,
{
    if 0 <= k < m.items.len() {
        match m.items[k] {
            MessageItemM::Message(n) => {
                lemma_too_deep_monotone(n, level, limit, larger);
            },
            _ => {},
        }
        lemma_items_too_deep_monotone(m, k + 1, level, limit, larger);
    }
}

proof fn lemma_schema_depth_monotone(items: Seq<SchemaItemM>, k: int, limit: int, larger: int)
    requires
        limit <= larger,
        schema_too_deep(items, k, limit) is None,
    ensures
        schema_too_deep(items, k, larger) is None,
    decreases items.len() - k,
{
    if 0 <= k < items.len() {
        match items[k] {
            SchemaItemM::Message(m) => {
                lemma_too_deep_monotone(m, 1, limit, larger);
            },
            _ => {},
        }
        lemma_schema_depth_monotone(items, k + 1, limit, larger);
    }
}

} // verus!
