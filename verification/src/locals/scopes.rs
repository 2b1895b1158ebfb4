//! Where local variables can be seen.
use vstd::prelude::*;

use crate::extractor::JavaContextExtractor;
use crate::syntax::{NodeId, SyntaxTree};
use crate::text::str_eq;

verus! {

/// The positions from which a variable can be seen.
#[derive(Clone, Copy, Debug, PartialEq, Eq, Structural)]
pub struct ScopeRange {
    pub start: usize,
    pub end: usize,
}

/// A node whose local variables are seen only in it.
pub open spec fn owns_scope(kind: Seq<char>) -> bool {
    ||| kind == "block"@
    ||| kind == "for_statement"@
    ||| kind == "enhanced_for_statement"@
    ||| kind == "catch_clause"@
    ||| kind == "switch_block_statement_group"@
    ||| kind == "switch_rule"@
    ||| kind == "method_declaration"@
    ||| kind == "constructor_declaration"@
    ||| kind == "lambda_expression"@
    ||| kind == "static_initializer"@
    ||| kind == "instance_initializer"@
}

/// Whether the local variables of a node are seen only in it.
pub fn is_local_scope_owner(kind: &str) -> (r: bool)
    ensures
        r == owns_scope(kind@),
{
    str_eq(kind, "block") || str_eq(kind, "for_statement") || str_eq(kind, "enhanced_for_statement")
        || str_eq(kind, "catch_clause") || str_eq(kind, "switch_block_statement_group") || str_eq(
        kind,
        "switch_rule",
    ) || str_eq(kind, "method_declaration") || str_eq(kind, "constructor_declaration") || str_eq(
        kind,
        "lambda_expression",
    ) || str_eq(kind, "static_initializer") || str_eq(kind, "instance_initializer")
}

/// The node itself or its nearest ancestor that owns a scope.
pub open spec fn scope_owner(t: SyntaxTree, n: NodeId) -> Option<NodeId>
    decreases n,
{
    if owns_scope(t.kind_of(n)) {
        Some(n)
    } else {
        match t.parent_of(n) {
            Some(p) => if p < n {
                scope_owner(t, p)
            } else {
                None
            },
            None => None,
        }
    }
}

/// The node itself or its nearest ancestor that owns a scope.
pub fn nearest_local_scope_owner(t: &SyntaxTree, n: NodeId) -> (r: Option<NodeId>)
    requires
        t.linked(),
        t.has(n),
    ensures
        r == scope_owner(*t, n),
        r matches Some(o) ==> t.has(o),
{
    let mut cur: NodeId = n;
    loop
        invariant
            t.linked(),
            t.has(cur),
            scope_owner(*t, n) == scope_owner(*t, cur),
        decreases cur,
    {
        if is_local_scope_owner(t.kind(cur)) {
            return Some(cur);
        }
        assert(t.nodes@[cur as int].placed(cur as int, t.nodes@.len() as int));
        match t.parent(cur) {
            Some(p) => {
                cur = p;
            },
            None => {
                return None;
            },
        }
    }
}

/// The positions of a node.
pub open spec fn range_of(t: SyntaxTree, n: NodeId) -> ScopeRange {
    ScopeRange { start: t.node(n).start, end: t.node(n).end }
}

/// The positions of a node.
pub fn node_scope_range(t: &SyntaxTree, n: NodeId) -> (r: ScopeRange)
    requires
        t.has(n),
    ensures
        r == range_of(*t, n),
{
    ScopeRange { start: t.start(n), end: t.end(n) }
}

/// The positions from which the variables of an owner can be seen: its body, where it is a method,
/// a constructor or a lambda.
pub open spec fn owned_range(t: SyntaxTree, owner: NodeId) -> Option<ScopeRange> {
    let kind = t.kind_of(owner);
    if kind == "method_declaration"@ || kind == "constructor_declaration"@ || kind
        == "lambda_expression"@ {
        match t.field_of(owner, "body"@) {
            Some(body) => Some(range_of(t, body)),
            None => None,
        }
    } else {
        Some(range_of(t, owner))
    }
}

/// The positions from which the variables of an owner can be seen.
pub fn scope_range_for_owner(t: &SyntaxTree, owner: NodeId) -> (r: Option<ScopeRange>)
    requires
        t.linked(),
        t.has(owner),
    ensures
        r == owned_range(*t, owner),
{
    assert(t.nodes@[owner as int].placed(owner as int, t.nodes@.len() as int));
    if t.is_kind(owner, "method_declaration") || t.is_kind(owner, "constructor_declaration")
        || t.is_kind(owner, "lambda_expression") {
        match t.child_by_field(owner, "body") {
            Some(body) => Some(node_scope_range(t, body)),
            None => None,
        }
    } else {
        Some(node_scope_range(t, owner))
    }
}

/// All positions up to the cursor.
pub open spec fn up_to(offset: usize) -> ScopeRange {
    ScopeRange {
        start: 0,
        end: if offset < usize::MAX {
            (offset + 1) as usize
        } else {
            usize::MAX
        },
    }
}

/// All positions up to the cursor.
pub fn fallback_visibility_scope(offset: usize) -> (r: ScopeRange)
    ensures
        r == up_to(offset),
{
    ScopeRange { start: 0, end: offset.saturating_add(1) }
}

/// A range, or all positions up to the cursor.
pub open spec fn or_up_to(scope: Option<ScopeRange>, offset: usize) -> ScopeRange {
    match scope {
        Some(s) => s,
        None => up_to(offset),
    }
}

/// A range, or all positions up to the cursor.
pub fn scope_or_fallback(scope: Option<ScopeRange>, offset: usize) -> (r: ScopeRange)
    ensures
        r == or_up_to(scope, offset),
{
    match scope {
        Some(s) => s,
        None => fallback_visibility_scope(offset),
    }
}

/// The positions from which a variable that is declared at a node can be seen.
pub open spec fn local_scope(t: SyntaxTree, decl: NodeId) -> Option<ScopeRange> {
    match scope_owner(t, decl) {
        Some(owner) => owned_range(t, owner),
        None => None,
    }
}

/// The positions from which a variable that is declared at a node can be seen.
pub fn local_visibility_scope(t: &SyntaxTree, decl: NodeId) -> (r: Option<ScopeRange>)
    requires
        t.linked(),
        t.has(decl),
    ensures
        r == local_scope(*t, decl),
{
    match nearest_local_scope_owner(t, decl) {
        Some(owner) => scope_range_for_owner(t, owner),
        None => None,
    }
}

/// The range holds a position.
pub open spec fn covers(scope: ScopeRange, offset: usize) -> bool {
    scope.start <= offset < scope.end
}

/// Whether a range holds a position.
pub fn scope_contains_offset(scope: ScopeRange, offset: usize) -> (r: bool)
    ensures
        r == covers(scope, offset),
{
    scope.start <= offset && offset < scope.end
}

/// The positions from which the parameters of a lambda can be seen: its body or, where the parser
/// did not make a lambda of it, what follows the arrow.
pub open spec fn lambda_scope(t: SyntaxTree, params: NodeId) -> Option<ScopeRange> {
    match t.parent_of(params) {
        None => None,
        Some(p) => if t.kind_of(p) == "lambda_expression"@ {
            match t.field_of(p, "body"@) {
                Some(body) => Some(range_of(t, body)),
                None => None,
            }
        } else {
            match SyntaxTree::place_from(t.kids(p), params, 0) {
                Some(i) => if i + 1 < t.kids(p).len() && t.kind_of(t.kids(p)[i + 1]) == "->"@ {
                    Some(
                        ScopeRange {
                            start: t.node(t.kids(p)[i + 1]).end,
                            end: t.node(p).end,
                        },
                    )
                } else {
                    None
                },
                None => None,
            }
        },
    }
}

/// The positions from which the parameters of a lambda can be seen.
pub fn lambda_param_visibility_scope(t: &SyntaxTree, params: NodeId) -> (r: Option<ScopeRange>)
    requires
        t.linked(),
        t.has(params),
    ensures
        r == lambda_scope(*t, params),
{
    assert(t.nodes@[params as int].placed(params as int, t.nodes@.len() as int));
    match t.parent(params) {
        None => None,
        Some(p) => {
            assert(t.nodes@[p as int].placed(p as int, t.nodes@.len() as int));
            if t.is_kind(p, "lambda_expression") {
                match t.child_by_field(p, "body") {
                    Some(body) => Some(node_scope_range(t, body)),
                    None => None,
                }
            } else {
                let kids = t.children(p);
                let count: usize = kids.len();
                match SyntaxTree::place_of(kids, params) {
                    Some(i) => if i + 1 < count && t.is_kind(kids[i + 1], "->") {
                        Some(ScopeRange { start: t.end(kids[i + 1]), end: t.end(p) })
                    } else {
                        None
                    },
                    None => None,
                }
            }
        },
    }
}

/// The innermost method among the nodes from the `i`-th on that holds the cursor.
pub open spec fn method_from(ctx: JavaContextExtractor, i: int) -> Option<NodeId>
    decreases ctx.tree.nodes@.len() - i,
{
    if i < 0 || i >= ctx.tree.nodes@.len() {
        None
    } else {
        match method_from(ctx, i + 1) {
            Some(m) => Some(m),
            None => if ctx.tree.kind_of(i as usize) == "method_declaration"@ && ctx.tree.start_of(
                i as usize,
            ) <= ctx.offset <= ctx.tree.end_of(i as usize) {
                Some(i as usize)
            } else {
                None
            },
        }
    }
}

/// The innermost method that holds the cursor.
pub fn find_method_by_offset(ctx: &JavaContextExtractor) -> (r: Option<NodeId>)
    requires
        ctx.wf(),
    ensures
        r == method_from(*ctx, 0),
        r matches Some(m) ==> ctx.tree.has(m),
{
    let t = &ctx.tree;
    let n: usize = t.nodes.len();
    let mut i: usize = n;
    proof {
        lemma_no_method_after(*ctx, n as int, 0);
    }
    while i > 0
        invariant
            i <= n,
            n == ctx.tree.nodes@.len(),
            *t == ctx.tree,
            method_from(*ctx, i as int) is None,
        decreases i,
    {
        let k: usize = i - 1;
        if t.is_kind(k, "method_declaration") && t.start(k) <= ctx.offset && ctx.offset <= t.end(
            k,
        ) {
            proof {
                lemma_no_method_after(*ctx, k as int, 0);
            }
            return Some(k);
        }
        i = k;
    }
    None
}

/// Where the search for the method ends up depends only on the last method that holds the cursor.
proof fn lemma_no_method_after(ctx: JavaContextExtractor, k: int, i: int)
    requires
        0 <= i <= k,
    ensures
        method_from(ctx, k) is Some ==> method_from(ctx, i) == method_from(ctx, k),
    decreases k - i,
{
    if i < k {
        lemma_no_method_after(ctx, k, i + 1);
    }
}

/// The method that the cursor is in: the nearest around the cursor's node, else the innermost that
/// holds the cursor.
pub open spec fn cursor_method(ctx: JavaContextExtractor, cursor_node: Option<NodeId>) -> Option<
    NodeId,
> {
    let around = match cursor_node {
        Some(n) => ctx.tree.ancestor(n, "method_declaration"@),
        None => None,
    };
    match around {
        Some(m) => Some(m),
        None => method_from(ctx, 0),
    }
}

/// The method that the cursor is in.
pub fn find_cursor_method(ctx: &JavaContextExtractor, cursor_node: Option<NodeId>) -> (r: Option<
    NodeId,
>)
    requires
        ctx.wf(),
        cursor_node matches Some(n) ==> ctx.tree.has(n),
    ensures
        r == cursor_method(*ctx, cursor_node),
        r matches Some(m) ==> ctx.tree.has(m),
{
    if let Some(n) = cursor_node {
        if let Some(m) = ctx.tree.ancestor_of_kind(n, "method_declaration") {
            return Some(m);
        }
    }
    find_method_by_offset(ctx)
}

} // verus!
