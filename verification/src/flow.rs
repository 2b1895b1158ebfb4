//! Types that a condition narrows.
use vstd::prelude::*;

use crate::extractor::JavaContextExtractor;
use crate::syntax::NodeId;
use crate::text::{to_text, trim, trimmed};
use crate::text_map::{at_key, TextMap};
use crate::type_facts::{
    has_local, local_exists, look_up, FactsView, LocalVar, LocalView, TypeFacts,
};
use crate::type_names::{TypeName, TypeView};

pub mod laws;

verus! {

/// The node holds a position.
pub open spec fn holds_offset(ctx: JavaContextExtractor, n: NodeId) -> bool {
    ctx.tree.start_of(n) <= ctx.offset <= ctx.tree.end_of(n)
}

/// Whether a node holds a position.
pub fn node_contains_offset(ctx: &JavaContextExtractor, n: NodeId) -> (r: bool)
    requires
        ctx.tree.has(n),
    ensures
        r == holds_offset(*ctx, n),
{
    ctx.tree.start(n) <= ctx.offset && ctx.offset <= ctx.tree.end(n)
}

/// The expression in the parentheses of a condition.
pub open spec fn condition_expression(ctx: JavaContextExtractor, condition: NodeId) -> Option<
    NodeId,
> {
    match ctx.tree.field_of(condition, "expression"@) {
        Some(e) => Some(e),
        None => if ctx.tree.named_kids(condition).len() > 0 {
            Some(ctx.tree.named_kids(condition)[0])
        } else {
            None
        },
    }
}

/// The variable and the type of a condition `variable instanceof Type` whose type is known.
pub open spec fn narrowing(ctx: JavaContextExtractor, condition: NodeId, facts: FactsView) -> Option<
    (Seq<char>, TypeView),
> {
    match condition_expression(ctx, condition) {
        None => None,
        Some(e) => if ctx.tree.kind_of(e) != "instanceof_expression"@ {
            None
        } else {
            match (ctx.tree.field_of(e, "left"@), ctx.tree.field_of(e, "right"@)) {
                (Some(left), Some(right)) => {
                    let name = trim(ctx.text_of(left));
                    let type_text = trim(ctx.text_of(right));
                    if ctx.tree.kind_of(left) != "identifier"@ || name.len() == 0
                        || type_text.len() == 0 {
                        None
                    } else {
                        match at_key(facts.relaxed_types, type_text) {
                            Some(t) => Some((name, t)),
                            None => None,
                        }
                    }
                },
                _ => None,
            }
        },
    }
}

/// Reads a condition `variable instanceof Type`.
pub fn parse_instanceof_narrowing(
    ctx: &JavaContextExtractor,
    condition: NodeId,
    facts: &TypeFacts,
) -> (r: Option<(String, TypeName)>)
    requires
        ctx.wf(),
        ctx.tree.has(condition),
    ensures
        r.deep_view() == narrowing(*ctx, condition, facts.deep_view()),
{
    let t = &ctx.tree;
    let expr: NodeId = match t.child_by_field(condition, "expression") {
        Some(e) => e,
        None => {
            let kids = t.named_children(condition);
            if kids.len() == 0 {
                return None;
            }
            kids[0]
        },
    };
    if !t.is_kind(expr, "instanceof_expression") {
        return None;
    }
    match (t.child_by_field(expr, "left"), t.child_by_field(expr, "right")) {
        (Some(left), Some(right)) => {
            if !t.is_kind(left, "identifier") {
                return None;
            }
            let name = trimmed(ctx.node_text(left));
            if name.len() == 0 {
                return None;
            }
            let type_text = trimmed(ctx.node_text(right));
            if type_text.len() == 0 {
                return None;
            }
            let key = to_text(type_text);
            match look_up(&facts.relaxed_types, key.as_str()) {
                Some(ty) => Some((to_text(name), ty)),
                None => None,
            }
        },
        _ => None,
    }
}

/// What the `if` at a node tells where the cursor is in its true branch: the narrowed type of a
/// local variable.
pub open spec fn told_by_if(
    ctx: JavaContextExtractor,
    n: NodeId,
    facts: FactsView,
    locals: Seq<LocalView>,
) -> Option<(Seq<char>, TypeView)> {
    if ctx.tree.kind_of(n) != "if_statement"@ {
        None
    } else {
        match (ctx.tree.field_of(n, "consequence"@), ctx.tree.field_of(n, "condition"@)) {
            (Some(branch), Some(condition)) => if !holds_offset(ctx, branch) {
                None
            } else {
                match narrowing(ctx, condition, facts) {
                    Some((name, t)) => if has_local(locals, name) {
                        Some((name, t))
                    } else {
                        None
                    },
                    None => None,
                }
            },
            _ => None,
        }
    }
}

/// The narrowed types, with what the node and its ancestors tell added: an inner `if` wins over
/// an outer one.
pub open spec fn narrowed_from(
    ctx: JavaContextExtractor,
    n: NodeId,
    facts: FactsView,
    locals: Seq<LocalView>,
    m: Map<Seq<char>, TypeView>,
) -> Map<Seq<char>, TypeView>
    decreases n,
{
    let next = match told_by_if(ctx, n, facts, locals) {
        Some((name, t)) => if m.contains_key(name) {
            m
        } else {
            m.insert(name, t)
        },
        None => m,
    };
    match ctx.tree.parent_of(n) {
        Some(p) => if p < n {
            narrowed_from(ctx, p, facts, locals, next)
        } else {
            next
        },
        None => next,
    }
}

/// What is already narrowed stays as it is.
pub proof fn lemma_inner_wins(
    ctx: JavaContextExtractor,
    n: NodeId,
    facts: FactsView,
    locals: Seq<LocalView>,
    m: Map<Seq<char>, TypeView>,
    name: Seq<char>,
)
    requires
        m.contains_key(name),
    ensures
        narrowed_from(ctx, n, facts, locals, m).contains_key(name),
        narrowed_from(ctx, n, facts, locals, m)[name] == m[name],
    decreases n,
{
    let next = match told_by_if(ctx, n, facts, locals) {
        Some((k, t)) => if m.contains_key(k) {
            m
        } else {
            m.insert(k, t)
        },
        None => m,
    };
    match ctx.tree.parent_of(n) {
        Some(p) => {
            if p < n {
                lemma_inner_wins(ctx, p, facts, locals, next, name);
            }
        },
        None => {},
    }
}

/// Only local variables are narrowed.
pub proof fn lemma_narrows_locals(
    ctx: JavaContextExtractor,
    n: NodeId,
    facts: FactsView,
    locals: Seq<LocalView>,
    m: Map<Seq<char>, TypeView>,
    name: Seq<char>,
)
    requires
        narrowed_from(ctx, n, facts, locals, m).contains_key(name),
    ensures
        m.contains_key(name) || has_local(locals, name),
    decreases n,
{
    let next = match told_by_if(ctx, n, facts, locals) {
        Some((k, t)) => if m.contains_key(k) {
            m
        } else {
            m.insert(k, t)
        },
        None => m,
    };
    match ctx.tree.parent_of(n) {
        Some(p) => {
            if p < n {
                lemma_narrows_locals(ctx, p, facts, locals, next, name);
            }
        },
        None => {},
    }
}

/// The types that the conditions around the cursor narrow.
pub fn extract_instanceof_true_branch_overrides(
    ctx: &JavaContextExtractor,
    cursor_node: Option<NodeId>,
    facts: &TypeFacts,
    locals: &[LocalVar],
) -> (r: TextMap<TypeName>)
    requires
        ctx.wf(),
        cursor_node matches Some(n) ==> ctx.tree.has(n),
    ensures
        r.deep_view() == match cursor_node {
            Some(n) => narrowed_from(
                *ctx,
                n,
                facts.deep_view(),
                locals.deep_view(),
                Map::empty(),
            ),
            None => Map::empty(),
        },
{
    let t = &ctx.tree;
    let ghost known = facts.deep_view();
    let ghost visible = locals.deep_view();
    let mut out: TextMap<TypeName> = TextMap::new();
    assert(out.deep_view() =~= Map::<Seq<char>, TypeView>::empty());
    let mut n: NodeId = match cursor_node {
        Some(n) => n,
        None => {
            return out;
        },
    };
    let ghost whole = narrowed_from(*ctx, n, known, visible, Map::empty());
    loop
        invariant
            ctx.wf(),
            *t == ctx.tree,
            known == facts.deep_view(),
            visible == locals.deep_view(),
            ctx.tree.has(n),
            cursor_node matches Some(start) && whole == narrowed_from(
                *ctx,
                start,
                known,
                visible,
                Map::empty(),
            ),
            whole == narrowed_from(*ctx, n, known, visible, out.deep_view()),
        decreases n,
    {
        let ghost before = out.deep_view();
        if t.is_kind(n, "if_statement") {
            if let Some(branch) = t.child_by_field(n, "consequence") {
                if let Some(condition) = t.child_by_field(n, "condition") {
                    if node_contains_offset(ctx, branch) {
                        if let Some((name, ty)) = parse_instanceof_narrowing(ctx, condition, facts) {
                            if local_exists(locals, name.as_str()) && out.get(
                                name.as_str(),
                            ).is_none() {
                                let ghost k = name@;
                                let ghost v = ty.deep_view();
                                out.insert(name, ty);
                                assert(out.deep_view() =~= before.insert(k, v));
                            }
                        }
                    }
                }
            }
        }
        assert(ctx.tree.nodes@[n as int].placed(n as int, ctx.tree.nodes@.len() as int));
        match t.parent(n) {
            Some(p) => {
                n = p;
            },
            None => {
                return out;
            },
        }
    }
}

} // verus!
