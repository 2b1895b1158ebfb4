//! What conditions tell of the types of variables.
use vstd::prelude::*;

use crate::extractor::JavaContextExtractor;
use crate::flow::{narrowed_from, told_by_if};
use crate::syntax::NodeId;
use crate::text::trim;
use crate::type_facts::{has_local, FactsView, LocalView};
use crate::type_names::TypeView;

use super::lemma_inner_wins;

verus! {

/// The `if` at a node has a condition `name instanceof Type`, its type is known to be `t`, the name
/// is that of a local variable, and the cursor is in the branch that is taken where the condition
/// holds.
pub open spec fn is_tested(
    ctx: JavaContextExtractor,
    n: NodeId,
    facts: FactsView,
    locals: Seq<LocalView>,
    name: Seq<char>,
    t: TypeView,
) -> bool {
    let tree = ctx.tree;
    &&& tree.kind_of(n) == "if_statement"@
    &&& tree.field_of(n, "consequence"@) matches Some(branch) && tree.start_of(branch) <= ctx.offset
        && ctx.offset <= tree.end_of(branch)
    &&& tree.field_of(n, "condition"@) matches Some(condition) && exists|e: NodeId| #[trigger]
        is_test(ctx, condition, e, facts, name, t)
    &&& exists|i: int| 0 <= i < locals.len() && (#[trigger] locals[i]).name == name
}

/// The expression in a condition is `name instanceof Type`, and `t` is known of the type.
pub open spec fn is_test(
    ctx: JavaContextExtractor,
    condition: NodeId,
    e: NodeId,
    facts: FactsView,
    name: Seq<char>,
    t: TypeView,
) -> bool {
    let tree = ctx.tree;
    &&& tree.field_of(condition, "expression"@) == Some(e) || tree.field_of(
        condition,
        "expression"@,
    ) is None && tree.named_kids(condition).len() > 0 && tree.named_kids(condition)[0] == e
    &&& tree.kind_of(e) == "instanceof_expression"@
    &&& tree.field_of(e, "left"@) matches Some(left) && tree.kind_of(left) == "identifier"@ && trim(
        ctx.text_of(left),
    ) == name && name.len() > 0
    &&& tree.field_of(e, "right"@) matches Some(right) && trim(ctx.text_of(right)).len() > 0
        && facts.relaxed_types.contains_key(trim(ctx.text_of(right)))
        && facts.relaxed_types[trim(ctx.text_of(right))] == t
}

/// A condition that holds where the cursor is tells the type of the variable that it tests, and
/// nothing else tells one.
pub proof fn lemma_tests(
    ctx: JavaContextExtractor,
    n: NodeId,
    facts: FactsView,
    locals: Seq<LocalView>,
    name: Seq<char>,
    t: TypeView,
)
    ensures
        told_by_if(ctx, n, facts, locals) == Some((name, t)) <==> is_tested(
            ctx,
            n,
            facts,
            locals,
            name,
            t,
        ),
{
    if told_by_if(ctx, n, facts, locals) == Some((name, t)) {
        let condition = ctx.tree.field_of(n, "condition"@)->0;
        let e = crate::flow::condition_expression(ctx, condition)->0;
        assert(is_test(ctx, condition, e, facts, name, t));
        assert(has_local(locals, name));
    }
    if is_tested(ctx, n, facts, locals, name, t) {
        let condition = ctx.tree.field_of(n, "condition"@)->0;
        let e = choose|e: NodeId| #[trigger] is_test(ctx, condition, e, facts, name, t);
        assert(crate::flow::condition_expression(ctx, condition) == Some(e));
        assert(has_local(locals, name));
    }
}

/// Behind the branch and in the other branch, the condition tells nothing.
pub proof fn lemma_other_branch(
    ctx: JavaContextExtractor,
    n: NodeId,
    branch: NodeId,
    facts: FactsView,
    locals: Seq<LocalView>,
)
    requires
        ctx.tree.field_of(n, "consequence"@) == Some(branch),
        ctx.offset < ctx.tree.start_of(branch) || ctx.tree.end_of(branch) < ctx.offset,
    ensures
        told_by_if(ctx, n, facts, locals) is None,
{
}

/// On the way up from a node, the one at `at` is the first to tell the type of a variable.
pub open spec fn is_first_to_tell(
    ctx: JavaContextExtractor,
    n: NodeId,
    at: NodeId,
    facts: FactsView,
    locals: Seq<LocalView>,
    name: Seq<char>,
) -> bool
    decreases n,
{
    n == at || !(told_by_if(ctx, n, facts, locals) matches Some((other, _)) && other == name) && (
    ctx.tree.parent_of(n) matches Some(p) && p < n && is_first_to_tell(
        ctx,
        p,
        at,
        facts,
        locals,
        name,
    ))
}

/// A variable that is tested round the cursor has the type that the innermost test says.
pub proof fn lemma_tested_variables_are_narrowed(
    ctx: JavaContextExtractor,
    n: NodeId,
    at: NodeId,
    facts: FactsView,
    locals: Seq<LocalView>,
    name: Seq<char>,
    t: TypeView,
    m: Map<Seq<char>, TypeView>,
)
    requires
        !m.contains_key(name),
        is_tested(ctx, at, facts, locals, name, t),
        is_first_to_tell(ctx, n, at, facts, locals, name),
    ensures
        narrowed_from(ctx, n, facts, locals, m).contains_key(name),
        narrowed_from(ctx, n, facts, locals, m)[name] == t,
    decreases n,
{
    lemma_tests(ctx, at, facts, locals, name, t);
    let next = match told_by_if(ctx, n, facts, locals) {
        Some((k, u)) => if m.contains_key(k) {
            m
        } else {
            m.insert(k, u)
        },
        None => m,
    };
    if n == at {
        if let Some(p) = ctx.tree.parent_of(n) {
            if p < n {
                lemma_inner_wins(ctx, p, facts, locals, next, name);
            }
        }
    } else {
        let p = ctx.tree.parent_of(n)->0;
        lemma_tested_variables_are_narrowed(ctx, p, at, facts, locals, name, t, next);
    }
}

/// A variable has another type only where a condition round the cursor says so.
pub proof fn lemma_only_tests_narrow(
    ctx: JavaContextExtractor,
    n: NodeId,
    facts: FactsView,
    locals: Seq<LocalView>,
    name: Seq<char>,
    m: Map<Seq<char>, TypeView>,
)
    requires
        !m.contains_key(name),
        narrowed_from(ctx, n, facts, locals, m).contains_key(name),
    ensures
        exists|at: NodeId| #[trigger]
            ctx.tree.descends(n, at) && is_tested(
                ctx,
                at,
                facts,
                locals,
                name,
                narrowed_from(ctx, n, facts, locals, m)[name],
            ),
    decreases n,
{
    let next = match told_by_if(ctx, n, facts, locals) {
        Some((k, u)) => if m.contains_key(k) {
            m
        } else {
            m.insert(k, u)
        },
        None => m,
    };
    if next.contains_key(name) {
        let t = next[name];
        lemma_tests(ctx, n, facts, locals, name, t);
        assert(ctx.tree.descends(n, n));
        if let Some(p) = ctx.tree.parent_of(n) {
            if p < n {
                lemma_inner_wins(ctx, p, facts, locals, next, name);
            }
        }
    } else {
        let p = ctx.tree.parent_of(n)->0;
        lemma_only_tests_narrow(ctx, p, facts, locals, name, next);
        let at = choose|at: NodeId| #[trigger]
            ctx.tree.descends(p, at) && is_tested(
                ctx,
                at,
                facts,
                locals,
                name,
                narrowed_from(ctx, p, facts, locals, next)[name],
            );
        assert(ctx.tree.descends(n, at));
    }
}

} // verus!
