//! Lambdas that the parser made nothing of.
use vstd::prelude::*;

use crate::extractor::JavaContextExtractor;
use crate::location::hints::{
    arrow_holder, depth_after, enclosing_call, expression_body, hint_in_error, last_arrow, last_place_of_kind,
    param_count, params_from, shape_at,
};
use crate::semantic::{ExpectedTypeSource, ShapeView};
use crate::syntax::{NodeId, SyntaxTree};
use crate::text::trim;

verus! {

proof fn lemma_last_arrow(ctx: &JavaContextExtractor, ids: Seq<NodeId>, j: int, k: int)
    requires
        0 <= k < j <= ids.len(),
        ctx.tree.kind_of(ids[k]) == "->"@,
        ctx.tree.end_of(ids[k]) <= ctx.offset,
        forall|q: int|
            k < q < ids.len() ==> ctx.tree.kind_of(#[trigger] ids[q]) != "->"@ || ctx.tree.end_of(
                ids[q],
            ) > ctx.offset,
    ensures
        last_arrow(ctx, ids, j) == Some(k),
    decreases j - k,
{
    if k < j - 1 {
        lemma_last_arrow(ctx, ids, j - 1, k);
    }
}

proof fn lemma_last_place(t: &SyntaxTree, ids: Seq<NodeId>, kind: Seq<char>, j: int, k: int)
    requires
        0 <= k < j <= ids.len(),
        t.kind_of(ids[k]) == kind,
        forall|q: int| k < q < j ==> t.kind_of(#[trigger] ids[q]) != kind,
    ensures
        last_place_of_kind(t, ids, kind, j) == Some(k),
    decreases j - k,
{
    if k < j - 1 {
        lemma_last_place(t, ids, kind, j - 1, k);
    }
}

/// `Type name = params ->` in an error tells the type that is expected, how many parameters there
/// are, and what stands behind the arrow.
pub proof fn lemma_broken_lambdas(
    ctx: &JavaContextExtractor,
    n: NodeId,
    arrow: int,
    eq: int,
)
    requires
        ctx.tree.kind_of(n) == "ERROR"@ || ctx.tree.kind_of(n) == "program"@,
        2 <= eq < arrow - 1,
        arrow < ctx.tree.kids(n).len(),
        ({
            let t = ctx.tree;
            let ids = t.kids(n);
            &&& t.kind_of(ids[arrow]) == "->"@
            &&& t.end_of(ids[arrow]) <= ctx.offset
            &&& forall|q: int|
                arrow < q < ids.len() ==> t.kind_of(#[trigger] ids[q]) != "->"@ || t.end_of(ids[q])
                    > ctx.offset
            &&& t.kind_of(ids[eq]) == "="@
            &&& forall|q: int| eq < q < arrow - 1 ==> t.kind_of(#[trigger] ids[q]) != "="@
            &&& t.kind_of(ids[arrow - 1]) == "identifier"@ || t.kind_of(ids[arrow - 1])
                == "inferred_parameters"@ || t.kind_of(ids[arrow - 1]) == "formal_parameters"@
            &&& t.kind_of(ids[eq - 2]) == "type_identifier"@ || t.kind_of(ids[eq - 2])
                == "generic_type"@
            &&& trim(ctx.text_of(ids[eq - 2])).len() > 0
        }),
    ensures
        hint_in_error(ctx, n) matches Some(h) && h.expected_type_source == Some(
            trim(ctx.text_of(ctx.tree.kids(n)[eq - 2])),
        ) && h.expected_type_context == Some(ExpectedTypeSource::VariableInitializer)
            && h.assignment_lhs_expr is None && h.method_call is None && (h.expr_shape matches Some(
            ShapeView::Lambda { param_count, expression_body },
        ) && param_count == crate::location::hints::param_count(
            &ctx.tree,
            ctx.tree.kids(n)[arrow - 1],
        ) && expression_body == crate::location::hints::expression_body(
            ctx.piece(ctx.tree.end_of(ctx.tree.kids(n)[arrow]), ctx.offset as int),
        )),
{
    let t = &ctx.tree;
    let ids = t.kids(n);
    lemma_last_arrow(ctx, ids, ids.len() as int, arrow);
    lemma_last_place(t, ids, "="@, arrow - 1, eq);
    assert(arrow_holder(ctx, n) == Some(n));
}

/// A node that holds no arrow asks the one above it.
pub proof fn lemma_arrows_above(ctx: &JavaContextExtractor, n: NodeId, p: NodeId)
    requires
        ctx.tree.parent_of(n) == Some(p),
        p < n,
        ctx.tree.kind_of(n) != "ERROR"@,
        ctx.tree.kind_of(n) != "program"@,
    ensures
        hint_in_error(ctx, n) == hint_in_error(ctx, p),
{
}

/// A name alone is one parameter; in a list, every name counts, or every parameter with a type.
pub proof fn lemma_counted_parameters(t: &SyntaxTree, params: NodeId, a: NodeId, b: NodeId)
    ensures
        t.kind_of(params) == "identifier"@ ==> param_count(t, params) == 1,
        t.kind_of(params) == "inferred_parameters"@ && t.named_kids(params).len() == 0
            ==> param_count(t, params) == 0,
        t.kind_of(params) == "inferred_parameters"@ && t.named_kids(params) == seq![a, b]
            && t.kind_of(a) == "identifier"@ && t.kind_of(b) == "identifier"@ ==> param_count(
            t,
            params,
        ) == 2,
        t.kind_of(params) == "formal_parameters"@ && t.named_kids(params) == seq![a, b]
            && t.kind_of(a) == "formal_parameter"@ && t.kind_of(b) == "spread_parameter"@
            ==> param_count(t, params) == 2,
{
    reveal_strlit("identifier");
    reveal_strlit("inferred_parameters");
    reveal_strlit("formal_parameters");
    assert("identifier"@.len() == 10 && "inferred_parameters"@.len() == 19
        && "formal_parameters"@.len() == 17);
    reveal_with_fuel(params_from, 4);
}

/// Every name in a list counts once.
pub proof fn lemma_every_name_counts(t: &SyntaxTree, ids: Seq<NodeId>, i: int)
    requires
        0 <= i <= ids.len(),
        forall|q: int| 0 <= q < ids.len() ==> t.kind_of(#[trigger] ids[q]) == "identifier"@,
    ensures
        params_from(t, ids, false, i) == ids.len() - i,
    decreases ids.len() - i,
{
    if i < ids.len() {
        lemma_every_name_counts(t, ids, i + 1);
    }
}

/// A body in braces is no expression, any other that is not blank is.
pub proof fn lemma_expression_bodies(s: Seq<char>)
    ensures
        trim(s).len() == 0 ==> expression_body(s) is None,
        trim(s).len() > 0 && trim(s)[0] == '{' ==> expression_body(s) is None,
        trim(s).len() > 0 && trim(s)[0] != '{' ==> expression_body(s) == Some(trim(s)),
{
}

/// The arguments of a constructor call are in no call of a method.
pub proof fn lemma_no_enclosing_call(ctx: &JavaContextExtractor, n: NodeId, list: NodeId, call: NodeId)
    requires
        ctx.tree.ancestor(n, "argument_list"@) == Some(list),
        ctx.tree.parent_of(list) == Some(call),
        ctx.tree.kind_of(call) != "method_invocation"@,
    ensures
        enclosing_call(ctx, n) is None,
{
}

/// A method reference around the node comes before a lambda around it.
pub proof fn lemma_shapes_around(ctx: &JavaContextExtractor, n: NodeId, f: NodeId)
    ensures
        ctx.tree.ancestor(n, "method_reference"@) == Some(f) ==> shape_at(ctx, n)
            == crate::location::hints::method_reference_shape(ctx.text_of(f)),
        ctx.tree.ancestor(n, "method_reference"@) is None && ctx.tree.ancestor(
            n,
            "lambda_expression"@,
        ) == Some(f) ==> shape_at(ctx, n) == crate::location::hints::lambda_shape(ctx.text_of(f)),
        ctx.tree.ancestor(n, "method_reference"@) is None && ctx.tree.ancestor(
            n,
            "lambda_expression"@,
        ) is None ==> shape_at(ctx, n) is None,
{
}

/// An opening bracket goes one deeper, a closing one comes one back, but never out of the text; the
/// sign of an arrow and any other character stay where they are.
pub proof fn lemma_depths(s: Seq<char>, i: int, depth: int)
    requires
        0 <= i < s.len(),
        0 <= depth,
    ensures
        s[i] == '(' || s[i] == '<' || s[i] == '[' || s[i] == '{' ==> depth_after(s, i, depth)
            == depth + 1,
        s[i] == ')' || s[i] == ']' || s[i] == '}' ==> depth_after(s, i, depth) == if depth > 0 {
            depth - 1
        } else {
            0
        },
        s[i] == '>' && (i == 0 || s[i - 1] != '-') ==> depth_after(s, i, depth) == if depth > 0 {
            depth - 1
        } else {
            0
        },
        s[i] == '>' && i > 0 && s[i - 1] == '-' ==> depth_after(s, i, depth) == depth,
        s[i] == ',' || s[i] == '.' || s[i] == ' ' ==> depth_after(s, i, depth) == depth,
{
}

} // verus!
