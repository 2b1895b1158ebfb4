//! Which variables are found in code that is not finished, and which are not found at all.
use vstd::prelude::*;

use crate::extractor::JavaContextExtractor;
use crate::syntax::laws::lemma_first_kind_from;
use crate::syntax::{NodeId, SyntaxTree};
use crate::text::{trim, trim_start};
use crate::type_facts::{FactsView, LocalVarDeclKind};

use super::super::declared::{
    declared_type, last_type_before, last_type_below, param_type, recovered_type, seen_param_type,
};
use super::super::lambdas::{
    active_names, arrow_before, broken_params, in_lambda, lambda_params, lambda_vars, names_from,
    only_names, own_params, param_names,
};
use super::super::ranking::{is_nearer, RankedView};
use super::super::scopes::{cursor_method, lambda_scope, local_scope, or_up_to, ScopeRange};
use super::super::{
    broken_locals, found_locals, inner_name, leftover_from, leftover_type, local_at, locals_among,
    locals_of, method_params, misread_among, misread_at, misread_of, param_at, param_name,
};
use super::{
    declares, is_bare_type, is_one_word, is_type_text, lemma_joined, lemma_locals_among_has,
    lemma_locals_of_has, lemma_parameter_types, lemma_params_from_has, lemma_scope_kinds_differ,
    lemma_spread_types, search_root,
};

verus! {

// ---- what is not found -------------------------------------------------------------------------

/// What begins behind the cursor, and what is seen only elsewhere, declares nothing; and where
/// arguments stand in a declarator or a bracket follows the declaration, a call was meant.
pub proof fn lemma_not_declared(
    ctx: JavaContextExtractor,
    decl: NodeId,
    d: NodeId,
    facts: Option<FactsView>,
    strict: bool,
)
    ensures
        ctx.tree.field_of(d, "name"@) matches Some(id) && ctx.tree.start_of(id) >= ctx.offset
            ==> local_at(ctx, decl, d, facts, strict) is None,
        ctx.tree.field_of(decl, "type"@) matches Some(ty) && ctx.tree.start_of(ty) >= ctx.offset
            ==> local_at(ctx, decl, d, facts, strict) is None,
        ctx.tree.start_of(d) >= ctx.offset ==> local_at(ctx, decl, d, facts, strict) is None,
        ctx.tree.start_of(decl) >= ctx.offset ==> local_at(ctx, decl, d, facts, strict) is None,
        ctx.tree.field_of(d, "name"@) is None ==> local_at(ctx, decl, d, facts, strict) is None,
        ctx.tree.field_of(decl, "type"@) is None ==> local_at(ctx, decl, d, facts, strict) is None,
        ctx.tree.kind_of(d) != "variable_declarator"@ ==> local_at(ctx, decl, d, facts, strict)
            is None,
        local_scope(ctx.tree, decl) matches Some(s) && !(s.start <= ctx.offset < s.end)
            ==> local_at(ctx, decl, d, facts, strict) is None,
        (exists|q: int|
            0 <= q < ctx.tree.kids(d).len() && ctx.tree.kind_of(#[trigger] ctx.tree.kids(d)[q])
                == "argument_list"@) ==> local_at(ctx, decl, d, facts, true) is None,
        ctx.tree.next_of(decl) matches Some(next) && trim_start(ctx.text_of(next)).len() > 0
            && trim_start(ctx.text_of(next))[0] == '(' ==> local_at(ctx, decl, d, facts, true)
            is None,
{
    let t = ctx.tree;
    lemma_first_kind_from(t, t.kids(d), "argument_list"@, 0);
    if let Some(next) = t.next_of(decl) {
        let s = trim_start(ctx.text_of(next));
        reveal_strlit("(");
        assert("("@ =~= seq!['(']);
        if s.len() > 0 && s[0] == '(' {
            assert(s.take(1) =~= "("@);
        }
    }
}

proof fn lemma_locals_of_in_sight(
    ctx: JavaContextExtractor,
    decl: NodeId,
    facts: Option<FactsView>,
    strict: bool,
    i: int,
    k: int,
)
    requires
        0 <= i,
        0 <= k < locals_of(ctx, decl, facts, strict, i).len(),
    ensures
        ({
            let v = locals_of(ctx, decl, facts, strict, i)[k];
            v.declaration_start < ctx.offset && v.visibility_scope.start <= ctx.offset
                < v.visibility_scope.end
        }),
    decreases ctx.tree.kids(decl).len() - i,
{
    if i < ctx.tree.kids(decl).len() {
        match local_at(ctx, decl, ctx.tree.kids(decl)[i], facts, strict) {
            Some(v) => if k > 0 {
                lemma_locals_of_in_sight(ctx, decl, facts, strict, i + 1, k - 1);
            },
            None => {
                lemma_locals_of_in_sight(ctx, decl, facts, strict, i + 1, k);
            },
        }
    }
}

/// A variable that a declaration is found for is declared before the cursor, and the cursor is
/// where it can be seen.
pub proof fn lemma_declared_before_cursor(
    ctx: JavaContextExtractor,
    nodes: Seq<NodeId>,
    facts: Option<FactsView>,
    strict: bool,
    i: int,
    k: int,
)
    requires
        0 <= i,
        0 <= k < locals_among(ctx, nodes, facts, strict, i).len(),
    ensures
        ({
            let v = locals_among(ctx, nodes, facts, strict, i)[k];
            v.declaration_start < ctx.offset && v.visibility_scope.start <= ctx.offset
                < v.visibility_scope.end
        }),
    decreases nodes.len() - i,
{
    if i < nodes.len() {
        let first = if ctx.tree.kind_of(nodes[i]) == "local_variable_declaration"@ {
            locals_of(ctx, nodes[i], facts, strict, 0)
        } else {
            Seq::empty()
        };
        if k < first.len() {
            lemma_locals_of_in_sight(ctx, nodes[i], facts, strict, 0, k);
        } else {
            lemma_declared_before_cursor(ctx, nodes, facts, strict, i + 1, k - first.len());
        }
    }
}

/// Without a scope, a variable is seen from the beginning of the text up to the cursor.
pub proof fn lemma_seen_up_to_cursor(offset: usize, at: usize)
    requires
        offset < usize::MAX,
    ensures
        at <= offset <==> {
            let s = or_up_to(None, offset);
            s.start <= at < s.end
        },
{
}

// ---- below errors ------------------------------------------------------------------------------

proof fn lemma_broken_locals_have(
    ctx: JavaContextExtractor,
    nodes: Seq<NodeId>,
    facts: Option<FactsView>,
    i: int,
    k: int,
    v: RankedView,
)
    requires
        0 <= i <= k < nodes.len(),
        ctx.tree.kind_of(nodes[k]) == "ERROR"@,
        locals_among(ctx, ctx.tree.under(nodes[k]), facts, false, 0).contains(v),
    ensures
        broken_locals(ctx, nodes, facts, i).contains(v),
    decreases k - i,
{
    let first = if ctx.tree.kind_of(nodes[i]) == "ERROR"@ {
        locals_among(ctx, ctx.tree.under(nodes[i]), facts, false, 0)
    } else {
        Seq::empty()
    };
    lemma_joined(first, broken_locals(ctx, nodes, facts, i + 1), v);
    if i < k {
        lemma_broken_locals_have(ctx, nodes, facts, i + 1, k, v);
    }
}

/// Below an error, every variable that is declared before the cursor in a scope around it is found,
/// even where the declaration looks like a call.
pub proof fn lemma_declared_in_errors(
    ctx: JavaContextExtractor,
    root: NodeId,
    cursor_node: Option<NodeId>,
    facts: Option<FactsView>,
    error: NodeId,
    decl: NodeId,
    i: int,
    id: NodeId,
    ty: NodeId,
) -> (v: RankedView)
    requires
        ctx.tree.under(search_root(ctx, root, cursor_node)).contains(error),
        ctx.tree.kind_of(error) == "ERROR"@,
        ctx.tree.under(error).contains(decl),
        declares(ctx, decl, i, id, ty),
        is_type_text(trim(ctx.text_of(ty))),
        trim(ctx.text_of(ty)) != "var"@,
    ensures
        found_locals(ctx, root, cursor_node, facts).contains(v),
        v.local.name == ctx.text_of(id),
        v.local.type_internal == declared_type(trim(ctx.text_of(ty)), facts),
        v.declaration_start == ctx.tree.node(id).start,
{
    super::lemma_types_as_written(ctx, decl, ty);
    let d = ctx.tree.kids(decl)[i];
    let v = local_at(ctx, decl, d, facts, false)->0;
    let nodes = ctx.tree.under(search_root(ctx, root, cursor_node));
    let below = ctx.tree.under(error);
    let k = choose|k: int| 0 <= k < nodes.len() && nodes[k] == error;
    let j = choose|j: int| 0 <= j < below.len() && below[j] == decl;
    lemma_locals_of_has(ctx, decl, facts, false, 0, i, v);
    lemma_locals_among_has(ctx, below, facts, false, 0, j, v);
    lemma_broken_locals_have(ctx, nodes, facts, 0, k, v);
    let a = locals_among(ctx, nodes, facts, true, 0);
    let b = misread_among(ctx, nodes, facts, 0);
    let c = broken_locals(ctx, nodes, facts, 0);
    let e = method_params(ctx, cursor_node, facts);
    lemma_joined(a + b, c, v);
    lemma_joined(a + b + c, e, v);
    lemma_joined(a + b + c + e, lambda_vars(ctx, cursor_node, facts), v);
    v
}

// ---- assignments in declarators ----------------------------------------------------------------

/// The child at place `i` of a declarator assigns a value to the name of a variable.
pub open spec fn assigns(
    ctx: JavaContextExtractor,
    d: NodeId,
    i: int,
    id: NodeId,
    value: NodeId,
) -> bool {
    let t = ctx.tree;
    let a = t.kids(d)[i];
    &&& t.kind_of(d) == "variable_declarator"@
    &&& 0 <= i < t.kids(d).len()
    &&& t.kind_of(a) == "assignment_expression"@
    &&& t.field_of(a, "left"@) == Some(id) || t.field_of(a, "left"@) is None && t.named_kids(
        a,
    ).len() > 0 && t.named_kids(a)[0] == id
    &&& t.field_of(a, "right"@) == Some(value) || t.field_of(a, "right"@) is None && t.named_kids(
        a,
    ).len() > 1 && t.named_kids(a)[1] == value
    &&& t.kind_of(id) == "identifier"@
    &&& t.start_of(id) < ctx.offset
}

/// The child at place `e` of a declarator is the first error in it with a type in it, and that at
/// place `j` of the error is the first type there.
pub open spec fn has_left_over(
    ctx: JavaContextExtractor,
    d: NodeId,
    e: int,
    j: int,
) -> bool {
    let t = ctx.tree;
    let error = t.kids(d)[e];
    &&& 0 <= e < t.kids(d).len()
    &&& t.kind_of(error) == "ERROR"@
    &&& forall|q: int| 0 <= q < e ==> t.kind_of(#[trigger] t.kids(d)[q]) != "ERROR"@
    &&& 0 <= j < t.kids(error).len()
    &&& is_simple_type(t.kind_of(t.kids(error)[j]))
    &&& forall|q: int| 0 <= q < j ==> !is_simple_type(t.kind_of(#[trigger] t.kids(error)[q]))
}

/// The kinds of a name of a class, of the whole numbers and of no value.
pub open spec fn is_simple_type(kind: Seq<char>) -> bool {
    kind == "type_identifier"@ || kind == "integral_type"@ || kind == "void_type"@
}

proof fn lemma_left_over(ctx: JavaContextExtractor, d: NodeId, e: int, j: int, i: int)
    requires
        has_left_over(ctx, d, e, j),
        0 <= i <= e,
    ensures
        leftover_type(ctx, ctx.tree.kids(d), i) == Some(
            ctx.text_of(ctx.tree.kids(ctx.tree.kids(d)[e])[j]),
        ),
    decreases e - i,
{
    let t = ctx.tree;
    if i < e {
        assert(t.kind_of(t.kids(d)[i]) != "ERROR"@);
        lemma_left_over(ctx, d, e, j, i + 1);
    } else {
        lemma_left_over_in(ctx, t.kids(t.kids(d)[e]), j, 0);
    }
}

proof fn lemma_left_over_in(ctx: JavaContextExtractor, ids: Seq<NodeId>, j: int, i: int)
    requires
        0 <= i <= j < ids.len(),
        is_simple_type(ctx.tree.kind_of(ids[j])),
        forall|q: int| 0 <= q < j ==> !is_simple_type(ctx.tree.kind_of(#[trigger] ids[q])),
    ensures
        leftover_from(ctx, ids, i) == Some(ids[j]),
    decreases j - i,
{
    if i < j {
        lemma_left_over_in(ctx, ids, j, i + 1);
    }
}

proof fn lemma_misread_of_has(
    ctx: JavaContextExtractor,
    d: NodeId,
    facts: Option<FactsView>,
    i: int,
    k: int,
    v: RankedView,
)
    requires
        0 <= i <= k < ctx.tree.kids(d).len(),
        misread_at(ctx, d, ctx.tree.kids(d)[k], facts) == Some(v),
    ensures
        misread_of(ctx, d, facts, i).contains(v),
    decreases k - i,
{
    let rest = misread_of(ctx, d, facts, i + 1);
    if i < k {
        lemma_misread_of_has(ctx, d, facts, i + 1, k, v);
        if let Some(own) = misread_at(ctx, d, ctx.tree.kids(d)[i], facts) {
            lemma_joined(seq![own], rest, v);
        }
    } else {
        assert((seq![v] + rest)[0] == v);
    }
}

proof fn lemma_misread_among_has(
    ctx: JavaContextExtractor,
    nodes: Seq<NodeId>,
    facts: Option<FactsView>,
    i: int,
    k: int,
    v: RankedView,
)
    requires
        0 <= i <= k < nodes.len(),
        ctx.tree.kind_of(nodes[k]) == "variable_declarator"@,
        misread_of(ctx, nodes[k], facts, 0).contains(v),
    ensures
        misread_among(ctx, nodes, facts, i).contains(v),
    decreases k - i,
{
    let first = if ctx.tree.kind_of(nodes[i]) == "variable_declarator"@ {
        misread_of(ctx, nodes[i], facts, 0)
    } else {
        Seq::empty()
    };
    lemma_joined(first, misread_among(ctx, nodes, facts, i + 1), v);
    if i < k {
        lemma_misread_among_has(ctx, nodes, facts, i + 1, k, v);
    }
}

/// An assignment in a declarator declares what it assigns to, with the type that an error before it
/// holds; one with `var` keeps the text of its value.
pub proof fn lemma_assigned_variables_are_found(
    ctx: JavaContextExtractor,
    root: NodeId,
    cursor_node: Option<NodeId>,
    facts: Option<FactsView>,
    d: NodeId,
    i: int,
    id: NodeId,
    value: NodeId,
    e: int,
    j: int,
) -> (v: RankedView)
    requires
        ctx.tree.under(search_root(ctx, root, cursor_node)).contains(d),
        assigns(ctx, d, i, id, value),
        has_left_over(ctx, d, e, j),
    ensures
        found_locals(ctx, root, cursor_node, facts).contains(v),
        v.local.name == ctx.text_of(id),
        v.declaration_start == ctx.tree.node(id).start,
        ({
            let ty = ctx.text_of(ctx.tree.kids(ctx.tree.kids(d)[e])[j]);
            &&& ty != "var"@ ==> v.local.type_internal == declared_type(ty, facts)
                && v.local.init_expr is None && v.local.decl_kind == LocalVarDeclKind::Explicit
            &&& ty == "var"@ ==> v.local.init_expr == Some(ctx.text_of(value))
                && v.local.decl_kind == LocalVarDeclKind::VarSyntax
        }),
{
    lemma_left_over(ctx, d, e, j, 0);
    let nodes = ctx.tree.under(search_root(ctx, root, cursor_node));
    let k = choose|k: int| 0 <= k < nodes.len() && nodes[k] == d;
    let v = misread_at(ctx, d, ctx.tree.kids(d)[i], facts)->0;
    lemma_misread_of_has(ctx, d, facts, 0, i, v);
    lemma_misread_among_has(ctx, nodes, facts, 0, k, v);
    let a = locals_among(ctx, nodes, facts, true, 0);
    let b = misread_among(ctx, nodes, facts, 0);
    let c = broken_locals(ctx, nodes, facts, 0);
    let f = method_params(ctx, cursor_node, facts);
    lemma_joined(a, b, v);
    lemma_joined(a + b, c, v);
    lemma_joined(a + b + c, f, v);
    lemma_joined(a + b + c + f, lambda_vars(ctx, cursor_node, facts), v);
    v
}

/// Without an error before it, what is assigned to in a declarator is an object; what is no
/// assignment, or begins behind the cursor, declares nothing.
pub proof fn lemma_assigned_objects(
    ctx: JavaContextExtractor,
    d: NodeId,
    i: int,
    id: NodeId,
    value: NodeId,
    facts: Option<FactsView>,
)
    requires
        forall|q: int|
            0 <= q < ctx.tree.kids(d).len() ==> ctx.tree.kind_of(#[trigger] ctx.tree.kids(d)[q])
                != "ERROR"@,
    ensures
        assigns(ctx, d, i, id, value) ==> (misread_at(ctx, d, ctx.tree.kids(d)[i], facts) matches
            Some(v) && v.local.name == ctx.text_of(id) && v.local.type_internal == declared_type(
            "Object"@,
            facts,
        )),
        ctx.tree.kind_of(ctx.tree.kids(d)[i]) != "assignment_expression"@ ==> misread_at(
            ctx,
            d,
            ctx.tree.kids(d)[i],
            facts,
        ) is None,
        ctx.tree.field_of(ctx.tree.kids(d)[i], "left"@) matches Some(l) && (ctx.tree.start_of(l)
            >= ctx.offset || ctx.tree.kind_of(l) != "identifier"@) ==> misread_at(
            ctx,
            d,
            ctx.tree.kids(d)[i],
            facts,
        ) is None,
{
    lemma_nothing_left_over(ctx, ctx.tree.kids(d), 0);
}

proof fn lemma_nothing_left_over(ctx: JavaContextExtractor, ids: Seq<NodeId>, i: int)
    requires
        0 <= i,
        forall|q: int| 0 <= q < ids.len() ==> ctx.tree.kind_of(#[trigger] ids[q]) != "ERROR"@,
    ensures
        leftover_type(ctx, ids, i) is None,
    decreases ids.len() - i,
{
    if i < ids.len() {
        lemma_nothing_left_over(ctx, ids, i + 1);
    }
}

// ---- recovered types ---------------------------------------------------------------------------

proof fn lemma_rest_is_behind(
    ctx: JavaContextExtractor,
    n: NodeId,
    boundary: int,
    best: Option<NodeId>,
    i: int,
)
    requires
        0 <= i,
        forall|q: int|
            i <= q < ctx.tree.kids(n).len() ==> ctx.tree.start_of(#[trigger] ctx.tree.kids(n)[q])
                >= boundary,
    ensures
        last_type_below(ctx, n, boundary, best, i) == best,
    decreases ctx.tree.kids(n).len() - i,
{
    if i < ctx.tree.kids(n).len() {
        let k = ctx.tree.kids(n)[i];
        assert(last_type_before(ctx, k, boundary, best) == best);
        lemma_rest_is_behind(ctx, n, boundary, best, i + 1);
    }
}

proof fn lemma_last_type_below(
    ctx: JavaContextExtractor,
    n: NodeId,
    boundary: int,
    best: Option<NodeId>,
    i: int,
    k: int,
)
    requires
        ctx.wf(),
        ctx.tree.has(n),
        0 <= i <= k < ctx.tree.kids(n).len(),
        ctx.tree.kids(ctx.tree.kids(n)[k]).len() == 0,
        is_written_type(ctx.tree.kind_of(ctx.tree.kids(n)[k])),
        ctx.tree.start_of(ctx.tree.kids(n)[k]) < boundary,
        ctx.tree.end_of(ctx.tree.kids(n)[k]) <= boundary,
        forall|q: int|
            k < q < ctx.tree.kids(n).len() ==> ctx.tree.start_of(#[trigger] ctx.tree.kids(n)[q])
                >= boundary,
    ensures
        last_type_below(ctx, n, boundary, best, i) == Some(ctx.tree.kids(n)[k]),
    decreases k - i,
{
    let c = ctx.tree.kids(n)[i];
    assert(ctx.tree.nodes@[n as int].placed(n as int, ctx.tree.nodes@.len() as int));
    if i < k {
        lemma_last_type_below(ctx, n, boundary, last_type_before(ctx, c, boundary, best), i + 1, k);
    } else {
        reveal_with_fuel(last_type_before, 2);
        reveal_with_fuel(last_type_below, 2);
        assert(last_type_below(ctx, c, boundary, Some(c), 0) == Some(c));
        assert(last_type_before(ctx, c, boundary, best) == Some(c));
        lemma_rest_is_behind(ctx, n, boundary, Some(c), k + 1);
    }
}

/// The kinds of the types that have no parts of their own.
pub open spec fn is_written_type(kind: Seq<char>) -> bool {
    kind == "type_identifier"@ || kind == "integral_type"@ || kind == "floating_point_type"@ || kind
        == "boolean_type"@
}

/// Where the text of the type cannot be one, the last type before the declarator is taken.
pub proof fn lemma_recovered_types(ctx: JavaContextExtractor, decl: NodeId, d: NodeId, k: int)
    requires
        ctx.wf(),
        ctx.tree.has(decl),
        ctx.tree.field_of(decl, "declarator"@) == Some(d),
        0 <= k < ctx.tree.kids(decl).len(),
        ctx.tree.kids(ctx.tree.kids(decl)[k]).len() == 0,
        is_written_type(ctx.tree.kind_of(ctx.tree.kids(decl)[k])),
        ctx.tree.start_of(decl) < ctx.tree.start_of(d),
        ctx.tree.start_of(ctx.tree.kids(decl)[k]) < ctx.tree.start_of(d),
        ctx.tree.end_of(ctx.tree.kids(decl)[k]) <= ctx.tree.start_of(d),
        forall|q: int|
            k < q < ctx.tree.kids(decl).len() ==> ctx.tree.start_of(
                #[trigger] ctx.tree.kids(decl)[q],
            ) >= ctx.tree.start_of(d),
        is_type_text(trim(trim(ctx.text_of(ctx.tree.kids(decl)[k])))),
    ensures
        recovered_type(ctx, decl) == Some(trim(ctx.text_of(ctx.tree.kids(decl)[k]))),
{
    let b = ctx.tree.start_of(d);
    let own = if ctx.tree.end_of(decl) <= b && crate::syntax::KindClass::TypeLike.has(
        ctx.tree.kind_of(decl),
    ) {
        Some(decl)
    } else {
        None
    };
    lemma_last_type_below(ctx, decl, b, own, 0, k);
    super::lemma_plausible(trim(ctx.text_of(ctx.tree.kids(decl)[k])));
}

// ---- parameters --------------------------------------------------------------------------------

/// The name of a parameter is what its field says, else an identifier in it, else the name of a
/// declarator in it.
pub proof fn lemma_parameter_names(ctx: JavaContextExtractor, param: NodeId, k: int)
    requires
        ctx.tree.field_of(param, "name"@) is None,
        0 <= k < ctx.tree.named_kids(param).len(),
        forall|q: int|
            0 <= q < k ==> ({
                let kind = ctx.tree.kind_of(#[trigger] ctx.tree.named_kids(param)[q]);
                kind != "identifier"@ && kind != "variable_declarator"@
            }),
    ensures
        ctx.tree.kind_of(ctx.tree.named_kids(param)[k]) == "identifier"@ ==> param_name(ctx, param)
            == Some(ctx.tree.named_kids(param)[k]),
        ctx.tree.kind_of(ctx.tree.named_kids(param)[k]) == "variable_declarator"@ && ctx.tree.field_of(
            ctx.tree.named_kids(param)[k],
            "name"@,
        ) is Some ==> param_name(ctx, param) == ctx.tree.field_of(
            ctx.tree.named_kids(param)[k],
            "name"@,
        ),
{
    lemma_scope_kinds_differ();
    lemma_inner_names(ctx, ctx.tree.named_kids(param), k, 0);
}

proof fn lemma_inner_names(ctx: JavaContextExtractor, ids: Seq<NodeId>, k: int, i: int)
    requires
        0 <= i <= k < ids.len(),
        forall|q: int|
            0 <= q < k ==> ({
                let kind = ctx.tree.kind_of(#[trigger] ids[q]);
                kind != "identifier"@ && kind != "variable_declarator"@
            }),
    ensures
        inner_name(ctx, ids, i) == inner_name(ctx, ids, k),
    decreases k - i,
{
    if i < k {
        lemma_inner_names(ctx, ids, k, i + 1);
    }
}

proof fn lemma_spread_text(ty: Seq<char>, name: Seq<char>)
    requires
        is_bare_type(ty),
        is_bare_type(ty + seq!['.', '.', '.']),
        is_one_word(name),
    ensures
        seen_param_type(
            trim(param_type(ty + seq!['.', '.', '.'] + seq![' '] + name)),
            true,
        ) == ty + seq!['[', ']'],
{
    let raw = ty + seq!['.', '.', '.'];
    lemma_parameter_types(raw, name);
    crate::text::laws::lemma_trim_keeps(raw);
    lemma_spread_types(ty, Seq::empty());
    reveal_strlit("[]");
    assert("[]"@ =~= seq!['[', ']']);
}

proof fn lemma_spread_at(
    ctx: JavaContextExtractor,
    method: NodeId,
    param: NodeId,
    facts: Option<FactsView>,
    id: NodeId,
    ty: Seq<char>,
    name: Seq<char>,
)
    requires
        ctx.tree.kind_of(param) == "spread_parameter"@,
        param_name(ctx, param) == Some(id),
        ctx.text_of(id) == name,
        ctx.text_of(param) == ty + seq!['.', '.', '.'] + seq![' '] + name,
        is_bare_type(ty),
        is_bare_type(ty + seq!['.', '.', '.']),
        is_one_word(name),
    ensures
        param_at(ctx, method, param, facts) matches Some(v) && v.local.name == name
            && v.local.type_internal == declared_type(ty + seq!['[', ']'], facts)
            && v.declaration_start == ctx.tree.node(id).start,
{
    lemma_spread_text(ty, name);
}

/// A parameter that takes any number of values is found as an array of them.
pub proof fn lemma_spread_parameters_are_found(
    ctx: JavaContextExtractor,
    root: NodeId,
    cursor_node: Option<NodeId>,
    facts: Option<FactsView>,
    method: NodeId,
    params: NodeId,
    k: int,
    id: NodeId,
    ty: Seq<char>,
    name: Seq<char>,
) -> (v: RankedView)
    requires
        cursor_method(ctx, cursor_node) == Some(method),
        ctx.tree.field_of(method, "parameters"@) == Some(params),
        0 <= k < ctx.tree.kids(params).len(),
        ctx.tree.kind_of(ctx.tree.kids(params)[k]) == "spread_parameter"@,
        param_name(ctx, ctx.tree.kids(params)[k]) == Some(id),
        ctx.text_of(id) == name,
        ctx.text_of(ctx.tree.kids(params)[k]) == ty + seq!['.', '.', '.'] + seq![' '] + name,
        is_bare_type(ty),
        is_bare_type(ty + seq!['.', '.', '.']),
        is_one_word(name),
    ensures
        found_locals(ctx, root, cursor_node, facts).contains(v),
        v.local.name == name,
        v.local.type_internal == declared_type(ty + seq!['[', ']'], facts),
        v.declaration_start == ctx.tree.node(id).start,
{
    let ids = ctx.tree.kids(params);
    lemma_spread_at(ctx, method, ids[k], facts, id, ty, name);
    let v = param_at(ctx, method, ids[k], facts)->0;
    lemma_params_from_has(ctx, method, ids, facts, 0, k, v);
    let nodes = ctx.tree.under(search_root(ctx, root, cursor_node));
    let a = locals_among(ctx, nodes, facts, true, 0);
    let b = misread_among(ctx, nodes, facts, 0);
    let c = broken_locals(ctx, nodes, facts, 0);
    let d = method_params(ctx, cursor_node, facts);
    lemma_joined(a + b + c, d, v);
    lemma_joined(a + b + c + d, lambda_vars(ctx, cursor_node, facts), v);
    v
}

// ---- arrows ------------------------------------------------------------------------------------

/// The parameters of a lambda are seen in its body; where the parser made no lambda of it, behind
/// the arrow up to the end of what holds it.
pub proof fn lemma_lambda_scopes(t: SyntaxTree, params: NodeId, p: NodeId, i: int)
    requires
        t.parent_of(params) == Some(p),
    ensures
        t.kind_of(p) == "lambda_expression"@ ==> (t.field_of(p, "body"@) matches Some(body)
            ==> lambda_scope(t, params) == Some(
            ScopeRange { start: t.node(body).start, end: t.node(body).end },
        )),
        t.kind_of(p) != "lambda_expression"@ && 0 <= i < t.kids(p).len() - 1 && t.kids(p)[i]
            == params && (forall|q: int| 0 <= q < i ==> #[trigger] t.kids(p)[q] != params)
            && t.kind_of(t.kids(p)[i + 1]) == "->"@ ==> lambda_scope(t, params) == Some(
            ScopeRange { start: t.node(t.kids(p)[i + 1]).end, end: t.node(p).end },
        ),
{
    if 0 <= i < t.kids(p).len() && t.kids(p)[i] == params && (forall|q: int|
        0 <= q < i ==> #[trigger] t.kids(p)[q] != params) {
        crate::syntax::laws::lemma_place_from(t.kids(p), params, 0);
    }
}

proof fn lemma_arrow_before(ctx: JavaContextExtractor, ids: Seq<NodeId>, j: int, k: int)
    requires
        0 <= k < j <= ids.len(),
        ctx.tree.kind_of(ids[k]) == "->"@,
        ctx.tree.end_of(ids[k]) <= ctx.offset,
        forall|q: int|
            k < q < ids.len() ==> ctx.tree.kind_of(#[trigger] ids[q]) != "->"@ || ctx.tree.end_of(
                ids[q],
            ) > ctx.offset,
    ensures
        arrow_before(ctx, ids, j) == Some(k),
    decreases j - k,
{
    if k < j - 1 {
        lemma_arrow_before(ctx, ids, j - 1, k);
    }
}

/// The last arrow before the cursor in a node stands at place `k + 1` of it, behind parameters.
pub open spec fn has_arrow(ctx: JavaContextExtractor, holder: NodeId, k: int) -> bool {
    let ids = ctx.tree.kids(holder);
    &&& ctx.tree.kind_of(holder) == "ERROR"@ || ctx.tree.kind_of(holder) == "block"@
        || ctx.tree.kind_of(holder) == "program"@
    &&& 0 <= k < ids.len() - 1
    &&& ctx.tree.kind_of(ids[k + 1]) == "->"@
    &&& ctx.tree.end_of(ids[k + 1]) <= ctx.offset
    &&& forall|q: int|
        k + 1 < q < ids.len() ==> ctx.tree.kind_of(#[trigger] ids[q]) != "->"@ || ctx.tree.end_of(
            ids[q],
        ) > ctx.offset
}

/// A name before an arrow that the parser made no lambda of is a variable behind the arrow.
pub proof fn lemma_arrow_parameters_are_found(
    ctx: JavaContextExtractor,
    root: NodeId,
    n: NodeId,
    facts: Option<FactsView>,
    k: int,
) -> (v: RankedView)
    requires
        !in_lambda(ctx, n),
        has_arrow(ctx, n, k),
        ctx.tree.kind_of(ctx.tree.kids(n)[k]) == "identifier"@,
    ensures
        found_locals(ctx, root, Some(n), facts).contains(v),
        v.local.name == ctx.text_of(ctx.tree.kids(n)[k]),
        v.local.type_internal.base == "unknown"@,
        active_names(ctx, n) == seq![ctx.text_of(ctx.tree.kids(n)[k])],
{
    lemma_scope_kinds_differ();
    lemma_holders_differ();
    let ids = ctx.tree.kids(n);
    lemma_arrow_before(ctx, ids, ids.len() as int, k + 1);
    let all = lambda_params(ctx, ids[k], facts);
    assert(all.len() == 1);
    let v = all[0];
    assert(broken_params(ctx, n, facts) == all);
    assert(all.contains(v));
    assert(only_names(param_names(ctx, ids[k])) =~= seq![ctx.text_of(ids[k])]);
    let nodes = ctx.tree.under(search_root(ctx, root, Some(n)));
    let a = locals_among(ctx, nodes, facts, true, 0);
    let b = misread_among(ctx, nodes, facts, 0);
    let c = broken_locals(ctx, nodes, facts, 0);
    let d = method_params(ctx, Some(n), facts);
    lemma_joined(a + b + c + d, lambda_vars(ctx, Some(n), facts), v);
    v
}

proof fn lemma_holders_differ()
    ensures
        "ERROR"@ != "lambda_expression"@,
        "block"@ != "lambda_expression"@,
        "program"@ != "lambda_expression"@,
{
    reveal_strlit("ERROR");
    reveal_strlit("block");
    reveal_strlit("program");
    reveal_strlit("lambda_expression");
    assert("ERROR"@.len() == 5 && "block"@.len() == 5 && "program"@.len() == 7
        && "lambda_expression"@.len() == 17);
}

/// In the body of a lambda the names of its parameters are active, before the arrow they are not;
/// and a node that neither is a lambda nor holds an arrow has those that are active around it.
pub proof fn lemma_active_names(
    ctx: JavaContextExtractor,
    n: NodeId,
    body: NodeId,
    params: NodeId,
)
    requires
        ctx.tree.kind_of(n) == "lambda_expression"@,
        ctx.tree.field_of(n, "body"@) == Some(body),
        ctx.tree.field_of(n, "parameters"@) == Some(params),
    ensures
        !(ctx.tree.start_of(body) <= ctx.offset <= ctx.tree.end_of(body)) ==> active_names(ctx, n)
            == Seq::<Seq<char>>::empty(),
        ctx.tree.start_of(body) <= ctx.offset <= ctx.tree.end_of(body) && ctx.tree.kind_of(params)
            == "identifier"@ ==> active_names(ctx, n) == seq![ctx.text_of(params)],
        forall|k: int|
            ctx.tree.start_of(body) <= ctx.offset <= ctx.tree.end_of(body) && ctx.tree.kind_of(
                params,
            ) == "inferred_parameters"@ && 0 <= k < ctx.tree.named_kids(params).len()
                && ctx.tree.kind_of(#[trigger] ctx.tree.named_kids(params)[k]) == "identifier"@
                ==> active_names(ctx, n).contains(ctx.text_of(ctx.tree.named_kids(params)[k])),
        forall|k: int|
            ctx.tree.start_of(body) <= ctx.offset <= ctx.tree.end_of(body) && ctx.tree.kind_of(
                params,
            ) == "formal_parameters"@ && 0 <= k < ctx.tree.named_kids(params).len()
                && ctx.tree.kind_of(#[trigger] ctx.tree.named_kids(params)[k]) == "formal_parameter"@
                && ctx.tree.field_of(ctx.tree.named_kids(params)[k], "name"@) is Some
                ==> active_names(ctx, n).contains(
                ctx.text_of(ctx.tree.field_of(ctx.tree.named_kids(params)[k], "name"@)->0),
            ),
{
    lemma_scope_kinds_differ();
    let t = ctx.tree;
    let ids = t.named_kids(params);
    if t.kind_of(params) == "identifier"@ {
        assert(only_names(param_names(ctx, params)) =~= seq![ctx.text_of(params)]);
    }
    assert forall|k: int|
        t.start_of(body) <= ctx.offset <= t.end_of(body) && t.kind_of(params)
            == "inferred_parameters"@ && 0 <= k < ids.len() && t.kind_of(#[trigger] ids[k])
            == "identifier"@ implies active_names(ctx, n).contains(ctx.text_of(ids[k])) by {
        let at = lemma_names_have(ctx, ids, false, 0, k, ids[k]);
        assert(only_names(names_from(ctx, ids, false, 0))[at] == ctx.text_of(ids[k]));
    }
    assert forall|k: int|
        t.start_of(body) <= ctx.offset <= t.end_of(body) && t.kind_of(params)
            == "formal_parameters"@ && 0 <= k < ids.len() && t.kind_of(#[trigger] ids[k])
            == "formal_parameter"@ && t.field_of(ids[k], "name"@)
            is Some implies active_names(ctx, n).contains(
        ctx.text_of(t.field_of(ids[k], "name"@)->0),
    ) by {
        let id = t.field_of(ids[k], "name"@)->0;
        let at = lemma_names_have(ctx, ids, true, 0, k, id);
        assert(only_names(names_from(ctx, ids, true, 0))[at] == ctx.text_of(id));
    }
}

proof fn lemma_names_have(
    ctx: JavaContextExtractor,
    ids: Seq<NodeId>,
    typed: bool,
    i: int,
    k: int,
    id: NodeId,
) -> (at: int)
    requires
        0 <= i <= k < ids.len(),
        super::super::lambdas::entry_name(ctx, ids[k], typed) == Some(id),
    ensures
        0 <= at < names_from(ctx, ids, typed, i).len(),
        names_from(ctx, ids, typed, i)[at].0 == ctx.text_of(id),
    decreases k - i,
{
    if i < k {
        let at = lemma_names_have(ctx, ids, typed, i + 1, k, id);
        match super::super::lambdas::entry_name(ctx, ids[i], typed) {
            Some(_) => at + 1,
            None => at,
        }
    } else {
        0
    }
}

/// A node that neither is a lambda nor can hold an arrow has the names that are active around it.
pub proof fn lemma_names_stay_active(ctx: JavaContextExtractor, n: NodeId, p: NodeId)
    requires
        ctx.wf(),
        ctx.tree.has(n),
        ctx.tree.parent_of(n) == Some(p),
        ctx.tree.kind_of(n) != "lambda_expression"@,
        ctx.tree.kind_of(n) != "ERROR"@,
        ctx.tree.kind_of(n) != "block"@,
        ctx.tree.kind_of(n) != "program"@,
    ensures
        active_names(ctx, n) == active_names(ctx, p),
{
    assert(ctx.tree.nodes@[n as int].placed(n as int, ctx.tree.nodes@.len() as int));
}

/// The parameters of a lambda are not seen before its body.
pub proof fn lemma_parameters_only_in_body(
    ctx: JavaContextExtractor,
    n: NodeId,
    body: NodeId,
    facts: Option<FactsView>,
)
    requires
        ctx.tree.field_of(n, "body"@) == Some(body),
        ctx.offset < ctx.tree.start_of(body) || ctx.offset > ctx.tree.end_of(body),
    ensures
        own_params(ctx, n, facts) == Seq::<RankedView>::empty(),
{
}

// ---- which is nearer ---------------------------------------------------------------------------

/// Of two variables the one that is declared later is nearer; at one place, the one whose scope
/// begins later and then the one whose scope ends later. No variable is nearer than one of its own
/// rank, and of two of different ranks one is nearer and the other is not.
pub proof fn lemma_nearer(a: RankedView, b: RankedView)
    ensures
        a.declaration_start > b.declaration_start ==> is_nearer(a, b) && !is_nearer(b, a),
        a.declaration_start == b.declaration_start && a.visibility_scope.start
            > b.visibility_scope.start ==> is_nearer(a, b) && !is_nearer(b, a),
        a.declaration_start == b.declaration_start && a.visibility_scope.start
            == b.visibility_scope.start && a.visibility_scope.end > b.visibility_scope.end
            ==> is_nearer(a, b) && !is_nearer(b, a),
        a.declaration_start == b.declaration_start && a.visibility_scope == b.visibility_scope
            ==> !is_nearer(a, b) && !is_nearer(b, a),
{
}

} // verus!
