//! The parameters of lambdas around a position.
use vstd::prelude::*;

use crate::extractor::JavaContextExtractor;
use crate::syntax::NodeId;
use crate::text::{spells, str_eq, to_text, trim, trimmed};
use crate::type_facts::{FactsView, LocalVar, LocalVarDeclKind, LocalView, TypeFacts};
use crate::type_names::{TypeName, TypeView};

use super::declared::{declared_type, known, resolve_declared_source_type};
use super::ranking::{RankedLocal, RankedView};
use super::scopes::{
    lambda_param_visibility_scope, lambda_scope, or_up_to, scope_or_fallback, ScopeRange,
};

verus! {

/// A variable with a type and no initializer.
pub open spec fn plain_local(
    name: Seq<char>,
    type_internal: TypeView,
    declaration_start: usize,
    visibility_scope: ScopeRange,
) -> RankedView {
    RankedView {
        local: LocalView {
            name,
            type_internal,
            init_expr: None,
            decl_kind: LocalVarDeclKind::Explicit,
        },
        declaration_start,
        visibility_scope,
    }
}

/// A variable with a type and no initializer.
pub fn make_plain_local(
    name: String,
    type_internal: TypeName,
    declaration_start: usize,
    visibility_scope: ScopeRange,
) -> (r: RankedLocal)
    ensures
        r.deep_view() == plain_local(
            name@,
            type_internal.deep_view(),
            declaration_start,
            visibility_scope,
        ),
{
    RankedLocal {
        local: LocalVar {
            name,
            type_internal,
            init_expr: None,
            decl_kind: LocalVarDeclKind::Explicit,
        },
        declaration_start,
        visibility_scope,
    }
}

/// The type of a parameter of a lambda: `unknown` where none or `var` is written.
pub open spec fn lambda_param_type(
    ctx: JavaContextExtractor,
    param: NodeId,
    facts: Option<FactsView>,
) -> TypeView {
    match ctx.tree.field_of(param, "type"@) {
        None => TypeView::plain("unknown"@),
        Some(ty) => {
            let raw = trim(ctx.text_of(ty));
            if raw.len() == 0 || raw == "var"@ {
                TypeView::plain("unknown"@)
            } else {
                declared_type(raw, facts)
            }
        },
    }
}

/// The type of a parameter of a lambda.
pub fn extract_lambda_formal_param_type(
    ctx: &JavaContextExtractor,
    param: NodeId,
    facts: Option<&TypeFacts>,
) -> (r: TypeName)
    requires
        ctx.wf(),
        ctx.tree.has(param),
    ensures
        r.deep_view() == lambda_param_type(*ctx, param, known(facts)),
{
    match ctx.tree.child_by_field(param, "type") {
        None => TypeName::new("unknown"),
        Some(ty) => {
            let raw = trimmed(ctx.node_text(ty));
            if raw.len() == 0 || spells(raw, "var") {
                return TypeName::new("unknown");
            }
            let text = to_text(raw);
            resolve_declared_source_type(text.as_str(), facts)
        },
    }
}

/// The node of the name of an entry of a list of parameters, with or without types.
pub open spec fn entry_name(ctx: JavaContextExtractor, n: NodeId, typed: bool) -> Option<NodeId> {
    let kind = ctx.tree.kind_of(n);
    if typed {
        if kind == "formal_parameter"@ || kind == "spread_parameter"@ {
            ctx.tree.field_of(n, "name"@)
        } else {
            None
        }
    } else if kind == "identifier"@ {
        Some(n)
    } else {
        None
    }
}

fn find_entry_name(ctx: &JavaContextExtractor, n: NodeId, typed: bool) -> (r: Option<NodeId>)
    requires
        ctx.wf(),
        ctx.tree.has(n),
    ensures
        r == entry_name(*ctx, n, typed),
        r matches Some(k) ==> ctx.tree.has(k),
{
    let t = &ctx.tree;
    if typed {
        if t.is_kind(n, "formal_parameter") || t.is_kind(n, "spread_parameter") {
            t.child_by_field(n, "name")
        } else {
            None
        }
    } else if t.is_kind(n, "identifier") {
        Some(n)
    } else {
        None
    }
}

/// The variables of the entries from the `i`-th on.
pub open spec fn entries_from(
    ctx: JavaContextExtractor,
    ids: Seq<NodeId>,
    typed: bool,
    facts: Option<FactsView>,
    scope: ScopeRange,
    i: int,
) -> Seq<RankedView>
    decreases ids.len() - i,
{
    if i < 0 || i >= ids.len() {
        Seq::empty()
    } else {
        let rest = entries_from(ctx, ids, typed, facts, scope, i + 1);
        match entry_name(ctx, ids[i], typed) {
            Some(id) => seq![
                plain_local(
                    ctx.text_of(id),
                    if typed {
                        lambda_param_type(ctx, ids[i], facts)
                    } else {
                        TypeView::plain("unknown"@)
                    },
                    ctx.tree.node(id).start,
                    scope,
                ),
            ] + rest,
            None => rest,
        }
    }
}

/// The variables that the parameters of a lambda are.
pub open spec fn lambda_params(
    ctx: JavaContextExtractor,
    params: NodeId,
    facts: Option<FactsView>,
) -> Seq<RankedView> {
    let scope = or_up_to(lambda_scope(ctx.tree, params), ctx.offset);
    let kind = ctx.tree.kind_of(params);
    if kind == "identifier"@ {
        seq![
            plain_local(
                ctx.text_of(params),
                TypeView::plain("unknown"@),
                ctx.tree.node(params).start,
                scope,
            ),
        ]
    } else if kind == "inferred_parameters"@ {
        entries_from(ctx, ctx.tree.named_kids(params), false, facts, scope, 0)
    } else if kind == "formal_parameters"@ {
        entries_from(ctx, ctx.tree.named_kids(params), true, facts, scope, 0)
    } else {
        Seq::empty()
    }
}

fn collect_entries(
    ctx: &JavaContextExtractor,
    ids: &[NodeId],
    typed: bool,
    facts: Option<&TypeFacts>,
    scope: ScopeRange,
    out: &mut Vec<RankedLocal>,
)
    requires
        ctx.wf(),
        ctx.tree.all_in(ids@),
    ensures
        final(out).deep_view() == old(out).deep_view() + entries_from(
            *ctx,
            ids@,
            typed,
            known(facts),
            scope,
            0,
        ),
{
    let ghost f = known(facts);
    let mut i: usize = 0;
    while i < ids.len()
        invariant
            i <= ids.len(),
            ctx.wf(),
            ctx.tree.all_in(ids@),
            f == known(facts),
            out.deep_view() + entries_from(*ctx, ids@, typed, f, scope, i as int)
                =~= old(out).deep_view() + entries_from(*ctx, ids@, typed, f, scope, 0),
        decreases ids.len() - i,
    {
        let ghost done = out.deep_view();
        if let Some(id) = find_entry_name(ctx, ids[i], typed) {
            let ty = if typed {
                extract_lambda_formal_param_type(ctx, ids[i], facts)
            } else {
                TypeName::new("unknown")
            };
            let v = make_plain_local(to_text(ctx.node_text(id)), ty, ctx.tree.start(id), scope);
            let ghost w = v.deep_view();
            out.push(v);
            assert(out.deep_view() =~= done.push(w));
        }
        i += 1;
    }
}

/// Adds the variables that the parameters of a lambda are.
pub fn extract_lambda_params_from_node(
    ctx: &JavaContextExtractor,
    params: NodeId,
    facts: Option<&TypeFacts>,
    out: &mut Vec<RankedLocal>,
)
    requires
        ctx.wf(),
        ctx.tree.has(params),
    ensures
        final(out).deep_view() == old(out).deep_view() + lambda_params(*ctx, params, known(facts)),
{
    let t = &ctx.tree;
    let scope = scope_or_fallback(lambda_param_visibility_scope(t, params), ctx.offset);
    if t.is_kind(params, "identifier") {
        let v = make_plain_local(
            to_text(ctx.node_text(params)),
            TypeName::new("unknown"),
            t.start(params),
            scope,
        );
        let ghost w = v.deep_view();
        out.push(v);
        assert(out.deep_view() =~= old(out).deep_view().push(w));
        assert(old(out).deep_view().push(w) =~= old(out).deep_view() + seq![w]);
    } else if t.is_kind(params, "inferred_parameters") {
        collect_entries(ctx, t.named_children(params), false, facts, scope, out);
    } else if t.is_kind(params, "formal_parameters") {
        collect_entries(ctx, t.named_children(params), true, facts, scope, out);
    } else {
        assert(out.deep_view() =~= old(out).deep_view() + Seq::<RankedView>::empty());
    }
}

/// The place of the last arrow before the cursor among the first `j` children.
pub open spec fn arrow_before(ctx: JavaContextExtractor, ids: Seq<NodeId>, j: int) -> Option<int>
    decreases j,
{
    if j <= 0 || j > ids.len() {
        None
    } else if ctx.tree.kind_of(ids[j - 1]) == "->"@ && ctx.tree.end_of(ids[j - 1]) <= ctx.offset {
        Some(j - 1)
    } else {
        arrow_before(ctx, ids, j - 1)
    }
}

/// What stands before the last arrow before the cursor, among the children of a node.
pub open spec fn before_arrow(ctx: JavaContextExtractor, container: NodeId) -> Option<NodeId> {
    let ids = ctx.tree.kids(container);
    match arrow_before(ctx, ids, ids.len() as int) {
        Some(i) => if i > 0 {
            Some(ids[i - 1])
        } else {
            None
        },
        None => None,
    }
}

fn find_before_arrow(ctx: &JavaContextExtractor, container: NodeId) -> (r: Option<NodeId>)
    requires
        ctx.wf(),
        ctx.tree.has(container),
    ensures
        r == before_arrow(*ctx, container),
        r matches Some(k) ==> ctx.tree.has(k),
{
    let t = &ctx.tree;
    let ids = t.children(container);
    let mut j: usize = ids.len();
    while j > 0
        invariant
            j <= ids.len(),
            ctx.wf(),
            *t == ctx.tree,
            t.all_in(ids@),
            ids@ == t.kids(container),
            arrow_before(*ctx, ids@, ids@.len() as int) == arrow_before(*ctx, ids@, j as int),
        decreases j,
    {
        if t.is_kind(ids[j - 1], "->") && t.end(ids[j - 1]) <= ctx.offset {
            if j > 1 {
                return Some(ids[j - 2]);
            }
            return None;
        }
        j -= 1;
    }
    None
}

/// A node that the parser leaves an unfinished lambda in.
pub open spec fn may_hold_arrow(kind: Seq<char>) -> bool {
    kind == "ERROR"@ || kind == "block"@ || kind == "program"@
}

fn holds_arrow(kind: &str) -> (r: bool)
    ensures
        r == may_hold_arrow(kind@),
{
    str_eq(kind, "ERROR") || str_eq(kind, "block") || str_eq(kind, "program")
}

/// The parameters before an arrow among the children of a node; there are none to find where no
/// variable comes of them.
pub open spec fn arrow_params(
    ctx: JavaContextExtractor,
    container: NodeId,
    facts: Option<FactsView>,
) -> Seq<RankedView> {
    match before_arrow(ctx, container) {
        Some(params) => lambda_params(ctx, params, facts),
        None => Seq::empty(),
    }
}

/// The parameters before an arrow that the parser made no lambda of, nearest around a node.
pub open spec fn broken_params(ctx: JavaContextExtractor, n: NodeId, facts: Option<FactsView>) -> Seq<
    RankedView,
>
    decreases n,
{
    if may_hold_arrow(ctx.tree.kind_of(n)) && arrow_params(ctx, n, facts).len() > 0 {
        arrow_params(ctx, n, facts)
    } else {
        match ctx.tree.parent_of(n) {
            Some(p) => if p < n {
                broken_params(ctx, p, facts)
            } else {
                Seq::empty()
            },
            None => Seq::empty(),
        }
    }
}

/// Adds the parameters before an arrow that the parser made no lambda of.
pub fn extract_lambda_params_from_error_nodes_in_ancestry(
    ctx: &JavaContextExtractor,
    n: NodeId,
    facts: Option<&TypeFacts>,
    out: &mut Vec<RankedLocal>,
)
    requires
        ctx.wf(),
        ctx.tree.has(n),
    ensures
        final(out).deep_view() == old(out).deep_view() + broken_params(*ctx, n, known(facts)),
    decreases n,
{
    let t = &ctx.tree;
    if holds_arrow(t.kind(n)) {
        if let Some(params) = find_before_arrow(ctx, n) {
            let mut found: Vec<RankedLocal> = Vec::new();
            assert(found.deep_view() =~= Seq::<RankedView>::empty());
            extract_lambda_params_from_node(ctx, params, facts, &mut found);
            assert(found.deep_view() =~= arrow_params(*ctx, n, known(facts)));
            assert(found.deep_view().len() == found@.len());
            if found.len() > 0 {
                append_ranked(out, found);
                return;
            }
        }
    }
    assert(t.nodes@[n as int].placed(n as int, t.nodes@.len() as int));
    match t.parent(n) {
        Some(p) => extract_lambda_params_from_error_nodes_in_ancestry(ctx, p, facts, out),
        None => {
            assert(out.deep_view() =~= old(out).deep_view() + Seq::<RankedView>::empty());
        },
    }
}

/// Moves variables to the end of a list.
pub fn append_ranked(out: &mut Vec<RankedLocal>, more: Vec<RankedLocal>)
    ensures
        final(out).deep_view() == old(out).deep_view() + more.deep_view(),
{
    let ghost all = more.deep_view();
    let mut more = more;
    out.append(&mut more);
    assert(out.deep_view() =~= old(out).deep_view() + all);
}

/// The parameters of the lambda at a node, where the cursor is in its body.
pub open spec fn own_params(ctx: JavaContextExtractor, n: NodeId, facts: Option<FactsView>) -> Seq<
    RankedView,
> {
    if ctx.tree.kind_of(n) != "lambda_expression"@ {
        Seq::empty()
    } else {
        match (ctx.tree.field_of(n, "body"@), ctx.tree.field_of(n, "parameters"@)) {
            (Some(body), Some(params)) => if ctx.tree.start_of(body) <= ctx.offset
                <= ctx.tree.end_of(body) {
                lambda_params(ctx, params, facts)
            } else {
                Seq::empty()
            },
            _ => Seq::empty(),
        }
    }
}

/// The parameters of the lambdas at a node and around it, those of the outermost first.
pub open spec fn params_around(ctx: JavaContextExtractor, n: NodeId, facts: Option<FactsView>) -> Seq<
    RankedView,
>
    decreases n,
{
    let outer = match ctx.tree.parent_of(n) {
        Some(p) => if p < n {
            params_around(ctx, p, facts)
        } else {
            Seq::empty()
        },
        None => Seq::empty(),
    };
    outer + own_params(ctx, n, facts)
}

/// The node or one around it is a lambda.
pub open spec fn in_lambda(ctx: JavaContextExtractor, n: NodeId) -> bool
    decreases n,
{
    ctx.tree.kind_of(n) == "lambda_expression"@ || match ctx.tree.parent_of(n) {
        Some(p) => p < n && in_lambda(ctx, p),
        None => false,
    }
}

fn is_in_lambda(ctx: &JavaContextExtractor, n: NodeId) -> (r: bool)
    requires
        ctx.wf(),
        ctx.tree.has(n),
    ensures
        r == in_lambda(*ctx, n),
{
    let t = &ctx.tree;
    let mut cur: NodeId = n;
    loop
        invariant
            ctx.wf(),
            *t == ctx.tree,
            t.has(cur),
            in_lambda(*ctx, n) == in_lambda(*ctx, cur),
        decreases cur,
    {
        if t.is_kind(cur, "lambda_expression") {
            return true;
        }
        assert(t.nodes@[cur as int].placed(cur as int, t.nodes@.len() as int));
        match t.parent(cur) {
            Some(p) => {
                cur = p;
            },
            None => {
                return false;
            },
        }
    }
}

fn collect_params_around(
    ctx: &JavaContextExtractor,
    n: NodeId,
    facts: Option<&TypeFacts>,
    out: &mut Vec<RankedLocal>,
)
    requires
        ctx.wf(),
        ctx.tree.has(n),
    ensures
        final(out).deep_view() == old(out).deep_view() + params_around(*ctx, n, known(facts)),
    decreases n,
{
    let t = &ctx.tree;
    let ghost start = out.deep_view();
    assert(start + Seq::<RankedView>::empty() =~= start);
    assert(t.nodes@[n as int].placed(n as int, t.nodes@.len() as int));
    if let Some(p) = t.parent(n) {
        collect_params_around(ctx, p, facts, out);
    }
    let ghost outer = out.deep_view();
    if t.is_kind(n, "lambda_expression") {
        match (t.child_by_field(n, "body"), t.child_by_field(n, "parameters")) {
            (Some(body), Some(params)) => {
                if t.start(body) <= ctx.offset && ctx.offset <= t.end(body) {
                    extract_lambda_params_from_node(ctx, params, facts, out);
                }
            },
            _ => {},
        }
    }
    assert(out.deep_view() =~= outer + own_params(*ctx, n, known(facts)));
    assert(out.deep_view() =~= start + params_around(*ctx, n, known(facts)));
}

/// The parameters of lambdas that can be seen.
pub open spec fn lambda_vars(
    ctx: JavaContextExtractor,
    cursor_node: Option<NodeId>,
    facts: Option<FactsView>,
) -> Seq<RankedView> {
    match cursor_node {
        None => Seq::empty(),
        Some(n) => if in_lambda(ctx, n) {
            params_around(ctx, n, facts)
        } else {
            broken_params(ctx, n, facts)
        },
    }
}

/// Adds the parameters of lambdas that can be seen.
pub fn extract_lambda_params(
    ctx: &JavaContextExtractor,
    cursor_node: Option<NodeId>,
    facts: Option<&TypeFacts>,
    out: &mut Vec<RankedLocal>,
)
    requires
        ctx.wf(),
        cursor_node matches Some(n) ==> ctx.tree.has(n),
    ensures
        final(out).deep_view() == old(out).deep_view() + lambda_vars(
            *ctx,
            cursor_node,
            known(facts),
        ),
{
    match cursor_node {
        None => {
            assert(out.deep_view() =~= old(out).deep_view() + Seq::<RankedView>::empty());
        },
        Some(n) => {
            if is_in_lambda(ctx, n) {
                collect_params_around(ctx, n, facts, out);
            } else {
                extract_lambda_params_from_error_nodes_in_ancestry(ctx, n, facts, out);
            }
        },
    }
}

// ---- names alone -------------------------------------------------------------------------------

/// The names of the entries from the `i`-th on, with their places.
pub open spec fn names_from(ctx: JavaContextExtractor, ids: Seq<NodeId>, typed: bool, i: int) -> Seq<
    (Seq<char>, usize),
>
    decreases ids.len() - i,
{
    if i < 0 || i >= ids.len() {
        Seq::empty()
    } else {
        let rest = names_from(ctx, ids, typed, i + 1);
        match entry_name(ctx, ids[i], typed) {
            Some(id) => seq![(ctx.text_of(id), ctx.tree.node(id).start)] + rest,
            None => rest,
        }
    }
}

/// The names of the parameters of a lambda, with their places.
pub open spec fn param_names(ctx: JavaContextExtractor, params: NodeId) -> Seq<(Seq<char>, usize)> {
    let kind = ctx.tree.kind_of(params);
    if kind == "identifier"@ {
        seq![(ctx.text_of(params), ctx.tree.node(params).start)]
    } else if kind == "inferred_parameters"@ {
        names_from(ctx, ctx.tree.named_kids(params), false, 0)
    } else if kind == "formal_parameters"@ {
        names_from(ctx, ctx.tree.named_kids(params), true, 0)
    } else {
        Seq::empty()
    }
}

fn collect_names(ctx: &JavaContextExtractor, ids: &[NodeId], typed: bool) -> (r: Vec<
    (String, usize),
>)
    requires
        ctx.wf(),
        ctx.tree.all_in(ids@),
    ensures
        r.deep_view() == names_from(*ctx, ids@, typed, 0),
{
    let mut out: Vec<(String, usize)> = Vec::new();
    let mut i: usize = 0;
    while i < ids.len()
        invariant
            i <= ids.len(),
            ctx.wf(),
            ctx.tree.all_in(ids@),
            out.deep_view() + names_from(*ctx, ids@, typed, i as int) =~= names_from(
                *ctx,
                ids@,
                typed,
                0,
            ),
        decreases ids.len() - i,
    {
        let ghost done = out.deep_view();
        if let Some(id) = find_entry_name(ctx, ids[i], typed) {
            let entry = (to_text(ctx.node_text(id)), ctx.tree.start(id));
            let ghost w = entry.deep_view();
            out.push(entry);
            assert(out.deep_view() =~= done.push(w));
        }
        i += 1;
    }
    assert(out.deep_view() =~= names_from(*ctx, ids@, typed, 0));
    out
}

/// The names of the parameters of a lambda, with their places.
pub fn extract_lambda_param_names_with_starts(ctx: &JavaContextExtractor, params: NodeId) -> (r: Vec<
    (String, usize),
>)
    requires
        ctx.wf(),
        ctx.tree.has(params),
    ensures
        r.deep_view() == param_names(*ctx, params),
{
    let t = &ctx.tree;
    if t.is_kind(params, "identifier") {
        let mut out: Vec<(String, usize)> = Vec::new();
        out.push((to_text(ctx.node_text(params)), t.start(params)));
        assert(out.deep_view() =~= param_names(*ctx, params));
        out
    } else if t.is_kind(params, "inferred_parameters") {
        collect_names(ctx, t.named_children(params), false)
    } else if t.is_kind(params, "formal_parameters") {
        collect_names(ctx, t.named_children(params), true)
    } else {
        let out: Vec<(String, usize)> = Vec::new();
        assert(out.deep_view() =~= param_names(*ctx, params));
        out
    }
}

/// The names alone.
pub open spec fn only_names(entries: Seq<(Seq<char>, usize)>) -> Seq<Seq<char>> {
    entries.map_values(|e: (Seq<char>, usize)| e.0)
}

/// The names of the parameters of a lambda.
pub fn extract_lambda_param_names(ctx: &JavaContextExtractor, params: NodeId) -> (r: Vec<String>)
    requires
        ctx.wf(),
        ctx.tree.has(params),
    ensures
        r.deep_view() == only_names(param_names(*ctx, params)),
{
    let entries = extract_lambda_param_names_with_starts(ctx, params);
    let ghost all = entries.deep_view();
    let mut out: Vec<String> = Vec::new();
    let mut i: usize = 0;
    while i < entries.len()
        invariant
            i <= entries.len(),
            all == entries.deep_view(),
            out.len() == i,
            forall|k: int| 0 <= k < i ==> #[trigger] out@[k]@ == all[k].0,
        decreases entries.len() - i,
    {
        assert(all[i as int] == entries@[i as int].deep_view());
        out.push(entries[i].0.clone());
        i += 1;
    }
    assert(out.deep_view() =~= only_names(all));
    out
}

/// The names of the parameters of the nearest lambda around a node: none where the cursor is not
/// in its body.
pub open spec fn active_names(ctx: JavaContextExtractor, n: NodeId) -> Seq<Seq<char>>
    decreases n,
{
    if ctx.tree.kind_of(n) == "lambda_expression"@ {
        match (ctx.tree.field_of(n, "body"@), ctx.tree.field_of(n, "parameters"@)) {
            (Some(body), Some(params)) => if ctx.tree.start_of(body) <= ctx.offset
                <= ctx.tree.end_of(body) {
                only_names(param_names(ctx, params))
            } else {
                Seq::empty()
            },
            _ => Seq::empty(),
        }
    } else if may_hold_arrow(ctx.tree.kind_of(n)) && arrow_names(ctx, n).len() > 0 {
        arrow_names(ctx, n)
    } else {
        match ctx.tree.parent_of(n) {
            Some(p) => if p < n {
                active_names(ctx, p)
            } else {
                Seq::empty()
            },
            None => Seq::empty(),
        }
    }
}

/// The names before an arrow among the children of a node.
pub open spec fn arrow_names(ctx: JavaContextExtractor, container: NodeId) -> Seq<Seq<char>> {
    match before_arrow(ctx, container) {
        Some(params) => only_names(param_names(ctx, params)),
        None => Seq::empty(),
    }
}

fn no_names() -> (r: Vec<String>)
    ensures
        r.deep_view() == Seq::<Seq<char>>::empty(),
{
    let out: Vec<String> = Vec::new();
    assert(out.deep_view() =~= Seq::<Seq<char>>::empty());
    out
}

/// The names of the parameters of the nearest lambda around the cursor.
pub fn extract_active_lambda_param_names(
    ctx: &JavaContextExtractor,
    cursor_node: Option<NodeId>,
) -> (r: Vec<String>)
    requires
        ctx.wf(),
        cursor_node matches Some(n) ==> ctx.tree.has(n),
    ensures
        r.deep_view() == match cursor_node {
            Some(n) => active_names(*ctx, n),
            None => Seq::empty(),
        },
{
    let t = &ctx.tree;
    let start: NodeId = match cursor_node {
        Some(n) => n,
        None => {
            return no_names();
        },
    };
    let mut n: NodeId = start;
    loop
        invariant
            ctx.wf(),
            *t == ctx.tree,
            t.has(n),
            cursor_node == Some(start),
            active_names(*ctx, start) == active_names(*ctx, n),
        decreases n,
    {
        if t.is_kind(n, "lambda_expression") {
            return match (t.child_by_field(n, "body"), t.child_by_field(n, "parameters")) {
                (Some(body), Some(params)) => if t.start(body) <= ctx.offset && ctx.offset <= t.end(
                    body,
                ) {
                    extract_lambda_param_names(ctx, params)
                } else {
                    no_names()
                },
                _ => no_names(),
            };
        }
        if holds_arrow(t.kind(n)) {
            if let Some(params) = find_before_arrow(ctx, n) {
                let names = extract_lambda_param_names(ctx, params);
                assert(names.deep_view().len() == names@.len());
                if names.len() > 0 {
                    return names;
                }
            }
        }
        assert(t.nodes@[n as int].placed(n as int, t.nodes@.len() as int));
        match t.parent(n) {
            Some(p) => {
                n = p;
            },
            None => {
                return no_names();
            },
        }
    }
}

} // verus!
