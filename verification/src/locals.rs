//! The local variables that can be seen from a position.
use vstd::prelude::*;

use crate::extractor::JavaContextExtractor;
use crate::syntax::NodeId;
use crate::text::{
    begins_with, spells, starts_with, str_eq, to_text, trim, trim_start, trimmed, trimmed_start,
};
use crate::type_facts::{FactsView, LocalVar, LocalVarDeclKind, LocalView, TypeFacts};
use crate::type_names::{TypeName, TypeView};

use declared::{
    declared_text, declared_type, extract_param_type, get_initializer_text, initializer_text, known,
    param_type, recovered_declared_type_text, resolve_declared_source_type, see_param_type,
    seen_param_type,
};
use lambdas::{extract_lambda_params, lambda_vars, make_plain_local, plain_local};
use ranking::{normalize_visible_locals, visible, RankedLocal, RankedView};
use scopes::{
    covers, cursor_method, find_cursor_method, local_scope, local_visibility_scope, or_up_to,
    owned_range, scope_contains_offset, scope_or_fallback, scope_range_for_owner, ScopeRange,
};

pub mod declared;
pub mod lambdas;
pub mod laws;
pub mod ranking;
pub mod scopes;

verus! {

// ---- declarations ------------------------------------------------------------------------------

/// A declaration that begins before the cursor, with its declarator and its name: what is not yet
/// typed declares nothing.
pub open spec fn begins_before(
    ctx: JavaContextExtractor,
    name: NodeId,
    declarator: NodeId,
    decl: NodeId,
) -> bool {
    &&& ctx.tree.start_of(name) < ctx.offset
    &&& ctx.tree.start_of(declarator) < ctx.offset
    &&& ctx.tree.start_of(decl) < ctx.offset
}

/// Whether a declaration begins before the cursor, with its declarator and its name.
pub fn is_visible_local_declaration_before_cursor(
    ctx: &JavaContextExtractor,
    name: NodeId,
    declarator: NodeId,
    decl: NodeId,
) -> (r: bool)
    requires
        ctx.tree.has(name),
        ctx.tree.has(declarator),
        ctx.tree.has(decl),
    ensures
        r == begins_before(*ctx, name, declarator, decl),
{
    let t = &ctx.tree;
    t.start(name) < ctx.offset && t.start(declarator) < ctx.offset && t.start(decl) < ctx.offset
}

/// A declaration that is taken for a call misread: arguments stand in its declarator, or a bracket
/// begins what follows it.
pub open spec fn is_misread_call(
    ctx: JavaContextExtractor,
    declarator: NodeId,
    decl: NodeId,
) -> bool {
    ||| ctx.tree.first_kind(ctx.tree.kids(declarator), "argument_list"@) is Some
    ||| match ctx.tree.next_of(decl) {
        Some(next) => starts_with(trim_start(ctx.text_of(next)), "("@),
        None => false,
    }
}

fn looks_like_misread_call(ctx: &JavaContextExtractor, declarator: NodeId, decl: NodeId) -> (r: bool)
    requires
        ctx.wf(),
        ctx.tree.has(declarator),
        ctx.tree.has(decl),
    ensures
        r == is_misread_call(*ctx, declarator, decl),
{
    let t = &ctx.tree;
    if t.first_of_kind(t.children(declarator), "argument_list").is_some() {
        return true;
    }
    match t.next_sibling(decl) {
        Some(next) => begins_with(trimmed_start(ctx.node_text(next)), "("),
        None => false,
    }
}

/// A variable that is declared with `var`.
pub open spec fn var_local(
    name: Seq<char>,
    init_expr: Option<Seq<char>>,
    declaration_start: usize,
    visibility_scope: ScopeRange,
) -> RankedView {
    RankedView {
        local: LocalView {
            name,
            type_internal: TypeView::plain("var"@),
            init_expr,
            decl_kind: LocalVarDeclKind::VarSyntax,
        },
        declaration_start,
        visibility_scope,
    }
}

fn make_var_local(
    name: String,
    init_expr: Option<String>,
    declaration_start: usize,
    visibility_scope: ScopeRange,
) -> (r: RankedLocal)
    ensures
        r.deep_view() == var_local(
            name@,
            init_expr.deep_view(),
            declaration_start,
            visibility_scope,
        ),
{
    RankedLocal {
        local: LocalVar {
            name,
            type_internal: TypeName::new("var"),
            init_expr,
            decl_kind: LocalVarDeclKind::VarSyntax,
        },
        declaration_start,
        visibility_scope,
    }
}

/// The name that a declarator of a declaration declares.
pub open spec fn declared_name(ctx: JavaContextExtractor, declarator: NodeId) -> Option<NodeId> {
    let t = ctx.tree;
    if t.kind_of(declarator) != "variable_declarator"@ || t.node(declarator).field.deep_view()
        != Some("declarator"@) {
        None
    } else {
        match t.field_of(declarator, "name"@) {
            Some(id) => if t.kind_of(id) == "identifier"@ {
                Some(id)
            } else {
                None
            },
            None => None,
        }
    }
}

fn find_declared_name(ctx: &JavaContextExtractor, declarator: NodeId) -> (r: Option<NodeId>)
    requires
        ctx.wf(),
        ctx.tree.has(declarator),
    ensures
        r == declared_name(*ctx, declarator),
        r matches Some(id) ==> ctx.tree.has(id),
{
    let t = &ctx.tree;
    if !t.is_kind(declarator, "variable_declarator") {
        return None;
    }
    let fills = match &t.nodes[declarator].field {
        Some(f) => str_eq(f.as_str(), "declarator"),
        None => false,
    };
    if !fills {
        return None;
    }
    match t.child_by_field(declarator, "name") {
        Some(id) => if t.is_kind(id, "identifier") {
            Some(id)
        } else {
            None
        },
        None => None,
    }
}

/// The variable that a declarator of a declaration declares, if it can be seen from the cursor;
/// `strict` leaves out misread calls.
pub open spec fn local_at(
    ctx: JavaContextExtractor,
    decl: NodeId,
    declarator: NodeId,
    facts: Option<FactsView>,
    strict: bool,
) -> Option<RankedView> {
    match (declared_name(ctx, declarator), ctx.tree.field_of(decl, "type"@)) {
        (Some(id), Some(ty)) => {
            let scope = or_up_to(local_scope(ctx.tree, decl), ctx.offset);
            if ctx.tree.start_of(ty) >= ctx.offset || !begins_before(ctx, id, declarator, decl)
                || !covers(scope, ctx.offset) || (strict && is_misread_call(ctx, declarator, decl)) {
                None
            } else {
                match declared_text(ctx, decl, ty) {
                    None => None,
                    Some(raw) => Some(
                        if raw == "var"@ {
                            var_local(
                                ctx.text_of(id),
                                initializer_text(ctx, ty),
                                ctx.tree.node(id).start,
                                scope,
                            )
                        } else {
                            plain_local(
                                ctx.text_of(id),
                                declared_type(raw, facts),
                                ctx.tree.node(id).start,
                                scope,
                            )
                        },
                    ),
                }
            }
        },
        _ => None,
    }
}

fn find_local_at(
    ctx: &JavaContextExtractor,
    decl: NodeId,
    declarator: NodeId,
    facts: Option<&TypeFacts>,
    strict: bool,
) -> (r: Option<RankedLocal>)
    requires
        ctx.wf(),
        ctx.tree.has(decl),
        ctx.tree.has(declarator),
    ensures
        r.deep_view() == local_at(*ctx, decl, declarator, known(facts), strict),
{
    let t = &ctx.tree;
    match (find_declared_name(ctx, declarator), t.child_by_field(decl, "type")) {
        (Some(id), Some(ty)) => {
            if t.start(ty) >= ctx.offset {
                return None;
            }
            let scope = scope_or_fallback(local_visibility_scope(t, decl), ctx.offset);
            if !is_visible_local_declaration_before_cursor(ctx, id, declarator, decl)
                || !scope_contains_offset(scope, ctx.offset) {
                return None;
            }
            if strict && looks_like_misread_call(ctx, declarator, decl) {
                return None;
            }
            match recovered_declared_type_text(ctx, decl, ty) {
                None => None,
                Some(raw) => {
                    let name = to_text(ctx.node_text(id));
                    if spells(raw, "var") {
                        Some(
                            make_var_local(name, get_initializer_text(ctx, ty), t.start(id), scope),
                        )
                    } else {
                        let raw_ty = to_text(raw);
                        let ty = resolve_declared_source_type(raw_ty.as_str(), facts);
                        Some(make_plain_local(name, ty, t.start(id), scope))
                    }
                },
            }
        },
        _ => None,
    }
}

/// The variables that the children of a declaration from the `i`-th on declare.
pub open spec fn locals_of(
    ctx: JavaContextExtractor,
    decl: NodeId,
    facts: Option<FactsView>,
    strict: bool,
    i: int,
) -> Seq<RankedView>
    decreases ctx.tree.kids(decl).len() - i,
{
    if i < 0 || i >= ctx.tree.kids(decl).len() {
        Seq::empty()
    } else {
        let rest = locals_of(ctx, decl, facts, strict, i + 1);
        match local_at(ctx, decl, ctx.tree.kids(decl)[i], facts, strict) {
            Some(v) => seq![v] + rest,
            None => rest,
        }
    }
}

fn collect_locals_of(
    ctx: &JavaContextExtractor,
    decl: NodeId,
    facts: Option<&TypeFacts>,
    strict: bool,
    out: &mut Vec<RankedLocal>,
)
    requires
        ctx.wf(),
        ctx.tree.has(decl),
    ensures
        final(out).deep_view() == old(out).deep_view() + locals_of(
            *ctx,
            decl,
            known(facts),
            strict,
            0,
        ),
{
    let ghost f = known(facts);
    let ids = ctx.tree.children(decl);
    let mut i: usize = 0;
    while i < ids.len()
        invariant
            i <= ids.len(),
            ctx.wf(),
            ctx.tree.has(decl),
            ids@ == ctx.tree.kids(decl),
            ctx.tree.all_in(ids@),
            f == known(facts),
            out.deep_view() + locals_of(*ctx, decl, f, strict, i as int) =~= old(out).deep_view()
                + locals_of(*ctx, decl, f, strict, 0),
        decreases ids.len() - i,
    {
        let ghost done = out.deep_view();
        if let Some(v) = find_local_at(ctx, decl, ids[i], facts, strict) {
            let ghost w = v.deep_view();
            out.push(v);
            assert(out.deep_view() =~= done.push(w));
        }
        i += 1;
    }
}

/// The variables that the declarations among the nodes from the `i`-th on declare.
pub open spec fn locals_among(
    ctx: JavaContextExtractor,
    nodes: Seq<NodeId>,
    facts: Option<FactsView>,
    strict: bool,
    i: int,
) -> Seq<RankedView>
    decreases nodes.len() - i,
{
    if i < 0 || i >= nodes.len() {
        Seq::empty()
    } else {
        let first = if ctx.tree.kind_of(nodes[i]) == "local_variable_declaration"@ {
            locals_of(ctx, nodes[i], facts, strict, 0)
        } else {
            Seq::empty()
        };
        first + locals_among(ctx, nodes, facts, strict, i + 1)
    }
}

fn collect_locals_under(
    ctx: &JavaContextExtractor,
    root: NodeId,
    facts: Option<&TypeFacts>,
    strict: bool,
    out: &mut Vec<RankedLocal>,
)
    requires
        ctx.wf(),
        ctx.tree.has(root),
    ensures
        final(out).deep_view() == old(out).deep_view() + locals_among(
            *ctx,
            ctx.tree.under(root),
            known(facts),
            strict,
            0,
        ),
{
    let ghost f = known(facts);
    let nodes = ctx.tree.nodes_under(root);
    let mut i: usize = 0;
    while i < nodes.len()
        invariant
            i <= nodes.len(),
            ctx.wf(),
            ctx.tree.all_in(nodes@),
            f == known(facts),
            out.deep_view() + locals_among(*ctx, nodes@, f, strict, i as int)
                =~= old(out).deep_view() + locals_among(*ctx, nodes@, f, strict, 0),
        decreases nodes.len() - i,
    {
        if ctx.tree.is_kind(nodes[i], "local_variable_declaration") {
            collect_locals_of(ctx, nodes[i], facts, strict, out);
        }
        i += 1;
    }
}

// ---- declarations in unfinished code -----------------------------------------------------------

/// The variables that the declarations below the unfinished nodes from the `i`-th on declare.
pub open spec fn broken_locals(
    ctx: JavaContextExtractor,
    nodes: Seq<NodeId>,
    facts: Option<FactsView>,
    i: int,
) -> Seq<RankedView>
    decreases nodes.len() - i,
{
    if i < 0 || i >= nodes.len() {
        Seq::empty()
    } else {
        let first = if ctx.tree.kind_of(nodes[i]) == "ERROR"@ {
            locals_among(ctx, ctx.tree.under(nodes[i]), facts, false, 0)
        } else {
            Seq::empty()
        };
        first + broken_locals(ctx, nodes, facts, i + 1)
    }
}

/// Adds the variables that are declared below unfinished nodes.
pub fn extract_locals_from_error_nodes(
    ctx: &JavaContextExtractor,
    root: NodeId,
    facts: Option<&TypeFacts>,
    out: &mut Vec<RankedLocal>,
)
    requires
        ctx.wf(),
        ctx.tree.has(root),
    ensures
        final(out).deep_view() == old(out).deep_view() + broken_locals(
            *ctx,
            ctx.tree.under(root),
            known(facts),
            0,
        ),
{
    let ghost f = known(facts);
    let nodes = ctx.tree.nodes_under(root);
    let mut i: usize = 0;
    while i < nodes.len()
        invariant
            i <= nodes.len(),
            ctx.wf(),
            ctx.tree.all_in(nodes@),
            f == known(facts),
            out.deep_view() + broken_locals(*ctx, nodes@, f, i as int) =~= old(out).deep_view()
                + broken_locals(*ctx, nodes@, f, 0),
        decreases nodes.len() - i,
    {
        if ctx.tree.is_kind(nodes[i], "ERROR") {
            collect_locals_under(ctx, nodes[i], facts, false, out);
        }
        i += 1;
    }
}

/// A node that is the type in an unfinished declarator.
pub open spec fn is_leftover_type(kind: Seq<char>) -> bool {
    kind == "type_identifier"@ || kind == "integral_type"@ || kind == "void_type"@
}

/// The first of the nodes from the `i`-th on that is a type.
pub open spec fn leftover_from(ctx: JavaContextExtractor, ids: Seq<NodeId>, i: int) -> Option<NodeId>
    decreases ids.len() - i,
{
    if i < 0 || i >= ids.len() {
        None
    } else if is_leftover_type(ctx.tree.kind_of(ids[i])) {
        Some(ids[i])
    } else {
        leftover_from(ctx, ids, i + 1)
    }
}

fn find_leftover(ctx: &JavaContextExtractor, ids: &[NodeId]) -> (r: Option<NodeId>)
    requires
        ctx.wf(),
        ctx.tree.all_in(ids@),
    ensures
        r == leftover_from(*ctx, ids@, 0),
        r matches Some(n) ==> ctx.tree.has(n),
{
    let t = &ctx.tree;
    let mut i: usize = 0;
    while i < ids.len()
        invariant
            i <= ids.len(),
            ctx.wf(),
            *t == ctx.tree,
            t.all_in(ids@),
            leftover_from(*ctx, ids@, 0) == leftover_from(*ctx, ids@, i as int),
        decreases ids.len() - i,
    {
        if t.is_kind(ids[i], "type_identifier") || t.is_kind(ids[i], "integral_type") || t.is_kind(
            ids[i],
            "void_type",
        ) {
            return Some(ids[i]);
        }
        i += 1;
    }
    None
}

/// The text of the first type in an unfinished node among the children from the `i`-th on.
pub open spec fn leftover_type(ctx: JavaContextExtractor, ids: Seq<NodeId>, i: int) -> Option<
    Seq<char>,
>
    decreases ids.len() - i,
{
    if i < 0 || i >= ids.len() {
        None
    } else if ctx.tree.kind_of(ids[i]) == "ERROR"@ {
        match leftover_from(ctx, ctx.tree.kids(ids[i]), 0) {
            Some(n) => Some(ctx.text_of(n)),
            None => leftover_type(ctx, ids, i + 1),
        }
    } else {
        leftover_type(ctx, ids, i + 1)
    }
}

/// The text of the type that the parser left in an unfinished part of a declarator.
pub fn find_type_in_error_sibling(ctx: &JavaContextExtractor, declarator: NodeId) -> (r: Option<
    String,
>)
    requires
        ctx.wf(),
        ctx.tree.has(declarator),
    ensures
        r.deep_view() == leftover_type(*ctx, ctx.tree.kids(declarator), 0),
{
    let t = &ctx.tree;
    let ids = t.children(declarator);
    let mut i: usize = 0;
    while i < ids.len()
        invariant
            i <= ids.len(),
            ctx.wf(),
            *t == ctx.tree,
            t.all_in(ids@),
            ids@ == t.kids(declarator),
            leftover_type(*ctx, ids@, 0) == leftover_type(*ctx, ids@, i as int),
        decreases ids.len() - i,
    {
        if t.is_kind(ids[i], "ERROR") {
            if let Some(n) = find_leftover(ctx, t.children(ids[i])) {
                return Some(to_text(ctx.node_text(n)));
            }
        }
        i += 1;
    }
    None
}

/// A part of an assignment: that of a field or, without one, a named child by its place.
pub open spec fn side_of(ctx: JavaContextExtractor, n: NodeId, name: Seq<char>, i: int) -> Option<
    NodeId,
> {
    match ctx.tree.field_of(n, name) {
        Some(k) => Some(k),
        None => if 0 <= i < ctx.tree.named_kids(n).len() {
            Some(ctx.tree.named_kids(n)[i])
        } else {
            None
        },
    }
}

fn find_side(ctx: &JavaContextExtractor, n: NodeId, name: &str, i: usize) -> (r: Option<NodeId>)
    requires
        ctx.wf(),
        ctx.tree.has(n),
    ensures
        r == side_of(*ctx, n, name@, i as int),
        r matches Some(k) ==> ctx.tree.has(k),
{
    let t = &ctx.tree;
    match t.child_by_field(n, name) {
        Some(k) => Some(k),
        None => {
            let kids = t.named_children(n);
            if i < kids.len() {
                Some(kids[i])
            } else {
                None
            }
        },
    }
}

/// The variable that an assignment in a declarator is the declaration of.
pub open spec fn misread_at(
    ctx: JavaContextExtractor,
    declarator: NodeId,
    assignment: NodeId,
    facts: Option<FactsView>,
) -> Option<RankedView> {
    match (side_of(ctx, assignment, "left"@, 0), side_of(ctx, assignment, "right"@, 1)) {
        (Some(id), Some(init)) => if ctx.tree.kind_of(assignment) != "assignment_expression"@
            || ctx.tree.kind_of(id) != "identifier"@ || ctx.tree.start_of(id) >= ctx.offset {
            None
        } else {
            let scope = or_up_to(local_scope(ctx.tree, declarator), ctx.offset);
            let start = ctx.tree.node(id).start;
            let name = ctx.text_of(id);
            Some(
                match leftover_type(ctx, ctx.tree.kids(declarator), 0) {
                    Some(t) => if t == "var"@ {
                        var_local(name, Some(ctx.text_of(init)), start, scope)
                    } else {
                        plain_local(name, declared_type(t, facts), start, scope)
                    },
                    None => plain_local(name, declared_type("Object"@, facts), start, scope),
                },
            )
        },
        _ => None,
    }
}

fn find_misread_at(
    ctx: &JavaContextExtractor,
    declarator: NodeId,
    assignment: NodeId,
    facts: Option<&TypeFacts>,
) -> (r: Option<RankedLocal>)
    requires
        ctx.wf(),
        ctx.tree.has(declarator),
        ctx.tree.has(assignment),
    ensures
        r.deep_view() == misread_at(*ctx, declarator, assignment, known(facts)),
{
    let t = &ctx.tree;
    if !t.is_kind(assignment, "assignment_expression") {
        return None;
    }
    match (find_side(ctx, assignment, "left", 0), find_side(ctx, assignment, "right", 1)) {
        (Some(id), Some(init)) => {
            if !t.is_kind(id, "identifier") || t.start(id) >= ctx.offset {
                return None;
            }
            let scope = scope_or_fallback(local_visibility_scope(t, declarator), ctx.offset);
            let start: usize = t.start(id);
            let name = to_text(ctx.node_text(id));
            let type_text = match find_type_in_error_sibling(ctx, declarator) {
                Some(text) => text,
                None => "Object".to_string(),
            };
            if str_eq(type_text.as_str(), "var") {
                proof {
                    reveal_strlit("var");
                    reveal_strlit("Object");
                    assert("var"@.len() == 3 && "Object"@.len() == 6);
                }
                return Some(
                    make_var_local(name, Some(to_text(ctx.node_text(init))), start, scope),
                );
            }
            let ty = resolve_declared_source_type(type_text.as_str(), facts);
            Some(make_plain_local(name, ty, start, scope))
        },
        _ => None,
    }
}

/// The variables of the assignments among the children of a declarator, from the `i`-th on.
pub open spec fn misread_of(
    ctx: JavaContextExtractor,
    declarator: NodeId,
    facts: Option<FactsView>,
    i: int,
) -> Seq<RankedView>
    decreases ctx.tree.kids(declarator).len() - i,
{
    if i < 0 || i >= ctx.tree.kids(declarator).len() {
        Seq::empty()
    } else {
        let rest = misread_of(ctx, declarator, facts, i + 1);
        match misread_at(ctx, declarator, ctx.tree.kids(declarator)[i], facts) {
            Some(v) => seq![v] + rest,
            None => rest,
        }
    }
}

fn collect_misread_decls(
    ctx: &JavaContextExtractor,
    declarator: NodeId,
    facts: Option<&TypeFacts>,
    out: &mut Vec<RankedLocal>,
)
    requires
        ctx.wf(),
        ctx.tree.has(declarator),
    ensures
        final(out).deep_view() == old(out).deep_view() + misread_of(
            *ctx,
            declarator,
            known(facts),
            0,
        ),
{
    let ghost f = known(facts);
    let ids = ctx.tree.children(declarator);
    let mut i: usize = 0;
    while i < ids.len()
        invariant
            i <= ids.len(),
            ctx.wf(),
            ctx.tree.has(declarator),
            ids@ == ctx.tree.kids(declarator),
            ctx.tree.all_in(ids@),
            f == known(facts),
            out.deep_view() + misread_of(*ctx, declarator, f, i as int) =~= old(out).deep_view()
                + misread_of(*ctx, declarator, f, 0),
        decreases ids.len() - i,
    {
        let ghost done = out.deep_view();
        if let Some(v) = find_misread_at(ctx, declarator, ids[i], facts) {
            let ghost w = v.deep_view();
            out.push(v);
            assert(out.deep_view() =~= done.push(w));
        }
        i += 1;
    }
}

/// The variables of the declarators with assignments in them, among the nodes from the `i`-th on.
pub open spec fn misread_among(
    ctx: JavaContextExtractor,
    nodes: Seq<NodeId>,
    facts: Option<FactsView>,
    i: int,
) -> Seq<RankedView>
    decreases nodes.len() - i,
{
    if i < 0 || i >= nodes.len() {
        Seq::empty()
    } else {
        let first = if ctx.tree.kind_of(nodes[i]) == "variable_declarator"@ {
            misread_of(ctx, nodes[i], facts, 0)
        } else {
            Seq::empty()
        };
        first + misread_among(ctx, nodes, facts, i + 1)
    }
}

/// Adds the variables of declarators with assignments in them.
pub fn extract_misread_var_decls(
    ctx: &JavaContextExtractor,
    root: NodeId,
    facts: Option<&TypeFacts>,
    out: &mut Vec<RankedLocal>,
)
    requires
        ctx.wf(),
        ctx.tree.has(root),
    ensures
        final(out).deep_view() == old(out).deep_view() + misread_among(
            *ctx,
            ctx.tree.under(root),
            known(facts),
            0,
        ),
{
    let ghost f = known(facts);
    let nodes = ctx.tree.nodes_under(root);
    let mut i: usize = 0;
    while i < nodes.len()
        invariant
            i <= nodes.len(),
            ctx.wf(),
            ctx.tree.all_in(nodes@),
            f == known(facts),
            out.deep_view() + misread_among(*ctx, nodes@, f, i as int) =~= old(out).deep_view()
                + misread_among(*ctx, nodes@, f, 0),
        decreases nodes.len() - i,
    {
        if ctx.tree.is_kind(nodes[i], "variable_declarator") {
            collect_misread_decls(ctx, nodes[i], facts, out);
        }
        i += 1;
    }
}

// ---- parameters --------------------------------------------------------------------------------

/// The name among the named children of a parameter, from the `i`-th on: an identifier, or that of
/// a declarator.
pub open spec fn inner_name(ctx: JavaContextExtractor, ids: Seq<NodeId>, i: int) -> Option<NodeId>
    decreases ids.len() - i,
{
    if i < 0 || i >= ids.len() {
        None
    } else if ctx.tree.kind_of(ids[i]) == "identifier"@ {
        Some(ids[i])
    } else if ctx.tree.kind_of(ids[i]) == "variable_declarator"@ {
        match ctx.tree.field_of(ids[i], "name"@) {
            Some(id) => Some(id),
            None => match ctx.tree.first_kind(ctx.tree.named_kids(ids[i]), "identifier"@) {
                Some(id) => Some(id),
                None => inner_name(ctx, ids, i + 1),
            },
        }
    } else {
        inner_name(ctx, ids, i + 1)
    }
}

/// The name of a parameter.
pub open spec fn param_name(ctx: JavaContextExtractor, param: NodeId) -> Option<NodeId> {
    match ctx.tree.field_of(param, "name"@) {
        Some(id) => Some(id),
        None => inner_name(ctx, ctx.tree.named_kids(param), 0),
    }
}

fn find_param_name(ctx: &JavaContextExtractor, param: NodeId) -> (r: Option<NodeId>)
    requires
        ctx.wf(),
        ctx.tree.has(param),
    ensures
        r == param_name(*ctx, param),
        r matches Some(id) ==> ctx.tree.has(id),
{
    let t = &ctx.tree;
    if let Some(id) = t.child_by_field(param, "name") {
        return Some(id);
    }
    let ids = t.named_children(param);
    let mut i: usize = 0;
    while i < ids.len()
        invariant
            i <= ids.len(),
            ctx.wf(),
            *t == ctx.tree,
            t.all_in(ids@),
            ids@ == t.named_kids(param),
            t.field_of(param, "name"@) is None,
            inner_name(*ctx, ids@, 0) == inner_name(*ctx, ids@, i as int),
        decreases ids.len() - i,
    {
        let n: NodeId = ids[i];
        if t.is_kind(n, "identifier") {
            return Some(n);
        }
        if t.is_kind(n, "variable_declarator") {
            if let Some(id) = t.child_by_field(n, "name") {
                return Some(id);
            }
            if let Some(id) = t.first_of_kind(t.named_children(n), "identifier") {
                return Some(id);
            }
        }
        i += 1;
    }
    None
}

/// The variable that a parameter of a method is.
pub open spec fn param_at(
    ctx: JavaContextExtractor,
    method: NodeId,
    param: NodeId,
    facts: Option<FactsView>,
) -> Option<RankedView> {
    let kind = ctx.tree.kind_of(param);
    if kind != "formal_parameter"@ && kind != "spread_parameter"@ {
        None
    } else {
        match param_name(ctx, param) {
            None => None,
            Some(id) => Some(
                plain_local(
                    ctx.text_of(id),
                    declared_type(
                        seen_param_type(
                            trim(param_type(ctx.text_of(param))),
                            kind == "spread_parameter"@,
                        ),
                        facts,
                    ),
                    ctx.tree.node(id).start,
                    or_up_to(owned_range(ctx.tree, method), ctx.offset),
                ),
            ),
        }
    }
}

fn find_param_at(
    ctx: &JavaContextExtractor,
    method: NodeId,
    param: NodeId,
    facts: Option<&TypeFacts>,
) -> (r: Option<RankedLocal>)
    requires
        ctx.wf(),
        ctx.tree.has(method),
        ctx.tree.has(param),
    ensures
        r.deep_view() == param_at(*ctx, method, param, known(facts)),
{
    let t = &ctx.tree;
    let spread = t.is_kind(param, "spread_parameter");
    if !spread && !t.is_kind(param, "formal_parameter") {
        return None;
    }
    match find_param_name(ctx, param) {
        None => None,
        Some(id) => {
            let raw = extract_param_type(ctx.node_text(param));
            let text = see_param_type(trimmed(raw.as_slice()), spread);
            let ty = resolve_declared_source_type(text.as_str(), facts);
            let scope = scope_or_fallback(scope_range_for_owner(t, method), ctx.offset);
            Some(make_plain_local(to_text(ctx.node_text(id)), ty, t.start(id), scope))
        },
    }
}

/// The variables that the parameters of a method from the `i`-th on are.
pub open spec fn params_from(
    ctx: JavaContextExtractor,
    method: NodeId,
    ids: Seq<NodeId>,
    facts: Option<FactsView>,
    i: int,
) -> Seq<RankedView>
    decreases ids.len() - i,
{
    if i < 0 || i >= ids.len() {
        Seq::empty()
    } else {
        let rest = params_from(ctx, method, ids, facts, i + 1);
        match param_at(ctx, method, ids[i], facts) {
            Some(v) => seq![v] + rest,
            None => rest,
        }
    }
}

/// The variables that the parameters of the method around the cursor are.
pub open spec fn method_params(
    ctx: JavaContextExtractor,
    cursor_node: Option<NodeId>,
    facts: Option<FactsView>,
) -> Seq<RankedView> {
    match cursor_method(ctx, cursor_node) {
        None => Seq::empty(),
        Some(method) => match ctx.tree.field_of(method, "parameters"@) {
            None => Seq::empty(),
            Some(params) => params_from(ctx, method, ctx.tree.kids(params), facts, 0),
        },
    }
}

/// Adds the variables that the parameters of the method around the cursor are.
pub fn extract_params(
    ctx: &JavaContextExtractor,
    cursor_node: Option<NodeId>,
    facts: Option<&TypeFacts>,
    out: &mut Vec<RankedLocal>,
)
    requires
        ctx.wf(),
        cursor_node matches Some(n) ==> ctx.tree.has(n),
    ensures
        final(out).deep_view() == old(out).deep_view() + method_params(
            *ctx,
            cursor_node,
            known(facts),
        ),
{
    let t = &ctx.tree;
    let ghost f = known(facts);
    assert(out.deep_view() =~= old(out).deep_view() + Seq::<RankedView>::empty());
    if let Some(method) = find_cursor_method(ctx, cursor_node) {
        if let Some(params) = t.child_by_field(method, "parameters") {
            let ids = t.children(params);
            let mut i: usize = 0;
            while i < ids.len()
                invariant
                    i <= ids.len(),
                    ctx.wf(),
                    ctx.tree.has(method),
                    ctx.tree.all_in(ids@),
                    f == known(facts),
                    out.deep_view() + params_from(*ctx, method, ids@, f, i as int)
                        =~= old(out).deep_view() + params_from(*ctx, method, ids@, f, 0),
                decreases ids.len() - i,
            {
                let ghost done = out.deep_view();
                if let Some(v) = find_param_at(ctx, method, ids[i], facts) {
                    let ghost w = v.deep_view();
                    out.push(v);
                    assert(out.deep_view() =~= done.push(w));
                }
                i += 1;
            }
        }
    }
}

// ---- all of them -------------------------------------------------------------------------------

/// The variables that are found around the cursor.
pub open spec fn found_locals(
    ctx: JavaContextExtractor,
    root: NodeId,
    cursor_node: Option<NodeId>,
    facts: Option<FactsView>,
) -> Seq<RankedView> {
    let search = match cursor_method(ctx, cursor_node) {
        Some(m) => m,
        None => root,
    };
    let nodes = ctx.tree.under(search);
    locals_among(ctx, nodes, facts, true, 0) + misread_among(ctx, nodes, facts, 0) + broken_locals(
        ctx,
        nodes,
        facts,
        0,
    ) + method_params(ctx, cursor_node, facts) + lambda_vars(ctx, cursor_node, facts)
}

/// The local variables that can be seen from the cursor, where nothing is known of types.
pub fn extract_locals(
    ctx: &JavaContextExtractor,
    root: NodeId,
    cursor_node: Option<NodeId>,
) -> (r: Vec<LocalVar>)
    requires
        ctx.wf(),
        ctx.tree.has(root),
        cursor_node matches Some(n) ==> ctx.tree.has(n),
    ensures
        r.deep_view() == visible(found_locals(*ctx, root, cursor_node, None)),
{
    extract_locals_with_type_ctx(ctx, root, cursor_node, None)
}

/// The local variables that can be seen from the cursor.
pub fn extract_locals_with_type_ctx(
    ctx: &JavaContextExtractor,
    root: NodeId,
    cursor_node: Option<NodeId>,
    facts: Option<&TypeFacts>,
) -> (r: Vec<LocalVar>)
    requires
        ctx.wf(),
        ctx.tree.has(root),
        cursor_node matches Some(n) ==> ctx.tree.has(n),
    ensures
        r.deep_view() == visible(found_locals(*ctx, root, cursor_node, known(facts))),
{
    let search: NodeId = match find_cursor_method(ctx, cursor_node) {
        Some(m) => m,
        None => root,
    };
    let mut vars: Vec<RankedLocal> = Vec::new();
    collect_locals_under(ctx, search, facts, true, &mut vars);
    extract_misread_var_decls(ctx, search, facts, &mut vars);
    extract_locals_from_error_nodes(ctx, search, facts, &mut vars);
    extract_params(ctx, cursor_node, facts, &mut vars);
    extract_lambda_params(ctx, cursor_node, facts, &mut vars);
    assert(vars.deep_view() =~= found_locals(*ctx, root, cursor_node, known(facts)));
    normalize_visible_locals(vars)
}

// ---- laws --------------------------------------------------------------------------------------

/// A variable that is declared before the cursor, in a scope that the cursor is in.
pub open spec fn in_sight(ctx: JavaContextExtractor, v: RankedView) -> bool {
    v.declaration_start < ctx.offset && covers(v.visibility_scope, ctx.offset)
}

pub open spec fn all_in_sight(ctx: JavaContextExtractor, vars: Seq<RankedView>) -> bool {
    forall|k: int| 0 <= k < vars.len() ==> in_sight(ctx, #[trigger] vars[k])
}

proof fn lemma_locals_of_in_sight(
    ctx: JavaContextExtractor,
    decl: NodeId,
    facts: Option<FactsView>,
    strict: bool,
    i: int,
)
    ensures
        all_in_sight(ctx, locals_of(ctx, decl, facts, strict, i)),
    decreases ctx.tree.kids(decl).len() - i,
{
    if 0 <= i < ctx.tree.kids(decl).len() {
        lemma_locals_of_in_sight(ctx, decl, facts, strict, i + 1);
    }
}

/// A declaration makes a variable only from behind its name on, and only inside its scope.
pub proof fn lemma_no_future_locals(
    ctx: JavaContextExtractor,
    nodes: Seq<NodeId>,
    facts: Option<FactsView>,
    strict: bool,
    i: int,
)
    ensures
        all_in_sight(ctx, locals_among(ctx, nodes, facts, strict, i)),
    decreases nodes.len() - i,
{
    if 0 <= i < nodes.len() {
        lemma_locals_of_in_sight(ctx, nodes[i], facts, strict, 0);
        lemma_no_future_locals(ctx, nodes, facts, strict, i + 1);
    }
}

/// The same holds of declarations in unfinished code.
pub proof fn lemma_no_future_broken_locals(
    ctx: JavaContextExtractor,
    nodes: Seq<NodeId>,
    facts: Option<FactsView>,
    i: int,
)
    ensures
        all_in_sight(ctx, broken_locals(ctx, nodes, facts, i)),
    decreases nodes.len() - i,
{
    if 0 <= i < nodes.len() {
        lemma_no_future_locals(ctx, ctx.tree.under(nodes[i]), facts, false, 0);
        lemma_no_future_broken_locals(ctx, nodes, facts, i + 1);
    }
}

} // verus!
