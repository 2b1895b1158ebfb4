//! Which hints there are: one for each argument with a known parameter, one for each `var` variable
//! with a known type, and no others.
use vstd::prelude::*;

use crate::extractor::JavaContextExtractor;
use crate::inlay_hints::{
    all_hints, argument_hints_from, call_hints, in_order, just_inside, last_named, lemma_in_order,
    locals_at, parameter_hints, parameter_hints_below, parameters_at, site_at, texts_from, var_hint,
    var_hints, var_hints_below, var_hints_from, HintView, InlayContextView, InlayFactsView,
    InlayLocalView, JavaInlayHintKind, ResolvedView, SiteView,
};
use crate::syntax::laws::{lemma_under_holds, lemma_under_kids_from};
use crate::syntax::{NodeId, SyntaxTree};
use crate::type_facts::LocalVarDeclKind;

verus! {

/// A tree in which the bytes of every child are among those of its parent.
pub open spec fn nested(t: SyntaxTree) -> bool {
    forall|n: NodeId, i: int|
        t.has(n) && 0 <= i < t.kids(n).len() ==> t.start_byte_of(n) <= t.start_byte_of(
            #[trigger] t.kids(n)[i],
        ) && t.end_byte_of(t.kids(n)[i]) <= t.end_byte_of(n)
}

/// Some byte of the node is among the bytes `from..to`, or the range lies inside of the node.
pub open spec fn meets(t: SyntaxTree, n: NodeId, from: int, to: int) -> bool {
    t.start_byte_of(n) < to && t.end_byte_of(n) > from
}

/// The texts are those of the nodes, one for each.
pub open spec fn are_texts(
    ctx: JavaContextExtractor,
    texts: Seq<Seq<char>>,
    ids: Seq<NodeId>,
) -> bool {
    texts.len() == ids.len() && forall|k: int|
        0 <= k < ids.len() ==> #[trigger] texts[k] == ctx.text_of(ids[k])
}

/// The node with the list of arguments `args` is the call, or the creation, that the site tells of.
pub open spec fn describes(
    ctx: JavaContextExtractor,
    n: NodeId,
    args: NodeId,
    site: SiteView,
) -> bool {
    let t = ctx.tree;
    &&& t.field_of(n, "arguments"@) == Some(args)
    &&& match site {
        SiteView::Method { receiver_expr, method_name, arg_texts } => {
            &&& t.kind_of(n) == "method_invocation"@
            &&& t.field_of(n, "name"@) matches Some(id) && ctx.text_of(id) == method_name
            &&& t.field_of(n, "object"@) is None ==> receiver_expr == "this"@
            &&& t.field_of(n, "object"@) matches Some(o) ==> receiver_expr == ctx.text_of(o)
            &&& are_texts(ctx, arg_texts, t.named_kids(args))
        },
        SiteView::Constructor { call_text, arg_texts } => {
            &&& t.kind_of(n) == "object_creation_expression"@
            &&& call_text == ctx.text_of(n)
            &&& are_texts(ctx, arg_texts, t.named_kids(args))
        },
    }
}

/// What is known of calls tells the parameters of the site right behind the bracket of its
/// arguments.
pub open spec fn resolved(
    ctx: JavaContextExtractor,
    calls: Seq<ResolvedView>,
    args: NodeId,
    site: SiteView,
    c: int,
) -> bool {
    &&& 0 <= c < calls.len()
    &&& calls[c].offset == ctx.tree.start_byte_of(args) + 1
    &&& calls[c].site == site
    &&& forall|d: int|
        0 <= d < c ==> !((#[trigger] calls[d]).offset == ctx.tree.start_byte_of(args) + 1
            && calls[d].site == site)
}

/// The `k`-th argument of the call at the node is passed for a parameter with the given name, and
/// does not spell that name itself.
pub open spec fn passes(
    ctx: JavaContextExtractor,
    facts: InlayFactsView,
    n: NodeId,
    args: NodeId,
    site: SiteView,
    c: int,
    k: int,
    name: Seq<char>,
) -> bool {
    let arg = ctx.tree.named_kids(args)[k];
    &&& describes(ctx, n, args, site)
    &&& resolved(ctx, facts.calls, args, site, c)
    &&& 0 <= k < ctx.tree.named_kids(args).len()
    &&& k < facts.calls[c].parameter_names.len()
    &&& facts.calls[c].parameter_names[k] == Some(name)
    &&& !(ctx.tree.kind_of(arg) == "identifier"@ && ctx.text_of(arg) == name)
}

/// The hint with the name of a parameter, at the first byte of an argument.
pub open spec fn name_before(ctx: JavaContextExtractor, arg: NodeId, name: Seq<char>) -> HintView {
    HintView {
        offset: ctx.tree.node(arg).start_byte,
        label: name.push(':'),
        kind: JavaInlayHintKind::Parameter,
    }
}

proof fn lemma_joined<A>(a: Seq<A>, b: Seq<A>, x: A)
    ensures
        (a + b).contains(x) <==> a.contains(x) || b.contains(x),
{
    if a.contains(x) {
        let i = choose|i: int| 0 <= i < a.len() && a[i] == x;
        assert((a + b)[i] == x);
    }
    if b.contains(x) {
        let i = choose|i: int| 0 <= i < b.len() && b[i] == x;
        assert((a + b)[a.len() + i] == x);
    }
    if (a + b).contains(x) {
        let i = choose|i: int| 0 <= i < (a + b).len() && (a + b)[i] == x;
        if i < a.len() {
            assert(a[i] == x);
        } else {
            assert(b[i - a.len()] == x);
        }
    }
}

proof fn lemma_sorted_has(hints: Seq<HintView>, h: HintView)
    ensures
        in_order(hints, hints.len() as int).contains(h) <==> hints.contains(h),
{
    broadcast use vstd::seq_lib::group_to_multiset_ensures;

    lemma_in_order(hints, hints.len() as int);
    assert(hints.take(hints.len() as int) =~= hints);
    let sorted = in_order(hints, hints.len() as int);
    assert(sorted.contains(h) <==> sorted.to_multiset().count(h) > 0);
    assert(hints.contains(h) <==> hints.to_multiset().count(h) > 0);
}

proof fn lemma_texts_from(ctx: JavaContextExtractor, ids: Seq<NodeId>, i: int)
    requires
        0 <= i <= ids.len(),
    ensures
        texts_from(ctx, ids, i).len() == ids.len() - i,
        forall|k: int|
            0 <= k < ids.len() - i ==> #[trigger] texts_from(ctx, ids, i)[k] == ctx.text_of(
                ids[i + k],
            ),
    decreases ids.len() - i,
{
    if i < ids.len() {
        lemma_texts_from(ctx, ids, i + 1);
        let rest = texts_from(ctx, ids, i + 1);
        assert forall|k: int| 0 <= k < ids.len() - i implies #[trigger] texts_from(ctx, ids, i)[k]
            == ctx.text_of(ids[i + k]) by {
            if k > 0 {
                assert(texts_from(ctx, ids, i)[k] == rest[k - 1]);
            }
        }
    }
}

proof fn lemma_site(ctx: JavaContextExtractor, n: NodeId, args: NodeId, site: SiteView)
    requires
        ctx.tree.field_of(n, "arguments"@) == Some(args),
    ensures
        describes(ctx, n, args, site) <==> site_at(ctx, n) == Some(site),
{
    let ids = ctx.tree.named_kids(args);
    lemma_texts_from(ctx, ids, 0);
    reveal_strlit("method_invocation");
    reveal_strlit("object_creation_expression");
    assert("method_invocation"@.len() != "object_creation_expression"@.len());
    match site {
        SiteView::Method { receiver_expr, method_name, arg_texts } => {
            if are_texts(ctx, arg_texts, ids) {
                assert(arg_texts =~= texts_from(ctx, ids, 0));
            }
        },
        SiteView::Constructor { call_text, arg_texts } => {
            if are_texts(ctx, arg_texts, ids) {
                assert(arg_texts =~= texts_from(ctx, ids, 0));
            }
        },
    }
}

proof fn lemma_parameters_at(
    calls: Seq<ResolvedView>,
    offset: int,
    site: SiteView,
    i: int,
) -> (c: int)
    requires
        0 <= i,
    ensures
        match parameters_at(calls, offset, site, i) {
            Some(names) => i <= c < calls.len() && calls[c].offset == offset && calls[c].site
                == site && calls[c].parameter_names == names && forall|d: int|
                i <= d < c ==> !((#[trigger] calls[d]).offset == offset && calls[d].site == site),
            None => forall|d: int|
                i <= d < calls.len() ==> !((#[trigger] calls[d]).offset == offset && calls[d].site
                    == site),
        },
    decreases calls.len() - i,
{
    if i >= calls.len() || calls[i].offset == offset && calls[i].site == site {
        i
    } else {
        lemma_parameters_at(calls, offset, site, i + 1)
    }
}

proof fn lemma_argument_hinted(
    ctx: JavaContextExtractor,
    names: Seq<Option<Seq<char>>>,
    args: Seq<NodeId>,
    from: int,
    to: int,
    i: int,
    k: int,
    name: Seq<char>,
)
    requires
        0 <= i <= k < args.len(),
        k < names.len(),
        names[k] == Some(name),
        meets(ctx.tree, args[k], from, to),
        !(ctx.tree.kind_of(args[k]) == "identifier"@ && ctx.text_of(args[k]) == name),
    ensures
        argument_hints_from(ctx, names, args, from, to, i).contains(
            name_before(ctx, args[k], name),
        ),
    decreases k - i,
{
    let hints = argument_hints_from(ctx, names, args, from, to, i);
    let rest = argument_hints_from(ctx, names, args, from, to, i + 1);
    let h = name_before(ctx, args[k], name);
    if i < k {
        lemma_argument_hinted(ctx, names, args, from, to, i + 1, k, name);
        if hints.len() > rest.len() {
            lemma_joined(seq![hints[0]], rest, h);
            assert(hints =~= seq![hints[0]] + rest);
        }
    } else {
        reveal_strlit(":");
        assert(name + ":"@ =~= name.push(':'));
        assert(hints[0] == h);
    }
}

/// Every child of a node lies in its bytes, and so does what lies below it.
proof fn lemma_nested_below(t: SyntaxTree, n: NodeId, m: NodeId)
    requires
        t.linked(),
        nested(t),
        t.has(n),
        t.under(n).contains(m),
    ensures
        t.start_byte_of(n) <= t.start_byte_of(m),
        t.end_byte_of(m) <= t.end_byte_of(n),
    decreases t.nodes@.len() - n,
{
    assert(t.nodes@[n as int].placed(n as int, t.nodes@.len() as int));
    if m != n {
        let at = choose|at: int| 0 <= at < t.under(n).len() && t.under(n)[at] == m;
        assert(t.under_kids(n, 0)[at - 1] == m);
        let i = lemma_under_kids_from(t, n, 0, m);
        lemma_nested_below(t, t.kids(n)[i], m);
    }
}

proof fn lemma_call_hints_come_up(
    ctx: JavaContextExtractor,
    facts: InlayFactsView,
    root: NodeId,
    n: NodeId,
    from: int,
    to: int,
    h: HintView,
)
    requires
        ctx.wf(),
        nested(ctx.tree),
        ctx.tree.has(root),
        ctx.tree.under(root).contains(n),
        meets(ctx.tree, n, from, to),
        call_hints(ctx, facts, n, from, to).contains(h),
    ensures
        parameter_hints(ctx, facts, root, from, to).contains(h),
    decreases ctx.tree.nodes@.len() - root,
{
    let t = ctx.tree;
    assert(t.nodes@[root as int].placed(root as int, t.nodes@.len() as int));
    lemma_nested_below(t, root, n);
    let own = call_hints(ctx, facts, root, from, to);
    let below = parameter_hints_below(ctx, facts, root, from, to, 0);
    lemma_joined(own, below, h);
    if n != root {
        let at = choose|at: int| 0 <= at < t.under(root).len() && t.under(root)[at] == n;
        assert(t.under_kids(root, 0)[at - 1] == n);
        let i = lemma_under_kids_from(t, root, 0, n);
        lemma_call_hints_come_up(ctx, facts, t.kids(root)[i], n, from, to, h);
        lemma_child_hints_come_up(ctx, facts, root, from, to, 0, i, h);
    }
}

proof fn lemma_child_hints_come_up(
    ctx: JavaContextExtractor,
    facts: InlayFactsView,
    n: NodeId,
    from: int,
    to: int,
    i: int,
    at: int,
    h: HintView,
)
    requires
        ctx.wf(),
        ctx.tree.has(n),
        0 <= i <= at < ctx.tree.kids(n).len(),
        parameter_hints(ctx, facts, ctx.tree.kids(n)[at], from, to).contains(h),
    ensures
        parameter_hints_below(ctx, facts, n, from, to, i).contains(h),
    decreases at - i,
{
    let t = ctx.tree;
    assert(t.nodes@[n as int].placed(n as int, t.nodes@.len() as int));
    let first = parameter_hints(ctx, facts, t.kids(n)[i], from, to);
    let rest = parameter_hints_below(ctx, facts, n, from, to, i + 1);
    lemma_joined(first, rest, h);
    if i < at {
        lemma_child_hints_come_up(ctx, facts, n, from, to, i + 1, at, h);
    }
}

/// Every argument in the range, at whatever place in whatever call, that is passed for a parameter
/// with a known name and does not repeat that name, has a hint: the name and a colon, where the
/// argument begins.
pub proof fn lemma_arguments_are_hinted(
    ctx: JavaContextExtractor,
    facts: InlayFactsView,
    root: NodeId,
    from: int,
    to: int,
    n: NodeId,
    args: NodeId,
    site: SiteView,
    c: int,
    k: int,
    name: Seq<char>,
)
    requires
        ctx.wf(),
        nested(ctx.tree),
        ctx.tree.has(root),
        ctx.tree.under(root).contains(n),
        ctx.tree.has(n),
        passes(ctx, facts, n, args, site, c, k, name),
        ctx.tree.start_byte_of(args) < usize::MAX,
        meets(ctx.tree, ctx.tree.named_kids(args)[k], from, to),
    ensures
        all_hints(ctx, facts, root, from, to).contains(
            name_before(ctx, ctx.tree.named_kids(args)[k], name),
        ),
{
    let t = ctx.tree;
    let arg = t.named_kids(args)[k];
    let h = name_before(ctx, arg, name);
    lemma_site(ctx, n, args, site);
    let d = lemma_parameters_at(facts.calls, just_inside(ctx, args), site, 0);
    assert(d == c) by {
        if d < c {
            assert(!(facts.calls[d].offset == t.start_byte_of(args) + 1 && facts.calls[d].site
                == site));
        } else if c < d {
            assert(!(facts.calls[c].offset == t.start_byte_of(args) + 1 && facts.calls[c].site
                == site));
        }
    }
    lemma_argument_hinted(
        ctx,
        facts.calls[c].parameter_names,
        t.named_kids(args),
        from,
        to,
        0,
        k,
        name,
    );
    assert(call_hints(ctx, facts, n, from, to).contains(h));
    // The argument lies in the list, the list in the call.
    crate::syntax::laws::lemma_field_from(t, t.kids(n), "arguments"@, 0);
    assert(t.kids(n).contains(args));
    let p = choose|p: int| 0 <= p < t.kids(n).len() && t.kids(n)[p] == args;
    assert(t.nodes@[n as int].placed(n as int, t.nodes@.len() as int));
    lemma_named_kid_is_kid(t, args, k);
    let q = choose|q: int| 0 <= q < t.kids(args).len() && t.kids(args)[q] == arg;
    assert(t.start_byte_of(n) <= t.start_byte_of(t.kids(n)[p]));
    assert(t.start_byte_of(args) <= t.start_byte_of(t.kids(args)[q]));
    lemma_call_hints_come_up(ctx, facts, root, n, from, to, h);
    let hints = var_hints(ctx, facts, root, from, to) + parameter_hints(ctx, facts, root, from, to);
    lemma_joined(
        var_hints(ctx, facts, root, from, to),
        parameter_hints(ctx, facts, root, from, to),
        h,
    );
    lemma_sorted_has(hints, h);
}

proof fn lemma_named_kid_is_kid(t: SyntaxTree, n: NodeId, k: int)
    requires
        t.linked(),
        t.has(n),
        0 <= k < t.named_kids(n).len(),
    ensures
        t.kids(n).contains(t.named_kids(n)[k]),
{
    let named = |m: NodeId| t.node(m).named;
    t.kids(n).lemma_filter_contains_rev(named, t.named_kids(n)[k]);
}

// ---- no other hints for arguments --------------------------------------------------------------

proof fn lemma_argument_hint_has_argument(
    ctx: JavaContextExtractor,
    names: Seq<Option<Seq<char>>>,
    args: Seq<NodeId>,
    from: int,
    to: int,
    i: int,
    h: HintView,
) -> (k: int)
    requires
        0 <= i,
        argument_hints_from(ctx, names, args, from, to, i).contains(h),
    ensures
        i <= k < args.len(),
        k < names.len(),
        names[k] is Some,
        meets(ctx.tree, args[k], from, to),
        !(ctx.tree.kind_of(args[k]) == "identifier"@ && ctx.text_of(args[k]) == names[k]->0),
        h == name_before(ctx, args[k], names[k]->0),
    decreases args.len() - i,
{
    let hints = argument_hints_from(ctx, names, args, from, to, i);
    let rest = argument_hints_from(ctx, names, args, from, to, i + 1);
    if rest.contains(h) {
        lemma_argument_hint_has_argument(ctx, names, args, from, to, i + 1, h)
    } else {
        lemma_joined(seq![hints[0]], rest, h);
        assert(hints =~= seq![hints[0]] + rest);
        let at = choose|at: int| 0 <= at < 1 && seq![hints[0]][at] == h;
        assert(h == hints[0]);
        reveal_strlit(":");
        assert(names[i]->0 + ":"@ =~= (names[i]->0).push(':'));
        i
    }
}

/// The hint is that of some argument below a node, in the range.
pub open spec fn is_for_argument(
    ctx: JavaContextExtractor,
    facts: InlayFactsView,
    from: int,
    to: int,
    h: HintView,
    n: NodeId,
) -> bool {
    exists|args: NodeId, site: SiteView, c: int, k: int, name: Seq<char>| #[trigger]
        passes(ctx, facts, n, args, site, c, k, name) && meets(
            ctx.tree,
            ctx.tree.named_kids(args)[k],
            from,
            to,
        ) && h == name_before(ctx, ctx.tree.named_kids(args)[k], name)
}

proof fn lemma_call_hint_has_argument(
    ctx: JavaContextExtractor,
    facts: InlayFactsView,
    n: NodeId,
    from: int,
    to: int,
    h: HintView,
)
    requires
        ctx.wf(),
        ctx.tree.has(n),
        bytes_fit(ctx.tree),
        call_hints(ctx, facts, n, from, to).contains(h),
    ensures
        is_for_argument(ctx, facts, from, to, h, n),
{
    let args = ctx.tree.field_of(n, "arguments"@)->0;
    let site = site_at(ctx, n)->0;
    lemma_site(ctx, n, args, site);
    let c = lemma_parameters_at(facts.calls, just_inside(ctx, args), site, 0);
    let names = facts.calls[c].parameter_names;
    let k = lemma_argument_hint_has_argument(
        ctx,
        names,
        ctx.tree.named_kids(args),
        from,
        to,
        0,
        h,
    );
    crate::syntax::laws::lemma_field_from(ctx.tree, ctx.tree.kids(n), "arguments"@, 0);
    assert(ctx.tree.nodes@[n as int].placed(n as int, ctx.tree.nodes@.len() as int));
    assert(ctx.tree.start_byte_of(args) < usize::MAX);
    assert(passes(ctx, facts, n, args, site, c, k, names[k]->0));
}

/// No node begins at the last byte that a text can have.
pub open spec fn bytes_fit(t: SyntaxTree) -> bool {
    forall|n: NodeId| t.has(n) ==> #[trigger] t.start_byte_of(n) < usize::MAX
}

proof fn lemma_parameter_hint_has_argument(
    ctx: JavaContextExtractor,
    facts: InlayFactsView,
    root: NodeId,
    from: int,
    to: int,
    h: HintView,
) -> (n: NodeId)
    requires
        ctx.wf(),
        ctx.tree.has(root),
        bytes_fit(ctx.tree),
        parameter_hints(ctx, facts, root, from, to).contains(h),
    ensures
        ctx.tree.under(root).contains(n),
        is_for_argument(ctx, facts, from, to, h, n),
    decreases ctx.tree.nodes@.len() - root, ctx.tree.kids(root).len() + 1,
{
    let own = call_hints(ctx, facts, root, from, to);
    let below = parameter_hints_below(ctx, facts, root, from, to, 0);
    lemma_joined(own, below, h);
    if own.contains(h) {
        assert(ctx.tree.under(root)[0] == root);
        lemma_call_hint_has_argument(ctx, facts, root, from, to, h);
        root
    } else {
        lemma_child_hint_has_argument(ctx, facts, root, from, to, 0, h)
    }
}

proof fn lemma_child_hint_has_argument(
    ctx: JavaContextExtractor,
    facts: InlayFactsView,
    root: NodeId,
    from: int,
    to: int,
    i: int,
    h: HintView,
) -> (n: NodeId)
    requires
        ctx.wf(),
        ctx.tree.has(root),
        bytes_fit(ctx.tree),
        0 <= i,
        parameter_hints_below(ctx, facts, root, from, to, i).contains(h),
    ensures
        ctx.tree.under(root).contains(n),
        is_for_argument(ctx, facts, from, to, h, n),
    decreases ctx.tree.nodes@.len() - root, ctx.tree.kids(root).len() - i,
{
    let t = ctx.tree;
    assert(t.nodes@[root as int].placed(root as int, t.nodes@.len() as int));
    let first = parameter_hints(ctx, facts, t.kids(root)[i], from, to);
    let rest = parameter_hints_below(ctx, facts, root, from, to, i + 1);
    lemma_joined(first, rest, h);
    if first.contains(h) {
        let n = lemma_parameter_hint_has_argument(ctx, facts, t.kids(root)[i], from, to, h);
        lemma_under_holds(t, root, i, n);
        n
    } else {
        lemma_child_hint_has_argument(ctx, facts, root, from, to, i + 1, h)
    }
}

// ---- hints for variables -----------------------------------------------------------------------

/// What is known of a position tells of the variable with a name, the last one with it.
pub open spec fn knows(
    contexts: Seq<InlayContextView>,
    offset: int,
    name: Seq<char>,
    c: int,
    l: int,
) -> bool {
    &&& 0 <= c < contexts.len()
    &&& contexts[c].offset == offset
    &&& forall|d: int| 0 <= d < c ==> (#[trigger] contexts[d]).offset != offset
    &&& 0 <= l < contexts[c].locals.len()
    &&& contexts[c].locals[l].local.name == name
    &&& forall|m: int|
        l < m < contexts[c].locals.len() ==> (#[trigger] contexts[c].locals[m]).local.name != name
}

/// The `k`-th named child of the node declares a variable with `var`, whose type is known where its
/// name `id` ends.
pub open spec fn infers(
    ctx: JavaContextExtractor,
    facts: InlayFactsView,
    n: NodeId,
    k: int,
    id: NodeId,
    c: int,
    l: int,
) -> bool {
    let t = ctx.tree;
    &&& t.kind_of(n) == "local_variable_declaration"@
    &&& t.field_of(n, "type"@) matches Some(ty) && ctx.text_of(ty) == "var"@
    &&& 0 <= k < t.named_kids(n).len()
    &&& t.kind_of(t.named_kids(n)[k]) == "variable_declarator"@
    &&& t.field_of(t.named_kids(n)[k], "name"@) == Some(id)
    &&& knows(facts.contexts, t.end_byte_of(id), ctx.text_of(id), c, l)
    &&& facts.contexts[c].locals[l].local.decl_kind != LocalVarDeclKind::VarSyntax
    &&& facts.contexts[c].locals[l].local.type_internal.base != "unknown"@
}

/// The hint with a type, behind the last byte of a name.
pub open spec fn type_behind(ctx: JavaContextExtractor, id: NodeId, shown: Seq<char>) -> HintView {
    HintView {
        offset: ctx.tree.node(id).end_byte,
        label: seq![':', ' '] + shown,
        kind: JavaInlayHintKind::Type,
    }
}

proof fn lemma_locals_at(contexts: Seq<InlayContextView>, offset: int, i: int) -> (c: int)
    requires
        0 <= i,
    ensures
        match locals_at(contexts, offset, i) {
            Some(locals) => i <= c < contexts.len() && contexts[c].offset == offset
                && contexts[c].locals == locals && forall|d: int|
                i <= d < c ==> (#[trigger] contexts[d]).offset != offset,
            None => forall|d: int|
                i <= d < contexts.len() ==> (#[trigger] contexts[d]).offset != offset,
        },
    decreases contexts.len() - i,
{
    if i >= contexts.len() || contexts[i].offset == offset {
        i
    } else {
        lemma_locals_at(contexts, offset, i + 1)
    }
}

proof fn lemma_last_named(locals: Seq<InlayLocalView>, name: Seq<char>, j: int) -> (l: int)
    requires
        0 <= j <= locals.len(),
    ensures
        match last_named(locals, name, j) {
            Some(v) => 0 <= l < j && locals[l] == v && v.local.name == name && forall|m: int|
                l < m < j ==> (#[trigger] locals[m]).local.name != name,
            None => forall|m: int| 0 <= m < j ==> (#[trigger] locals[m]).local.name != name,
        },
    decreases j,
{
    if j == 0 || locals[j - 1].local.name == name {
        j - 1
    } else {
        lemma_last_named(locals, name, j - 1)
    }
}

proof fn lemma_variable_hinted(
    ctx: JavaContextExtractor,
    facts: InlayFactsView,
    n: NodeId,
    from: int,
    to: int,
    k: int,
    id: NodeId,
    c: int,
    l: int,
)
    requires
        infers(ctx, facts, n, k, id, c, l),
        meets(ctx.tree, id, from, to),
    ensures
        var_hint(ctx, facts, ctx.tree.named_kids(n)[k], from, to) == Some(
            type_behind(ctx, id, facts.contexts[c].locals[l].rendered),
        ),
{
    let end = ctx.tree.end_byte_of(id);
    let name = ctx.text_of(id);
    let d = lemma_locals_at(facts.contexts, end, 0);
    if d < c {
        assert(facts.contexts[d].offset != end);
    } else if c < d {
        assert(facts.contexts[c].offset != end);
    }
    let locals = facts.contexts[c].locals;
    let m = lemma_last_named(locals, name, locals.len() as int);
    if m < l {
        assert(locals[l].local.name != name);
    } else if l < m {
        assert(locals[m].local.name != name);
    }
    reveal_strlit(": ");
    assert(": "@ =~= seq![':', ' ']);
}

proof fn lemma_hints_from_have(
    ctx: JavaContextExtractor,
    facts: InlayFactsView,
    ids: Seq<NodeId>,
    from: int,
    to: int,
    i: int,
    k: int,
    h: HintView,
)
    requires
        0 <= i <= k < ids.len(),
        var_hint(ctx, facts, ids[k], from, to) == Some(h),
    ensures
        var_hints_from(ctx, facts, ids, from, to, i).contains(h),
    decreases k - i,
{
    let rest = var_hints_from(ctx, facts, ids, from, to, i + 1);
    if i < k {
        lemma_hints_from_have(ctx, facts, ids, from, to, i + 1, k, h);
        if let Some(own) = var_hint(ctx, facts, ids[i], from, to) {
            lemma_joined(seq![own], rest, h);
        }
    } else {
        assert((seq![h] + rest)[0] == h);
    }
}

proof fn lemma_var_hints_come_up(
    ctx: JavaContextExtractor,
    facts: InlayFactsView,
    root: NodeId,
    n: NodeId,
    from: int,
    to: int,
    h: HintView,
)
    requires
        ctx.wf(),
        nested(ctx.tree),
        ctx.tree.has(root),
        ctx.tree.under(root).contains(n),
        meets(ctx.tree, n, from, to),
        var_hints(ctx, facts, n, from, to).contains(h),
    ensures
        var_hints(ctx, facts, root, from, to).contains(h),
    decreases ctx.tree.nodes@.len() - root,
{
    let t = ctx.tree;
    assert(t.nodes@[root as int].placed(root as int, t.nodes@.len() as int));
    lemma_nested_below(t, root, n);
    if n != root {
        let at = choose|at: int| 0 <= at < t.under(root).len() && t.under(root)[at] == n;
        assert(t.under_kids(root, 0)[at - 1] == n);
        let i = lemma_under_kids_from(t, root, 0, n);
        lemma_var_hints_come_up(ctx, facts, t.kids(root)[i], n, from, to, h);
        lemma_child_var_hints_come_up(ctx, facts, root, from, to, 0, i, h);
        let below = var_hints_below(ctx, facts, root, from, to, 0);
        let own = var_hints(ctx, facts, root, from, to).take(
            var_hints(ctx, facts, root, from, to).len() - below.len(),
        );
        assert(var_hints(ctx, facts, root, from, to) =~= own + below);
        lemma_joined(own, below, h);
    }
}

proof fn lemma_child_var_hints_come_up(
    ctx: JavaContextExtractor,
    facts: InlayFactsView,
    n: NodeId,
    from: int,
    to: int,
    i: int,
    at: int,
    h: HintView,
)
    requires
        ctx.wf(),
        ctx.tree.has(n),
        0 <= i <= at < ctx.tree.kids(n).len(),
        var_hints(ctx, facts, ctx.tree.kids(n)[at], from, to).contains(h),
    ensures
        var_hints_below(ctx, facts, n, from, to, i).contains(h),
    decreases at - i,
{
    let t = ctx.tree;
    assert(t.nodes@[n as int].placed(n as int, t.nodes@.len() as int));
    let first = var_hints(ctx, facts, t.kids(n)[i], from, to);
    let rest = var_hints_below(ctx, facts, n, from, to, i + 1);
    lemma_joined(first, rest, h);
    if i < at {
        lemma_child_var_hints_come_up(ctx, facts, n, from, to, i + 1, at, h);
    }
}

/// Every name in the range that is declared with `var`, and whose type is known where it ends, has
/// a hint: a colon, a blank and the type as it is shown, right behind the name.
pub proof fn lemma_variables_are_hinted(
    ctx: JavaContextExtractor,
    facts: InlayFactsView,
    root: NodeId,
    from: int,
    to: int,
    n: NodeId,
    k: int,
    id: NodeId,
    c: int,
    l: int,
)
    requires
        ctx.wf(),
        nested(ctx.tree),
        ctx.tree.has(root),
        ctx.tree.under(root).contains(n),
        ctx.tree.has(n),
        infers(ctx, facts, n, k, id, c, l),
        meets(ctx.tree, id, from, to),
    ensures
        all_hints(ctx, facts, root, from, to).contains(
            type_behind(ctx, id, facts.contexts[c].locals[l].rendered),
        ),
{
    let t = ctx.tree;
    let h = type_behind(ctx, id, facts.contexts[c].locals[l].rendered);
    let declarator = t.named_kids(n)[k];
    lemma_variable_hinted(ctx, facts, n, from, to, k, id, c, l);
    lemma_hints_from_have(ctx, facts, t.named_kids(n), from, to, 0, k, h);
    lemma_named_kid_is_kid(t, n, k);
    let p = choose|p: int| 0 <= p < t.kids(n).len() && t.kids(n)[p] == declarator;
    assert(t.nodes@[n as int].placed(n as int, t.nodes@.len() as int));
    crate::syntax::laws::lemma_field_from(t, t.kids(declarator), "name"@, 0);
    assert(t.kids(declarator).contains(id));
    let q = choose|q: int| 0 <= q < t.kids(declarator).len() && t.kids(declarator)[q] == id;
    assert(t.start_byte_of(n) <= t.start_byte_of(t.kids(n)[p]));
    assert(t.start_byte_of(declarator) <= t.start_byte_of(t.kids(declarator)[q]));
    let own = var_hints_from(ctx, facts, t.named_kids(n), from, to, 0);
    lemma_joined(own, var_hints_below(ctx, facts, n, from, to, 0), h);
    lemma_var_hints_come_up(ctx, facts, root, n, from, to, h);
    let hints = var_hints(ctx, facts, root, from, to) + parameter_hints(ctx, facts, root, from, to);
    lemma_joined(
        var_hints(ctx, facts, root, from, to),
        parameter_hints(ctx, facts, root, from, to),
        h,
    );
    lemma_sorted_has(hints, h);
}

/// The hint is that of some variable that a node declares with `var`, in the range.
pub open spec fn is_for_variable(
    ctx: JavaContextExtractor,
    facts: InlayFactsView,
    from: int,
    to: int,
    h: HintView,
    n: NodeId,
) -> bool {
    exists|k: int, id: NodeId, c: int, l: int| #[trigger]
        infers(ctx, facts, n, k, id, c, l) && meets(ctx.tree, id, from, to) && h == type_behind(
            ctx,
            id,
            facts.contexts[c].locals[l].rendered,
        )
}

proof fn lemma_var_hint_has_variable(
    ctx: JavaContextExtractor,
    facts: InlayFactsView,
    n: NodeId,
    from: int,
    to: int,
    i: int,
    h: HintView,
)
    requires
        0 <= i,
        ctx.tree.kind_of(n) == "local_variable_declaration"@,
        ctx.tree.field_of(n, "type"@) matches Some(ty) && ctx.text_of(ty) == "var"@,
        var_hints_from(ctx, facts, ctx.tree.named_kids(n), from, to, i).contains(h),
    ensures
        is_for_variable(ctx, facts, from, to, h, n),
    decreases ctx.tree.named_kids(n).len() - i,
{
    let ids = ctx.tree.named_kids(n);
    let rest = var_hints_from(ctx, facts, ids, from, to, i + 1);
    if rest.contains(h) {
        lemma_var_hint_has_variable(ctx, facts, n, from, to, i + 1, h);
    } else {
        let own = var_hint(ctx, facts, ids[i], from, to)->0;
        lemma_joined(seq![own], rest, h);
        let at = choose|at: int| 0 <= at < 1 && seq![own][at] == h;
        assert(own == h);
        let id = ctx.tree.field_of(ids[i], "name"@)->0;
        let c = lemma_locals_at(facts.contexts, ctx.tree.end_byte_of(id), 0);
        let locals = facts.contexts[c].locals;
        let l = lemma_last_named(locals, ctx.text_of(id), locals.len() as int);
        reveal_strlit(": ");
        assert(": "@ =~= seq![':', ' ']);
        assert(infers(ctx, facts, n, i, id, c, l));
    }
}

proof fn lemma_type_hint_has_variable(
    ctx: JavaContextExtractor,
    facts: InlayFactsView,
    root: NodeId,
    from: int,
    to: int,
    h: HintView,
) -> (n: NodeId)
    requires
        ctx.wf(),
        ctx.tree.has(root),
        var_hints(ctx, facts, root, from, to).contains(h),
    ensures
        ctx.tree.under(root).contains(n),
        is_for_variable(ctx, facts, from, to, h, n),
    decreases ctx.tree.nodes@.len() - root, ctx.tree.kids(root).len() + 1,
{
    let below = var_hints_below(ctx, facts, root, from, to, 0);
    let all = var_hints(ctx, facts, root, from, to);
    let own = all.take(all.len() - below.len());
    assert(all =~= own + below);
    lemma_joined(own, below, h);
    if own.contains(h) {
        assert(ctx.tree.under(root)[0] == root);
        assert(own =~= var_hints_from(ctx, facts, ctx.tree.named_kids(root), from, to, 0));
        lemma_var_hint_has_variable(ctx, facts, root, from, to, 0, h);
        root
    } else {
        lemma_child_type_hint_has_variable(ctx, facts, root, from, to, 0, h)
    }
}

proof fn lemma_child_type_hint_has_variable(
    ctx: JavaContextExtractor,
    facts: InlayFactsView,
    root: NodeId,
    from: int,
    to: int,
    i: int,
    h: HintView,
) -> (n: NodeId)
    requires
        ctx.wf(),
        ctx.tree.has(root),
        0 <= i,
        var_hints_below(ctx, facts, root, from, to, i).contains(h),
    ensures
        ctx.tree.under(root).contains(n),
        is_for_variable(ctx, facts, from, to, h, n),
    decreases ctx.tree.nodes@.len() - root, ctx.tree.kids(root).len() - i,
{
    let t = ctx.tree;
    assert(t.nodes@[root as int].placed(root as int, t.nodes@.len() as int));
    let first = var_hints(ctx, facts, t.kids(root)[i], from, to);
    let rest = var_hints_below(ctx, facts, root, from, to, i + 1);
    lemma_joined(first, rest, h);
    if first.contains(h) {
        let n = lemma_type_hint_has_variable(ctx, facts, t.kids(root)[i], from, to, h);
        lemma_under_holds(t, root, i, n);
        n
    } else {
        lemma_child_type_hint_has_variable(ctx, facts, root, from, to, i + 1, h)
    }
}

/// Every hint is the name of the parameter of an argument in the range, or the type of a variable
/// in the range that is declared with `var`.
pub proof fn lemma_no_other_hints(
    ctx: JavaContextExtractor,
    facts: InlayFactsView,
    root: NodeId,
    from: int,
    to: int,
    h: HintView,
)
    requires
        ctx.wf(),
        ctx.tree.has(root),
        bytes_fit(ctx.tree),
        all_hints(ctx, facts, root, from, to).contains(h),
    ensures
        exists|n: NodeId| #[trigger]
            ctx.tree.under(root).contains(n) && (is_for_argument(ctx, facts, from, to, h, n)
                || is_for_variable(ctx, facts, from, to, h, n)),
{
    let types = var_hints(ctx, facts, root, from, to);
    let names = parameter_hints(ctx, facts, root, from, to);
    lemma_sorted_has(types + names, h);
    lemma_joined(types, names, h);
    if types.contains(h) {
        let n = lemma_type_hint_has_variable(ctx, facts, root, from, to, h);
        assert(ctx.tree.under(root).contains(n));
    } else {
        let n = lemma_parameter_hint_has_argument(ctx, facts, root, from, to, h);
        assert(ctx.tree.under(root).contains(n));
    }
}

} // verus!
