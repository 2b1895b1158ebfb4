//! Hints shown between the characters of a text: the types of `var` variables and the names of
//! parameters. Positions are counted in bytes.
use vstd::prelude::*;

use crate::extractor::JavaContextExtractor;
use crate::syntax::NodeId;
use crate::text::{append_str, spells, str_eq, to_chars, to_text};
use crate::type_facts::{same_texts, LocalVar, LocalVarDeclKind, LocalView};

pub mod laws;

verus! {

/// What a hint shows.
#[derive(Clone, Copy, Debug, PartialEq, Eq, Structural)]
pub enum JavaInlayHintKind {
    Type,
    Parameter,
}

/// A hint, and where it is shown, counted in bytes.
#[derive(Debug, PartialEq, Eq)]
pub struct JavaInlayHint {
    pub offset: usize,
    pub label: String,
    pub kind: JavaInlayHintKind,
}

/// What a [`JavaInlayHint`] says.
pub struct HintView {
    pub offset: usize,
    pub label: Seq<char>,
    pub kind: JavaInlayHintKind,
}

impl DeepView for JavaInlayHint {
    type V = HintView;

    open spec fn deep_view(&self) -> HintView {
        HintView { offset: self.offset, label: self.label@, kind: self.kind }
    }
}

/// A local variable, with its type as it is shown.
#[derive(Debug)]
pub struct InlayLocal {
    pub local: LocalVar,
    pub rendered: String,
}

/// What an [`InlayLocal`] says.
pub struct InlayLocalView {
    pub local: LocalView,
    pub rendered: Seq<char>,
}

impl DeepView for InlayLocal {
    type V = InlayLocalView;

    open spec fn deep_view(&self) -> InlayLocalView {
        InlayLocalView { local: self.local.deep_view(), rendered: self.rendered@ }
    }
}

/// The local variables that can be seen at a position, counted in bytes.
#[derive(Debug)]
pub struct InlayContext {
    pub offset: usize,
    pub locals: Vec<InlayLocal>,
}

/// What an [`InlayContext`] says.
pub struct InlayContextView {
    pub offset: usize,
    pub locals: Seq<InlayLocalView>,
}

impl DeepView for InlayContext {
    type V = InlayContextView;

    open spec fn deep_view(&self) -> InlayContextView {
        InlayContextView { offset: self.offset, locals: self.locals.deep_view() }
    }
}

/// A call or the creation of an object.
#[derive(Debug, PartialEq, Eq)]
pub enum JavaInvocationSite {
    Method { receiver_expr: String, method_name: String, arg_texts: Vec<String> },
    Constructor { call_text: String, arg_texts: Vec<String> },
}

/// What a [`JavaInvocationSite`] says.
pub enum SiteView {
    Method { receiver_expr: Seq<char>, method_name: Seq<char>, arg_texts: Seq<Seq<char>> },
    Constructor { call_text: Seq<char>, arg_texts: Seq<Seq<char>> },
}

impl DeepView for JavaInvocationSite {
    type V = SiteView;

    open spec fn deep_view(&self) -> SiteView {
        match self {
            JavaInvocationSite::Method { receiver_expr, method_name, arg_texts } =>
                SiteView::Method {
                    receiver_expr: receiver_expr@,
                    method_name: method_name@,
                    arg_texts: arg_texts.deep_view(),
                },
            JavaInvocationSite::Constructor { call_text, arg_texts } => SiteView::Constructor {
                call_text: call_text@,
                arg_texts: arg_texts.deep_view(),
            },
        }
    }
}

/// The method or the constructor that a site at a position, counted in bytes, calls, by the names
/// of its parameters.
#[derive(Debug)]
pub struct ResolvedCall {
    pub offset: usize,
    pub site: JavaInvocationSite,
    pub parameter_names: Vec<Option<String>>,
}

/// What a [`ResolvedCall`] says.
pub struct ResolvedView {
    pub offset: usize,
    pub site: SiteView,
    pub parameter_names: Seq<Option<Seq<char>>>,
}

impl DeepView for ResolvedCall {
    type V = ResolvedView;

    open spec fn deep_view(&self) -> ResolvedView {
        ResolvedView {
            offset: self.offset,
            site: self.site.deep_view(),
            parameter_names: self.parameter_names.deep_view(),
        }
    }
}

/// What is known of the positions of a text.
#[derive(Debug)]
pub struct InlayFacts {
    pub contexts: Vec<InlayContext>,
    pub calls: Vec<ResolvedCall>,
}

/// What [`InlayFacts`] say.
pub struct InlayFactsView {
    pub contexts: Seq<InlayContextView>,
    pub calls: Seq<ResolvedView>,
}

impl DeepView for InlayFacts {
    type V = InlayFactsView;

    open spec fn deep_view(&self) -> InlayFactsView {
        InlayFactsView { contexts: self.contexts.deep_view(), calls: self.calls.deep_view() }
    }
}

// ---- types of variables ------------------------------------------------------------------------

/// The node and the range of bytes `from..to` have bytes in common.
pub open spec fn intersects(ctx: JavaContextExtractor, n: NodeId, from: int, to: int) -> bool {
    ctx.tree.start_byte_of(n) < to && from < ctx.tree.end_byte_of(n)
}

/// Whether a node and a range of bytes have bytes in common.
pub fn intersects_range(ctx: &JavaContextExtractor, n: NodeId, from: usize, to: usize) -> (r: bool)
    requires
        ctx.tree.has(n),
    ensures
        r == intersects(*ctx, n, from as int, to as int),
{
    ctx.tree.start_byte(n) < to && from < ctx.tree.end_byte(n)
}

/// The local variables at a position, of the contexts from the `i`-th on.
pub open spec fn locals_at(contexts: Seq<InlayContextView>, offset: int, i: int) -> Option<
    Seq<InlayLocalView>,
>
    decreases contexts.len() - i,
{
    if i < 0 || i >= contexts.len() {
        None
    } else if contexts[i].offset == offset {
        Some(contexts[i].locals)
    } else {
        locals_at(contexts, offset, i + 1)
    }
}

fn find_locals(facts: &InlayFacts, offset: usize) -> (r: Option<&Vec<InlayLocal>>)
    ensures
        r.deep_view() == locals_at(facts.deep_view().contexts, offset as int, 0),
{
    let ghost all = facts.contexts.deep_view();
    let mut i: usize = 0;
    while i < facts.contexts.len()
        invariant
            i <= facts.contexts.len(),
            all == facts.contexts.deep_view(),
            locals_at(all, offset as int, 0) == locals_at(all, offset as int, i as int),
        decreases facts.contexts.len() - i,
    {
        assert(all[i as int] == facts.contexts@[i as int].deep_view());
        if facts.contexts[i].offset == offset {
            return Some(&facts.contexts[i].locals);
        }
        i += 1;
    }
    None
}

/// The last of the first `j` variables that has a name.
pub open spec fn last_named(locals: Seq<InlayLocalView>, name: Seq<char>, j: int) -> Option<
    InlayLocalView,
>
    decreases j,
{
    if j <= 0 || j > locals.len() {
        None
    } else if locals[j - 1].local.name == name {
        Some(locals[j - 1])
    } else {
        last_named(locals, name, j - 1)
    }
}

fn find_last_named<'a>(locals: &'a Vec<InlayLocal>, name: &[char]) -> (r: Option<&'a InlayLocal>)
    ensures
        r.deep_view() == last_named(locals.deep_view(), name@, locals@.len() as int),
{
    let ghost all = locals.deep_view();
    let mut j: usize = locals.len();
    while j > 0
        invariant
            j <= locals.len(),
            all == locals.deep_view(),
            last_named(all, name@, locals@.len() as int) == last_named(all, name@, j as int),
        decreases j,
    {
        assert(all[j - 1] == locals@[j - 1].deep_view());
        if spells(name, locals[j - 1].local.name.as_str()) {
            return Some(&locals[j - 1]);
        }
        j -= 1;
    }
    None
}

/// The hint for a declarator of a `var` declaration: there is none where the type of the variable
/// is not known.
pub open spec fn var_hint(
    ctx: JavaContextExtractor,
    facts: InlayFactsView,
    declarator: NodeId,
    from: int,
    to: int,
) -> Option<HintView> {
    if ctx.tree.kind_of(declarator) != "variable_declarator"@ {
        None
    } else {
        match ctx.tree.field_of(declarator, "name"@) {
            None => None,
            Some(id) => if !intersects(ctx, id, from, to) {
                None
            } else {
                match locals_at(facts.contexts, ctx.tree.end_byte_of(id), 0) {
                    None => None,
                    Some(locals) => match last_named(
                        locals,
                        ctx.text_of(id),
                        locals.len() as int,
                    ) {
                        None => None,
                        Some(l) => if l.local.decl_kind == LocalVarDeclKind::VarSyntax
                            || l.local.type_internal.base == "unknown"@ {
                            None
                        } else {
                            Some(
                                HintView {
                                    offset: ctx.tree.end_byte_of(id) as usize,
                                    label: ": "@ + l.rendered,
                                    kind: JavaInlayHintKind::Type,
                                },
                            )
                        },
                    },
                }
            },
        }
    }
}

fn make_var_hint(
    ctx: &JavaContextExtractor,
    facts: &InlayFacts,
    declarator: NodeId,
    from: usize,
    to: usize,
) -> (r: Option<JavaInlayHint>)
    requires
        ctx.wf(),
        ctx.tree.has(declarator),
    ensures
        r.deep_view() == var_hint(*ctx, facts.deep_view(), declarator, from as int, to as int),
{
    let t = &ctx.tree;
    if !t.is_kind(declarator, "variable_declarator") {
        return None;
    }
    let id: NodeId = match t.child_by_field(declarator, "name") {
        Some(id) => id,
        None => {
            return None;
        },
    };
    if !intersects_range(ctx, id, from, to) {
        return None;
    }
    let offset: usize = t.end_byte(id);
    match find_locals(facts, offset) {
        None => None,
        Some(locals) => {
            assert(locals.deep_view().len() == locals@.len());
            match find_last_named(locals, ctx.node_text(id)) {
                None => None,
                Some(l) => {
                    if l.local.decl_kind == LocalVarDeclKind::VarSyntax || str_eq(
                        l.local.type_internal.erased_internal(),
                        "unknown",
                    ) {
                        return None;
                    }
                    let mut label = to_chars(": ");
                    append_str(&mut label, l.rendered.as_str());
                    Some(
                        JavaInlayHint {
                            offset,
                            label: to_text(label.as_slice()),
                            kind: JavaInlayHintKind::Type,
                        },
                    )
                },
            }
        },
    }
}

/// The hints for the declarators from the `i`-th on.
pub open spec fn var_hints_from(
    ctx: JavaContextExtractor,
    facts: InlayFactsView,
    ids: Seq<NodeId>,
    from: int,
    to: int,
    i: int,
) -> Seq<HintView>
    decreases ids.len() - i,
{
    if i < 0 || i >= ids.len() {
        Seq::empty()
    } else {
        let rest = var_hints_from(ctx, facts, ids, from, to, i + 1);
        match var_hint(ctx, facts, ids[i], from, to) {
            Some(h) => seq![h] + rest,
            None => rest,
        }
    }
}

/// The node declares local variables with `var`.
pub open spec fn is_var_declaration(ctx: JavaContextExtractor, n: NodeId) -> bool {
    ctx.tree.kind_of(n) == "local_variable_declaration"@ && match ctx.tree.field_of(n, "type"@) {
        Some(ty) => ctx.text_of(ty) == "var"@,
        None => false,
    }
}

/// The hints for the types of variables in the subtree of a node.
pub open spec fn var_hints(
    ctx: JavaContextExtractor,
    facts: InlayFactsView,
    n: NodeId,
    from: int,
    to: int,
) -> Seq<HintView>
    decreases ctx.tree.nodes@.len() - n, ctx.tree.kids(n).len() + 1,
{
    if !intersects(ctx, n, from, to) {
        Seq::empty()
    } else {
        let own = if is_var_declaration(ctx, n) {
            var_hints_from(ctx, facts, ctx.tree.named_kids(n), from, to, 0)
        } else {
            Seq::empty()
        };
        own + var_hints_below(ctx, facts, n, from, to, 0)
    }
}

/// The hints for the types of variables in the subtrees of the children of a node, from the
/// `i`-th on.
pub open spec fn var_hints_below(
    ctx: JavaContextExtractor,
    facts: InlayFactsView,
    n: NodeId,
    from: int,
    to: int,
    i: int,
) -> Seq<HintView>
    decreases ctx.tree.nodes@.len() - n, ctx.tree.kids(n).len() - i,
{
    if i < 0 || i >= ctx.tree.kids(n).len() {
        Seq::empty()
    } else {
        let k = ctx.tree.kids(n)[i];
        let first = if n < k && ctx.tree.has(k) {
            var_hints(ctx, facts, k, from, to)
        } else {
            Seq::empty()
        };
        first + var_hints_below(ctx, facts, n, from, to, i + 1)
    }
}

/// Adds the hints for the types of variables in the subtree of a node.
pub fn collect_var_hints(
    ctx: &JavaContextExtractor,
    facts: &InlayFacts,
    n: NodeId,
    from: usize,
    to: usize,
    out: &mut Vec<JavaInlayHint>,
)
    requires
        ctx.wf(),
        ctx.tree.has(n),
    ensures
        final(out).deep_view() == old(out).deep_view() + var_hints(
            *ctx,
            facts.deep_view(),
            n,
            from as int,
            to as int,
        ),
    decreases ctx.tree.nodes@.len() - n,
{
    let t = &ctx.tree;
    let ghost known = facts.deep_view();
    if !intersects_range(ctx, n, from, to) {
        assert(out.deep_view() =~= old(out).deep_view() + Seq::<HintView>::empty());
        return;
    }
    let is_var = t.is_kind(n, "local_variable_declaration") && match t.child_by_field(n, "type") {
        Some(ty) => spells(ctx.node_text(ty), "var"),
        None => false,
    };
    assert(is_var == is_var_declaration(*ctx, n));
    let ghost own = if is_var {
        var_hints_from(*ctx, known, t.named_kids(n), from as int, to as int, 0)
    } else {
        Seq::empty()
    };
    if is_var {
        let ids = t.named_children(n);
        let mut i: usize = 0;
        while i < ids.len()
            invariant
                i <= ids.len(),
                ctx.wf(),
                *t == ctx.tree,
                t.has(n),
                ids@ == t.named_kids(n),
                t.all_in(ids@),
                known == facts.deep_view(),
                out.deep_view() + var_hints_from(
                    *ctx,
                    known,
                    ids@,
                    from as int,
                    to as int,
                    i as int,
                ) =~= old(out).deep_view() + var_hints_from(
                    *ctx,
                    known,
                    ids@,
                    from as int,
                    to as int,
                    0,
                ),
            decreases ids.len() - i,
        {
            let ghost done = out.deep_view();
            if let Some(h) = make_var_hint(ctx, facts, ids[i], from, to) {
                let ghost v = h.deep_view();
                out.push(h);
                assert(out.deep_view() =~= done.push(v));
            }
            i += 1;
        }
    }
    assert(out.deep_view() =~= old(out).deep_view() + own);
    let kids = t.children(n);
    let mut i: usize = 0;
    while i < kids.len()
        invariant
            i <= kids.len(),
            ctx.wf(),
            *t == ctx.tree,
            t.has(n),
            kids@ == t.kids(n),
            known == facts.deep_view(),
            out.deep_view() + var_hints_below(*ctx, known, n, from as int, to as int, i as int)
                =~= old(out).deep_view() + own + var_hints_below(
                *ctx,
                known,
                n,
                from as int,
                to as int,
                0,
            ),
        decreases kids.len() - i,
    {
        assert(t.nodes@[n as int].placed(n as int, t.nodes@.len() as int));
        let k: NodeId = kids[i];
        collect_var_hints(ctx, facts, k, from, to, out);
        i += 1;
    }
    assert(out.deep_view() =~= old(out).deep_view() + (own + var_hints_below(
        *ctx,
        known,
        n,
        from as int,
        to as int,
        0,
    )));
}

// ---- names of parameters -----------------------------------------------------------------------

/// The texts of the nodes from the `i`-th on.
pub open spec fn texts_from(ctx: JavaContextExtractor, ids: Seq<NodeId>, i: int) -> Seq<Seq<char>>
    decreases ids.len() - i,
{
    if i < 0 || i >= ids.len() {
        Seq::empty()
    } else {
        seq![ctx.text_of(ids[i])] + texts_from(ctx, ids, i + 1)
    }
}

/// The arguments of a call.
pub open spec fn argument_nodes(ctx: JavaContextExtractor, n: NodeId) -> Seq<NodeId> {
    match ctx.tree.field_of(n, "arguments"@) {
        Some(args) => ctx.tree.named_kids(args),
        None => Seq::empty(),
    }
}

fn argument_texts(ctx: &JavaContextExtractor, n: NodeId) -> (r: Vec<String>)
    requires
        ctx.wf(),
        ctx.tree.has(n),
    ensures
        r.deep_view() == texts_from(*ctx, argument_nodes(*ctx, n), 0),
{
    let t = &ctx.tree;
    let mut out: Vec<String> = Vec::new();
    assert(out.deep_view() =~= Seq::<Seq<char>>::empty());
    if let Some(args) = invocation_arguments(ctx, n) {
        let ids = named_argument_nodes(ctx, args);
        let mut i: usize = 0;
        while i < ids.len()
            invariant
                i <= ids.len(),
                ctx.wf(),
                ctx.tree.all_in(ids@),
                out.deep_view() + texts_from(*ctx, ids@, i as int) =~= texts_from(*ctx, ids@, 0),
            decreases ids.len() - i,
        {
            let ghost done = out.deep_view();
            let text = to_text(ctx.node_text(ids[i]));
            out.push(text);
            assert(out.deep_view() =~= done.push(ctx.text_of(ids@[i as int])));
            i += 1;
        }
        assert(out.deep_view() =~= texts_from(*ctx, ids@, 0));
    }
    out
}

/// The call, or the creation of an object, at a node.
pub open spec fn site_at(ctx: JavaContextExtractor, n: NodeId) -> Option<SiteView> {
    let arg_texts = texts_from(ctx, argument_nodes(ctx, n), 0);
    if ctx.tree.kind_of(n) == "method_invocation"@ {
        match ctx.tree.field_of(n, "name"@) {
            None => None,
            Some(id) => Some(
                SiteView::Method {
                    receiver_expr: match ctx.tree.field_of(n, "object"@) {
                        Some(o) => ctx.text_of(o),
                        None => "this"@,
                    },
                    method_name: ctx.text_of(id),
                    arg_texts,
                },
            ),
        }
    } else if ctx.tree.kind_of(n) == "object_creation_expression"@ {
        Some(SiteView::Constructor { call_text: ctx.text_of(n), arg_texts })
    } else {
        None
    }
}

/// The call, or the creation of an object, at a node.
pub fn invocation_site_for_node(ctx: &JavaContextExtractor, n: NodeId) -> (r: Option<
    JavaInvocationSite,
>)
    requires
        ctx.wf(),
        ctx.tree.has(n),
    ensures
        r.deep_view() == site_at(*ctx, n),
{
    let t = &ctx.tree;
    if t.is_kind(n, "method_invocation") {
        match t.child_by_field(n, "name") {
            None => None,
            Some(id) => {
                let method_name = to_text(ctx.node_text(id));
                let receiver_expr = match t.child_by_field(n, "object") {
                    Some(o) => to_text(ctx.node_text(o)),
                    None => "this".to_string(),
                };
                let arg_texts = argument_texts(ctx, n);
                Some(JavaInvocationSite::Method { receiver_expr, method_name, arg_texts })
            },
        }
    } else if t.is_kind(n, "object_creation_expression") {
        let call_text = to_text(ctx.node_text(n));
        let arg_texts = argument_texts(ctx, n);
        Some(JavaInvocationSite::Constructor { call_text, arg_texts })
    } else {
        None
    }
}

/// The list of arguments of a call.
pub fn invocation_arguments(ctx: &JavaContextExtractor, n: NodeId) -> (r: Option<NodeId>)
    requires
        ctx.wf(),
        ctx.tree.has(n),
    ensures
        r == ctx.tree.field_of(n, "arguments"@),
        r matches Some(args) ==> ctx.tree.has(args),
{
    ctx.tree.child_by_field(n, "arguments")
}

/// The arguments in a list of arguments.
pub fn named_argument_nodes(ctx: &JavaContextExtractor, arguments: NodeId) -> (r: &[NodeId])
    requires
        ctx.wf(),
        ctx.tree.has(arguments),
    ensures
        r@ == ctx.tree.named_kids(arguments),
        ctx.tree.all_in(r@),
{
    ctx.tree.named_children(arguments)
}

fn same_site(a: &JavaInvocationSite, b: &JavaInvocationSite) -> (r: bool)
    ensures
        r == (a.deep_view() == b.deep_view()),
{
    match (a, b) {
        (
            JavaInvocationSite::Method { receiver_expr: r1, method_name: m1, arg_texts: a1 },
            JavaInvocationSite::Method { receiver_expr: r2, method_name: m2, arg_texts: a2 },
        ) => str_eq(r1.as_str(), r2.as_str()) && str_eq(m1.as_str(), m2.as_str()) && same_texts(
            a1,
            a2,
        ),
        (
            JavaInvocationSite::Constructor { call_text: c1, arg_texts: a1 },
            JavaInvocationSite::Constructor { call_text: c2, arg_texts: a2 },
        ) => str_eq(c1.as_str(), c2.as_str()) && same_texts(a1, a2),
        _ => false,
    }
}

/// The names of the parameters of what a site at a position calls, of the calls from the `i`-th
/// on.
pub open spec fn parameters_at(calls: Seq<ResolvedView>, offset: int, site: SiteView, i: int) -> Option<
    Seq<Option<Seq<char>>>,
>
    decreases calls.len() - i,
{
    if i < 0 || i >= calls.len() {
        None
    } else if calls[i].offset == offset && calls[i].site == site {
        Some(calls[i].parameter_names)
    } else {
        parameters_at(calls, offset, site, i + 1)
    }
}

fn find_parameters<'a>(facts: &'a InlayFacts, offset: usize, site: &JavaInvocationSite) -> (r: Option<
    &'a Vec<Option<String>>,
>)
    ensures
        r.deep_view() == parameters_at(
            facts.deep_view().calls,
            offset as int,
            site.deep_view(),
            0,
        ),
{
    let ghost all = facts.calls.deep_view();
    let mut i: usize = 0;
    while i < facts.calls.len()
        invariant
            i <= facts.calls.len(),
            all == facts.calls.deep_view(),
            parameters_at(all, offset as int, site.deep_view(), 0) == parameters_at(
                all,
                offset as int,
                site.deep_view(),
                i as int,
            ),
        decreases facts.calls.len() - i,
    {
        assert(all[i as int] == facts.calls@[i as int].deep_view());
        if facts.calls[i].offset == offset && same_site(&facts.calls[i].site, site) {
            return Some(&facts.calls[i].parameter_names);
        }
        i += 1;
    }
    None
}

/// The hint would only repeat the argument: it is a name, and that of the parameter.
pub open spec fn repeats(ctx: JavaContextExtractor, name: Seq<char>, arg: NodeId) -> bool {
    ctx.tree.kind_of(arg) == "identifier"@ && ctx.text_of(arg) == name
}

/// Whether the hint would only repeat the argument.
pub fn should_skip_parameter_hint(ctx: &JavaContextExtractor, param_name: &str, arg: NodeId) -> (r:
    bool)
    requires
        ctx.wf(),
        ctx.tree.has(arg),
    ensures
        r == repeats(*ctx, param_name@, arg),
{
    ctx.tree.is_kind(arg, "identifier") && spells(ctx.node_text(arg), param_name)
}

/// The hints for the arguments from the `i`-th on.
pub open spec fn argument_hints_from(
    ctx: JavaContextExtractor,
    names: Seq<Option<Seq<char>>>,
    args: Seq<NodeId>,
    from: int,
    to: int,
    i: int,
) -> Seq<HintView>
    decreases args.len() - i,
{
    if i < 0 || i >= args.len() {
        Seq::empty()
    } else {
        let rest = argument_hints_from(ctx, names, args, from, to, i + 1);
        if intersects(ctx, args[i], from, to) && i < names.len() && names[i] is Some && !repeats(
            ctx,
            names[i]->0,
            args[i],
        ) {
            seq![
                HintView {
                    offset: ctx.tree.start_byte_of(args[i]) as usize,
                    label: names[i]->0 + ":"@,
                    kind: JavaInlayHintKind::Parameter,
                },
            ] + rest
        } else {
            rest
        }
    }
}

/// The position behind the bracket of a list of arguments.
pub open spec fn just_inside(ctx: JavaContextExtractor, args: NodeId) -> int {
    if ctx.tree.start_byte_of(args) == usize::MAX {
        usize::MAX as int
    } else {
        ctx.tree.start_byte_of(args) + 1
    }
}

/// The hints for the arguments of the call at a node.
pub open spec fn call_hints(
    ctx: JavaContextExtractor,
    facts: InlayFactsView,
    n: NodeId,
    from: int,
    to: int,
) -> Seq<HintView> {
    match (site_at(ctx, n), ctx.tree.field_of(n, "arguments"@)) {
        (Some(site), Some(args)) => {
            let ids = ctx.tree.named_kids(args);
            if ids.len() == 0 {
                Seq::empty()
            } else {
                match parameters_at(facts.calls, just_inside(ctx, args), site, 0) {
                    Some(names) => argument_hints_from(ctx, names, ids, from, to, 0),
                    None => Seq::empty(),
                }
            }
        },
        _ => Seq::empty(),
    }
}

fn collect_argument_hints(
    ctx: &JavaContextExtractor,
    names: &Vec<Option<String>>,
    args: &[NodeId],
    from: usize,
    to: usize,
    out: &mut Vec<JavaInlayHint>,
)
    requires
        ctx.wf(),
        ctx.tree.all_in(args@),
    ensures
        final(out).deep_view() == old(out).deep_view() + argument_hints_from(
            *ctx,
            names.deep_view(),
            args@,
            from as int,
            to as int,
            0,
        ),
{
    let ghost all = names.deep_view();
    let mut i: usize = 0;
    while i < args.len()
        invariant
            i <= args.len(),
            ctx.wf(),
            ctx.tree.all_in(args@),
            all == names.deep_view(),
            out.deep_view() + argument_hints_from(
                *ctx,
                all,
                args@,
                from as int,
                to as int,
                i as int,
            ) =~= old(out).deep_view() + argument_hints_from(
                *ctx,
                all,
                args@,
                from as int,
                to as int,
                0,
            ),
        decreases args.len() - i,
    {
        let ghost done = out.deep_view();
        let arg: NodeId = args[i];
        if intersects_range(ctx, arg, from, to) && i < names.len() {
            assert(all[i as int] == names@[i as int].deep_view());
            if let Some(name) = &names[i] {
                if !should_skip_parameter_hint(ctx, name.as_str(), arg) {
                    let mut label = to_chars(name.as_str());
                    append_str(&mut label, ":");
                    let h = JavaInlayHint {
                        offset: ctx.tree.start_byte(arg),
                        label: to_text(label.as_slice()),
                        kind: JavaInlayHintKind::Parameter,
                    };
                    let ghost v = h.deep_view();
                    out.push(h);
                    assert(out.deep_view() =~= done.push(v));
                }
            }
        }
        i += 1;
    }
}

fn collect_call_hints(
    ctx: &JavaContextExtractor,
    facts: &InlayFacts,
    n: NodeId,
    from: usize,
    to: usize,
    out: &mut Vec<JavaInlayHint>,
)
    requires
        ctx.wf(),
        ctx.tree.has(n),
    ensures
        final(out).deep_view() == old(out).deep_view() + call_hints(
            *ctx,
            facts.deep_view(),
            n,
            from as int,
            to as int,
        ),
{
    assert(out.deep_view() =~= old(out).deep_view() + Seq::<HintView>::empty());
    if let Some(site) = invocation_site_for_node(ctx, n) {
        if let Some(args) = invocation_arguments(ctx, n) {
            let ids = named_argument_nodes(ctx, args);
            if ids.len() > 0 {
                let inside: usize = ctx.tree.start_byte(args).saturating_add(1);
                if let Some(names) = find_parameters(facts, inside, &site) {
                    collect_argument_hints(ctx, names, ids, from, to, out);
                }
            }
        }
    }
}

/// The hints for the names of parameters in the subtree of a node.
pub open spec fn parameter_hints(
    ctx: JavaContextExtractor,
    facts: InlayFactsView,
    n: NodeId,
    from: int,
    to: int,
) -> Seq<HintView>
    decreases ctx.tree.nodes@.len() - n, ctx.tree.kids(n).len() + 1,
{
    if !intersects(ctx, n, from, to) {
        Seq::empty()
    } else {
        call_hints(ctx, facts, n, from, to) + parameter_hints_below(ctx, facts, n, from, to, 0)
    }
}

/// The hints for the names of parameters in the subtrees of the children of a node, from the
/// `i`-th on.
pub open spec fn parameter_hints_below(
    ctx: JavaContextExtractor,
    facts: InlayFactsView,
    n: NodeId,
    from: int,
    to: int,
    i: int,
) -> Seq<HintView>
    decreases ctx.tree.nodes@.len() - n, ctx.tree.kids(n).len() - i,
{
    if i < 0 || i >= ctx.tree.kids(n).len() {
        Seq::empty()
    } else {
        let k = ctx.tree.kids(n)[i];
        let first = if n < k && ctx.tree.has(k) {
            parameter_hints(ctx, facts, k, from, to)
        } else {
            Seq::empty()
        };
        first + parameter_hints_below(ctx, facts, n, from, to, i + 1)
    }
}

/// Adds the hints for the names of parameters in the subtree of a node.
pub fn collect_parameter_hints(
    ctx: &JavaContextExtractor,
    facts: &InlayFacts,
    n: NodeId,
    from: usize,
    to: usize,
    out: &mut Vec<JavaInlayHint>,
)
    requires
        ctx.wf(),
        ctx.tree.has(n),
    ensures
        final(out).deep_view() == old(out).deep_view() + parameter_hints(
            *ctx,
            facts.deep_view(),
            n,
            from as int,
            to as int,
        ),
    decreases ctx.tree.nodes@.len() - n,
{
    let t = &ctx.tree;
    let ghost known = facts.deep_view();
    if !intersects_range(ctx, n, from, to) {
        assert(out.deep_view() =~= old(out).deep_view() + Seq::<HintView>::empty());
        return;
    }
    let ghost own = call_hints(*ctx, known, n, from as int, to as int);
    collect_call_hints(ctx, facts, n, from, to, out);
    let kids = t.children(n);
    let mut i: usize = 0;
    while i < kids.len()
        invariant
            i <= kids.len(),
            ctx.wf(),
            *t == ctx.tree,
            t.has(n),
            kids@ == t.kids(n),
            known == facts.deep_view(),
            out.deep_view() + parameter_hints_below(
                *ctx,
                known,
                n,
                from as int,
                to as int,
                i as int,
            ) =~= old(out).deep_view() + own + parameter_hints_below(
                *ctx,
                known,
                n,
                from as int,
                to as int,
                0,
            ),
        decreases kids.len() - i,
    {
        assert(t.nodes@[n as int].placed(n as int, t.nodes@.len() as int));
        let k: NodeId = kids[i];
        collect_parameter_hints(ctx, facts, k, from, to, out);
        i += 1;
    }
    assert(out.deep_view() =~= old(out).deep_view() + (own + parameter_hints_below(
        *ctx,
        known,
        n,
        from as int,
        to as int,
        0,
    )));
}

// ---- all hints ---------------------------------------------------------------------------------

/// The place of a hint among hints in order: behind those that are shown no later.
pub open spec fn place_for(hints: Seq<HintView>, h: HintView, j: int) -> int
    decreases j,
{
    if j <= 0 || j > hints.len() || hints[j - 1].offset <= h.offset {
        j
    } else {
        place_for(hints, h, j - 1)
    }
}

/// The first `j` hints in the order of their positions; hints at one position keep their order.
pub open spec fn in_order(hints: Seq<HintView>, j: int) -> Seq<HintView>
    decreases j,
{
    if j <= 0 || j > hints.len() {
        Seq::empty()
    } else {
        let before = in_order(hints, j - 1);
        before.insert(place_for(before, hints[j - 1], before.len() as int), hints[j - 1])
    }
}

/// The hints come in the order of their positions.
pub open spec fn is_ordered(hints: Seq<HintView>) -> bool {
    forall|a: int, b: int| 0 <= a <= b < hints.len() ==> hints[a].offset <= hints[b].offset
}

proof fn lemma_place_for(hints: Seq<HintView>, h: HintView, j: int)
    requires
        0 <= j <= hints.len(),
    ensures
        0 <= place_for(hints, h, j) <= j,
        forall|k: int| place_for(hints, h, j) <= k < j ==> hints[k].offset > h.offset,
        place_for(hints, h, j) > 0 ==> hints[place_for(hints, h, j) - 1].offset <= h.offset,
    decreases j,
{
    if j > 0 && hints[j - 1].offset > h.offset {
        lemma_place_for(hints, h, j - 1);
    }
}

/// Sorting puts the hints in order, and neither adds nor loses one.
pub proof fn lemma_in_order(hints: Seq<HintView>, j: int)
    requires
        0 <= j <= hints.len(),
    ensures
        is_ordered(in_order(hints, j)),
        in_order(hints, j).len() == j,
        in_order(hints, j).to_multiset() == hints.take(j).to_multiset(),
    decreases j,
{
    broadcast use vstd::seq_lib::group_to_multiset_ensures;

    if j > 0 {
        lemma_in_order(hints, j - 1);
        let before = in_order(hints, j - 1);
        let h = hints[j - 1];
        let p = place_for(before, h, before.len() as int);
        lemma_place_for(before, h, before.len() as int);
        let after = in_order(hints, j);
        assert forall|a: int, b: int| 0 <= a <= b < after.len() implies after[a].offset
            <= after[b].offset by {
            if a < p {
                assert(after[a] == before[a]);
                assert(before[a].offset <= before[p - 1].offset);
            } else if a > p {
                assert(after[a] == before[a - 1]);
            }
            if b < p {
                assert(after[b] == before[b]);
            } else if b > p {
                assert(after[b] == before[b - 1]);
            }
        }
        assert(hints.take(j) =~= hints.take(j - 1).push(h));
        vstd::seq_lib::to_multiset_insert(before, p, h);
    } else {
        assert(in_order(hints, j) =~= hints.take(j));
    }
}

fn sort_by_offset(hints: Vec<JavaInlayHint>) -> (r: Vec<JavaInlayHint>)
    ensures
        r.deep_view() == in_order(hints.deep_view(), hints@.len() as int),
{
    let mut rest: Vec<JavaInlayHint> = hints;
    let ghost all = rest.deep_view();
    let mut taken: Vec<JavaInlayHint> = Vec::new();
    let n: usize = rest.len();
    // Taking from the back, then in the opposite order, moves every hint once.
    while rest.len() > 0
        invariant
            rest.len() + taken.len() == n,
            n == all.len(),
            forall|k: int| 0 <= k < rest.len() ==> #[trigger] rest@[k].deep_view() == all[k],
            forall|k: int|
                0 <= k < taken.len() ==> #[trigger] taken@[k].deep_view() == all[n - 1 - k],
        decreases rest.len(),
    {
        let h = rest.pop().unwrap();
        taken.push(h);
    }
    let mut out: Vec<JavaInlayHint> = Vec::new();
    assert(out.deep_view() =~= in_order(all, 0));
    while taken.len() > 0
        invariant
            out.len() + taken.len() == n,
            n == all.len(),
            forall|k: int|
                0 <= k < taken.len() ==> #[trigger] taken@[k].deep_view() == all[n - 1 - k],
            out.deep_view() == in_order(all, out.len() as int),
        decreases taken.len(),
    {
        let ghost before = out.deep_view();
        let ghost m = out.len();
        assert(taken@[taken.len() - 1].deep_view() == all[m as int]);
        let h = taken.pop().unwrap();
        let mut p: usize = out.len();
        while p > 0 && out[p - 1].offset > h.offset
            invariant
                p <= out.len(),
                before == out.deep_view(),
                place_for(before, h.deep_view(), out.len() as int) == place_for(
                    before,
                    h.deep_view(),
                    p as int,
                ),
            decreases p,
        {
            assert(before[p - 1] == out@[p - 1].deep_view());
            p -= 1;
        }
        assert(p > 0 ==> before[p - 1] == out@[p - 1].deep_view());
        let ghost v = h.deep_view();
        out.insert(p, h);
        assert(out.deep_view() =~= before.insert(p as int, v));
    }
    out
}

/// The hints in a range of a text, in order.
pub open spec fn all_hints(
    ctx: JavaContextExtractor,
    facts: InlayFactsView,
    root: NodeId,
    from: int,
    to: int,
) -> Seq<HintView> {
    let hints = var_hints(ctx, facts, root, from, to) + parameter_hints(ctx, facts, root, from, to);
    in_order(hints, hints.len() as int)
}

/// The hints in the range of bytes `from..to` of a text, in the order of their positions.
pub fn collect_java_inlay_hints(
    ctx: &JavaContextExtractor,
    facts: &InlayFacts,
    root: NodeId,
    from: usize,
    to: usize,
) -> (r: Vec<JavaInlayHint>)
    requires
        ctx.wf(),
        ctx.tree.has(root),
    ensures
        r.deep_view() == all_hints(*ctx, facts.deep_view(), root, from as int, to as int),
{
    let mut hints: Vec<JavaInlayHint> = Vec::new();
    collect_var_hints(ctx, facts, root, from, to, &mut hints);
    collect_parameter_hints(ctx, facts, root, from, to, &mut hints);
    assert(hints.deep_view() =~= var_hints(*ctx, facts.deep_view(), root, from as int, to as int)
        + parameter_hints(*ctx, facts.deep_view(), root, from as int, to as int));
    assert(hints.deep_view().len() == hints@.len());
    sort_by_offset(hints)
}

// ---- laws --------------------------------------------------------------------------------------

/// The hints that are shown at a position.
pub open spec fn shown_at(hints: Seq<HintView>, offset: usize) -> Seq<HintView> {
    hints.filter(|h: HintView| h.offset == offset)
}

/// Sorting keeps the order of hints that are shown at one position.
pub proof fn lemma_keeps_ties(hints: Seq<HintView>, j: int, offset: usize)
    requires
        0 <= j <= hints.len(),
    ensures
        shown_at(in_order(hints, j), offset) == shown_at(hints.take(j), offset),
    decreases j,
{
    let at = |h: HintView| h.offset == offset;
    if j > 0 {
        lemma_keeps_ties(hints, j - 1, offset);
        let before = in_order(hints, j - 1);
        let h = hints[j - 1];
        let p = place_for(before, h, before.len() as int);
        lemma_place_for(before, h, before.len() as int);
        let head = before.take(p);
        let tail = before.skip(p);
        assert(before =~= head + tail);
        assert(in_order(hints, j) =~= head.push(h) + tail);
        Seq::filter_distributes_over_add(head, tail, at);
        Seq::filter_distributes_over_add(head.push(h), tail, at);
        lemma_filter_push(head, h, offset);
        lemma_filter_push(hints.take(j - 1), h, offset);
        assert(hints.take(j) =~= hints.take(j - 1).push(h));
        if h.offset == offset {
            tail.lemma_all_neg_filter_empty(at);
            assert(tail.filter(at) =~= Seq::<HintView>::empty());
            assert(shown_at(in_order(hints, j), offset) =~= shown_at(before, offset).push(h));
        }
    } else {
        assert(in_order(hints, j) =~= hints.take(j));
    }
}

proof fn lemma_filter_push(hints: Seq<HintView>, h: HintView, offset: usize)
    ensures
        shown_at(hints.push(h), offset) == if h.offset == offset {
            shown_at(hints, offset).push(h)
        } else {
            shown_at(hints, offset)
        },
{
    reveal(Seq::filter);
    assert(hints.push(h).drop_last() =~= hints);
}

/// A hint that stands where something of the range `from..to` is: a type behind a name that ends
/// in it or later and begins before its end, a parameter before an argument likewise.
pub open spec fn near(h: HintView, from: int, to: int) -> bool {
    match h.kind {
        JavaInlayHintKind::Type => from < h.offset,
        JavaInlayHintKind::Parameter => h.offset < to,
    }
}

pub open spec fn all_near(hints: Seq<HintView>, from: int, to: int) -> bool {
    forall|k: int| 0 <= k < hints.len() ==> near(#[trigger] hints[k], from, to)
}

proof fn lemma_var_hints_from_near(
    ctx: JavaContextExtractor,
    facts: InlayFactsView,
    ids: Seq<NodeId>,
    from: int,
    to: int,
    i: int,
)
    ensures
        all_near(var_hints_from(ctx, facts, ids, from, to, i), from, to),
    decreases ids.len() - i,
{
    if 0 <= i < ids.len() {
        lemma_var_hints_from_near(ctx, facts, ids, from, to, i + 1);
    }
}

proof fn lemma_var_hints_near(
    ctx: JavaContextExtractor,
    facts: InlayFactsView,
    n: NodeId,
    from: int,
    to: int,
)
    ensures
        all_near(var_hints(ctx, facts, n, from, to), from, to),
    decreases ctx.tree.nodes@.len() - n, ctx.tree.kids(n).len() + 1,
{
    if intersects(ctx, n, from, to) {
        lemma_var_hints_from_near(ctx, facts, ctx.tree.named_kids(n), from, to, 0);
        lemma_var_hints_below_near(ctx, facts, n, from, to, 0);
    }
}

proof fn lemma_var_hints_below_near(
    ctx: JavaContextExtractor,
    facts: InlayFactsView,
    n: NodeId,
    from: int,
    to: int,
    i: int,
)
    ensures
        all_near(var_hints_below(ctx, facts, n, from, to, i), from, to),
    decreases ctx.tree.nodes@.len() - n, ctx.tree.kids(n).len() - i,
{
    if 0 <= i < ctx.tree.kids(n).len() {
        let k = ctx.tree.kids(n)[i];
        if n < k && ctx.tree.has(k) {
            lemma_var_hints_near(ctx, facts, k, from, to);
        }
        lemma_var_hints_below_near(ctx, facts, n, from, to, i + 1);
    }
}

proof fn lemma_argument_hints_near(
    ctx: JavaContextExtractor,
    names: Seq<Option<Seq<char>>>,
    args: Seq<NodeId>,
    from: int,
    to: int,
    i: int,
)
    ensures
        all_near(argument_hints_from(ctx, names, args, from, to, i), from, to),
    decreases args.len() - i,
{
    if 0 <= i < args.len() {
        lemma_argument_hints_near(ctx, names, args, from, to, i + 1);
    }
}

proof fn lemma_parameter_hints_near(
    ctx: JavaContextExtractor,
    facts: InlayFactsView,
    n: NodeId,
    from: int,
    to: int,
)
    ensures
        all_near(parameter_hints(ctx, facts, n, from, to), from, to),
    decreases ctx.tree.nodes@.len() - n, ctx.tree.kids(n).len() + 1,
{
    if intersects(ctx, n, from, to) {
        if let (Some(site), Some(args)) = (site_at(ctx, n), ctx.tree.field_of(n, "arguments"@)) {
            if let Some(names) = parameters_at(facts.calls, just_inside(ctx, args), site, 0) {
                lemma_argument_hints_near(ctx, names, ctx.tree.named_kids(args), from, to, 0);
            }
        }
        lemma_parameter_hints_below_near(ctx, facts, n, from, to, 0);
    }
}

proof fn lemma_parameter_hints_below_near(
    ctx: JavaContextExtractor,
    facts: InlayFactsView,
    n: NodeId,
    from: int,
    to: int,
    i: int,
)
    ensures
        all_near(parameter_hints_below(ctx, facts, n, from, to, i), from, to),
    decreases ctx.tree.nodes@.len() - n, ctx.tree.kids(n).len() - i,
{
    if 0 <= i < ctx.tree.kids(n).len() {
        let k = ctx.tree.kids(n)[i];
        if n < k && ctx.tree.has(k) {
            lemma_parameter_hints_near(ctx, facts, k, from, to);
        }
        lemma_parameter_hints_below_near(ctx, facts, n, from, to, i + 1);
    }
}

/// No hint is given for what lies outside of the range: a type is shown behind its beginning, the
/// name of a parameter before its end.
pub proof fn lemma_hints_are_near(
    ctx: JavaContextExtractor,
    facts: InlayFactsView,
    root: NodeId,
    from: int,
    to: int,
)
    ensures
        all_near(all_hints(ctx, facts, root, from, to), from, to),
{
    let hints = var_hints(ctx, facts, root, from, to) + parameter_hints(ctx, facts, root, from, to);
    lemma_var_hints_near(ctx, facts, root, from, to);
    lemma_parameter_hints_near(ctx, facts, root, from, to);
    assert(all_near(hints, from, to));
    lemma_sorting_keeps_near(hints, hints.len() as int, from, to);
}

proof fn lemma_sorting_keeps_near(hints: Seq<HintView>, j: int, from: int, to: int)
    requires
        0 <= j <= hints.len(),
        all_near(hints, from, to),
    ensures
        all_near(in_order(hints, j), from, to),
    decreases j,
{
    if j > 0 {
        lemma_sorting_keeps_near(hints, j - 1, from, to);
        let before = in_order(hints, j - 1);
        lemma_place_for(before, hints[j - 1], before.len() as int);
    }
}

} // verus!
