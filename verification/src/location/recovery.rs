//! Rules that read what the parser recovered from incomplete code.
use vstd::prelude::*;
use vstd::slice::slice_subrange;

use crate::extractor::{strip_sentinel, unmarked, JavaContextExtractor};
use crate::syntax::{KindClass, NodeId, SyntaxTree};
use crate::text::{
    contains_char, last_index_of, rfind_char, spells, to_text, trim, trim_end, trim_start, trimmed,
    trimmed_end, trimmed_start,
};

verus! {

// ---- declarations that are no declarations -----------------------------------------------------

/// The first node in `ids`, from place `i` on, that is neither modifiers nor a declarator.
pub open spec fn declared_type_from(t: &SyntaxTree, ids: Seq<NodeId>, i: int) -> Option<NodeId>
    decreases ids.len() - i,
{
    if i < 0 || i >= ids.len() {
        None
    } else if t.kind_of(ids[i]) != "modifiers"@ && t.kind_of(ids[i]) != "variable_declarator"@ {
        Some(ids[i])
    } else {
        declared_type_from(t, ids, i + 1)
    }
}

fn declared_type(t: &SyntaxTree, ids: &[NodeId]) -> (r: Option<NodeId>)
    requires
        t.all_in(ids@),
    ensures
        r == declared_type_from(t, ids@, 0),
        r matches Some(k) ==> t.has(k),
{
    let mut i: usize = 0;
    while i < ids.len()
        invariant
            i <= ids@.len(),
            t.all_in(ids@),
            declared_type_from(t, ids@, 0) == declared_type_from(t, ids@, i as int),
        decreases ids@.len() - i,
    {
        if !t.is_kind(ids[i], "modifiers") && !t.is_kind(ids[i], "variable_declarator") {
            return Some(ids[i]);
        }
        i += 1;
    }
    None
}

/// The name of a declarator.
pub open spec fn declarator_name(t: &SyntaxTree, declarator: NodeId) -> Option<NodeId> {
    match t.field_of(declarator, "name"@) {
        Some(n) => Some(n),
        None => t.first_class(t.named_kids(declarator), KindClass::Identifier),
    }
}

fn name_of_declarator(t: &SyntaxTree, declarator: NodeId) -> (r: Option<NodeId>)
    requires
        t.has(declarator),
        t.linked(),
    ensures
        r == declarator_name(t, declarator),
        r matches Some(k) ==> t.has(k),
{
    match t.child_by_field(declarator, "name") {
        Some(n) => Some(n),
        None => t.first_in_class(t.named_children(declarator), KindClass::Identifier),
    }
}

/// The first node in `ids`, from place `i` on, that is no extra.
pub open spec fn first_proper_from(t: &SyntaxTree, ids: Seq<NodeId>, i: int) -> Option<NodeId>
    decreases ids.len() - i,
{
    if i < 0 || i >= ids.len() {
        None
    } else if !t.node(ids[i]).extra {
        Some(ids[i])
    } else {
        first_proper_from(t, ids, i + 1)
    }
}

/// Whether the first child of `n`, extras aside, is a dot.
pub open spec fn begins_with_dot(t: &SyntaxTree, n: NodeId) -> bool {
    match first_proper_from(t, t.kids(n), 0) {
        Some(k) => t.kind_of(k) == "."@,
        None => false,
    }
}

fn starts_with_dot(t: &SyntaxTree, n: NodeId) -> (r: bool)
    requires
        t.has(n),
        t.linked(),
    ensures
        r == begins_with_dot(t, n),
{
    let ids = t.children(n);
    let mut i: usize = 0;
    while i < ids.len()
        invariant
            i <= ids@.len(),
            ids@ == t.kids(n),
            t.has(n),
            t.linked(),
            first_proper_from(t, ids@, 0) == first_proper_from(t, ids@, i as int),
        decreases ids@.len() - i,
    {
        if !t.nodes[ids[i]].extra {
            return t.is_kind(ids[i], ".");
        }
        i += 1;
    }
    false
}

/// Whether every node in `ids` is of the class.
pub open spec fn all_in_class(t: &SyntaxTree, ids: Seq<NodeId>, class: KindClass) -> bool {
    forall|i: int| 0 <= i < ids.len() ==> class.has(t.kind_of(#[trigger] ids[i]))
}

fn is_all_in_class(t: &SyntaxTree, ids: &[NodeId], class: KindClass) -> (r: bool)
    requires
        t.all_in(ids@),
    ensures
        r == all_in_class(t, ids@, class),
{
    let mut i: usize = 0;
    while i < ids.len()
        invariant
            i <= ids@.len(),
            t.all_in(ids@),
            forall|k: int| 0 <= k < i ==> class.has(t.kind_of(#[trigger] ids@[k])),
        decreases ids@.len() - i,
    {
        if !t.is_in(ids[i], class) {
            return false;
        }
        i += 1;
    }
    true
}

/// Whether an error between a type and a declarator holds a qualified type of the next line.
pub open spec fn qualified_type_tail(
    ctx: &JavaContextExtractor,
    error: NodeId,
    ty: NodeId,
    declarator: NodeId,
) -> bool {
    let t = &ctx.tree;
    &&& t.start_of(error) > t.end_of(ty)
    &&& t.end_of(error) <= t.start_of(declarator)
    &&& ctx.piece(t.end_of(ty), t.start_of(error)).contains('\n')
    &&& t.first_kind(t.kids(error), "."@) is Some
    &&& t.named_kids(error).len() >= 2
    &&& all_in_class(t, t.named_kids(error), KindClass::TypeLikeOrIdentifier)
}

pub fn is_recovered_qualified_type_tail(
    ctx: &JavaContextExtractor,
    error: NodeId,
    ty: NodeId,
    declarator: NodeId,
) -> (r: bool)
    requires
        ctx.wf(),
        ctx.tree.has(error),
        ctx.tree.has(ty),
        ctx.tree.has(declarator),
    ensures
        r == qualified_type_tail(ctx, error, ty, declarator),
{
    let t = &ctx.tree;
    if t.start(error) <= t.end(ty) || t.end(error) > t.start(declarator) {
        return false;
    }
    if !contains_char(ctx.byte_slice(t.end(ty), t.start(error)), '\n') {
        return false;
    }
    t.first_of_kind(t.children(error), ".").is_some() && t.named_children(error).len() >= 2
        && is_all_in_class(t, t.named_children(error), KindClass::TypeLikeOrIdentifier)
}

/// Whether the text is `super` or `this`.
pub open spec fn is_self(s: Seq<char>) -> bool {
    s == "super"@ || s == "this"@
}

fn names_self(s: &[char]) -> (r: bool)
    ensures
        r == is_self(s@),
{
    spells(s, "super") || spells(s, "this")
}

/// Whether the node after the declaration begins with an opening parenthesis.
pub open spec fn call_follows(ctx: &JavaContextExtractor, decl: NodeId) -> bool {
    match ctx.tree.next_of(decl) {
        Some(next) => {
            let s = trim_start(ctx.text_of(next));
            s.len() > 0 && s[0] == '('
        },
        None => false,
    }
}

pub fn is_followed_by_call(ctx: &JavaContextExtractor, decl: NodeId) -> (r: bool)
    requires
        ctx.wf(),
        ctx.tree.has(decl),
    ensures
        r == call_follows(ctx, decl),
{
    match ctx.tree.next_sibling(decl) {
        Some(next) => {
            let s = trimmed_start(ctx.node_text(next));
            s.len() > 0 && s[0] == '('
        },
        None => false,
    }
}

/// Whether the errors that the parser left in a declaration show that its type, on a line of its
/// own, is an expression: `super.` or `this.` or a qualified type on the next line, or an
/// identifier that the declarator's initializer could not take.
pub open spec fn misread_by_errors(
    ctx: &JavaContextExtractor,
    decl: NodeId,
    ty: NodeId,
    declarator: NodeId,
    own: bool,
) -> bool {
    let t = &ctx.tree;
    let direct = t.first_kind(t.kids(decl), "ERROR"@);
    let inner = t.first_kind(t.kids(declarator), "ERROR"@);
    ||| direct is Some && own && begins_with_dot(t, direct->0)
    ||| direct is Some && qualified_type_tail(ctx, direct->0, ty, declarator)
    ||| inner is Some && t.first_kind(t.kids(declarator), "="@) is Some && t.first_class(
        t.named_kids(inner->0),
        KindClass::Identifier,
    ) is Some
}

fn is_misread_by_errors(
    ctx: &JavaContextExtractor,
    decl: NodeId,
    ty: NodeId,
    declarator: NodeId,
    own: bool,
) -> (r: bool)
    requires
        ctx.wf(),
        ctx.tree.has(decl),
        ctx.tree.has(ty),
        ctx.tree.has(declarator),
    ensures
        r == misread_by_errors(ctx, decl, ty, declarator, own),
{
    let t = &ctx.tree;
    if let Some(error) = t.first_of_kind(t.children(decl), "ERROR") {
        if own && starts_with_dot(t, error) {
            return true;
        }
        if is_recovered_qualified_type_tail(ctx, error, ty, declarator) {
            return true;
        }
    }
    match t.first_of_kind(t.children(declarator), "ERROR") {
        Some(error) => t.first_of_kind(t.children(declarator), "=").is_some() && t.first_in_class(
            t.named_children(error),
            KindClass::Identifier,
        ).is_some(),
        None => false,
    }
}

/// Whether an identifier in a local variable declaration is really an expression on a line of its
/// own that the parser joined with the next line.
pub open spec fn misread_expression(ctx: &JavaContextExtractor, n: NodeId, decl: NodeId) -> bool {
    let t = &ctx.tree;
    &&& t.kind_of(decl) == "local_variable_declaration"@
    &&& {
        ||| call_follows(ctx, decl)
        ||| match (
            declared_type_from(t, t.named_kids(decl), 0),
            t.first_kind(t.named_kids(decl), "variable_declarator"@),
        ) {
            (Some(ty), Some(declarator)) => match declarator_name(t, declarator) {
                Some(name) => {
                    let own = is_self(trim(ctx.text_of(name)));
                    &&& t.descends(n, ty)
                    &&& own || ctx.piece(t.end_of(ty), t.start_of(name)).contains('\n')
                    &&& misread_by_errors(ctx, decl, ty, declarator, own)
                },
                None => false,
            },
            _ => false,
        }
    }
}

/// Tells an expression that the parser took for the type of a declaration.
///
/// `str\nfunc(...)`, `expr\nsuper.foo()` and `expr\nType.Name name = ...` are recovered as
/// declarations of a variable whose type is the first line.
pub fn is_misread_expression_in_local_decl(
    ctx: &JavaContextExtractor,
    n: NodeId,
    decl: NodeId,
) -> (r: bool)
    requires
        ctx.wf(),
        ctx.tree.has(n),
        ctx.tree.has(decl),
    ensures
        r == misread_expression(ctx, n, decl),
{
    let t = &ctx.tree;
    if !t.is_kind(decl, "local_variable_declaration") {
        return false;
    }
    if is_followed_by_call(ctx, decl) {
        return true;
    }
    let kids = t.named_children(decl);
    match (declared_type(t, kids), t.first_of_kind(kids, "variable_declarator")) {
        (Some(ty), Some(declarator)) => match name_of_declarator(t, declarator) {
            Some(name) => {
                if !t.is_descendant_of(n, ty) {
                    return false;
                }
                let own = names_self(trimmed(ctx.node_text(name)));
                if !own && !contains_char(ctx.byte_slice(t.end(ty), t.start(name)), '\n') {
                    return false;
                }
                is_misread_by_errors(ctx, decl, ty, declarator, own)
            },
            None => false,
        },
        _ => false,
    }
}

/// The receiver and the member prefix round the last dot before the cursor, where an error below
/// the declaration shows that the declaration is a member access.
pub open spec fn member_tail(ctx: &JavaContextExtractor, n: NodeId, decl: NodeId) -> Option<
    (Seq<char>, Seq<char>),
> {
    let t = &ctx.tree;
    let s = trim_end(unmarked(ctx.piece(t.start_of(decl), ctx.offset as int)));
    match (t.ancestor(n, "ERROR"@), last_index_of(s, '.')) {
        (Some(error), Some(dot)) => if t.descends(error, decl) && trim(s.take(dot)).len() > 0 {
            Some((trim(s.take(dot)), trim(s.skip(dot + 1))))
        } else {
            None
        },
        _ => None,
    }
}

/// Detects a member access that the parser took for a declaration (`a.put` as a variable `put`).
pub fn detect_member_tail_in_misread_local_decl(
    ctx: &JavaContextExtractor,
    n: NodeId,
    decl: NodeId,
) -> (r: Option<(String, String)>)
    requires
        ctx.wf(),
        ctx.tree.has(n),
        ctx.tree.has(decl),
    ensures
        r.deep_view() == member_tail(ctx, n, decl),
{
    let t = &ctx.tree;
    match t.ancestor_of_kind(n, "ERROR") {
        Some(error) => {
            if !t.is_descendant_of(error, decl) {
                return None;
            }
            let clean = strip_sentinel(ctx.byte_slice(t.start(decl), ctx.offset));
            let s = trimmed_end(&clean);
            match rfind_char(s, '.') {
                Some(dot) => {
                    let k: usize = s.len();
                    let head = slice_subrange(s, 0, dot);
                    let tail = slice_subrange(s, dot + 1, k);
                    assert(head@ =~= s@.take(dot as int));
                    assert(tail@ =~= s@.skip(dot + 1));
                    let receiver = trimmed(head);
                    if receiver.len() == 0 {
                        None
                    } else {
                        Some((to_text(receiver), to_text(trimmed(tail))))
                    }
                },
                None => None,
            }
        },
        None => None,
    }
}

// ---- semicolons of an error --------------------------------------------------------------------

/// Whether a `for` header holds the node, below `root`.
pub open spec fn in_for_header(t: &SyntaxTree, n: NodeId, root: NodeId) -> bool
    decreases n,
{
    match t.parent_of(n) {
        Some(p) => {
            &&& p < n
            &&& p != root
            &&& t.kind_of(p) == "for_statement"@ || in_for_header(t, p, root)
        },
        None => false,
    }
}

pub fn semicolon_in_for_header(t: &SyntaxTree, n: NodeId, root: NodeId) -> (r: bool)
    requires
        t.has(n),
        t.linked(),
    ensures
        r == in_for_header(t, n, root),
{
    let mut cur: NodeId = n;
    loop
        invariant
            cur <= n,
            t.has(n),
            t.linked(),
            in_for_header(t, n, root) == in_for_header(t, cur, root),
        decreases cur,
    {
        match t.parent(cur) {
            Some(p) => {
                if p == root {
                    return false;
                }
                if t.is_kind(p, "for_statement") {
                    return true;
                }
                cur = p;
            },
            None => {
                return false;
            },
        }
    }
}

/// The spans of the semicolons below `n` that end statements, in the order of the text.
pub open spec fn semicolons(t: &SyntaxTree, n: NodeId, root: NodeId) -> Seq<(usize, usize)>
    decreases t.nodes@.len() - n, t.kids(n).len() + 1,
{
    semicolons_from(t, n, root, 0)
}

/// The same, over the children of `n` from place `i` on.
pub open spec fn semicolons_from(t: &SyntaxTree, n: NodeId, root: NodeId, i: int) -> Seq<
    (usize, usize),
>
    decreases t.nodes@.len() - n, t.kids(n).len() - i,
{
    if i < 0 || i >= t.kids(n).len() {
        Seq::empty()
    } else {
        let k = t.kids(n)[i];
        let here = if t.kind_of(k) == ";"@ {
            if in_for_header(t, k, root) {
                Seq::empty()
            } else {
                seq![(t.node(k).start, t.node(k).end)]
            }
        } else if n < k && t.has(k) {
            semicolons(t, k, root)
        } else {
            Seq::empty()
        };
        here + semicolons_from(t, n, root, i + 1)
    }
}

pub fn collect_semicolon_positions(t: &SyntaxTree, n: NodeId, root: NodeId) -> (r: Vec<
    (usize, usize),
>)
    requires
        t.has(n),
        t.linked(),
    ensures
        r@ == semicolons(t, n, root),
    decreases t.nodes@.len() - n,
{
    let mut out: Vec<(usize, usize)> = Vec::new();
    let kids = t.children(n);
    let mut i: usize = 0;
    while i < kids.len()
        invariant
            i <= kids@.len(),
            kids@ == t.kids(n),
            t.has(n),
            t.linked(),
            semicolons(t, n, root) == out@ + semicolons_from(t, n, root, i as int),
        decreases kids@.len() - i,
    {
        let k = kids[i];
        let ghost before = out@;
        if t.is_kind(k, ";") {
            if !semicolon_in_for_header(t, k, root) {
                out.push((t.start(k), t.end(k)));
                assert(out@ =~= before + seq![(t.node(k).start, t.node(k).end)]);
            } else {
                assert(out@ =~= before + Seq::<(usize, usize)>::empty());
            }
        } else {
            let mut more = collect_semicolon_positions(t, k, root);
            out.append(&mut more);
        }
        i += 1;
    }
    out
}

/// The greatest end among the spans from place `i` on that end by `limit`, against `best`.
pub open spec fn last_end(spans: Seq<(usize, usize)>, limit: int, best: Option<int>, i: int) -> Option<
    int,
>
    decreases spans.len() - i,
{
    if i < 0 || i >= spans.len() {
        best
    } else {
        let e = spans[i].1 as int;
        if e <= limit && (best is None || best->0 < e) {
            last_end(spans, limit, Some(e), i + 1)
        } else {
            last_end(spans, limit, best, i + 1)
        }
    }
}

/// The least start among the spans from place `i` on that start at `limit` or later, against
/// `best`.
pub open spec fn first_start(spans: Seq<(usize, usize)>, limit: int, best: Option<int>, i: int) -> Option<
    int,
>
    decreases spans.len() - i,
{
    if i < 0 || i >= spans.len() {
        best
    } else {
        let b = spans[i].0 as int;
        if b >= limit && (best is None || b < best->0) {
            first_start(spans, limit, Some(b), i + 1)
        } else {
            first_start(spans, limit, best, i + 1)
        }
    }
}

/// The end of the last statement that a semicolon ends by `limit`.
pub open spec fn semicolon_before(t: &SyntaxTree, error: NodeId, limit: int) -> Option<int> {
    last_end(semicolons(t, error, error), limit, None, 0)
}

/// The first semicolon at `limit` or later.
pub open spec fn semicolon_after(t: &SyntaxTree, error: NodeId, limit: int) -> Option<int> {
    first_start(semicolons(t, error, error), limit, None, 0)
}

pub fn find_last_semicolon_before(t: &SyntaxTree, error: NodeId, limit: usize) -> (r: Option<usize>)
    requires
        t.has(error),
        t.linked(),
    ensures
        crate::text::at(r) == semicolon_before(t, error, limit as int),
{
    let spans = collect_semicolon_positions(t, error, error);
    let mut best: Option<usize> = None;
    let mut i: usize = 0;
    while i < spans.len()
        invariant
            i <= spans@.len(),
            last_end(spans@, limit as int, None, 0) == last_end(
                spans@,
                limit as int,
                crate::text::at(best),
                i as int,
            ),
        decreases spans@.len() - i,
    {
        let e: usize = spans[i].1;
        if e <= limit {
            match best {
                Some(b) => {
                    if b < e {
                        best = Some(e);
                    }
                },
                None => {
                    best = Some(e);
                },
            }
        }
        i += 1;
    }
    best
}

pub fn find_next_semicolon_after(t: &SyntaxTree, error: NodeId, limit: usize) -> (r: Option<usize>)
    requires
        t.has(error),
        t.linked(),
    ensures
        crate::text::at(r) == semicolon_after(t, error, limit as int),
{
    let spans = collect_semicolon_positions(t, error, error);
    let mut best: Option<usize> = None;
    let mut i: usize = 0;
    while i < spans.len()
        invariant
            i <= spans@.len(),
            first_start(spans@, limit as int, None, 0) == first_start(
                spans@,
                limit as int,
                crate::text::at(best),
                i as int,
            ),
        decreases spans@.len() - i,
    {
        let b: usize = spans[i].0;
        if b >= limit {
            match best {
                Some(old) => {
                    if b < old {
                        best = Some(b);
                    }
                },
                None => {
                    best = Some(b);
                },
            }
        }
        i += 1;
    }
    best
}

} // verus!
