//! Rules for variable declarations that are being typed.
use vstd::prelude::*;
use vstd::slice::slice_subrange;

use crate::extractor::{
    cursor_truncated_text, is_java_keyword, is_keyword, strip_sentinel, unmarked,
    JavaContextExtractor,
};
use crate::location::heuristics::{new_before_cursor, new_before_cursor_in};
use crate::location::recovery::{
    find_last_semicolon_before, find_next_semicolon_after, semicolon_after, semicolon_before,
};
use crate::location::text::{last_line, non_empty, unless_empty};
use crate::location::utils::{
    at_constructor, at_member, at_variable_name, constructor_call, member_access, variable_name,
    Located,
};
use crate::semantic::CursorLocation;
use crate::syntax::{KindClass, NodeId, SyntaxTree};
use crate::text::{
    all_of, any_of, contains_char, ending_run, find, find_text, has_any, is_all, take_while,
    taken_while, to_text, trim, trim_start, trimmed, trimmed_start, CharClass,
};

verus! {

// ---- the declaration before --------------------------------------------------------------------

/// Whether `n` is a declaration that has a declarator.
pub open spec fn complete_declaration(t: &SyntaxTree, n: NodeId) -> bool {
    &&& KindClass::VariableDeclaration.has(t.kind_of(n))
    &&& t.first_kind(t.named_kids(n), "variable_declarator"@) is Some
}

pub fn is_complete_variable_declaration(t: &SyntaxTree, n: NodeId) -> (r: bool)
    requires
        t.has(n),
        t.linked(),
    ensures
        r == complete_declaration(t, n),
{
    t.is_in(n, KindClass::VariableDeclaration) && t.first_of_kind(
        t.named_children(n),
        "variable_declarator",
    ).is_some()
}

pub open spec fn or_else(a: Option<NodeId>, b: Option<NodeId>) -> Option<NodeId> {
    match a {
        Some(n) => Some(n),
        None => b,
    }
}

/// The last complete declaration at or below `n` that ends by `limit`, through named nodes that
/// start by `limit`; without a limit, the last of all.
pub open spec fn last_declaration(t: &SyntaxTree, n: NodeId, limit: Option<int>) -> Option<NodeId>
    decreases t.nodes@.len() - n, t.named_kids(n).len() + 1,
{
    last_declaration_from(
        t,
        n,
        limit,
        0,
        if complete_declaration(t, n) && (limit is None || t.end_of(n) <= limit->0) {
            Some(n)
        } else {
            None
        },
    )
}

/// The same, over the named children of `n` from place `i` on, against `last`.
pub open spec fn last_declaration_from(
    t: &SyntaxTree,
    n: NodeId,
    limit: Option<int>,
    i: int,
    last: Option<NodeId>,
) -> Option<NodeId>
    decreases t.nodes@.len() - n, t.named_kids(n).len() - i,
{
    if i < 0 || i >= t.named_kids(n).len() {
        last
    } else {
        let k = t.named_kids(n)[i];
        if limit is Some && t.start_of(k) > limit->0 {
            last
        } else if n < k && t.has(k) {
            last_declaration_from(t, n, limit, i + 1, or_else(last_declaration(t, k, limit), last))
        } else {
            last
        }
    }
}

pub open spec fn limit_view(limit: Option<usize>) -> Option<int> {
    crate::text::at(limit)
}

pub fn find_last_complete_decl_before_in(t: &SyntaxTree, n: NodeId, limit: Option<usize>) -> (r:
    Option<NodeId>)
    requires
        t.has(n),
        t.linked(),
    ensures
        r == last_declaration(t, n, limit_view(limit)),
        r matches Some(k) ==> t.has(k),
    decreases t.nodes@.len() - n,
{
    let mut last: Option<NodeId> = None;
    let fits: bool = match limit {
        Some(l) => t.end(n) <= l,
        None => true,
    };
    if fits && is_complete_variable_declaration(t, n) {
        last = Some(n);
    }
    let kids = t.named_children(n);
    let mut i: usize = 0;
    while i < kids.len()
        invariant
            i <= kids@.len(),
            kids@ == t.named_kids(n),
            t.has(n),
            t.linked(),
            last matches Some(k) ==> t.has(k),
            last_declaration(t, n, limit_view(limit)) == last_declaration_from(
                t,
                n,
                limit_view(limit),
                i as int,
                last,
            ),
        decreases kids@.len() - i,
    {
        let k = kids[i];
        if let Some(l) = limit {
            if t.start(k) > l {
                return last;
            }
        }
        if let Some(found) = find_last_complete_decl_before_in(t, k, limit) {
            last = Some(found);
        }
        i += 1;
    }
    last
}

/// The last complete declaration among the named children of a container before a position, from
/// place `i` on, against `last`.
pub open spec fn declaration_before_from(
    t: &SyntaxTree,
    kids: Seq<NodeId>,
    position: int,
    i: int,
    last: Option<NodeId>,
) -> Option<NodeId>
    decreases kids.len() - i,
{
    if i < 0 || i >= kids.len() || t.start_of(kids[i]) >= position {
        last
    } else {
        declaration_before_from(
            t,
            kids,
            position,
            i + 1,
            or_else(last_declaration(t, kids[i], None), last),
        )
    }
}

pub fn find_last_complete_decl_before(t: &SyntaxTree, container: NodeId, stmt: NodeId) -> (r:
    Option<NodeId>)
    requires
        t.has(container),
        t.has(stmt),
        t.linked(),
    ensures
        r == declaration_before_from(t, t.named_kids(container), t.start_of(stmt), 0, None),
        r matches Some(k) ==> t.has(k),
{
    let kids = t.named_children(container);
    let mut last: Option<NodeId> = None;
    let mut i: usize = 0;
    while i < kids.len()
        invariant
            i <= kids@.len(),
            kids@ == t.named_kids(container),
            t.has(container),
            t.has(stmt),
            t.linked(),
            last matches Some(k) ==> t.has(k),
            declaration_before_from(t, kids@, t.start_of(stmt), 0, None)
                == declaration_before_from(t, kids@, t.start_of(stmt), i as int, last),
        decreases kids@.len() - i,
    {
        let k = kids[i];
        if t.start(k) >= t.start(stmt) {
            return last;
        }
        if let Some(found) = find_last_complete_decl_before_in(t, k, None) {
            last = Some(found);
        }
        i += 1;
    }
    last
}

/// The last complete declaration of an error before its last semicolon before `id`.
pub open spec fn declaration_in_error(t: &SyntaxTree, stmt: NodeId, id: NodeId) -> Option<NodeId> {
    if t.kind_of(stmt) != "ERROR"@ {
        None
    } else {
        match semicolon_before(t, stmt, t.start_of(id)) {
            Some(limit) => last_declaration(t, stmt, Some(limit)),
            None => None,
        }
    }
}

pub fn find_last_complete_decl_within_error(t: &SyntaxTree, stmt: NodeId, id: NodeId) -> (r: Option<
    NodeId,
>)
    requires
        t.has(stmt),
        t.has(id),
        t.linked(),
    ensures
        r == declaration_in_error(t, stmt, id),
        r matches Some(k) ==> t.has(k),
{
    if !t.is_kind(stmt, "ERROR") {
        return None;
    }
    match find_last_semicolon_before(t, stmt, t.start(id)) {
        Some(limit) => find_last_complete_decl_before_in(t, stmt, Some(limit)),
        None => None,
    }
}

/// The nearest container of `n` and the node below it on the way to `n`.
pub open spec fn container_and_statement(t: &SyntaxTree, n: NodeId) -> Option<(NodeId, NodeId)>
    decreases n,
{
    match t.parent_of(n) {
        Some(p) => if p >= n {
            None
        } else if KindClass::Container.has(t.kind_of(p)) {
            Some((p, n))
        } else {
            container_and_statement(t, p)
        },
        None => None,
    }
}

pub fn find_container_and_stmt(t: &SyntaxTree, n: NodeId) -> (r: Option<(NodeId, NodeId)>)
    requires
        t.has(n),
        t.linked(),
    ensures
        r == container_and_statement(t, n),
        r matches Some((a, b)) ==> t.has(a) && t.has(b),
{
    let mut cur: NodeId = n;
    loop
        invariant
            cur <= n,
            t.has(n),
            t.linked(),
            container_and_statement(t, n) == container_and_statement(t, cur),
        decreases cur,
    {
        match t.parent(cur) {
            Some(p) => {
                if t.is_in(p, KindClass::Container) {
                    return Some((p, cur));
                }
                cur = p;
            },
            None => {
                return None;
            },
        }
    }
}

/// Whether the line before the cursor is one identifier, or is blank with an identifier at the
/// cursor.
pub open spec fn simple_line(ctx: &JavaContextExtractor) -> bool {
    let s = trim(last_line(ctx.before()));
    if s.len() == 0 {
        ctx.offset < ctx.source@.len() && CharClass::Ident.has(ctx.source@[ctx.offset as int])
    } else {
        all_of(s, CharClass::Ident)
    }
}

pub fn line_prefix_is_simple_identifier(ctx: &JavaContextExtractor) -> (r: bool)
    requires
        ctx.wf(),
    ensures
        r == simple_line(ctx),
{
    let s = trimmed(ending_run(ctx.text_before(), CharClass::NotNewline));
    if s.len() == 0 {
        ctx.offset < ctx.source.len() && CharClass::Ident.test(ctx.source[ctx.offset])
    } else {
        is_all(s, CharClass::Ident)
    }
}

/// Whether the cursor is behind the node with white space in between.
pub open spec fn space_before_cursor(ctx: &JavaContextExtractor, n: NodeId) -> bool {
    any_of(ctx.piece(ctx.tree.end_of(n), ctx.offset as int), CharClass::White)
}

pub fn cursor_after_identifier_with_space(ctx: &JavaContextExtractor, n: NodeId) -> (r: bool)
    requires
        ctx.wf(),
        ctx.tree.has(n),
    ensures
        r == space_before_cursor(ctx, n),
{
    has_any(ctx.byte_slice(ctx.tree.end(n), ctx.offset), CharClass::White)
}

/// Whether one of the nodes, from place `i` on, is a semicolon at `offset` or later.
pub open spec fn semicolon_among(t: &SyntaxTree, kids: Seq<NodeId>, offset: int, i: int) -> bool
    decreases kids.len() - i,
{
    if i < 0 || i >= kids.len() {
        false
    } else {
        ||| t.kind_of(kids[i]) == ";"@ && t.start_of(kids[i]) >= offset
        ||| semicolon_among(t, kids, offset, i + 1)
    }
}

/// Whether the statement has a semicolon at the cursor or behind it.
pub open spec fn semicolon_follows(t: &SyntaxTree, stmt: NodeId, offset: int) -> bool {
    if t.kind_of(stmt) == "ERROR"@ {
        semicolon_after(t, stmt, offset) is Some
    } else {
        semicolon_among(t, t.kids(stmt), offset, 0)
    }
}

pub fn has_semicolon_after_cursor_in_stmt(t: &SyntaxTree, stmt: NodeId, offset: usize) -> (r: bool)
    requires
        t.has(stmt),
        t.linked(),
    ensures
        r == semicolon_follows(t, stmt, offset as int),
{
    if t.is_kind(stmt, "ERROR") {
        return find_next_semicolon_after(t, stmt, offset).is_some();
    }
    let kids = t.children(stmt);
    let mut i: usize = 0;
    while i < kids.len()
        invariant
            i <= kids@.len(),
            kids@ == t.kids(stmt),
            t.has(stmt),
            t.linked(),
            t.kind_of(stmt) != "ERROR"@,
            semicolon_among(t, kids@, offset as int, 0) == semicolon_among(
                t,
                kids@,
                offset as int,
                i as int,
            ),
        decreases kids@.len() - i,
    {
        if t.is_kind(kids[i], ";") && t.start(kids[i]) >= offset {
            return true;
        }
        i += 1;
    }
    false
}

/// A type text, unless it is empty or a keyword.
pub open spec fn usable_type(s: Seq<char>) -> Option<Seq<char>> {
    if s.len() == 0 || is_keyword(s) {
        None
    } else {
        Some(s)
    }
}

fn usable(s: &[char]) -> (r: Option<String>)
    ensures
        r.deep_view() == usable_type(s@),
{
    if s.len() == 0 || is_java_keyword(s) {
        None
    } else {
        Some(to_text(s))
    }
}

/// The type of a declaration, unless it is empty or a keyword.
pub open spec fn declaration_type(ctx: &JavaContextExtractor, decl: NodeId) -> Option<Seq<char>> {
    let t = &ctx.tree;
    if !KindClass::VariableDeclaration.has(t.kind_of(decl)) {
        None
    } else {
        match t.first_other(t.named_kids(decl), "modifiers"@) {
            Some(ty) => usable_type(unmarked(trim(ctx.text_of(ty)))),
            None => None,
        }
    }
}

pub fn extract_type_from_decl_like(ctx: &JavaContextExtractor, decl: NodeId) -> (r: Option<String>)
    requires
        ctx.wf(),
        ctx.tree.has(decl),
    ensures
        r.deep_view() == declaration_type(ctx, decl),
{
    let t = &ctx.tree;
    if !t.is_in(decl, KindClass::VariableDeclaration) {
        return None;
    }
    match t.first_not_of_kind(t.named_children(decl), "modifiers") {
        Some(ty) => {
            let s = strip_sentinel(trimmed(ctx.node_text(ty)));
            usable(&s)
        },
        None => None,
    }
}

/// Whether the text looks like the declaration of an array.
pub fn looks_like_array_declaration(s: &[char]) -> (r: bool)
    ensures
        r == (find(s@, "[]"@) is Some),
{
    find_text(s, "[]").is_some()
}

/// The type that the statement round `id` begins, where a declaration of an array stands before
/// it on another line.
pub open spec fn type_after_declaration(
    ctx: &JavaContextExtractor,
    id: NodeId,
    stmt: NodeId,
    prev: NodeId,
) -> Option<Seq<char>> {
    let t = &ctx.tree;
    if find(ctx.text_of(prev), "[]"@) is None || !ctx.piece(
        t.end_of(prev),
        t.start_of(id),
    ).contains('\n') || !KindClass::DeclarationLike.has(t.kind_of(stmt)) {
        None
    } else {
        match declaration_type(ctx, stmt) {
            Some(ty) => Some(ty),
            None => usable_type(unmarked(trim(ctx.text_of(id)))),
        }
    }
}

fn find_type_after_declaration(
    ctx: &JavaContextExtractor,
    id: NodeId,
    stmt: NodeId,
    prev: NodeId,
) -> (r: Option<String>)
    requires
        ctx.wf(),
        ctx.tree.has(id),
        ctx.tree.has(stmt),
        ctx.tree.has(prev),
    ensures
        r.deep_view() == type_after_declaration(ctx, id, stmt, prev),
{
    let t = &ctx.tree;
    if !looks_like_array_declaration(ctx.node_text(prev)) || !contains_char(
        ctx.byte_slice(t.end(prev), t.start(id)),
        '\n',
    ) || !t.is_in(stmt, KindClass::DeclarationLike) {
        return None;
    }
    match extract_type_from_decl_like(ctx, stmt) {
        Some(ty) => Some(ty),
        None => {
            let s = strip_sentinel(trimmed(ctx.node_text(id)));
            usable(&s)
        },
    }
}

/// The type whose variable's name is expected at the cursor: the identifier `id`, alone on its
/// line with white space behind it, after a complete declaration of an array, in a statement that
/// no semicolon ends behind the cursor.
pub open spec fn name_after_declaration(ctx: &JavaContextExtractor, id: NodeId) -> Option<Seq<char>> {
    let t = &ctx.tree;
    if !simple_line(ctx) || !space_before_cursor(ctx, id) {
        None
    } else {
        match container_and_statement(t, id) {
            Some((container, stmt)) => if semicolon_follows(t, stmt, ctx.offset as int) {
                None
            } else {
                match or_else(
                    declaration_before_from(
                        t,
                        t.named_kids(container),
                        t.start_of(stmt),
                        0,
                        None,
                    ),
                    declaration_in_error(t, stmt, id),
                ) {
                    Some(prev) => type_after_declaration(ctx, id, stmt, prev),
                    None => None,
                }
            },
            None => None,
        }
    }
}

/// Tells the place of a variable's name after an identifier that the parser took for an expression
/// behind a declaration of an array.
pub fn is_variable_name_after_previous_declaration(ctx: &JavaContextExtractor, id: NodeId) -> (r:
    Option<String>)
    requires
        ctx.wf(),
        ctx.tree.has(id),
    ensures
        r.deep_view() == name_after_declaration(ctx, id),
{
    let t = &ctx.tree;
    if !line_prefix_is_simple_identifier(ctx) || !cursor_after_identifier_with_space(ctx, id) {
        return None;
    }
    match find_container_and_stmt(t, id) {
        Some((container, stmt)) => {
            if has_semicolon_after_cursor_in_stmt(t, stmt, ctx.offset) {
                return None;
            }
            let prev: Option<NodeId> = match find_last_complete_decl_before(t, container, stmt) {
                Some(n) => Some(n),
                None => find_last_complete_decl_within_error(t, stmt, id),
            };
            match prev {
                Some(p) => find_type_after_declaration(ctx, id, stmt, p),
                None => None,
            }
        },
        None => None,
    }
}

// ---- a type without a name ---------------------------------------------------------------------

/// Whether a declaration without a declarator has a complete type with white space behind it.
pub open spec fn name_after_complete_type(ctx: &JavaContextExtractor, decl: NodeId) -> bool {
    let t = &ctx.tree;
    &&& t.kind_of(decl) == "local_variable_declaration"@
    &&& t.first_kind(t.named_kids(decl), "variable_declarator"@) is None
    &&& match t.first_other(t.named_kids(decl), "modifiers"@) {
        Some(ty) => {
            &&& any_of(ctx.piece(t.end_of(ty), ctx.offset as int), CharClass::White)
            &&& !is_keyword(trim(ctx.text_of(ty)))
            &&& KindClass::CompleteType.has(t.kind_of(ty))
        },
        None => false,
    }
}

pub fn is_variable_name_after_complete_type(ctx: &JavaContextExtractor, decl: NodeId) -> (r: bool)
    requires
        ctx.wf(),
        ctx.tree.has(decl),
    ensures
        r == name_after_complete_type(ctx, decl),
{
    let t = &ctx.tree;
    let kids = t.named_children(decl);
    if !t.is_kind(decl, "local_variable_declaration") || t.first_of_kind(
        kids,
        "variable_declarator",
    ).is_some() {
        return false;
    }
    match t.first_not_of_kind(kids, "modifiers") {
        Some(ty) => has_any(ctx.byte_slice(t.end(ty), ctx.offset), CharClass::White)
            && !is_java_keyword(trimmed(ctx.node_text(ty))) && t.is_in(ty, KindClass::CompleteType),
        None => false,
    }
}

/// Whether the node's span lies between two positions.
pub open spec fn lies_in(t: &SyntaxTree, n: NodeId, from: int, to: int) -> bool {
    from <= t.start_of(n) && t.end_of(n) <= to
}

/// The nodes in `ids`, from place `i` on, that lie between two positions.
pub open spec fn lying_in(t: &SyntaxTree, ids: Seq<NodeId>, from: int, to: int, i: int) -> Seq<
    NodeId,
>
    decreases ids.len() - i,
{
    if i < 0 || i >= ids.len() {
        Seq::empty()
    } else if lies_in(t, ids[i], from, to) {
        seq![ids[i]] + lying_in(t, ids, from, to, i + 1)
    } else {
        lying_in(t, ids, from, to, i + 1)
    }
}

fn nodes_between(t: &SyntaxTree, ids: &[NodeId], from: usize, to: usize) -> (r: Vec<NodeId>)
    requires
        t.all_in(ids@),
    ensures
        r@ == lying_in(t, ids@, from as int, to as int, 0),
        t.all_in(r@),
{
    let mut out: Vec<NodeId> = Vec::new();
    let mut i: usize = 0;
    while i < ids.len()
        invariant
            i <= ids@.len(),
            t.all_in(ids@),
            t.all_in(out@),
            lying_in(t, ids@, from as int, to as int, 0) == out@ + lying_in(
                t,
                ids@,
                from as int,
                to as int,
                i as int,
            ),
        decreases ids@.len() - i,
    {
        let k = ids[i];
        if from <= t.start(k) && t.end(k) <= to {
            let ghost before = out@;
            out.push(k);
            assert(out@ =~= before + seq![k]);
        }
        i += 1;
    }
    out
}

/// Whether one of the nodes, from place `i` on, that lie between two positions is `=` or `;`.
pub open spec fn sign_between(t: &SyntaxTree, ids: Seq<NodeId>, from: int, to: int, i: int) -> bool
    decreases ids.len() - i,
{
    if i < 0 || i >= ids.len() {
        false
    } else {
        ||| lies_in(t, ids[i], from, to) && (t.kind_of(ids[i]) == "="@ || t.kind_of(ids[i]) == ";"@)
        ||| sign_between(t, ids, from, to, i + 1)
    }
}

fn has_sign_between(t: &SyntaxTree, ids: &[NodeId], from: usize, to: usize) -> (r: bool)
    requires
        t.all_in(ids@),
    ensures
        r == sign_between(t, ids@, from as int, to as int, 0),
{
    let mut i: usize = 0;
    while i < ids.len()
        invariant
            i <= ids@.len(),
            t.all_in(ids@),
            sign_between(t, ids@, from as int, to as int, 0) == sign_between(
                t,
                ids@,
                from as int,
                to as int,
                i as int,
            ),
        decreases ids@.len() - i,
    {
        let k = ids[i];
        if from <= t.start(k) && t.end(k) <= to && (t.is_kind(k, "=") || t.is_kind(k, ";")) {
            return true;
        }
        i += 1;
    }
    false
}

pub open spec fn or_position(p: Option<int>, default: int) -> int {
    match p {
        Some(x) => x,
        None => default,
    }
}

/// The type that is alone in the statement at the end of an error, before the cursor: white space
/// behind it, no `=` and no `;` beside it.
pub open spec fn type_in_error(ctx: &JavaContextExtractor, error: NodeId) -> Option<Seq<char>> {
    let t = &ctx.tree;
    let from = or_position(semicolon_before(t, error, ctx.offset as int), t.start_of(error));
    let to = or_position(semicolon_after(t, error, ctx.offset as int), t.end_of(error));
    let inside = lying_in(t, t.named_kids(error), from, to, 0);
    if ctx.offset < t.end_of(error) || inside.len() != 1 {
        None
    } else {
        let ty = inside[0];
        let name = unmarked(trim(ctx.text_of(ty)));
        if !KindClass::TypeLikeOrIdentifier.has(t.kind_of(ty)) || to < t.end_of(error) || !any_of(
            ctx.piece(t.end_of(ty), ctx.offset as int),
            CharClass::White,
        ) || (t.kind_of(ty) == "identifier"@ && is_keyword(trim(ctx.text_of(ty)))) || sign_between(
            t,
            t.kids(error),
            from,
            to,
            0,
        ) {
            None
        } else {
            unless_empty(name)
        }
    }
}

/// Detects the place of a variable's name in an error that holds only a type.
pub fn detect_variable_name_position_in_error(ctx: &JavaContextExtractor, error: NodeId) -> (r:
    Option<String>)
    requires
        ctx.wf(),
        ctx.tree.has(error),
    ensures
        r.deep_view() == type_in_error(ctx, error),
{
    let t = &ctx.tree;
    if ctx.offset < t.end(error) {
        return None;
    }
    let from: usize = match find_last_semicolon_before(t, error, ctx.offset) {
        Some(x) => x,
        None => t.start(error),
    };
    let to: usize = match find_next_semicolon_after(t, error, ctx.offset) {
        Some(x) => x,
        None => t.end(error),
    };
    let inside = nodes_between(t, t.named_children(error), from, to);
    if inside.len() != 1 {
        return None;
    }
    let ty = inside[0];
    if !t.is_in(ty, KindClass::TypeLikeOrIdentifier) || to < t.end(error) || !has_any(
        ctx.byte_slice(t.end(ty), ctx.offset),
        CharClass::White,
    ) {
        return None;
    }
    let text = trimmed(ctx.node_text(ty));
    if t.is_kind(ty, "identifier") && is_java_keyword(text) {
        return None;
    }
    if has_sign_between(t, t.children(error), from, to) {
        return None;
    }
    let name = strip_sentinel(text);
    non_empty(&name)
}

/// The last of the nodes that end by `offset`, from place `i` on, before the first that does not.
pub open spec fn last_ended_from(
    t: &SyntaxTree,
    ids: Seq<NodeId>,
    offset: int,
    i: int,
    last: Option<NodeId>,
) -> Option<NodeId>
    decreases ids.len() - i,
{
    if i < 0 || i >= ids.len() || t.end_of(ids[i]) > offset {
        last
    } else {
        last_ended_from(t, ids, offset, i + 1, Some(ids[i]))
    }
}

/// The place of a variable's name after an error that is the last thing of a block before the
/// cursor.
pub open spec fn name_position_in_block(ctx: &JavaContextExtractor, block: NodeId) -> Option<
    Located,
> {
    let t = &ctx.tree;
    match last_ended_from(t, t.named_kids(block), ctx.offset as int, 0, None) {
        Some(error) => if t.kind_of(error) != "ERROR"@ {
            None
        } else {
            match type_in_error(ctx, error) {
                Some(ty) => Some(at_variable_name(ty)),
                None => None,
            }
        },
        None => None,
    }
}

pub fn detect_variable_name_position(ctx: &JavaContextExtractor, block: NodeId) -> (r: Option<
    (CursorLocation, String),
>)
    requires
        ctx.wf(),
        ctx.tree.has(block),
    ensures
        r.deep_view() == name_position_in_block(ctx, block),
{
    let t = &ctx.tree;
    let ids = t.named_children(block);
    let mut last: Option<NodeId> = None;
    let mut i: usize = 0;
    while i < ids.len() && t.end(ids[i]) <= ctx.offset
        invariant
            i <= ids@.len(),
            *t == ctx.tree,
            ids@ == t.named_kids(block),
            t.has(block),
            t.linked(),
            last matches Some(k) ==> t.has(k),
            last_ended_from(t, ids@, ctx.offset as int, 0, None) == last_ended_from(
                t,
                ids@,
                ctx.offset as int,
                i as int,
                last,
            ),
        decreases ids@.len() - i,
    {
        last = Some(ids[i]);
        i += 1;
    }
    match last {
        Some(error) => {
            if !t.is_kind(error, "ERROR") {
                return None;
            }
            match detect_variable_name_position_in_error(ctx, error) {
                Some(ty) => Some(variable_name(ty)),
                None => None,
            }
        },
        None => None,
    }
}

// ---- scoped types that are member accesses -----------------------------------------------------

/// The receiver and the member prefix of a scoped type name that is really a member access: what
/// stands before its dot, and its last part.
pub open spec fn scoped_member(ctx: &JavaContextExtractor, scoped: NodeId) -> Option<
    (Seq<char>, Seq<char>),
> {
    let t = &ctx.tree;
    let parts = t.named_kids(scoped);
    match t.first_kind(t.kids(scoped), "."@) {
        Some(dot) => {
            let receiver = trim(ctx.piece(t.start_of(scoped), t.start_of(dot)));
            if parts.len() < 2 || receiver.len() == 0 || receiver.contains(' ') {
                None
            } else {
                Some((receiver, unmarked(ctx.text_to_cursor(parts.last()))))
            }
        },
        None => None,
    }
}

fn scoped_member_of(ctx: &JavaContextExtractor, scoped: NodeId) -> (r: Option<(String, String)>)
    requires
        ctx.wf(),
        ctx.tree.has(scoped),
    ensures
        r.deep_view() == scoped_member(ctx, scoped),
{
    let t = &ctx.tree;
    let parts = t.named_children(scoped);
    let n: usize = parts.len();
    match t.first_of_kind(t.children(scoped), ".") {
        Some(dot) => {
            let receiver = trimmed(ctx.byte_slice(t.start(scoped), t.start(dot)));
            if n < 2 || receiver.len() == 0 || contains_char(receiver, ' ') {
                return None;
            }
            let prefix = strip_sentinel(cursor_truncated_text(ctx, parts[n - 1]));
            Some((to_text(receiver), to_text(&prefix)))
        },
        None => None,
    }
}

pub open spec fn member_location(m: Option<(Seq<char>, Seq<char>)>) -> Option<Located> {
    match m {
        Some((receiver, prefix)) => Some(at_member(receiver, prefix)),
        None => None,
    }
}

/// A scoped type name in an error as a member access: its receiver holds no blank and no tab.
pub open spec fn scoped_type_member(ctx: &JavaContextExtractor, scoped: NodeId) -> Option<Located> {
    match scoped_member(ctx, scoped) {
        Some((receiver, prefix)) => if receiver.contains('\t') {
            None
        } else {
            Some(at_member(receiver, prefix))
        },
        None => None,
    }
}

pub fn scoped_type_to_member_access(ctx: &JavaContextExtractor, scoped: NodeId) -> (r: Option<
    (CursorLocation, String),
>)
    requires
        ctx.wf(),
        ctx.tree.has(scoped),
    ensures
        r.deep_view() == scoped_type_member(ctx, scoped),
{
    match scoped_member_of(ctx, scoped) {
        Some((receiver, prefix)) => {
            let chars = crate::text::to_chars(receiver.as_str());
            if contains_char(&chars, '\t') {
                None
            } else {
                Some(member_access(receiver, prefix))
            }
        },
        None => None,
    }
}

/// A scoped type name at the cursor as a member access.
pub open spec fn scoped_type_at_cursor(ctx: &JavaContextExtractor, scoped: NodeId) -> Option<
    Located,
> {
    let t = &ctx.tree;
    if t.kind_of(scoped) != "scoped_type_identifier"@ || !crate::location::utils::touches(
        t,
        scoped,
        ctx.offset as int,
    ) {
        None
    } else {
        member_location(scoped_member(ctx, scoped))
    }
}

pub fn detect_member_access_in_scoped_type(ctx: &JavaContextExtractor, scoped: NodeId) -> (r:
    Option<(CursorLocation, String)>)
    requires
        ctx.wf(),
        ctx.tree.has(scoped),
    ensures
        r.deep_view() == scoped_type_at_cursor(ctx, scoped),
{
    let t = &ctx.tree;
    if !t.is_kind(scoped, "scoped_type_identifier") || ctx.offset < t.start(scoped) || ctx.offset
        > t.end(scoped) {
        return None;
    }
    match scoped_member_of(ctx, scoped) {
        Some((receiver, prefix)) => Some(member_access(receiver, prefix)),
        None => None,
    }
}

/// A declaration whose type is a scoped name at the cursor, as a member access.
pub open spec fn declared_scoped_type(ctx: &JavaContextExtractor, decl: NodeId) -> Option<Located> {
    let t = &ctx.tree;
    match t.first_kind(t.named_kids(decl), "scoped_type_identifier"@) {
        Some(ty) => scoped_type_at_cursor(ctx, ty),
        None => None,
    }
}

/// A node that was found is of the kind that was looked for.
proof fn lemma_first_kind(t: &SyntaxTree, ids: Seq<NodeId>, kind: Seq<char>, i: int)
    ensures
        t.first_kind_from(ids, kind, i) matches Some(k) ==> t.kind_of(k) == kind,
    decreases ids.len() - i,
{
    if 0 <= i < ids.len() && t.kind_of(ids[i]) != kind {
        lemma_first_kind(t, ids, kind, i + 1);
    }
}

pub fn detect_member_access_in_local_decl(ctx: &JavaContextExtractor, decl: NodeId) -> (r: Option<
    (CursorLocation, String),
>)
    requires
        ctx.wf(),
        ctx.tree.has(decl),
    ensures
        r.deep_view() == declared_scoped_type(ctx, decl),
{
    let t = &ctx.tree;
    match t.first_of_kind(t.named_children(decl), "scoped_type_identifier") {
        Some(ty) => {
            proof {
                lemma_first_kind(t, t.named_kids(decl), "scoped_type_identifier"@, 0);
            }
            detect_member_access_in_scoped_type(ctx, ty)
        },
        None => None,
    }
}

// ---- constructor calls -------------------------------------------------------------------------

/// The first error in `ids`, from place `i` on, that starts by `offset`.
pub open spec fn error_by(t: &SyntaxTree, ids: Seq<NodeId>, offset: int, i: int) -> Option<NodeId>
    decreases ids.len() - i,
{
    if i < 0 || i >= ids.len() {
        None
    } else if t.kind_of(ids[i]) == "ERROR"@ && t.start_of(ids[i]) <= offset {
        Some(ids[i])
    } else {
        error_by(t, ids, offset, i + 1)
    }
}

fn first_error_by(t: &SyntaxTree, ids: &[NodeId], offset: usize) -> (r: Option<NodeId>)
    requires
        t.all_in(ids@),
    ensures
        r == error_by(t, ids@, offset as int, 0),
        r matches Some(k) ==> t.has(k),
{
    let mut i: usize = 0;
    while i < ids.len()
        invariant
            i <= ids@.len(),
            t.all_in(ids@),
            error_by(t, ids@, offset as int, 0) == error_by(t, ids@, offset as int, i as int),
        decreases ids@.len() - i,
    {
        if t.is_kind(ids[i], "ERROR") && t.start(ids[i]) <= offset {
            return Some(ids[i]);
        }
        i += 1;
    }
    None
}

/// The first node in `ids`, from place `i` on, that is neither a declarator nor an error.
pub open spec fn expected_type_from(t: &SyntaxTree, ids: Seq<NodeId>, i: int) -> Option<NodeId>
    decreases ids.len() - i,
{
    if i < 0 || i >= ids.len() {
        None
    } else if t.kind_of(ids[i]) != "variable_declarator"@ && t.kind_of(ids[i]) != "ERROR"@ {
        Some(ids[i])
    } else {
        expected_type_from(t, ids, i + 1)
    }
}

fn expected_type_node(t: &SyntaxTree, ids: &[NodeId]) -> (r: Option<NodeId>)
    requires
        t.all_in(ids@),
    ensures
        r == expected_type_from(t, ids@, 0),
        r matches Some(k) ==> t.has(k),
{
    let mut i: usize = 0;
    while i < ids.len()
        invariant
            i <= ids@.len(),
            t.all_in(ids@),
            expected_type_from(t, ids@, 0) == expected_type_from(t, ids@, i as int),
        decreases ids@.len() - i,
    {
        if !t.is_kind(ids[i], "variable_declarator") && !t.is_kind(ids[i], "ERROR") {
            return Some(ids[i]);
        }
        i += 1;
    }
    None
}

pub open spec fn expected_type(ctx: &JavaContextExtractor, decl: NodeId) -> Option<Seq<char>> {
    match expected_type_from(&ctx.tree, ctx.tree.named_kids(decl), 0) {
        Some(ty) => unless_empty(trim(ctx.text_of(ty))),
        None => None,
    }
}

/// A constructor call in an error of a declaration: the error holds `new`, and the current line
/// spells the call.
pub open spec fn constructor_in_declaration(ctx: &JavaContextExtractor, decl: NodeId) -> Option<
    Located,
> {
    let t = &ctx.tree;
    match error_by(t, t.kids(decl), ctx.offset as int, 0) {
        Some(error) => if t.first_kind(t.kids(error), "new"@) is None {
            None
        } else {
            match new_before_cursor(ctx.before()) {
                Some((prefix, qualifier)) => Some(
                    at_constructor(prefix, expected_type(ctx, decl), qualifier),
                ),
                None => None,
            }
        },
        None => None,
    }
}

pub fn detect_constructor_in_local_decl_error(ctx: &JavaContextExtractor, decl: NodeId) -> (r:
    Option<(CursorLocation, String)>)
    requires
        ctx.wf(),
        ctx.tree.has(decl),
    ensures
        r.deep_view() == constructor_in_declaration(ctx, decl),
{
    let t = &ctx.tree;
    match first_error_by(t, t.children(decl), ctx.offset) {
        Some(error) => {
            if t.first_of_kind(t.children(error), "new").is_none() {
                return None;
            }
            match new_before_cursor_in(ctx.text_before()) {
                Some(found) => {
                    let expected: Option<String> = match expected_type_node(
                        t,
                        t.named_children(decl),
                    ) {
                        Some(ty) => non_empty(trimmed(ctx.node_text(ty))),
                        None => None,
                    };
                    Some(constructor_call(found.class_prefix, expected, found.qualifier_expr))
                },
                None => None,
            }
        },
        None => None,
    }
}

// ---- a dot behind an expression ----------------------------------------------------------------

/// The last node in `ids` before place `j` that is a receiver of the class, no extra, and ends by
/// `offset`.
pub open spec fn last_receiver(
    t: &SyntaxTree,
    ids: Seq<NodeId>,
    class: KindClass,
    offset: int,
    j: int,
) -> Option<NodeId>
    decreases j,
{
    if j <= 0 || j > ids.len() {
        None
    } else {
        let k = ids[j - 1];
        if !t.node(k).extra && t.end_of(k) <= offset && class.has(t.kind_of(k)) {
            Some(k)
        } else {
            last_receiver(t, ids, class, offset, j - 1)
        }
    }
}

fn last_receiver_of(t: &SyntaxTree, ids: &[NodeId], class: KindClass, offset: usize) -> (r: Option<
    NodeId,
>)
    requires
        t.all_in(ids@),
    ensures
        r == last_receiver(t, ids@, class, offset as int, ids@.len() as int),
        r matches Some(k) ==> t.has(k),
{
    let mut j: usize = ids.len();
    while j > 0
        invariant
            j <= ids@.len(),
            t.all_in(ids@),
            last_receiver(t, ids@, class, offset as int, ids@.len() as int) == last_receiver(
                t,
                ids@,
                class,
                offset as int,
                j as int,
            ),
        decreases j,
    {
        let k = ids[j - 1];
        if !t.nodes[k].extra && t.end(k) <= offset && t.is_in(k, class) {
            return Some(k);
        }
        j -= 1;
    }
    None
}

/// The member prefix behind a dot that begins the text, white space aside.
pub open spec fn prefix_after_dot(after: Seq<char>) -> Option<Seq<char>> {
    let s = trim_start(after);
    if s.len() == 0 || s[0] != '.' {
        None
    } else {
        Some(take_while(trim_start(s.skip(1)), CharClass::Word))
    }
}

fn prefix_after_dot_of(after: &[char]) -> (r: Option<String>)
    ensures
        r.deep_view() == prefix_after_dot(after@),
{
    let s = trimmed_start(after);
    let n: usize = s.len();
    if n == 0 || s[0] != '.' {
        return None;
    }
    let tail = slice_subrange(s, 1, n);
    assert(tail@ =~= s@.skip(1));
    Some(to_text(taken_while(trimmed_start(tail), CharClass::Word)))
}

/// The member access on the last receiver of an error before the cursor, with a dot behind it.
pub open spec fn dot_after_receiver(
    ctx: &JavaContextExtractor,
    error: NodeId,
    class: KindClass,
) -> Option<Located> {
    let t = &ctx.tree;
    match last_receiver(t, t.kids(error), class, ctx.offset as int, t.kids(error).len() as int) {
        Some(k) => match (
            prefix_after_dot(ctx.piece(t.end_of(k), ctx.offset as int)),
            unless_empty(trim(ctx.text_of(k))),
        ) {
            (Some(prefix), Some(receiver)) => Some(at_member(receiver, prefix)),
            _ => None,
        },
        None => None,
    }
}

pub fn detect_dot_after_receiver(
    ctx: &JavaContextExtractor,
    error: NodeId,
    class: KindClass,
) -> (r: Option<(CursorLocation, String)>)
    requires
        ctx.wf(),
        ctx.tree.has(error),
    ensures
        r.deep_view() == dot_after_receiver(ctx, error, class),
{
    let t = &ctx.tree;
    match last_receiver_of(t, t.children(error), class, ctx.offset) {
        Some(k) => match (
            prefix_after_dot_of(ctx.byte_slice(t.end(k), ctx.offset)),
            non_empty(trimmed(ctx.node_text(k))),
        ) {
            (Some(prefix), Some(receiver)) => Some(member_access(receiver, prefix)),
            _ => None,
        },
        None => None,
    }
}

/// Detects `expr .` in an error and turns it into a member access; `super` is a receiver too.
pub fn detect_dot_after_expression_child(ctx: &JavaContextExtractor, error: NodeId) -> (r: Option<
    (CursorLocation, String),
>)
    requires
        ctx.wf(),
        ctx.tree.has(error),
    ensures
        r.deep_view() == dot_after_receiver(ctx, error, KindClass::ReceiverOrSuper),
{
    detect_dot_after_receiver(ctx, error, KindClass::ReceiverOrSuper)
}

} // verus!
