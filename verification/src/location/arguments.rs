//! Rules for argument lists and expression statements.
use vstd::prelude::*;
use vstd::slice::slice_subrange;

use crate::extractor::{cursor_truncated_text, strip_sentinel, unmarked, JavaContextExtractor};
use crate::location::text::{non_empty, unless_empty};
use crate::location::utils::{
    at_argument, at_expression, at_member, empty_expression, member_access, method_argument,
    Located,
};
use crate::parse::{byte_count, utf8_len};
use crate::semantic::CursorLocation;
use crate::syntax::{KindClass, NodeId, SyntaxTree};
use crate::text::{
    run_backward, run_start, take_while, taken_while, to_text, trim, trim_end, trim_start, trimmed,
    trimmed_end, trimmed_start, CharClass,
};

verus! {

// ---- arguments ---------------------------------------------------------------------------------

/// The member prefix behind a dot that begins the text, white space and the sentinel aside.
pub open spec fn dotted_rest(gap: Seq<char>) -> Option<Seq<char>> {
    let s = trim_start(unmarked(gap));
    if s.len() == 0 || s[0] != '.' {
        None
    } else {
        Some(trim_end(unmarked(trim_start(s.skip(1)))))
    }
}

fn dotted_rest_of(gap: &[char]) -> (r: Option<String>)
    ensures
        r.deep_view() == dotted_rest(gap@),
{
    let clean = strip_sentinel(gap);
    let s = trimmed_start(&clean);
    let n: usize = s.len();
    if n == 0 || s[0] != '.' {
        return None;
    }
    let tail = slice_subrange(s, 1, n);
    assert(tail@ =~= s@.skip(1));
    let member = strip_sentinel(trimmed_start(tail));
    Some(to_text(trimmed_end(&member)))
}

/// The first argument, from place `i` on, that ends before the cursor with a dot behind it: its
/// text and the member prefix.
pub open spec fn dotted_argument_from(ctx: &JavaContextExtractor, ids: Seq<NodeId>, i: int) -> Option<
    (Seq<char>, Seq<char>),
>
    decreases ids.len() - i,
{
    if i < 0 || i >= ids.len() {
        None
    } else {
        match dotted_rest(ctx.piece(ctx.tree.end_of(ids[i]), ctx.offset as int)) {
            Some(prefix) => Some((ctx.text_of(ids[i]), prefix)),
            None => dotted_argument_from(ctx, ids, i + 1),
        }
    }
}

/// Nothing follows the dot of an empty text.
proof fn lemma_dotted_rest_empty()
    ensures
        dotted_rest(Seq::<char>::empty()) is None,
{
    let e = Seq::<char>::empty();
    reveal_strlit("__KIRO__");
    assert(crate::text::find(e, crate::extractor::SENTINEL@) is None);
    assert(unmarked(e) =~= e);
    assert(trim_start(e) =~= e);
}

fn detect_member_access_in_arg_list(ctx: &JavaContextExtractor, list: NodeId) -> (r: Option<
    (String, String),
>)
    requires
        ctx.wf(),
        ctx.tree.has(list),
    ensures
        r.deep_view() == dotted_argument_from(ctx, ctx.tree.named_kids(list), 0),
{
    let t = &ctx.tree;
    let ids = t.named_children(list);
    let mut i: usize = 0;
    while i < ids.len()
        invariant
            i <= ids@.len(),
            *t == ctx.tree,
            ids@ == t.named_kids(list),
            t.has(list),
            ctx.wf(),
            dotted_argument_from(ctx, ids@, 0) == dotted_argument_from(ctx, ids@, i as int),
        decreases ids@.len() - i,
    {
        let k = ids[i];
        if t.end(k) <= ctx.offset {
            if let Some(prefix) = dotted_rest_of(ctx.byte_slice(t.end(k), ctx.offset)) {
                return Some((to_text(ctx.node_text(k)), prefix));
            }
        } else {
            proof {
                lemma_dotted_rest_empty();
            }
        }
        i += 1;
    }
    None
}

/// Whether the text, white space at its end aside, ends with one of two characters.
pub open spec fn ends_in(s: Seq<char>, a: char, b: char) -> bool {
    let u = trim_end(s);
    u.len() > 0 && (u.last() == a || u.last() == b)
}

/// Whether an argument begins at the cursor.
pub open spec fn fresh_argument(ctx: &JavaContextExtractor, list: NodeId) -> bool {
    ends_in(unmarked(ctx.piece(ctx.tree.start_of(list), ctx.offset as int)), ',', '(')
}

pub fn is_fresh_argument_position(ctx: &JavaContextExtractor, list: NodeId) -> (r: bool)
    requires
        ctx.wf(),
        ctx.tree.has(list),
    ensures
        r == fresh_argument(ctx, list),
{
    let clean = strip_sentinel(ctx.byte_slice(ctx.tree.start(list), ctx.offset));
    let u = trimmed_end(&clean);
    let n: usize = u.len();
    n > 0 && (u[n - 1] == ',' || u[n - 1] == '(')
}

/// Whether an operand is missing at the end of the text: it is blank, or ends with an operator, an
/// opening bracket or a comma.
pub open spec fn operand_missing(s: Seq<char>) -> bool {
    let u = trim_end(s);
    if u.len() == 0 {
        true
    } else {
        let c = u.last();
        ||| c == '+'
        ||| c == '-'
        ||| c == '*'
        ||| c == '/'
        ||| c == '%'
        ||| c == '&'
        ||| c == '|'
        ||| c == '^'
        ||| c == '<'
        ||| c == '>'
        ||| c == '='
        ||| c == '!'
        ||| c == '?'
        ||| c == ':'
        ||| c == '('
        ||| c == '['
        ||| c == '{'
        ||| c == ','
    }
}

pub fn is_empty_expression_site_after_operator(s: &[char]) -> (r: bool)
    ensures
        r == operand_missing(s@),
{
    let u = trimmed_end(s);
    let n: usize = u.len();
    if n == 0 {
        return true;
    }
    let c = u[n - 1];
    c == '+' || c == '-' || c == '*' || c == '/' || c == '%' || c == '&' || c == '|' || c == '^'
        || c == '<' || c == '>' || c == '=' || c == '!' || c == '?' || c == ':' || c == '(' || c
        == '[' || c == '{' || c == ','
}

/// The word that ends at the cursor, not reaching back beyond `lower`.
pub open spec fn word_at_cursor(ctx: &JavaContextExtractor, lower: int) -> Seq<char> {
    let i = run_start(ctx.source@, CharClass::Word, ctx.offset as int);
    ctx.piece(
        if i < lower {
            lower
        } else {
            i
        },
        ctx.offset as int,
    )
}

pub fn word_before_cursor(ctx: &JavaContextExtractor, lower: usize) -> (r: &[char])
    requires
        ctx.wf(),
    ensures
        r@ == word_at_cursor(ctx, lower as int),
{
    let i = run_backward(ctx.source.as_slice(), CharClass::Word, ctx.offset);
    ctx.byte_slice(
        if i < lower {
            lower
        } else {
            i
        },
        ctx.offset,
    )
}

/// The word at the cursor without the sentinel.
pub fn extract_identifier_prefix_near_cursor(ctx: &JavaContextExtractor, lower: usize) -> (r: Vec<
    char,
>)
    requires
        ctx.wf(),
    ensures
        r@ == unmarked(word_at_cursor(ctx, lower as int)),
{
    strip_sentinel(word_before_cursor(ctx, lower))
}

/// Whether the node begins at or before the cursor and ends no more than one byte before it.
pub open spec fn near_cursor(ctx: &JavaContextExtractor, n: NodeId) -> bool {
    &&& ctx.tree.start_of(n) <= ctx.offset
    &&& ctx.tree.end_of(n) >= ctx.offset || ctx.tree.end_of(n) == ctx.offset - 1 && utf8_len(
        ctx.source@[ctx.offset - 1],
    ) == 1
}

fn is_near_cursor(ctx: &JavaContextExtractor, n: NodeId) -> (r: bool)
    requires
        ctx.wf(),
        ctx.tree.has(n),
    ensures
        r == near_cursor(ctx, n),
{
    let end = ctx.tree.end(n);
    ctx.tree.start(n) <= ctx.offset && (end >= ctx.offset || end == ctx.offset - 1 && byte_count(
        ctx.source[ctx.offset - 1],
    ) == 1)
}

/// The identifier that is being typed in the expression `n`.
pub open spec fn subtree_prefix(ctx: &JavaContextExtractor, n: NodeId) -> Seq<char>
    decreases ctx.tree.nodes@.len() - n, ctx.tree.named_kids(n).len() + 1,
{
    if !near_cursor(ctx, n) {
        Seq::empty()
    } else if KindClass::Identifier.has(ctx.tree.kind_of(n)) {
        unmarked(ctx.text_to_cursor(n))
    } else {
        subtree_prefix_from(ctx, n, 0)
    }
}

/// The first identifier that is being typed in a named child of `n`, from place `i` on, or the word
/// at the cursor.
pub open spec fn subtree_prefix_from(ctx: &JavaContextExtractor, n: NodeId, i: int) -> Seq<char>
    decreases ctx.tree.nodes@.len() - n, ctx.tree.named_kids(n).len() - i,
{
    if i < 0 || i >= ctx.tree.named_kids(n).len() {
        unmarked(word_at_cursor(ctx, ctx.tree.start_of(n)))
    } else {
        let k = ctx.tree.named_kids(n)[i];
        if n < k && ctx.tree.has(k) && subtree_prefix(ctx, k).len() > 0 {
            subtree_prefix(ctx, k)
        } else {
            subtree_prefix_from(ctx, n, i + 1)
        }
    }
}

pub fn find_prefix_in_expr_subtree(ctx: &JavaContextExtractor, n: NodeId) -> (r: Vec<char>)
    requires
        ctx.wf(),
        ctx.tree.has(n),
    ensures
        r@ == subtree_prefix(ctx, n),
    decreases ctx.tree.nodes@.len() - n,
{
    let t = &ctx.tree;
    if !is_near_cursor(ctx, n) {
        return Vec::new();
    }
    if t.is_in(n, KindClass::Identifier) {
        return strip_sentinel(cursor_truncated_text(ctx, n));
    }
    let ids = t.named_children(n);
    let mut i: usize = 0;
    while i < ids.len()
        invariant
            i <= ids@.len(),
            *t == ctx.tree,
            ids@ == t.named_kids(n),
            t.has(n),
            ctx.wf(),
            subtree_prefix(ctx, n) == subtree_prefix_from(ctx, n, i as int),
        decreases ids@.len() - i,
    {
        let nested = find_prefix_in_expr_subtree(ctx, ids[i]);
        if nested.len() > 0 {
            return nested;
        }
        i += 1;
    }
    extract_identifier_prefix_near_cursor(ctx, t.start(n))
}

/// What is being typed in an argument: an identifier in it, or the argument itself up to the
/// cursor unless an operand is missing there.
pub open spec fn argument_prefix(ctx: &JavaContextExtractor, n: NodeId) -> Seq<char> {
    let nested = subtree_prefix(ctx, n);
    let clean = unmarked(ctx.text_to_cursor(n));
    if nested.len() > 0 {
        nested
    } else if operand_missing(clean) {
        Seq::empty()
    } else {
        clean
    }
}

/// What is being typed in the first argument near the cursor, from place `i` on.
pub open spec fn list_prefix_from(ctx: &JavaContextExtractor, ids: Seq<NodeId>, i: int) -> Seq<char>
    decreases ids.len() - i,
{
    if i < 0 || i >= ids.len() {
        Seq::empty()
    } else if near_cursor(ctx, ids[i]) {
        argument_prefix(ctx, ids[i])
    } else {
        list_prefix_from(ctx, ids, i + 1)
    }
}

pub fn find_prefix_in_argument_list(ctx: &JavaContextExtractor, list: NodeId) -> (r: Vec<char>)
    requires
        ctx.wf(),
        ctx.tree.has(list),
    ensures
        r@ == list_prefix_from(ctx, ctx.tree.named_kids(list), 0),
{
    let t = &ctx.tree;
    let ids = t.named_children(list);
    let mut i: usize = 0;
    while i < ids.len()
        invariant
            i <= ids@.len(),
            *t == ctx.tree,
            ids@ == t.named_kids(list),
            t.has(list),
            ctx.wf(),
            list_prefix_from(ctx, ids@, 0) == list_prefix_from(ctx, ids@, i as int),
        decreases ids@.len() - i,
    {
        let k = ids[i];
        if is_near_cursor(ctx, k) {
            let nested = find_prefix_in_expr_subtree(ctx, k);
            if nested.len() > 0 {
                return nested;
            }
            let clean = strip_sentinel(cursor_truncated_text(ctx, k));
            if is_empty_expression_site_after_operator(&clean) {
                return Vec::new();
            }
            return clean;
        }
        i += 1;
    }
    Vec::new()
}

/// An argument list at the cursor: a member of an argument, a fresh argument, or the argument that
/// is being typed.
pub open spec fn argument_list_location(ctx: &JavaContextExtractor, list: NodeId) -> Located {
    match dotted_argument_from(ctx, ctx.tree.named_kids(list), 0) {
        Some((receiver, prefix)) => at_member(receiver, prefix),
        None => if fresh_argument(ctx, list) {
            at_argument(Seq::empty())
        } else {
            at_argument(list_prefix_from(ctx, ctx.tree.named_kids(list), 0))
        },
    }
}

pub fn handle_argument_list(ctx: &JavaContextExtractor, list: NodeId) -> (r: (
    CursorLocation,
    String,
))
    requires
        ctx.wf(),
        ctx.tree.has(list),
    ensures
        r.deep_view() == argument_list_location(ctx, list),
{
    if let Some((receiver, prefix)) = detect_member_access_in_arg_list(ctx, list) {
        return member_access(receiver, prefix);
    }
    if is_fresh_argument_position(ctx, list) {
        return (CursorLocation::MethodArgument { prefix: String::new() }, String::new());
    }
    let prefix = find_prefix_in_argument_list(ctx, list);
    method_argument(&prefix)
}

// ---- expression statements ---------------------------------------------------------------------

/// Whether the node is an error that holds a dot and nothing else.
pub open spec fn lone_dot(t: &SyntaxTree, n: NodeId) -> bool {
    &&& t.kind_of(n) == "ERROR"@
    &&& t.kids(n).len() == 1
    &&& t.kind_of(t.kids(n)[0]) == "."@
}

/// The first error in `ids`, from place `i` on, that holds a dot and nothing else.
pub open spec fn lone_dot_from(t: &SyntaxTree, ids: Seq<NodeId>, i: int) -> Option<NodeId>
    decreases ids.len() - i,
{
    if i < 0 || i >= ids.len() {
        None
    } else if lone_dot(t, ids[i]) {
        Some(ids[i])
    } else {
        lone_dot_from(t, ids, i + 1)
    }
}

pub fn is_lone_dot(t: &SyntaxTree, n: NodeId) -> (r: bool)
    requires
        t.has(n),
        t.linked(),
    ensures
        r == lone_dot(t, n),
{
    let kids = t.children(n);
    t.is_kind(n, "ERROR") && kids.len() == 1 && t.is_kind(kids[0], ".")
}

fn first_lone_dot(t: &SyntaxTree, ids: &[NodeId]) -> (r: Option<NodeId>)
    requires
        t.all_in(ids@),
        t.linked(),
    ensures
        r == lone_dot_from(t, ids@, 0),
        r matches Some(k) ==> t.has(k),
{
    let mut i: usize = 0;
    while i < ids.len()
        invariant
            i <= ids@.len(),
            t.all_in(ids@),
            t.linked(),
            lone_dot_from(t, ids@, 0) == lone_dot_from(t, ids@, i as int),
        decreases ids@.len() - i,
    {
        if is_lone_dot(t, ids[i]) {
            return Some(ids[i]);
        }
        i += 1;
    }
    None
}

/// The last node in `ids` before place `j` that is no error and ends by `limit`.
pub open spec fn last_proper_before(t: &SyntaxTree, ids: Seq<NodeId>, limit: int, j: int) -> Option<
    NodeId,
>
    decreases j,
{
    if j <= 0 || j > ids.len() {
        None
    } else if t.kind_of(ids[j - 1]) != "ERROR"@ && t.end_of(ids[j - 1]) <= limit {
        Some(ids[j - 1])
    } else {
        last_proper_before(t, ids, limit, j - 1)
    }
}

fn last_proper(t: &SyntaxTree, ids: &[NodeId], limit: usize) -> (r: Option<NodeId>)
    requires
        t.all_in(ids@),
    ensures
        r == last_proper_before(t, ids@, limit as int, ids@.len() as int),
        r matches Some(k) ==> t.has(k),
{
    let mut j: usize = ids.len();
    while j > 0
        invariant
            j <= ids@.len(),
            t.all_in(ids@),
            last_proper_before(t, ids@, limit as int, ids@.len() as int) == last_proper_before(
                t,
                ids@,
                limit as int,
                j as int,
            ),
        decreases j,
    {
        let k = ids[j - 1];
        if !t.is_kind(k, "ERROR") && t.end(k) <= limit {
            return Some(k);
        }
        j -= 1;
    }
    None
}

/// The right operand of an operation.
pub open spec fn right_operand(t: &SyntaxTree, n: NodeId) -> Option<NodeId> {
    match t.field_of(n, "right"@) {
        Some(k) => Some(k),
        None => t.field_of(n, "value"@),
    }
}

/// Whether the node is an operation before the cursor whose right operand is missing.
pub open spec fn awaits_operand(ctx: &JavaContextExtractor, n: NodeId) -> bool {
    let t = &ctx.tree;
    &&& KindClass::OperandHolder.has(t.kind_of(n))
    &&& right_operand(t, n) is Some
    &&& t.node(right_operand(t, n)->0).missing
    &&& ctx.offset >= t.start_of(n)
}

fn is_awaiting_operand(ctx: &JavaContextExtractor, n: NodeId) -> (r: bool)
    requires
        ctx.wf(),
        ctx.tree.has(n),
    ensures
        r == awaits_operand(ctx, n),
{
    let t = &ctx.tree;
    if !t.is_in(n, KindClass::OperandHolder) || ctx.offset < t.start(n) {
        return false;
    }
    let right: Option<NodeId> = match t.child_by_field(n, "right") {
        Some(k) => Some(k),
        None => t.child_by_field(n, "value"),
    };
    match right {
        Some(k) => t.nodes[k].missing,
        None => false,
    }
}

pub open spec fn some_awaits_operand(ctx: &JavaContextExtractor, ids: Seq<NodeId>) -> bool {
    exists|i: int| 0 <= i < ids.len() && awaits_operand(ctx, #[trigger] ids[i])
}

/// An expression statement at the cursor: a member of an expression with a lone dot behind it, or
/// an operand that is still to be typed.
pub open spec fn expression_statement_location(ctx: &JavaContextExtractor, stmt: NodeId) -> Option<
    Located,
> {
    let t = &ctx.tree;
    let ids = t.named_kids(stmt);
    match lone_dot_from(t, ids, 0) {
        Some(error) => match last_proper_before(t, ids, t.start_of(error), ids.len() as int) {
            Some(receiver) => match unless_empty(trim(ctx.text_of(receiver))) {
                Some(text) => Some(
                    at_member(
                        text,
                        take_while(
                            trim_start(ctx.piece(t.start_of(error) + 1, ctx.offset as int)),
                            CharClass::Word,
                        ),
                    ),
                ),
                None => None,
            },
            None => None,
        },
        None => if some_awaits_operand(ctx, ids) {
            Some(at_expression(Seq::empty()))
        } else {
            None
        },
    }
}

pub fn handle_expression_statement(ctx: &JavaContextExtractor, stmt: NodeId) -> (r: Option<
    (CursorLocation, String),
>)
    requires
        ctx.wf(),
        ctx.tree.has(stmt),
    ensures
        r.deep_view() == expression_statement_location(ctx, stmt),
{
    let t = &ctx.tree;
    let ids = t.named_children(stmt);
    if let Some(error) = first_lone_dot(t, ids) {
        return match last_proper(t, ids, t.start(error)) {
            Some(receiver) => match non_empty(trimmed(ctx.node_text(receiver))) {
                Some(text) => {
                    let start: usize = t.start(error);
                    let after: &[char] = if start < ctx.offset {
                        ctx.byte_slice(start + 1, ctx.offset)
                    } else {
                        ctx.byte_slice(0, 0)
                    };
                    assert(after@ =~= ctx.piece(start + 1, ctx.offset as int));
                    let prefix = to_text(taken_while(trimmed_start(after), CharClass::Word));
                    Some(member_access(text, prefix))
                },
                None => None,
            },
            None => None,
        };
    }
    let mut i: usize = 0;
    while i < ids.len()
        invariant
            i <= ids@.len(),
            *t == ctx.tree,
            ids@ == t.named_kids(stmt),
            t.has(stmt),
            ctx.wf(),
            lone_dot_from(t, ids@, 0) is None,
            forall|k: int| 0 <= k < i ==> !awaits_operand(ctx, #[trigger] ids@[k]),
        decreases ids@.len() - i,
    {
        if is_awaiting_operand(ctx, ids[i]) {
            return Some(empty_expression());
        }
        i += 1;
    }
    None
}

} // verus!
