//! Locations and the node searches that the location rules share.
use vstd::prelude::*;
use vstd::slice::slice_subrange;

use crate::extractor::JavaContextExtractor;
use crate::semantic::{CursorLocation, LocationView};
use crate::syntax::{NodeId, SyntaxTree};
use crate::text::{contains_char, to_chars, to_text, trim, trimmed};

verus! {

/// A location and the text to complete there.
pub type Located = (LocationView, Seq<char>);

pub open spec fn at_expression(prefix: Seq<char>) -> Located {
    (LocationView::Expression { prefix }, prefix)
}

pub open spec fn at_type(prefix: Seq<char>) -> Located {
    (LocationView::TypeAnnotation { prefix }, prefix)
}

pub open spec fn at_argument(prefix: Seq<char>) -> Located {
    (LocationView::MethodArgument { prefix }, prefix)
}

pub open spec fn at_variable_name(type_text: Seq<char>) -> Located {
    (LocationView::VariableName { type_text }, Seq::empty())
}

pub open spec fn at_member(receiver_expr: Seq<char>, member_prefix: Seq<char>) -> Located {
    at_call(receiver_expr, member_prefix, None)
}

pub open spec fn at_call(
    receiver_expr: Seq<char>,
    member_prefix: Seq<char>,
    arguments: Option<Seq<char>>,
) -> Located {
    (
        LocationView::MemberAccess {
            receiver_semantic_type: None,
            receiver_type: None,
            member_prefix,
            receiver_expr,
            arguments,
        },
        member_prefix,
    )
}

pub open spec fn at_constructor(
    class_prefix: Seq<char>,
    expected_type: Option<Seq<char>>,
    qualifier_expr: Option<Seq<char>>,
) -> Located {
    (
        LocationView::ConstructorCall {
            class_prefix,
            expected_type,
            qualifier_expr,
            qualifier_owner_internal: None,
        },
        class_prefix,
    )
}

pub open spec fn nowhere() -> Located {
    (LocationView::Unknown, Seq::empty())
}

pub fn expression(prefix: &[char]) -> (r: (CursorLocation, String))
    ensures
        r.deep_view() == at_expression(prefix@),
{
    (CursorLocation::Expression { prefix: to_text(prefix) }, to_text(prefix))
}

pub fn empty_expression() -> (r: (CursorLocation, String))
    ensures
        r.deep_view() == at_expression(Seq::empty()),
{
    (CursorLocation::Expression { prefix: String::new() }, String::new())
}

pub fn type_annotation(prefix: &[char]) -> (r: (CursorLocation, String))
    ensures
        r.deep_view() == at_type(prefix@),
{
    (CursorLocation::TypeAnnotation { prefix: to_text(prefix) }, to_text(prefix))
}

pub fn method_argument(prefix: &[char]) -> (r: (CursorLocation, String))
    ensures
        r.deep_view() == at_argument(prefix@),
{
    (CursorLocation::MethodArgument { prefix: to_text(prefix) }, to_text(prefix))
}

pub fn variable_name(type_text: String) -> (r: (CursorLocation, String))
    ensures
        r.deep_view() == at_variable_name(type_text@),
{
    (CursorLocation::VariableName { type_text }, String::new())
}

pub fn member_access(receiver_expr: String, member_prefix: String) -> (r: (CursorLocation, String))
    ensures
        r.deep_view() == at_member(receiver_expr@, member_prefix@),
{
    member_call(receiver_expr, member_prefix, None)
}

pub fn member_call(
    receiver_expr: String,
    member_prefix: String,
    arguments: Option<String>,
) -> (r: (CursorLocation, String))
    ensures
        r.deep_view() == at_call(receiver_expr@, member_prefix@, arguments.deep_view()),
{
    let query = member_prefix.clone();
    (
        CursorLocation::MemberAccess {
            receiver_semantic_type: None,
            receiver_type: None,
            member_prefix,
            receiver_expr,
            arguments,
        },
        query,
    )
}

pub fn constructor_call(
    class_prefix: String,
    expected_type: Option<String>,
    qualifier_expr: Option<String>,
) -> (r: (CursorLocation, String))
    ensures
        r.deep_view() == at_constructor(
            class_prefix@,
            expected_type.deep_view(),
            qualifier_expr.deep_view(),
        ),
{
    let query = class_prefix.clone();
    (
        CursorLocation::ConstructorCall {
            class_prefix,
            expected_type,
            qualifier_expr,
            qualifier_owner_internal: None,
        },
        query,
    )
}

pub fn unknown() -> (r: (CursorLocation, String))
    ensures
        r.deep_view() == nowhere(),
{
    (CursorLocation::Unknown, String::new())
}

// ---- newlines ----------------------------------------------------------------------------------

/// Whether a text that the location would complete runs over a line's end.
pub open spec fn has_newline(loc: LocationView) -> bool {
    match loc {
        LocationView::ConstructorCall { class_prefix, .. } => class_prefix.contains('\n'),
        LocationView::MemberAccess { member_prefix, .. } => member_prefix.contains('\n'),
        LocationView::Expression { prefix } => prefix.contains('\n'),
        LocationView::MethodArgument { prefix } => prefix.contains('\n'),
        LocationView::TypeAnnotation { prefix } => prefix.contains('\n'),
        LocationView::MethodReference { qualifier_expr, member_prefix, .. } =>
            qualifier_expr.contains('\n') || member_prefix.contains('\n'),
        LocationView::Annotation { prefix, .. } => prefix.contains('\n'),
        LocationView::Import { prefix } => prefix.contains('\n'),
        LocationView::StringLiteral { prefix } => prefix.contains('\n'),
        _ => false,
    }
}

fn text_has_newline(s: &String) -> (r: bool)
    ensures
        r == s@.contains('\n'),
{
    let c = to_chars(s.as_str());
    contains_char(&c, '\n')
}

pub fn location_has_newline(loc: &CursorLocation) -> (r: bool)
    ensures
        r == has_newline(loc.deep_view()),
{
    match loc {
        CursorLocation::ConstructorCall { class_prefix, .. } => text_has_newline(class_prefix),
        CursorLocation::MemberAccess { member_prefix, .. } => text_has_newline(member_prefix),
        CursorLocation::Expression { prefix } => text_has_newline(prefix),
        CursorLocation::MethodArgument { prefix } => text_has_newline(prefix),
        CursorLocation::TypeAnnotation { prefix } => text_has_newline(prefix),
        CursorLocation::MethodReference { qualifier_expr, member_prefix, .. } => text_has_newline(
            qualifier_expr,
        ) || text_has_newline(member_prefix),
        CursorLocation::Annotation { prefix, .. } => text_has_newline(prefix),
        CursorLocation::Import { prefix } => text_has_newline(prefix),
        CursorLocation::StringLiteral { prefix } => text_has_newline(prefix),
        _ => false,
    }
}

// ---- siblings ----------------------------------------------------------------------------------

/// The named sibling before `n`, looked for from place `i` on; `prev` is the one at `i - 1`.
pub open spec fn preceding_from(
    kids: Seq<NodeId>,
    n: NodeId,
    prev: Option<NodeId>,
    i: int,
) -> Option<NodeId>
    decreases kids.len() - i,
{
    if i < 0 || i >= kids.len() {
        None
    } else if kids[i] == n {
        prev
    } else {
        preceding_from(kids, n, Some(kids[i]), i + 1)
    }
}

/// The named child of `parent` before `n`.
pub open spec fn preceding(t: &SyntaxTree, n: NodeId, parent: NodeId) -> Option<NodeId> {
    preceding_from(t.named_kids(parent), n, None, 0)
}

pub fn find_preceding_named_sibling(t: &SyntaxTree, n: NodeId, parent: NodeId) -> (r: Option<
    NodeId,
>)
    requires
        t.has(parent),
        t.linked(),
    ensures
        r == preceding(t, n, parent),
        r matches Some(k) ==> t.has(k),
{
    let kids = t.named_children(parent);
    let mut prev: Option<NodeId> = None;
    let mut i: usize = 0;
    while i < kids.len()
        invariant
            i <= kids@.len(),
            kids@ == t.named_kids(parent),
            t.has(parent),
            t.linked(),
            preceding(t, n, parent) == preceding_from(kids@, n, prev, i as int),
            prev matches Some(k) ==> t.has(k),
        decreases kids@.len() - i,
    {
        if kids[i] == n {
            return prev;
        }
        prev = Some(kids[i]);
        i += 1;
    }
    None
}

/// Whether `n` is a part of a scoped type name, but not its first part.
pub open spec fn later_part_of_scoped_type(t: &SyntaxTree, n: NodeId) -> bool {
    match t.parent_of(n) {
        Some(p) => {
            &&& t.kind_of(p) == "scoped_type_identifier"@
            &&& t.named_kids(p).len() > 0
            &&& t.named_kids(p)[0] != n
        },
        None => false,
    }
}

pub fn is_member_part_of_scoped_type(t: &SyntaxTree, n: NodeId) -> (r: bool)
    requires
        t.has(n),
        t.linked(),
    ensures
        r == later_part_of_scoped_type(t, n),
{
    match t.parent(n) {
        Some(p) => {
            let kids = t.named_children(p);
            t.is_kind(p, "scoped_type_identifier") && kids.len() > 0 && kids[0] != n
        },
        None => false,
    }
}

// ---- type arguments ----------------------------------------------------------------------------

/// Whether `n` is a list of type arguments with the cursor inside its angle brackets.
pub open spec fn args_at(t: &SyntaxTree, n: NodeId, offset: int) -> bool {
    &&& t.kind_of(n) == "type_arguments"@
    &&& t.start_of(n) < offset
    &&& offset <= t.end_of(n) - 1
}

/// The shorter of `best` and `n`, `n` only where the cursor is inside it.
pub open spec fn shorter_args(
    t: &SyntaxTree,
    n: NodeId,
    offset: int,
    best: Option<NodeId>,
) -> Option<NodeId> {
    if args_at(t, n, offset) {
        match best {
            Some(b) => if t.end_of(n) - t.start_of(n) < t.end_of(b) - t.start_of(b) {
                Some(n)
            } else {
                best
            },
            None => Some(n),
        }
    } else {
        best
    }
}

/// The shortest list of type arguments round the cursor at or below `n`, against `best`.
pub open spec fn innermost_args(
    t: &SyntaxTree,
    n: NodeId,
    offset: int,
    best: Option<NodeId>,
) -> Option<NodeId>
    decreases t.nodes@.len() - n, t.named_kids(n).len() + 1,
{
    innermost_args_from(t, n, offset, 0, shorter_args(t, n, offset, best))
}

/// The same, over the named children of `n` from place `i` on.
pub open spec fn innermost_args_from(
    t: &SyntaxTree,
    n: NodeId,
    offset: int,
    i: int,
    best: Option<NodeId>,
) -> Option<NodeId>
    decreases t.nodes@.len() - n, t.named_kids(n).len() - i,
{
    if i < 0 || i >= t.named_kids(n).len() {
        best
    } else {
        let k = t.named_kids(n)[i];
        if n < k && t.has(k) {
            innermost_args_from(t, n, offset, i + 1, innermost_args(t, k, offset, best))
        } else {
            best
        }
    }
}

fn visit_type_arguments(t: &SyntaxTree, n: NodeId, offset: usize, best: Option<NodeId>) -> (r:
    Option<NodeId>)
    requires
        t.has(n),
        t.linked(),
        best matches Some(b) ==> t.has(b),
        forall|m: int|
            0 <= m < t.nodes@.len() ==> (#[trigger] t.nodes@[m]).start <= t.nodes@[m].end,
    ensures
        r == innermost_args(t, n, offset as int, best),
        r matches Some(b) ==> t.has(b),
    decreases t.nodes@.len() - n,
{
    let mut found: Option<NodeId> = best;
    let end = t.end(n);
    if t.is_kind(n, "type_arguments") && t.start(n) < offset && offset < end {
        found = match best {
            Some(b) => if end - t.start(n) < t.end(b) - t.start(b) {
                Some(n)
            } else {
                best
            },
            None => Some(n),
        };
    }
    let kids = t.named_children(n);
    let mut i: usize = 0;
    while i < kids.len()
        invariant
            i <= kids@.len(),
            kids@ == t.named_kids(n),
            t.has(n),
            t.linked(),
            found matches Some(b) ==> t.has(b),
            forall|m: int|
                0 <= m < t.nodes@.len() ==> (#[trigger] t.nodes@[m]).start <= t.nodes@[m].end,
            innermost_args(t, n, offset as int, best) == innermost_args_from(
                t,
                n,
                offset as int,
                i as int,
                found,
            ),
        decreases kids@.len() - i,
    {
        found = visit_type_arguments(t, kids[i], offset, found);
        i += 1;
    }
    found
}

/// The shortest list of type arguments round the cursor in the type of a constructor call.
pub open spec fn constructor_type_arguments(
    t: &SyntaxTree,
    ctor: NodeId,
    offset: int,
) -> Option<NodeId> {
    match t.field_of(ctor, "type"@) {
        Some(ty) => innermost_args(t, ty, offset, None),
        None => None,
    }
}

pub fn find_innermost_constructor_type_arguments(ctx: &JavaContextExtractor, ctor: NodeId) -> (r:
    Option<NodeId>)
    requires
        ctx.wf(),
        ctx.tree.has(ctor),
    ensures
        r == constructor_type_arguments(&ctx.tree, ctor, ctx.offset as int),
        r matches Some(k) ==> ctx.tree.has(k),
{
    match ctx.tree.child_by_field(ctor, "type") {
        Some(ty) => visit_type_arguments(&ctx.tree, ty, ctx.offset, None),
        None => None,
    }
}

/// Where the last piece begins that a comma outside all brackets separates, with `depth` brackets
/// open at `i` and `sep` the answer so far.
pub open spec fn last_separator(s: Seq<char>, i: int, depth: int, sep: int) -> int
    decreases s.len() - i,
{
    if i < 0 || i >= s.len() {
        sep
    } else {
        let c = s[i];
        if c == '<' || c == '(' || c == '[' || c == '{' {
            last_separator(s, i + 1, depth + 1, sep)
        } else if c == '>' || c == ')' || c == ']' || c == '}' {
            last_separator(s, i + 1, depth - 1, sep)
        } else if c == ',' && depth == 0 {
            last_separator(s, i + 1, depth, i + 1)
        } else {
            last_separator(s, i + 1, depth, sep)
        }
    }
}

/// The type argument that is being typed at the cursor.
pub open spec fn type_argument_prefix(ctx: &JavaContextExtractor, args: NodeId) -> Seq<char> {
    let end = if ctx.tree.end_of(args) - 1 < ctx.offset {
        ctx.tree.end_of(args) - 1
    } else {
        ctx.offset as int
    };
    let s = ctx.piece(ctx.tree.start_of(args) + 1, end);
    trim(s.skip(last_separator(s, 0, 0, 0)))
}

pub fn find_prefix_in_type_arguments_hole(ctx: &JavaContextExtractor, args: NodeId) -> (r: &[char])
    requires
        ctx.wf(),
        ctx.tree.has(args),
    ensures
        r@ == type_argument_prefix(ctx, args),
{
    let last: usize = ctx.tree.end(args);
    let first: usize = ctx.tree.start(args);
    if first >= last {
        assert(ctx.piece(first + 1, last - 1) =~= Seq::<char>::empty());
        assert(Seq::<char>::empty().skip(0) =~= Seq::<char>::empty());
        return trimmed(ctx.byte_slice(0, 0));
    }
    let end: usize = if last - 1 < ctx.offset {
        last - 1
    } else {
        ctx.offset
    };
    let s = ctx.byte_slice(first + 1, end);
    let n: usize = s.len();
    let mut depth: i128 = 0;
    let mut sep: usize = 0;
    let mut i: usize = 0;
    while i < n
        invariant
            i <= n,
            n == s@.len(),
            sep <= i,
            -(i as int) <= depth <= i,
            last_separator(s@, 0, 0, 0) == last_separator(s@, i as int, depth as int, sep as int),
        decreases n - i,
    {
        let c = s[i];
        if c == '<' || c == '(' || c == '[' || c == '{' {
            depth += 1;
        } else if c == '>' || c == ')' || c == ']' || c == '}' {
            depth -= 1;
        } else if c == ',' && depth == 0 {
            sep = i + 1;
        }
        i += 1;
    }
    let tail = slice_subrange(s, sep, n);
    assert(tail@ =~= s@.skip(sep as int));
    trimmed(tail)
}

// ---- constructor calls -------------------------------------------------------------------------

pub open spec fn touches(t: &SyntaxTree, n: NodeId, offset: int) -> bool {
    t.start_of(n) <= offset <= t.end_of(n)
}

/// The first constructor call at the cursor, at or below `n`, through named nodes at the cursor.
pub open spec fn creation_at(t: &SyntaxTree, n: NodeId, offset: int) -> Option<NodeId>
    decreases t.nodes@.len() - n, t.named_kids(n).len() + 1,
{
    if t.kind_of(n) == "object_creation_expression"@ && touches(t, n, offset) {
        Some(n)
    } else {
        creation_at_from(t, n, offset, 0)
    }
}

/// The same, over the named children of `n` from place `i` on.
pub open spec fn creation_at_from(t: &SyntaxTree, n: NodeId, offset: int, i: int) -> Option<NodeId>
    decreases t.nodes@.len() - n, t.named_kids(n).len() - i,
{
    if i < 0 || i >= t.named_kids(n).len() {
        None
    } else {
        let k = t.named_kids(n)[i];
        if n < k && t.has(k) && touches(t, k, offset) && creation_at(t, k, offset) is Some {
            creation_at(t, k, offset)
        } else {
            creation_at_from(t, n, offset, i + 1)
        }
    }
}

pub fn find_object_creation_at_cursor(t: &SyntaxTree, n: NodeId, offset: usize) -> (r: Option<
    NodeId,
>)
    requires
        t.has(n),
        t.linked(),
    ensures
        r == creation_at(t, n, offset as int),
        r matches Some(k) ==> t.has(k),
    decreases t.nodes@.len() - n,
{
    if t.is_kind(n, "object_creation_expression") && t.start(n) <= offset && t.end(n) >= offset {
        return Some(n);
    }
    let kids = t.named_children(n);
    let mut i: usize = 0;
    while i < kids.len()
        invariant
            i <= kids@.len(),
            kids@ == t.named_kids(n),
            t.has(n),
            t.linked(),
            creation_at(t, n, offset as int) == creation_at_from(t, n, offset as int, i as int),
        decreases kids@.len() - i,
    {
        let k = kids[i];
        if t.start(k) <= offset && t.end(k) >= offset {
            if let Some(found) = find_object_creation_at_cursor(t, k, offset) {
                return Some(found);
            }
        }
        i += 1;
    }
    None
}

} // verus!
