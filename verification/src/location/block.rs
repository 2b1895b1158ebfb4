//! The rule for a block with the cursor between its statements.
use vstd::prelude::*;

use crate::extractor::JavaContextExtractor;
use crate::location::declarations::{
    detect_variable_name_position, detect_variable_name_position_in_error, name_position_in_block,
    scoped_type_member, scoped_type_to_member_access, type_in_error,
};
use crate::location::heuristics::{
    detect_variable_name_after_type_text, new_before_cursor, new_before_cursor_in, trailing_dot,
    trailing_dot_of, type_before_name,
};
use crate::location::utils::{
    at_constructor, at_expression, at_member, at_variable_name, constructor_call, empty_expression,
    member_access, variable_name, Located,
};
use crate::semantic::CursorLocation;
use crate::syntax::{NodeId, SyntaxTree};

verus! {

/// The last node in `ids`, from place `i` on, that ends by `offset`, against `last`.
pub open spec fn last_ending_from(
    t: &SyntaxTree,
    ids: Seq<NodeId>,
    offset: int,
    i: int,
    last: Option<NodeId>,
) -> Option<NodeId>
    decreases ids.len() - i,
{
    if i < 0 || i >= ids.len() {
        last
    } else if t.end_of(ids[i]) <= offset {
        last_ending_from(t, ids, offset, i + 1, Some(ids[i]))
    } else {
        last_ending_from(t, ids, offset, i + 1, last)
    }
}

fn last_ending(t: &SyntaxTree, ids: &[NodeId], offset: usize) -> (r: Option<NodeId>)
    requires
        t.all_in(ids@),
    ensures
        r == last_ending_from(t, ids@, offset as int, 0, None),
        r matches Some(k) ==> t.has(k),
{
    let mut last: Option<NodeId> = None;
    let mut i: usize = 0;
    while i < ids.len()
        invariant
            i <= ids@.len(),
            t.all_in(ids@),
            last matches Some(k) ==> t.has(k),
            last_ending_from(t, ids@, offset as int, 0, None) == last_ending_from(
                t,
                ids@,
                offset as int,
                i as int,
                last,
            ),
        decreases ids@.len() - i,
    {
        if t.end(ids[i]) <= offset {
            last = Some(ids[i]);
        }
        i += 1;
    }
    last
}

/// The first scoped type name in `ids`, from place `i` on, that is a member access.
pub open spec fn scoped_member_from(ctx: &JavaContextExtractor, ids: Seq<NodeId>, i: int) -> Option<
    Located,
>
    decreases ids.len() - i,
{
    if i < 0 || i >= ids.len() {
        None
    } else if ctx.tree.kind_of(ids[i]) == "scoped_type_identifier"@ && scoped_type_member(
        ctx,
        ids[i],
    ) is Some {
        scoped_type_member(ctx, ids[i])
    } else {
        scoped_member_from(ctx, ids, i + 1)
    }
}

fn first_scoped_member(ctx: &JavaContextExtractor, ids: &[NodeId]) -> (r: Option<
    (CursorLocation, String),
>)
    requires
        ctx.wf(),
        ctx.tree.all_in(ids@),
    ensures
        r.deep_view() == scoped_member_from(ctx, ids@, 0),
{
    let mut i: usize = 0;
    while i < ids.len()
        invariant
            i <= ids@.len(),
            ctx.wf(),
            ctx.tree.all_in(ids@),
            scoped_member_from(ctx, ids@, 0) == scoped_member_from(ctx, ids@, i as int),
        decreases ids@.len() - i,
    {
        if ctx.tree.is_kind(ids[i], "scoped_type_identifier") {
            if let Some(l) = scoped_type_to_member_access(ctx, ids[i]) {
                return Some(l);
            }
        }
        i += 1;
    }
    None
}

/// An error that is the last thing of a block before the cursor: a member access, a type that
/// awaits a name, a constructor call, or an expression that is still to be typed.
pub open spec fn error_before_cursor(ctx: &JavaContextExtractor, error: NodeId) -> Located {
    if let Some(l) = scoped_member_from(ctx, ctx.tree.named_kids(error), 0) {
        l
    } else if let Some(ty) = type_in_error(ctx, error) {
        at_variable_name(ty)
    } else if let Some((prefix, qualifier)) = new_before_cursor(ctx.before()) {
        at_constructor(prefix, None, qualifier)
    } else {
        at_expression(Seq::empty())
    }
}

pub fn handle_error_as_last_block_child(ctx: &JavaContextExtractor, error: NodeId) -> (r: (
    CursorLocation,
    String,
))
    requires
        ctx.wf(),
        ctx.tree.has(error),
    ensures
        r.deep_view() == error_before_cursor(ctx, error),
{
    if let Some(l) = first_scoped_member(ctx, ctx.tree.named_children(error)) {
        return l;
    }
    if let Some(ty) = detect_variable_name_position_in_error(ctx, error) {
        return variable_name(ty);
    }
    if let Some(found) = new_before_cursor_in(ctx.text_before()) {
        return constructor_call(found.class_prefix, None, found.qualifier_expr);
    }
    empty_expression()
}

/// The place of the cursor in a block, no error before it.
pub open spec fn between_statements(ctx: &JavaContextExtractor, block: NodeId) -> Located {
    if let Some(l) = name_position_in_block(ctx, block) {
        l
    } else if let Some(ty) = type_before_name(ctx.before()) {
        at_variable_name(ty)
    } else if let Some((receiver, prefix)) = trailing_dot(ctx.before()) {
        at_member(receiver, prefix)
    } else {
        at_expression(Seq::empty())
    }
}

/// The place of the cursor in a block.
pub open spec fn block_location(ctx: &JavaContextExtractor, block: NodeId) -> Located {
    let t = &ctx.tree;
    match last_ending_from(t, t.named_kids(block), ctx.offset as int, 0, None) {
        Some(k) => if t.kind_of(k) == "ERROR"@ {
            error_before_cursor(ctx, k)
        } else {
            between_statements(ctx, block)
        },
        None => between_statements(ctx, block),
    }
}

pub fn handle_block_as_cursor(ctx: &JavaContextExtractor, block: NodeId) -> (r: (
    CursorLocation,
    String,
))
    requires
        ctx.wf(),
        ctx.tree.has(block),
    ensures
        r.deep_view() == block_location(ctx, block),
{
    let t = &ctx.tree;
    if let Some(k) = last_ending(t, t.named_children(block), ctx.offset) {
        if t.is_kind(k, "ERROR") {
            return handle_error_as_last_block_child(ctx, k);
        }
    }
    if let Some(l) = detect_variable_name_position(ctx, block) {
        return l;
    }
    if let Some(ty) = detect_variable_name_after_type_text(ctx) {
        return variable_name(ty);
    }
    if let Some((receiver, prefix)) = trailing_dot_of(ctx.text_before()) {
        return member_access(receiver, prefix);
    }
    empty_expression()
}

} // verus!
