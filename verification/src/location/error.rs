//! The rule for errors.
use vstd::prelude::*;

use crate::extractor::JavaContextExtractor;
use crate::location::arguments::{argument_list_location, handle_argument_list};
use crate::location::declarations::{detect_dot_after_receiver, dot_after_receiver};
use crate::location::heuristics::{
    handle_import_from_text, import_from_text, in_import, is_import_context,
};
use crate::location::names::{
    as_expression, handle_identifier, identifier_as_expression, identifier_location,
};
use crate::location::text::{new_before_cursor, new_before_cursor_in, trailing_dot, trailing_dot_of};
use crate::location::utils::{
    at_constructor, at_expression, at_member, constructor_call, empty_expression,
    find_preceding_named_sibling, member_access, preceding, Located,
};
use crate::semantic::CursorLocation;
use crate::syntax::{KindClass, NodeId};
use crate::text::to_text;

verus! {

/// An error in an argument list: a lone dot behind an argument, or a broken argument.
pub open spec fn error_in_arguments(ctx: &JavaContextExtractor, error: NodeId, list: NodeId) -> Located {
    let t = &ctx.tree;
    let dot = t.kids(error).len() == 1 && t.kind_of(t.kids(error)[0]) == "."@;
    match preceding(t, error, list) {
        Some(receiver) => if dot {
            at_member(ctx.text_of(receiver), Seq::empty())
        } else {
            argument_list_location(ctx, list)
        },
        None => argument_list_location(ctx, list),
    }
}

fn handle_error_in_arguments(ctx: &JavaContextExtractor, error: NodeId, list: NodeId) -> (r: (
    CursorLocation,
    String,
))
    requires
        ctx.wf(),
        ctx.tree.has(error),
        ctx.tree.has(list),
    ensures
        r.deep_view() == error_in_arguments(ctx, error, list),
{
    let t = &ctx.tree;
    let kids = t.children(error);
    if kids.len() == 1 && t.is_kind(kids[0], ".") {
        if let Some(receiver) = find_preceding_named_sibling(t, error, list) {
            return member_access(to_text(ctx.node_text(receiver)), String::new());
        }
    }
    handle_argument_list(ctx, list)
}

/// An error in a class body: the member that is being typed.
pub open spec fn error_in_class_body(
    ctx: &JavaContextExtractor,
    error: NodeId,
    cursor: NodeId,
) -> Located {
    let t = &ctx.tree;
    if KindClass::Identifier.has(t.kind_of(cursor)) {
        as_expression(ctx, cursor)
    } else {
        match t.first_class(t.named_kids(error), KindClass::Identifier) {
            Some(id) => as_expression(ctx, id),
            None => at_expression(Seq::empty()),
        }
    }
}

pub fn handle_error_in_class_body(
    ctx: &JavaContextExtractor,
    error: NodeId,
    cursor: NodeId,
) -> (r: (CursorLocation, String))
    requires
        ctx.wf(),
        ctx.tree.has(error),
        ctx.tree.has(cursor),
    ensures
        r.deep_view() == error_in_class_body(ctx, error, cursor),
{
    let t = &ctx.tree;
    if t.is_in(cursor, KindClass::Identifier) {
        return identifier_as_expression(ctx, cursor);
    }
    match t.first_in_class(t.named_children(error), KindClass::Identifier) {
        Some(id) => identifier_as_expression(ctx, id),
        None => empty_expression(),
    }
}

/// An error among statements: what the text before the cursor spells, then a dot behind an
/// expression, then the identifier at the cursor.
pub open spec fn error_in_code(
    ctx: &JavaContextExtractor,
    error: NodeId,
    cursor: NodeId,
) -> Located {
    let before = ctx.before();
    if in_import(before) {
        import_from_text(before)
    } else if let Some((receiver, prefix)) = trailing_dot(before) {
        at_member(receiver, prefix)
    } else if let Some((prefix, expected)) = new_before_cursor(before) {
        at_constructor(prefix, expected, None)
    } else if let Some(l) = dot_after_receiver(ctx, error, KindClass::Receiver) {
        l
    } else if KindClass::Identifier.has(ctx.tree.kind_of(cursor)) {
        identifier_location(ctx, cursor)
    } else {
        at_expression(Seq::empty())
    }
}

fn handle_error_in_code(ctx: &JavaContextExtractor, error: NodeId, cursor: NodeId) -> (r: (
    CursorLocation,
    String,
))
    requires
        ctx.wf(),
        ctx.tree.has(error),
        ctx.tree.has(cursor),
    ensures
        r.deep_view() == error_in_code(ctx, error, cursor),
{
    let before = ctx.text_before();
    if is_import_context(before) {
        return handle_import_from_text(before);
    }
    if let Some((receiver, prefix)) = trailing_dot_of(before) {
        return member_access(receiver, prefix);
    }
    if let Some((prefix, expected)) = new_before_cursor_in(before) {
        return constructor_call(prefix, expected, None);
    }
    if let Some(l) = detect_dot_after_receiver(ctx, error, KindClass::Receiver) {
        return l;
    }
    if ctx.tree.is_in(cursor, KindClass::Identifier) {
        return handle_identifier(ctx, cursor);
    }
    empty_expression()
}

/// The place of the cursor in an error.
pub open spec fn error_location(
    ctx: &JavaContextExtractor,
    error: NodeId,
    cursor: NodeId,
) -> Located {
    let t = &ctx.tree;
    match t.parent_of(error) {
        Some(p) => if t.kind_of(p) == "argument_list"@ {
            error_in_arguments(ctx, error, p)
        } else if t.kind_of(p) == "class_body"@ {
            error_in_class_body(ctx, error, cursor)
        } else {
            error_in_code(ctx, error, cursor)
        },
        None => error_in_code(ctx, error, cursor),
    }
}

pub fn handle_error(ctx: &JavaContextExtractor, error: NodeId, cursor: NodeId) -> (r: (
    CursorLocation,
    String,
))
    requires
        ctx.wf(),
        ctx.tree.has(error),
        ctx.tree.has(cursor),
    ensures
        r.deep_view() == error_location(ctx, error, cursor),
{
    let t = &ctx.tree;
    if let Some(p) = t.parent(error) {
        if t.is_kind(p, "argument_list") {
            return handle_error_in_arguments(ctx, error, p);
        }
        if t.is_kind(p, "class_body") {
            return handle_error_in_class_body(ctx, error, cursor);
        }
    }
    handle_error_in_code(ctx, error, cursor)
}

} // verus!
