//! Where the cursor stands in the syntax.
pub mod arguments;
pub mod block;
pub mod declarations;
pub mod error;
pub mod handlers;
pub mod heuristics;
pub mod hints;
pub mod labels;
pub mod laws;
pub mod names;
pub mod recovery;
pub mod text;
pub mod utils;

use vstd::prelude::*;

use crate::extractor::{find_string_ancestor, string_ancestor, JavaContextExtractor};
use crate::location::arguments::{
    argument_list_location, expression_statement_location, handle_argument_list,
    handle_expression_statement,
};
use crate::location::block::{block_location, handle_block_as_cursor};
use crate::location::declarations::{
    constructor_in_declaration, declared_scoped_type, detect_constructor_in_local_decl_error,
    detect_member_access_in_local_decl, detect_member_access_in_scoped_type, scoped_type_at_cursor,
};
use crate::location::error::{error_location, handle_error};
use crate::location::handlers::{
    annotation_location, constructor_location, extract_string_prefix, handle_annotation,
    handle_constructor, handle_import, handle_jump_statement, handle_member_access,
    handle_method_reference, import_declaration_location, jump_label, member_expression,
    method_reference_location, string_prefix,
};
use crate::location::heuristics::{
    detect_variable_name_after_type_text, new_before_cursor, new_before_cursor_in, trailing_dot,
    trailing_dot_of, type_before_name,
};
use crate::location::labels::{detect_statement_label_location, label_location};
use crate::location::names::{
    as_expression, handle_identifier, identifier_as_expression, identifier_location,
};
use crate::location::utils::{
    at_constructor, at_expression, at_member, at_type, at_variable_name, constructor_call,
    constructor_type_arguments, creation_at, empty_expression,
    find_innermost_constructor_type_arguments, find_object_creation_at_cursor,
    find_prefix_in_type_arguments_hole, has_newline, is_member_part_of_scoped_type,
    later_part_of_scoped_type, location_has_newline, member_access, nowhere, type_annotation,
    type_argument_prefix, unknown, variable_name, Located,
};
use crate::semantic::{CursorLocation, LocationView};
use crate::syntax::{KindClass, NodeId};
use crate::text::to_text;

verus! {

/// A constructor call at the cursor: one of its type arguments, or the call itself.
pub open spec fn creation_location(ctx: &JavaContextExtractor, ctor: NodeId) -> Located {
    match constructor_type_arguments(&ctx.tree, ctor, ctx.offset as int) {
        Some(args) => at_type(type_argument_prefix(ctx, args)),
        None => constructor_location(ctx, ctor),
    }
}

fn handle_creation(ctx: &JavaContextExtractor, ctor: NodeId) -> (r: (CursorLocation, String))
    requires
        ctx.wf(),
        ctx.tree.has(ctor),
    ensures
        r.deep_view() == creation_location(ctx, ctor),
{
    match find_innermost_constructor_type_arguments(ctx, ctor) {
        Some(args) => type_annotation(find_prefix_in_type_arguments_hole(ctx, args)),
        None => handle_constructor(ctx, ctor),
    }
}

/// A local variable declaration above the cursor: a constructor call in it, or a member access or
/// a constructor call that the parser took for a declaration.
pub open spec fn declaration_location(ctx: &JavaContextExtractor, decl: NodeId) -> Option<Located> {
    match creation_at(&ctx.tree, decl, ctx.offset as int) {
        Some(ctor) => Some(creation_location(ctx, ctor)),
        None => match declared_scoped_type(ctx, decl) {
            Some(l) => Some(l),
            None => constructor_in_declaration(ctx, decl),
        },
    }
}

fn handle_declaration(ctx: &JavaContextExtractor, decl: NodeId) -> (r: Option<
    (CursorLocation, String),
>)
    requires
        ctx.wf(),
        ctx.tree.has(decl),
    ensures
        r.deep_view() == declaration_location(ctx, decl),
{
    if let Some(ctor) = find_object_creation_at_cursor(&ctx.tree, decl, ctx.offset) {
        return Some(handle_creation(ctx, ctor));
    }
    if let Some(l) = detect_member_access_in_local_decl(ctx, decl) {
        return Some(l);
    }
    detect_constructor_in_local_decl_error(ctx, decl)
}

/// What the node `n`, at or above the node `cursor` at the cursor, says of the location.
pub open spec fn rule_for(ctx: &JavaContextExtractor, n: NodeId, cursor: NodeId) -> Option<Located> {
    let k = ctx.tree.kind_of(n);
    if KindClass::Jump.has(k) {
        jump_label(ctx, n)
    } else if KindClass::AnnotationKind.has(k) {
        Some(annotation_location(ctx, n))
    } else if k == "import_declaration"@ {
        Some(import_declaration_location(ctx, n))
    } else if KindClass::MemberExpression.has(k) {
        Some(member_expression(ctx, n))
    } else if k == "method_reference"@ {
        Some(method_reference_location(ctx, n))
    } else if k == "object_creation_expression"@ {
        Some(creation_location(ctx, n))
    } else if k == "argument_list"@ {
        Some(argument_list_location(ctx, n))
    } else if KindClass::NameLike.has(k) {
        if later_part_of_scoped_type(&ctx.tree, n) {
            None
        } else {
            Some(identifier_location(ctx, n))
        }
    } else if k == "scoped_type_identifier"@ {
        scoped_type_at_cursor(ctx, n)
    } else if k == "local_variable_declaration"@ {
        declaration_location(ctx, n)
    } else if k == "expression_statement"@ {
        expression_statement_location(ctx, n)
    } else if k == "dimensions"@ {
        Some(at_expression(Seq::empty()))
    } else if k == "ERROR"@ {
        Some(error_location(ctx, n, cursor))
    } else if k == "block"@ && n == cursor {
        Some(block_location(ctx, n))
    } else if k == "class_body"@ && n == cursor {
        Some(at_expression(Seq::empty()))
    } else {
        None
    }
}

fn apply_rule(ctx: &JavaContextExtractor, n: NodeId, cursor: NodeId) -> (r: Option<
    (CursorLocation, String),
>)
    requires
        ctx.wf(),
        ctx.tree.has(n),
        ctx.tree.has(cursor),
    ensures
        r.deep_view() == rule_for(ctx, n, cursor),
{
    let t = &ctx.tree;
    if t.is_in(n, KindClass::Jump) {
        handle_jump_statement(ctx, n)
    } else if t.is_in(n, KindClass::AnnotationKind) {
        Some(handle_annotation(ctx, n))
    } else if t.is_kind(n, "import_declaration") {
        Some(handle_import(ctx, n))
    } else if t.is_in(n, KindClass::MemberExpression) {
        Some(handle_member_access(ctx, n))
    } else if t.is_kind(n, "method_reference") {
        Some(handle_method_reference(ctx, n))
    } else if t.is_kind(n, "object_creation_expression") {
        Some(handle_creation(ctx, n))
    } else if t.is_kind(n, "argument_list") {
        Some(handle_argument_list(ctx, n))
    } else if t.is_in(n, KindClass::NameLike) {
        if is_member_part_of_scoped_type(t, n) {
            None
        } else {
            Some(handle_identifier(ctx, n))
        }
    } else if t.is_kind(n, "scoped_type_identifier") {
        detect_member_access_in_scoped_type(ctx, n)
    } else if t.is_kind(n, "local_variable_declaration") {
        handle_declaration(ctx, n)
    } else if t.is_kind(n, "expression_statement") {
        handle_expression_statement(ctx, n)
    } else if t.is_kind(n, "dimensions") {
        Some(empty_expression())
    } else if t.is_kind(n, "ERROR") {
        Some(handle_error(ctx, n, cursor))
    } else if t.is_kind(n, "block") && n == cursor {
        Some(handle_block_as_cursor(ctx, n))
    } else if t.is_kind(n, "class_body") && n == cursor {
        Some(empty_expression())
    } else {
        None
    }
}

/// What the node `n`, or the nearest node above it with a rule that applies, says of the location;
/// containers and jump statements are the last that are asked.
pub open spec fn climbed(ctx: &JavaContextExtractor, n: NodeId, cursor: NodeId) -> Option<Located>
    decreases n,
{
    match rule_for(ctx, n, cursor) {
        Some(l) => Some(l),
        None => if KindClass::LocationStop.has(ctx.tree.kind_of(n)) {
            None
        } else {
            match ctx.tree.parent_of(n) {
                Some(p) => if p < n {
                    climbed(ctx, p, cursor)
                } else {
                    None
                },
                None => None,
            }
        },
    }
}

fn climb(ctx: &JavaContextExtractor, cursor: NodeId) -> (r: Option<(CursorLocation, String)>)
    requires
        ctx.wf(),
        ctx.tree.has(cursor),
    ensures
        r.deep_view() == climbed(ctx, cursor, cursor),
{
    let t = &ctx.tree;
    let mut cur: NodeId = cursor;
    loop
        invariant
            cur <= cursor,
            *t == ctx.tree,
            t.has(cursor),
            ctx.wf(),
            climbed(ctx, cursor, cursor) == climbed(ctx, cur, cursor),
        decreases cur,
    {
        if let Some(l) = apply_rule(ctx, cur, cursor) {
            return Some(l);
        }
        if t.is_in(cur, KindClass::LocationStop) {
            return None;
        }
        match t.parent(cur) {
            Some(p) => {
                cur = p;
            },
            None => {
                return None;
            },
        }
    }
}

/// The location that the text before the cursor tells where no node does.
pub open spec fn location_in_blank(ctx: &JavaContextExtractor) -> Located {
    let before = ctx.before();
    if let Some((receiver, prefix)) = trailing_dot(before) {
        at_member(receiver, prefix)
    } else if let Some((prefix, qualifier)) = new_before_cursor(before) {
        at_constructor(prefix, None, qualifier)
    } else if let Some(ty) = type_before_name(before) {
        at_variable_name(ty)
    } else {
        at_expression(Seq::empty())
    }
}

fn determine_location_in_blank(ctx: &JavaContextExtractor) -> (r: (CursorLocation, String))
    requires
        ctx.wf(),
    ensures
        r.deep_view() == location_in_blank(ctx),
{
    let before = ctx.text_before();
    if let Some((receiver, prefix)) = trailing_dot_of(before) {
        return member_access(receiver, prefix);
    }
    if let Some(found) = new_before_cursor_in(before) {
        return constructor_call(found.class_prefix, None, found.qualifier_expr);
    }
    if let Some(ty) = detect_variable_name_after_type_text(ctx) {
        return variable_name(ty);
    }
    empty_expression()
}

/// The location where no rule of a node applies.
pub open spec fn location_without_rule(ctx: &JavaContextExtractor, n: NodeId) -> Located {
    if KindClass::NameLike.has(ctx.tree.kind_of(n)) {
        as_expression(ctx, n)
    } else if let Some((receiver, prefix)) = trailing_dot(ctx.before()) {
        at_member(receiver, prefix)
    } else if let Some(ty) = type_before_name(ctx.before()) {
        at_variable_name(ty)
    } else {
        at_expression(Seq::empty())
    }
}

fn determine_without_rule(ctx: &JavaContextExtractor, n: NodeId) -> (r: (CursorLocation, String))
    requires
        ctx.wf(),
        ctx.tree.has(n),
    ensures
        r.deep_view() == location_without_rule(ctx, n),
{
    if ctx.tree.is_in(n, KindClass::NameLike) {
        return identifier_as_expression(ctx, n);
    }
    if let Some((receiver, prefix)) = trailing_dot_of(ctx.text_before()) {
        return member_access(receiver, prefix);
    }
    if let Some(ty) = detect_variable_name_after_type_text(ctx) {
        return variable_name(ty);
    }
    empty_expression()
}

/// The location of the cursor at a node: nowhere in a comment, then the string, the label, the
/// nodes above, the text.
pub open spec fn location_at_node(ctx: &JavaContextExtractor, n: NodeId) -> Located {
    let t = &ctx.tree;
    if KindClass::Comment.has(t.kind_of(n)) {
        nowhere()
    } else if let Some(s) = string_ancestor(t, n) {
        (
            LocationView::StringLiteral { prefix: string_prefix(ctx, s) },
            string_prefix(ctx, s),
        )
    } else if let Some(l) = label_location(ctx, n) {
        l
    } else if let Some(l) = climbed(ctx, n, n) {
        l
    } else {
        location_without_rule(ctx, n)
    }
}

fn determine_location_at(ctx: &JavaContextExtractor, n: NodeId) -> (r: (CursorLocation, String))
    requires
        ctx.wf(),
        ctx.tree.has(n),
    ensures
        r.deep_view() == location_at_node(ctx, n),
{
    let t = &ctx.tree;
    if t.is_in(n, KindClass::Comment) {
        return unknown();
    }
    if let Some(s) = find_string_ancestor(t, n) {
        let prefix = to_text(extract_string_prefix(ctx, s));
        let query = prefix.clone();
        return (CursorLocation::StringLiteral { prefix }, query);
    }
    if let Some(l) = detect_statement_label_location(ctx, n) {
        return l;
    }
    if let Some(l) = climb(ctx, n) {
        return l;
    }
    determine_without_rule(ctx, n)
}

/// The location of the cursor, before texts that run over a line's end are ruled out.
pub open spec fn raw_location(ctx: &JavaContextExtractor, cursor: Option<NodeId>) -> Located {
    match cursor {
        Some(n) => location_at_node(ctx, n),
        None => location_in_blank(ctx),
    }
}

/// The location of the cursor; nowhere, where the text to complete would run over a line's end.
pub open spec fn location(ctx: &JavaContextExtractor, cursor: Option<NodeId>) -> Located {
    let l = raw_location(ctx, cursor);
    if has_newline(l.0) {
        nowhere()
    } else {
        l
    }
}

fn determine_location_impl(ctx: &JavaContextExtractor, cursor_node: Option<NodeId>) -> (r: (
    CursorLocation,
    String,
))
    requires
        ctx.wf(),
        cursor_node matches Some(n) ==> ctx.tree.has(n),
    ensures
        r.deep_view() == raw_location(ctx, cursor_node),
{
    match cursor_node {
        Some(n) => determine_location_at(ctx, n),
        None => determine_location_in_blank(ctx),
    }
}

/// Tells where in the syntax the cursor stands, and the text to complete there.
///
/// `cursor_node` is the node at the cursor, if there is one. The character that triggered the
/// request plays no part.
pub fn determine_location(
    ctx: &JavaContextExtractor,
    cursor_node: Option<NodeId>,
    trigger_char: Option<char>,
) -> (r: (CursorLocation, String))
    requires
        ctx.wf(),
        cursor_node matches Some(n) ==> ctx.tree.has(n),
    ensures
        r.deep_view() == location(ctx, cursor_node),
{
    let (loc, query) = determine_location_impl(ctx, cursor_node);
    if location_has_newline(&loc) {
        unknown()
    } else {
        (loc, query)
    }
}

// ---- laws --------------------------------------------------------------------------------------

/// Nothing is completed over a line's end.
pub proof fn lemma_stays_on_a_line(ctx: &JavaContextExtractor, cursor: Option<NodeId>)
    ensures
        !has_newline(location(ctx, cursor).0),
{
}

/// There is nothing to complete in a comment.
pub proof fn lemma_nothing_in_comments(ctx: &JavaContextExtractor, n: NodeId)
    requires
        KindClass::Comment.has(ctx.tree.kind_of(n)),
    ensures
        location(ctx, Some(n)) == nowhere(),
{
}

/// In a string the text of the string is completed and nothing else, if it is on one line.
pub proof fn lemma_strings_are_texts(ctx: &JavaContextExtractor, n: NodeId)
    requires
        !KindClass::Comment.has(ctx.tree.kind_of(n)),
        string_ancestor(&ctx.tree, n) is Some,
    ensures
        ({
            let prefix = string_prefix(ctx, string_ancestor(&ctx.tree, n)->0);
            location(ctx, Some(n)) == if prefix.contains('\n') {
                nowhere()
            } else {
                (LocationView::StringLiteral { prefix }, prefix)
            }
        }),
{
}

} // verus!
