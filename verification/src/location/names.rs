//! The rule for identifiers: what stands above an identifier tells what it is.
use vstd::prelude::*;

use crate::extractor::{
    cursor_truncated_text, is_in_name_position, is_in_type_position, name_position, strip_sentinel,
    type_position, unmarked, JavaContextExtractor,
};
use crate::location::arguments::{argument_list_location, handle_argument_list};
use crate::location::declarations::{
    detect_variable_name_position_in_error, is_variable_name_after_complete_type,
    is_variable_name_after_previous_declaration, name_after_complete_type, name_after_declaration,
    type_in_error,
};
use crate::location::handlers::{
    annotation_location, constructor_location, handle_annotation, handle_constructor, handle_import,
    handle_member_access, handle_method_reference, import_declaration_location, member_expression,
    method_reference_location,
};
use crate::location::heuristics::{
    handle_import_from_text, import_from_text, in_import, is_import_context, new_before_cursor,
    new_before_cursor_in, trailing_dot, trailing_dot_of,
};
use crate::location::recovery::{
    detect_member_tail_in_misread_local_decl, is_misread_expression_in_local_decl, member_tail,
    misread_expression,
};
use crate::location::utils::{
    at_constructor, at_expression, at_member, at_type, at_variable_name, constructor_call,
    expression, member_access, type_annotation, variable_name, Located,
};
use crate::semantic::CursorLocation;
use crate::syntax::{KindClass, NodeId, SyntaxTree};
use crate::text::{to_text, trim, trimmed};

verus! {

/// The identifier as an expression that is being typed.
pub open spec fn as_expression(ctx: &JavaContextExtractor, id: NodeId) -> Located {
    at_expression(unmarked(ctx.text_to_cursor(id)))
}

pub fn identifier_as_expression(ctx: &JavaContextExtractor, id: NodeId) -> (r: (
    CursorLocation,
    String,
))
    requires
        ctx.wf(),
        ctx.tree.has(id),
    ensures
        r.deep_view() == as_expression(ctx, id),
{
    let clean = strip_sentinel(cursor_truncated_text(ctx, id));
    expression(&clean)
}

/// The type of a declaration: its first named child that is no modifier.
pub open spec fn declared_type_text(ctx: &JavaContextExtractor, decl: NodeId) -> Seq<char> {
    match ctx.tree.first_other(ctx.tree.named_kids(decl), "modifiers"@) {
        Some(ty) => trim(ctx.text_of(ty)),
        None => Seq::empty(),
    }
}

pub fn extract_type_from_decl(ctx: &JavaContextExtractor, decl: NodeId) -> (r: String)
    requires
        ctx.wf(),
        ctx.tree.has(decl),
    ensures
        r@ == declared_type_text(ctx, decl),
{
    match ctx.tree.first_not_of_kind(ctx.tree.named_children(decl), "modifiers") {
        Some(ty) => to_text(trimmed(ctx.node_text(ty))),
        None => String::new(),
    }
}

/// Whether the identifier lies in the type of the declaration.
pub open spec fn in_type_subtree(t: &SyntaxTree, id: NodeId, decl: NodeId) -> bool {
    match t.first_other(t.named_kids(decl), "modifiers"@) {
        Some(ty) => t.descends(id, ty),
        None => false,
    }
}

fn is_in_type_subtree(t: &SyntaxTree, id: NodeId, decl: NodeId) -> (r: bool)
    requires
        t.has(id),
        t.has(decl),
        t.linked(),
    ensures
        r == in_type_subtree(t, id, decl),
{
    match t.first_not_of_kind(t.named_children(decl), "modifiers") {
        Some(ty) => t.is_descendant_of(id, ty),
        None => false,
    }
}

/// Whether the identifier lies in the type arguments of a constructor call.
pub open spec fn in_constructor_arguments(t: &SyntaxTree, id: NodeId, ctor: NodeId) -> bool {
    match (t.field_of(ctor, "type"@), t.ancestor(id, "type_arguments"@)) {
        (Some(ty), Some(args)) => t.descends(args, ty) && t.descends(id, args),
        _ => false,
    }
}

fn is_in_constructor_type_arguments(t: &SyntaxTree, id: NodeId, ctor: NodeId) -> (r: bool)
    requires
        t.has(id),
        t.has(ctor),
        t.linked(),
    ensures
        r == in_constructor_arguments(t, id, ctor),
{
    match (t.child_by_field(ctor, "type"), t.ancestor_of_kind(id, "type_arguments")) {
        (Some(ty), Some(args)) => t.is_descendant_of(args, ty) && t.is_descendant_of(id, args),
        _ => false,
    }
}

/// An identifier in a local variable declaration: an expression that was misread, the name or the
/// type of the variable, or a member access that was misread.
pub open spec fn in_declaration(ctx: &JavaContextExtractor, id: NodeId, decl: NodeId) -> Located {
    let t = &ctx.tree;
    if misread_expression(ctx, id, decl) {
        as_expression(ctx, id)
    } else if name_after_complete_type(ctx, decl) {
        at_variable_name(declared_type_text(ctx, decl))
    } else if let Some((receiver, prefix)) = member_tail(ctx, id, decl) {
        at_member(receiver, prefix)
    } else if type_position(t, id, decl) {
        at_type(ctx.text_to_cursor(id))
    } else if name_position(t, id, decl) {
        at_variable_name(declared_type_text(ctx, decl))
    } else if in_type_subtree(t, id, decl) {
        at_type(ctx.text_to_cursor(id))
    } else {
        as_expression(ctx, id)
    }
}

fn handle_in_declaration(ctx: &JavaContextExtractor, id: NodeId, decl: NodeId) -> (r: (
    CursorLocation,
    String,
))
    requires
        ctx.wf(),
        ctx.tree.has(id),
        ctx.tree.has(decl),
    ensures
        r.deep_view() == in_declaration(ctx, id, decl),
{
    let t = &ctx.tree;
    if is_misread_expression_in_local_decl(ctx, id, decl) {
        return identifier_as_expression(ctx, id);
    }
    if is_variable_name_after_complete_type(ctx, decl) {
        return variable_name(extract_type_from_decl(ctx, decl));
    }
    if let Some((receiver, prefix)) = detect_member_tail_in_misread_local_decl(ctx, id, decl) {
        return member_access(receiver, prefix);
    }
    if is_in_type_position(t, id, decl) {
        return type_annotation(cursor_truncated_text(ctx, id));
    }
    if is_in_name_position(t, id, decl) {
        return variable_name(extract_type_from_decl(ctx, decl));
    }
    if is_in_type_subtree(t, id, decl) {
        return type_annotation(cursor_truncated_text(ctx, id));
    }
    identifier_as_expression(ctx, id)
}

/// An identifier in a parameter: its name or its type.
pub open spec fn in_parameter(ctx: &JavaContextExtractor, id: NodeId, param: NodeId) -> Located {
    let t = &ctx.tree;
    if t.field_of(param, "name"@) == Some(id) {
        at_variable_name(
            match t.field_of(param, "type"@) {
                Some(ty) => trim(ctx.text_of(ty)),
                None => Seq::empty(),
            },
        )
    } else {
        at_type(ctx.text_to_cursor(id))
    }
}

fn handle_in_parameter(ctx: &JavaContextExtractor, id: NodeId, param: NodeId) -> (r: (
    CursorLocation,
    String,
))
    requires
        ctx.wf(),
        ctx.tree.has(id),
        ctx.tree.has(param),
    ensures
        r.deep_view() == in_parameter(ctx, id, param),
{
    let t = &ctx.tree;
    let named: bool = match t.child_by_field(param, "name") {
        Some(n) => n == id,
        None => false,
    };
    if named {
        let ty: String = match t.child_by_field(param, "type") {
            Some(ty) => to_text(trimmed(ctx.node_text(ty))),
            None => String::new(),
        };
        variable_name(ty)
    } else {
        type_annotation(cursor_truncated_text(ctx, id))
    }
}

/// An identifier in an argument list, or the name of a call before its argument list.
pub open spec fn in_arguments(ctx: &JavaContextExtractor, id: NodeId, list: NodeId) -> Located {
    let t = &ctx.tree;
    match t.parent_of(id) {
        Some(p) => if t.kind_of(p) == "method_invocation"@ && ctx.offset <= t.start_of(list) {
            member_expression(ctx, p)
        } else {
            argument_list_location(ctx, list)
        },
        None => argument_list_location(ctx, list),
    }
}

fn handle_in_arguments(ctx: &JavaContextExtractor, id: NodeId, list: NodeId) -> (r: (
    CursorLocation,
    String,
))
    requires
        ctx.wf(),
        ctx.tree.has(id),
        ctx.tree.has(list),
    ensures
        r.deep_view() == in_arguments(ctx, id, list),
{
    let t = &ctx.tree;
    if let Some(p) = t.parent(id) {
        if t.is_kind(p, "method_invocation") && ctx.offset <= t.start(list) {
            return handle_member_access(ctx, p);
        }
    }
    handle_argument_list(ctx, list)
}

/// An identifier in an error: what the text before the cursor spells.
pub open spec fn in_error(ctx: &JavaContextExtractor, id: NodeId) -> Located {
    let before = ctx.before();
    if in_import(before) {
        import_from_text(before)
    } else if let Some((receiver, prefix)) = trailing_dot(before) {
        at_member(receiver, prefix)
    } else if let Some((prefix, qualifier)) = new_before_cursor(before) {
        at_constructor(prefix, None, qualifier)
    } else {
        as_expression(ctx, id)
    }
}

fn handle_in_error(ctx: &JavaContextExtractor, id: NodeId) -> (r: (CursorLocation, String))
    requires
        ctx.wf(),
        ctx.tree.has(id),
    ensures
        r.deep_view() == in_error(ctx, id),
{
    let before = ctx.text_before();
    if is_import_context(before) {
        return handle_import_from_text(before);
    }
    if let Some((receiver, prefix)) = trailing_dot_of(before) {
        return member_access(receiver, prefix);
    }
    if let Some(found) = new_before_cursor_in(before) {
        return constructor_call(found.class_prefix, None, found.qualifier_expr);
    }
    identifier_as_expression(ctx, id)
}

/// What the node `n` above the identifier `id` says of it, if it says anything.
pub open spec fn said_by(ctx: &JavaContextExtractor, n: NodeId, id: NodeId) -> Option<Located> {
    let k = ctx.tree.kind_of(n);
    if KindClass::AnnotationKind.has(k) {
        Some(annotation_location(ctx, n))
    } else if KindClass::MemberExpression.has(k) {
        Some(member_expression(ctx, n))
    } else if k == "method_reference"@ {
        Some(method_reference_location(ctx, n))
    } else if k == "import_declaration"@ {
        Some(import_declaration_location(ctx, n))
    } else if k == "object_creation_expression"@ {
        if in_constructor_arguments(&ctx.tree, id, n) {
            Some(at_type(ctx.text_to_cursor(id)))
        } else {
            Some(constructor_location(ctx, n))
        }
    } else if k == "local_variable_declaration"@ {
        Some(in_declaration(ctx, id, n))
    } else if KindClass::Parameter.has(k) {
        Some(in_parameter(ctx, id, n))
    } else if k == "argument_list"@ {
        Some(in_arguments(ctx, id, n))
    } else if k == "ERROR"@ {
        Some(in_error(ctx, id))
    } else if k == "class_body"@ {
        Some(as_expression(ctx, id))
    } else {
        None
    }
}

fn ask(ctx: &JavaContextExtractor, n: NodeId, id: NodeId) -> (r: Option<(CursorLocation, String)>)
    requires
        ctx.wf(),
        ctx.tree.has(n),
        ctx.tree.has(id),
    ensures
        r.deep_view() == said_by(ctx, n, id),
{
    let t = &ctx.tree;
    if t.is_in(n, KindClass::AnnotationKind) {
        Some(handle_annotation(ctx, n))
    } else if t.is_in(n, KindClass::MemberExpression) {
        Some(handle_member_access(ctx, n))
    } else if t.is_kind(n, "method_reference") {
        Some(handle_method_reference(ctx, n))
    } else if t.is_kind(n, "import_declaration") {
        Some(handle_import(ctx, n))
    } else if t.is_kind(n, "object_creation_expression") {
        if is_in_constructor_type_arguments(t, id, n) {
            Some(type_annotation(cursor_truncated_text(ctx, id)))
        } else {
            Some(handle_constructor(ctx, n))
        }
    } else if t.is_kind(n, "local_variable_declaration") {
        Some(handle_in_declaration(ctx, id, n))
    } else if t.is_in(n, KindClass::Parameter) {
        Some(handle_in_parameter(ctx, id, n))
    } else if t.is_kind(n, "argument_list") {
        Some(handle_in_arguments(ctx, id, n))
    } else if t.is_kind(n, "ERROR") {
        Some(handle_in_error(ctx, id))
    } else if t.is_kind(n, "class_body") {
        Some(identifier_as_expression(ctx, id))
    } else {
        None
    }
}

/// What `n`, or the nearest node above it that says anything, says of the identifier; a container
/// is the last that is asked.
pub open spec fn said_above(ctx: &JavaContextExtractor, n: NodeId, id: NodeId) -> Option<Located>
    decreases n,
{
    match said_by(ctx, n, id) {
        Some(l) => Some(l),
        None => if KindClass::Container.has(ctx.tree.kind_of(n)) {
            None
        } else {
            match ctx.tree.parent_of(n) {
                Some(p) => if p < n {
                    said_above(ctx, p, id)
                } else {
                    None
                },
                None => None,
            }
        },
    }
}

fn climb(ctx: &JavaContextExtractor, first: NodeId, id: NodeId) -> (r: Option<
    (CursorLocation, String),
>)
    requires
        ctx.wf(),
        ctx.tree.has(first),
        ctx.tree.has(id),
    ensures
        r.deep_view() == said_above(ctx, first, id),
{
    let t = &ctx.tree;
    let mut cur: NodeId = first;
    loop
        invariant
            cur <= first,
            *t == ctx.tree,
            t.has(first),
            t.has(id),
            ctx.wf(),
            said_above(ctx, first, id) == said_above(ctx, cur, id),
        decreases cur,
    {
        if let Some(l) = ask(ctx, cur, id) {
            return Some(l);
        }
        if t.is_in(cur, KindClass::Container) {
            return None;
        }
        match t.parent(cur) {
            Some(p) => {
                cur = p;
            },
            None => {
                return None;
            },
        }
    }
}

/// The type that an error round the identifier holds alone before the cursor.
pub open spec fn type_in_error_above(ctx: &JavaContextExtractor, id: NodeId) -> Option<Seq<char>> {
    match ctx.tree.ancestor(id, "ERROR"@) {
        Some(error) => type_in_error(ctx, error),
        None => None,
    }
}

/// The place of an identifier: a variable's name after a type, or what the nodes above say, or an
/// expression.
pub open spec fn identifier_location(ctx: &JavaContextExtractor, id: NodeId) -> Located {
    if let Some(ty) = name_after_declaration(ctx, id) {
        at_variable_name(ty)
    } else if let Some(ty) = type_in_error_above(ctx, id) {
        at_variable_name(ty)
    } else {
        match ctx.tree.parent_of(id) {
            Some(p) => match said_above(ctx, p, id) {
                Some(l) => l,
                None => as_expression(ctx, id),
            },
            None => as_expression(ctx, id),
        }
    }
}

/// Tells the location of the cursor at an identifier.
pub fn handle_identifier(ctx: &JavaContextExtractor, id: NodeId) -> (r: (CursorLocation, String))
    requires
        ctx.wf(),
        ctx.tree.has(id),
    ensures
        r.deep_view() == identifier_location(ctx, id),
{
    let t = &ctx.tree;
    if let Some(ty) = is_variable_name_after_previous_declaration(ctx, id) {
        return variable_name(ty);
    }
    if let Some(error) = t.ancestor_of_kind(id, "ERROR") {
        if let Some(ty) = detect_variable_name_position_in_error(ctx, error) {
            return variable_name(ty);
        }
    }
    if let Some(p) = t.parent(id) {
        if let Some(l) = climb(ctx, p, id) {
            return l;
        }
    }
    identifier_as_expression(ctx, id)
}

} // verus!
