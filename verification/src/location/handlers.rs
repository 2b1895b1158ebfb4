//! One rule for each kind of node that can hold the cursor.
use vstd::prelude::*;
use vstd::slice::slice_subrange;

use crate::extractor::{
    cursor_truncated_text, generic_base, normalize_top_level_generic_base, strip_sentinel, unmarked,
    JavaContextExtractor,
};
use crate::location::heuristics::{at_import, import_location};
use crate::location::text::{non_empty, unless_empty};
use crate::location::utils::{
    at_call, at_constructor, at_expression, at_member, constructor_call, empty_expression,
    expression, member_access, member_call, nowhere, unknown, Located,
};
use crate::semantic::{CursorLocation, LocationView, StatementLabelCompletionKind};
use crate::syntax::{KindClass, NodeId, SyntaxTree};
use crate::text::{
    append, begins_with, contains_char, find, find_char, find_text, index_of, starts_with,
    strip_prefix, strip_suffix, to_text, trim, trim_start, trimmed, trimmed_start, without_prefix,
    without_suffix,
};

verus! {

// ---- strings -----------------------------------------------------------------------------------

/// What a string literal holds up to the cursor.
pub open spec fn string_prefix(ctx: &JavaContextExtractor, n: NodeId) -> Seq<char> {
    let raw = ctx.text_to_cursor(n);
    if ctx.tree.kind_of(n) == "string_literal"@ {
        match index_of(raw, '"') {
            Some(i) => {
                let after = raw.skip(i + 1);
                match strip_suffix(after, "\""@) {
                    Some(inner) => inner,
                    None => after,
                }
            },
            None => Seq::empty(),
        }
    } else if ctx.tree.kind_of(n) == "text_block"@ {
        match strip_prefix(raw, "\"\"\""@) {
            Some(rest) => if rest.len() > 0 && rest[0] == '\n' {
                rest.skip(1)
            } else {
                rest
            },
            None => raw,
        }
    } else {
        raw
    }
}

pub fn extract_string_prefix(ctx: &JavaContextExtractor, n: NodeId) -> (r: &[char])
    requires
        ctx.wf(),
        ctx.tree.has(n),
    ensures
        r@ == string_prefix(ctx, n),
{
    let raw = cursor_truncated_text(ctx, n);
    let len: usize = raw.len();
    if ctx.tree.is_kind(n, "string_literal") {
        match find_char(raw, '"') {
            Some(i) => {
                let after = slice_subrange(raw, i + 1, len);
                assert(after@ =~= raw@.skip(i + 1));
                match without_suffix(after, "\"") {
                    Some(inner) => inner,
                    None => after,
                }
            },
            None => slice_subrange(raw, 0, 0),
        }
    } else if ctx.tree.is_kind(n, "text_block") {
        match without_prefix(raw, "\"\"\"") {
            Some(rest) => if rest.len() > 0 && rest[0] == '\n' {
                let inner = slice_subrange(rest, 1, rest.len());
                assert(inner@ =~= rest@.skip(1));
                inner
            } else {
                rest
            },
            None => raw,
        }
    } else {
        raw
    }
}

// ---- jumps -------------------------------------------------------------------------------------

pub open spec fn at_label(kind: StatementLabelCompletionKind, prefix: Seq<char>) -> Located {
    (LocationView::StatementLabel { kind, prefix }, prefix)
}

pub fn statement_label(kind: StatementLabelCompletionKind, prefix: &[char]) -> (r: (
    CursorLocation,
    String,
))
    ensures
        r.deep_view() == at_label(kind, prefix@),
{
    (CursorLocation::StatementLabel { kind, prefix: to_text(prefix) }, to_text(prefix))
}

pub open spec fn jump_kind(kind: Seq<char>) -> Option<StatementLabelCompletionKind> {
    if kind == "break_statement"@ {
        Some(StatementLabelCompletionKind::Break)
    } else if kind == "continue_statement"@ {
        Some(StatementLabelCompletionKind::Continue)
    } else {
        None
    }
}

pub fn jump_kind_of(t: &SyntaxTree, n: NodeId) -> (r: Option<StatementLabelCompletionKind>)
    requires
        t.has(n),
    ensures
        r == jump_kind(t.kind_of(n)),
{
    if t.is_kind(n, "break_statement") {
        Some(StatementLabelCompletionKind::Break)
    } else if t.is_kind(n, "continue_statement") {
        Some(StatementLabelCompletionKind::Continue)
    } else {
        None
    }
}

/// The label of a jump statement at the cursor: the label that is there, or the empty one behind
/// the keyword.
pub open spec fn jump_label(ctx: &JavaContextExtractor, stmt: NodeId) -> Option<Located> {
    let t = &ctx.tree;
    match jump_kind(t.kind_of(stmt)) {
        Some(kind) => match t.first_kind(t.named_kids(stmt), "identifier"@) {
            Some(id) => if t.start_of(id) <= ctx.offset <= t.end_of(id) {
                Some(at_label(kind, unmarked(ctx.text_to_cursor(id))))
            } else {
                None
            },
            None => {
                let keyword_end = if t.kids(stmt).len() > 0 {
                    t.end_of(t.kids(stmt)[0])
                } else {
                    t.start_of(stmt)
                };
                if ctx.offset > keyword_end {
                    Some(at_label(kind, Seq::empty()))
                } else {
                    None
                }
            },
        },
        None => None,
    }
}

pub fn handle_jump_statement(ctx: &JavaContextExtractor, stmt: NodeId) -> (r: Option<
    (CursorLocation, String),
>)
    requires
        ctx.wf(),
        ctx.tree.has(stmt),
    ensures
        r.deep_view() == jump_label(ctx, stmt),
{
    let t = &ctx.tree;
    match jump_kind_of(t, stmt) {
        Some(kind) => match t.first_of_kind(t.named_children(stmt), "identifier") {
            Some(id) => if ctx.offset >= t.start(id) && ctx.offset <= t.end(id) {
                let prefix = strip_sentinel(cursor_truncated_text(ctx, id));
                Some(statement_label(kind, &prefix))
            } else {
                None
            },
            None => {
                let kids = t.children(stmt);
                let keyword_end: usize = if kids.len() > 0 {
                    t.end(kids[0])
                } else {
                    t.start(stmt)
                };
                if ctx.offset > keyword_end {
                    Some(
                        (
                            CursorLocation::StatementLabel { kind, prefix: String::new() },
                            String::new(),
                        ),
                    )
                } else {
                    None
                }
            },
        },
        None => None,
    }
}

// ---- annotations -------------------------------------------------------------------------------

/// What an annotation on the node would annotate.
pub open spec fn target_of(t: &SyntaxTree, n: NodeId) -> Option<Seq<char>> {
    let k = t.kind_of(n);
    if KindClass::TypeDeclaration.has(k) {
        Some("TYPE"@)
    } else if KindClass::Parameter.has(k) && t.parent_of(n) is Some && t.kind_of(
        t.parent_of(n)->0,
    ) == "record_declaration"@ {
        Some("RECORD_COMPONENT"@)
    } else if k == "method_declaration"@ {
        Some("METHOD"@)
    } else if k == "field_declaration"@ {
        Some("FIELD"@)
    } else if KindClass::Parameter.has(k) {
        Some("PARAMETER"@)
    } else if k == "constructor_declaration"@ {
        Some("CONSTRUCTOR"@)
    } else if k == "local_variable_declaration"@ {
        Some("LOCAL_VARIABLE"@)
    } else {
        None
    }
}

fn find_target(t: &SyntaxTree, n: NodeId) -> (r: Option<&'static str>)
    requires
        t.has(n),
        t.linked(),
    ensures
        match r {
            Some(s) => target_of(t, n) == Some(s@),
            None => target_of(t, n) is None,
        },
{
    if t.is_in(n, KindClass::TypeDeclaration) {
        return Some("TYPE");
    }
    if t.is_in(n, KindClass::Parameter) {
        if let Some(p) = t.parent(n) {
            if t.is_kind(p, "record_declaration") {
                return Some("RECORD_COMPONENT");
            }
        }
    }
    if t.is_kind(n, "method_declaration") {
        Some("METHOD")
    } else if t.is_kind(n, "field_declaration") {
        Some("FIELD")
    } else if t.is_in(n, KindClass::Parameter) {
        Some("PARAMETER")
    } else if t.is_kind(n, "constructor_declaration") {
        Some("CONSTRUCTOR")
    } else if t.is_kind(n, "local_variable_declaration") {
        Some("LOCAL_VARIABLE")
    } else {
        None
    }
}

/// The target at `n`, or at its nearest ancestor with one, not beyond a scope or an error.
pub open spec fn target_above(t: &SyntaxTree, n: NodeId) -> Option<Seq<char>>
    decreases n,
{
    match target_of(t, n) {
        Some(s) => Some(s),
        None => if KindClass::AnnotationStop.has(t.kind_of(n)) {
            None
        } else {
            match t.parent_of(n) {
                Some(p) => if p < n {
                    target_above(t, p)
                } else {
                    None
                },
                None => None,
            }
        },
    }
}

/// What the annotation annotates.
pub open spec fn annotation_target(t: &SyntaxTree, n: NodeId) -> Option<Seq<char>> {
    match t.parent_of(n) {
        Some(p) => target_above(t, p),
        None => None,
    }
}

pub fn infer_annotation_target(t: &SyntaxTree, n: NodeId) -> (r: Option<String>)
    requires
        t.has(n),
        t.linked(),
    ensures
        r.deep_view() == annotation_target(t, n),
{
    match t.parent(n) {
        Some(first) => {
            let mut cur: NodeId = first;
            loop
                invariant
                    cur <= first,
                    t.has(first),
                    t.linked(),
                    target_above(t, first) == target_above(t, cur),
                    annotation_target(t, n) == target_above(t, first),
                decreases cur,
            {
                if let Some(s) = find_target(t, cur) {
                    return Some(s.to_owned());
                }
                if t.is_in(cur, KindClass::AnnotationStop) {
                    return None;
                }
                match t.parent(cur) {
                    Some(p) => {
                        cur = p;
                    },
                    None => {
                        return None;
                    },
                }
            }
        },
        None => None,
    }
}

/// An annotation whose name is being typed.
pub open spec fn annotation_location(ctx: &JavaContextExtractor, n: NodeId) -> Located {
    let prefix = match ctx.tree.field_of(n, "name"@) {
        Some(name) => ctx.text_to_cursor(name),
        None => Seq::empty(),
    };
    (
        LocationView::Annotation {
            prefix,
            target_element_type: annotation_target(&ctx.tree, n),
        },
        prefix,
    )
}

pub fn handle_annotation(ctx: &JavaContextExtractor, n: NodeId) -> (r: (CursorLocation, String))
    requires
        ctx.wf(),
        ctx.tree.has(n),
    ensures
        r.deep_view() == annotation_location(ctx, n),
{
    let target_element_type = infer_annotation_target(&ctx.tree, n);
    let prefix: String = match ctx.tree.child_by_field(n, "name") {
        Some(name) => to_text(cursor_truncated_text(ctx, name)),
        None => String::new(),
    };
    let query = prefix.clone();
    (CursorLocation::Annotation { prefix, target_element_type }, query)
}

// ---- imports -----------------------------------------------------------------------------------

/// Whether the token is no part of an imported name.
pub open spec fn import_noise(kind: Seq<char>) -> bool {
    kind == "import"@ || kind == "static"@ || kind == ";"@ || KindClass::Comment.has(kind)
}

/// The tokens of an import before the cursor, run together.
pub open spec fn import_text(ctx: &JavaContextExtractor, n: NodeId) -> Seq<char>
    decreases ctx.tree.nodes@.len() - n, ctx.tree.kids(n).len() + 1,
{
    if ctx.tree.start_of(n) >= ctx.offset {
        Seq::empty()
    } else if ctx.tree.kids(n).len() == 0 {
        if import_noise(ctx.tree.kind_of(n)) {
            Seq::empty()
        } else {
            ctx.text_to_cursor(n)
        }
    } else {
        import_text_from(ctx, n, 0)
    }
}

/// The same, over the children of `n` from place `i` on.
pub open spec fn import_text_from(ctx: &JavaContextExtractor, n: NodeId, i: int) -> Seq<char>
    decreases ctx.tree.nodes@.len() - n, ctx.tree.kids(n).len() - i,
{
    if i < 0 || i >= ctx.tree.kids(n).len() {
        Seq::empty()
    } else {
        let k = ctx.tree.kids(n)[i];
        if n < k && ctx.tree.has(k) {
            import_text(ctx, k) + import_text_from(ctx, n, i + 1)
        } else {
            Seq::empty()
        }
    }
}

fn collect_import_text(ctx: &JavaContextExtractor, n: NodeId, out: &mut Vec<char>)
    requires
        ctx.wf(),
        ctx.tree.has(n),
    ensures
        final(out)@ == old(out)@ + import_text(ctx, n),
    decreases ctx.tree.nodes@.len() - n,
{
    let t = &ctx.tree;
    if t.start(n) >= ctx.offset {
        assert(out@ =~= out@ + Seq::<char>::empty());
        return;
    }
    let kids = t.children(n);
    if kids.len() == 0 {
        if t.is_kind(n, "import") || t.is_kind(n, "static") || t.is_kind(n, ";") || t.is_in(
            n,
            KindClass::Comment,
        ) {
            assert(out@ =~= out@ + Seq::<char>::empty());
            return;
        }
        append(out, cursor_truncated_text(ctx, n));
        return;
    }
    let mut i: usize = 0;
    while i < kids.len()
        invariant
            i <= kids@.len(),
            *t == ctx.tree,
            kids@ == t.kids(n),
            t.has(n),
            ctx.wf(),
            old(out)@ + import_text_from(ctx, n, 0) == out@ + import_text_from(ctx, n, i as int),
        decreases kids@.len() - i,
    {
        let ghost before = out@;
        let k = kids[i];
        collect_import_text(ctx, k, out);
        assert(before + (import_text(ctx, k) + import_text_from(ctx, n, i + 1)) =~= out@
            + import_text_from(ctx, n, i + 1));
        i += 1;
    }
    assert(out@ + Seq::<char>::empty() =~= out@);
}

/// An import that is being typed.
pub open spec fn import_declaration_location(ctx: &JavaContextExtractor, n: NodeId) -> Located {
    at_import(
        ctx.tree.first_kind(ctx.tree.kids(n), "static"@) is Some,
        unmarked(import_text(ctx, n)),
    )
}

pub fn handle_import(ctx: &JavaContextExtractor, n: NodeId) -> (r: (CursorLocation, String))
    requires
        ctx.wf(),
        ctx.tree.has(n),
    ensures
        r.deep_view() == import_declaration_location(ctx, n),
{
    let is_static: bool = ctx.tree.first_of_kind(ctx.tree.children(n), "static").is_some();
    let mut raw: Vec<char> = Vec::new();
    collect_import_text(ctx, n, &mut raw);
    assert(raw@ =~= import_text(ctx, n));
    let prefix = strip_sentinel(&raw);
    import_location(is_static, &prefix)
}

// ---- member accesses ---------------------------------------------------------------------------

/// The place of the first node of the given kind in `ids`, from place `i` on.
pub open spec fn place_of_kind(t: &SyntaxTree, ids: Seq<NodeId>, kind: Seq<char>, i: int) -> Option<
    int,
>
    decreases ids.len() - i,
{
    if i < 0 || i >= ids.len() {
        None
    } else if t.kind_of(ids[i]) == kind {
        Some(i)
    } else {
        place_of_kind(t, ids, kind, i + 1)
    }
}

pub fn find_place_of_kind(t: &SyntaxTree, ids: &[NodeId], kind: &str) -> (r: Option<usize>)
    requires
        t.all_in(ids@),
    ensures
        crate::text::at(r) == place_of_kind(t, ids@, kind@, 0),
        r matches Some(i) ==> i < ids@.len(),
{
    let mut i: usize = 0;
    while i < ids.len()
        invariant
            i <= ids@.len(),
            t.all_in(ids@),
            place_of_kind(t, ids@, kind@, 0) == place_of_kind(t, ids@, kind@, i as int),
        decreases ids@.len() - i,
    {
        if t.is_kind(ids[i], kind) {
            return Some(i);
        }
        i += 1;
    }
    None
}

/// The first identifier in `ids`, from place `from` on.
fn identifier_from(t: &SyntaxTree, ids: &[NodeId], from: usize) -> (r: Option<NodeId>)
    requires
        t.all_in(ids@),
        from <= ids@.len(),
    ensures
        r == t.first_class_from(ids@, KindClass::Identifier, from as int),
        r matches Some(k) ==> t.has(k),
{
    let mut i: usize = from;
    while i < ids.len()
        invariant
            from <= i <= ids@.len(),
            t.all_in(ids@),
            t.first_class_from(ids@, KindClass::Identifier, from as int) == t.first_class_from(
                ids@,
                KindClass::Identifier,
                i as int,
            ),
        decreases ids@.len() - i,
    {
        if t.is_in(ids[i], KindClass::Identifier) {
            return Some(ids[i]);
        }
        i += 1;
    }
    None
}

/// The text of an optional node up to the cursor, without the sentinel.
pub open spec fn prefix_of(ctx: &JavaContextExtractor, n: Option<NodeId>) -> Seq<char> {
    match n {
        Some(k) => unmarked(ctx.text_to_cursor(k)),
        None => Seq::empty(),
    }
}

fn prefix_text(ctx: &JavaContextExtractor, n: Option<NodeId>) -> (r: Vec<char>)
    requires
        ctx.wf(),
        n matches Some(k) ==> ctx.tree.has(k),
    ensures
        r@ == prefix_of(ctx, n),
{
    match n {
        Some(k) => strip_sentinel(cursor_truncated_text(ctx, k)),
        None => Vec::new(),
    }
}

/// The text of the arguments of a call.
pub open spec fn call_arguments(ctx: &JavaContextExtractor, n: NodeId) -> Option<Seq<char>> {
    if ctx.tree.kind_of(n) != "method_invocation"@ {
        None
    } else {
        match ctx.tree.field_of(n, "arguments"@) {
            Some(args) => Some(ctx.text_of(args)),
            None => None,
        }
    }
}

fn arguments_of(ctx: &JavaContextExtractor, n: NodeId) -> (r: Option<String>)
    requires
        ctx.wf(),
        ctx.tree.has(n),
    ensures
        r.deep_view() == call_arguments(ctx, n),
{
    if !ctx.tree.is_kind(n, "method_invocation") {
        return None;
    }
    match ctx.tree.child_by_field(n, "arguments") {
        Some(args) => Some(to_text(ctx.node_text(args))),
        None => None,
    }
}

/// A field access or a call at the cursor. Without a dot it is a call of a method of `this`, or a
/// bare name; before the dot it is the expression there; behind the dot a member of what precedes
/// the dot.
pub open spec fn member_expression(ctx: &JavaContextExtractor, n: NodeId) -> Located {
    let t = &ctx.tree;
    let kids = t.kids(n);
    match place_of_kind(t, kids, "."@, 0) {
        None => {
            let prefix = prefix_of(ctx, t.first_class(kids, KindClass::Identifier));
            if call_arguments(ctx, n) is Some {
                at_call(Seq::empty(), prefix, call_arguments(ctx, n))
            } else {
                at_expression(prefix)
            }
        },
        Some(dot) => if ctx.offset <= t.start_of(kids[dot]) {
            at_expression(
                if dot > 0 {
                    prefix_of(ctx, Some(kids[dot - 1]))
                } else {
                    Seq::empty()
                },
            )
        } else {
            at_call(
                if dot > 0 {
                    ctx.text_of(kids[dot - 1])
                } else {
                    Seq::empty()
                },
                prefix_of(ctx, t.first_class_from(kids, KindClass::Identifier, dot + 1)),
                call_arguments(ctx, n),
            )
        },
    }
}

pub fn handle_member_access(ctx: &JavaContextExtractor, n: NodeId) -> (r: (CursorLocation, String))
    requires
        ctx.wf(),
        ctx.tree.has(n),
    ensures
        r.deep_view() == member_expression(ctx, n),
{
    let t = &ctx.tree;
    let kids = t.children(n);
    let count: usize = kids.len();
    match find_place_of_kind(t, kids, ".") {
        None => {
            let prefix = prefix_text(ctx, t.first_in_class(kids, KindClass::Identifier));
            let arguments = arguments_of(ctx, n);
            if arguments.is_some() {
                member_call(String::new(), to_text(&prefix), arguments)
            } else {
                expression(&prefix)
            }
        },
        Some(dot) => {
            if ctx.offset <= t.start(kids[dot]) {
                if dot > 0 {
                    let prefix = prefix_text(ctx, Some(kids[dot - 1]));
                    expression(&prefix)
                } else {
                    empty_expression()
                }
            } else {
                let member = prefix_text(ctx, identifier_from(t, kids, dot + 1));
                let receiver: String = if dot > 0 {
                    to_text(ctx.node_text(kids[dot - 1]))
                } else {
                    String::new()
                };
                member_call(receiver, to_text(&member), arguments_of(ctx, n))
            }
        },
    }
}

// ---- method references -------------------------------------------------------------------------

/// Where the angle bracket closes that opened `depth` brackets ago, from `i` on.
pub open spec fn angle_close(s: Seq<char>, i: int, depth: int) -> Option<int>
    decreases s.len() - i,
{
    if i < 0 || i >= s.len() {
        None
    } else if s[i] == '<' {
        angle_close(s, i + 1, depth + 1)
    } else if s[i] == '>' {
        if depth == 1 {
            Some(i)
        } else {
            angle_close(s, i + 1, depth - 1)
        }
    } else {
        angle_close(s, i + 1, depth)
    }
}

/// The text behind the type arguments that begin it, white space aside.
pub open spec fn after_type_arguments(s: Seq<char>) -> Seq<char> {
    let u = trim_start(s);
    if u.len() == 0 || u[0] != '<' {
        u
    } else {
        match angle_close(u, 0, 0) {
            Some(i) => trim_start(u.skip(i + 1)),
            None => u,
        }
    }
}

pub fn strip_leading_type_arguments(s: &[char]) -> (r: &[char])
    ensures
        r@ == after_type_arguments(s@),
{
    let u = trimmed_start(s);
    let n: usize = u.len();
    if n == 0 || u[0] != '<' {
        return u;
    }
    let mut depth: usize = 0;
    let mut i: usize = 0;
    while i < n
        invariant
            i <= n,
            n == u@.len(),
            n > 0,
            u@[0] == '<',
            i > 0 ==> depth >= 1,
            depth <= i,
            u@ == trim_start(s@),
            angle_close(u@, 0, 0) == angle_close(u@, i as int, depth as int),
        decreases n - i,
    {
        let c = u[i];
        if c == '<' {
            depth += 1;
        } else if c == '>' {
            if depth == 1 {
                let tail = slice_subrange(u, i + 1, n);
                assert(tail@ =~= u@.skip(i + 1));
                return trimmed_start(tail);
            }
            depth -= 1;
        }
        i += 1;
    }
    u
}

/// A method reference at the cursor.
pub open spec fn method_reference_location(ctx: &JavaContextExtractor, n: NodeId) -> Located {
    let raw = ctx.text_to_cursor(n);
    if raw.len() == 0 {
        nowhere()
    } else {
        match find(raw, "::"@) {
            None => at_expression(unmarked(trim(raw))),
            Some(i) => {
                let qualifier_expr = unmarked(trim(raw.take(i)));
                let member_prefix = unmarked(
                    trim(after_type_arguments(trim_start(raw.skip(i + 2)))),
                );
                let is_constructor = starts_with(member_prefix, "new"@);
                (
                    LocationView::MethodReference { qualifier_expr, member_prefix, is_constructor },
                    if is_constructor {
                        qualifier_expr
                    } else {
                        member_prefix
                    },
                )
            },
        }
    }
}

pub fn handle_method_reference(ctx: &JavaContextExtractor, n: NodeId) -> (r: (
    CursorLocation,
    String,
))
    requires
        ctx.wf(),
        ctx.tree.has(n),
    ensures
        r.deep_view() == method_reference_location(ctx, n),
{
    let raw = cursor_truncated_text(ctx, n);
    let len: usize = raw.len();
    if len == 0 {
        return unknown();
    }
    proof {
        reveal_strlit("::");
    }
    match find_text(raw, "::") {
        None => {
            let prefix = strip_sentinel(trimmed(raw));
            expression(&prefix)
        },
        Some(i) => {
            let head = slice_subrange(raw, 0, i);
            let tail = slice_subrange(raw, i + 2, len);
            assert(head@ =~= raw@.take(i as int));
            assert(tail@ =~= raw@.skip(i + 2));
            let qualifier = strip_sentinel(trimmed(head));
            let member = strip_sentinel(
                trimmed(strip_leading_type_arguments(trimmed_start(tail))),
            );
            let is_constructor: bool = begins_with(&member, "new");
            let query: String = if is_constructor {
                to_text(&qualifier)
            } else {
                to_text(&member)
            };
            (
                CursorLocation::MethodReference {
                    qualifier_expr: to_text(&qualifier),
                    member_prefix: to_text(&member),
                    is_constructor,
                },
                query,
            )
        },
    }
}

// ---- constructor calls -------------------------------------------------------------------------

/// The first text among the nodes from place `i` on, modifiers and empty nodes aside.
pub open spec fn first_text_from(ctx: &JavaContextExtractor, ids: Seq<NodeId>, i: int) -> Option<
    Seq<char>,
>
    decreases ids.len() - i,
{
    if i < 0 || i >= ids.len() {
        None
    } else if ctx.tree.kind_of(ids[i]) != "modifiers"@ && ctx.text_of(ids[i]).len() > 0 {
        Some(ctx.text_of(ids[i]))
    } else {
        first_text_from(ctx, ids, i + 1)
    }
}

/// The declared type of the variable that an expression initializes.
pub open spec fn type_of_initialized(ctx: &JavaContextExtractor, n: NodeId) -> Option<Seq<char>> {
    match ctx.tree.ancestor(n, "local_variable_declaration"@) {
        Some(decl) => first_text_from(ctx, ctx.tree.named_kids(decl), 0),
        None => None,
    }
}

pub fn infer_expected_type_from_lhs(ctx: &JavaContextExtractor, n: NodeId) -> (r: Option<String>)
    requires
        ctx.wf(),
        ctx.tree.has(n),
    ensures
        r.deep_view() == type_of_initialized(ctx, n),
{
    let t = &ctx.tree;
    match t.ancestor_of_kind(n, "local_variable_declaration") {
        Some(decl) => {
            let ids = t.named_children(decl);
            let mut i: usize = 0;
            while i < ids.len()
                invariant
                    i <= ids@.len(),
                    *t == ctx.tree,
                    ids@ == t.named_kids(decl),
                    t.has(decl),
                    ctx.wf(),
                    type_of_initialized(ctx, n) == first_text_from(ctx, ids@, i as int),
                decreases ids@.len() - i,
            {
                let text = ctx.node_text(ids[i]);
                if !t.is_kind(ids[i], "modifiers") && text.len() > 0 {
                    return Some(to_text(text));
                }
                i += 1;
            }
            None
        },
        None => None,
    }
}

/// The place among the children of a constructor call of the word `new`, where a dot and
/// something that it follows stand before it.
pub open spec fn qualified_new(t: &SyntaxTree, n: NodeId) -> Option<int> {
    match place_of_kind(t, t.kids(n), "new"@, 0) {
        Some(i) => if i >= 2 && t.kind_of(t.kids(n)[i - 1]) == "."@ {
            Some(i)
        } else {
            None
        },
        None => None,
    }
}

fn find_qualified_new(t: &SyntaxTree, n: NodeId) -> (r: Option<usize>)
    requires
        t.has(n),
        t.linked(),
    ensures
        r matches Some(i) ==> 2 <= i < t.kids(n).len() && qualified_new(t, n) == Some(i as int),
        r is None ==> qualified_new(t, n) is None,
{
    let kids = t.children(n);
    match find_place_of_kind(t, kids, "new") {
        Some(i) => if i >= 2 && t.is_kind(kids[i - 1], ".") {
            Some(i)
        } else {
            None
        },
        None => None,
    }
}

/// The expression that qualifies `new`: what stands before the dot before it.
pub open spec fn new_qualifier(ctx: &JavaContextExtractor, n: NodeId) -> Option<Seq<char>> {
    match qualified_new(&ctx.tree, n) {
        Some(i) => unless_empty(trim(ctx.text_of(ctx.tree.kids(n)[i - 2]))),
        None => None,
    }
}

fn qualifier_of_new(ctx: &JavaContextExtractor, n: NodeId) -> (r: Option<String>)
    requires
        ctx.wf(),
        ctx.tree.has(n),
    ensures
        r.deep_view() == new_qualifier(ctx, n),
{
    let t = &ctx.tree;
    match find_qualified_new(t, n) {
        Some(i) => non_empty(trimmed(ctx.node_text(t.children(n)[i - 2]))),
        None => None,
    }
}

/// The location of a cursor that is not behind `new` in a call with a qualifier: up to the dot the
/// qualifier is an expression that is being typed, from there to `new` its members are asked for.
pub open spec fn before_new(ctx: &JavaContextExtractor, n: NodeId) -> Option<Located> {
    let t = &ctx.tree;
    let kids = t.kids(n);
    match (qualified_new(t, n), new_qualifier(ctx, n)) {
        (Some(i), Some(receiver)) => if ctx.offset < t.end_of(kids[i - 1]) {
            Some(at_expression(unmarked(ctx.text_to_cursor(kids[i - 2]))))
        } else if ctx.offset <= t.start_of(kids[i]) {
            Some(at_member(receiver, Seq::empty()))
        } else {
            None
        },
        _ => None,
    }
}

fn handle_before_new(ctx: &JavaContextExtractor, n: NodeId) -> (r: Option<(CursorLocation, String)>)
    requires
        ctx.wf(),
        ctx.tree.has(n),
    ensures
        r.deep_view() == before_new(ctx, n),
{
    let t = &ctx.tree;
    let kids = t.children(n);
    match (find_qualified_new(t, n), qualifier_of_new(ctx, n)) {
        (Some(i), Some(receiver)) => if ctx.offset < t.end(kids[i - 1]) {
            let clean = strip_sentinel(cursor_truncated_text(ctx, kids[i - 2]));
            Some(expression(&clean))
        } else if ctx.offset <= t.start(kids[i]) {
            Some(member_access(receiver, String::new()))
        } else {
            None
        },
        _ => None,
    }
}

/// Whether the cursor is before the type of the call with a newline in between.
pub open spec fn type_on_later_line(ctx: &JavaContextExtractor, ty: NodeId) -> bool {
    ctx.piece(ctx.offset as int, ctx.tree.start_of(ty)).contains('\n')
}

/// A constructor call at the cursor. A type on a later line belongs to something else: behind
/// `new` the class is still to be typed, before it there is nothing to complete.
pub open spec fn constructor_location(ctx: &JavaContextExtractor, n: NodeId) -> Located {
    let t = &ctx.tree;
    let expected = type_of_initialized(ctx, n);
    let ty = t.field_of(n, "type"@);
    if ty is Some && type_on_later_line(ctx, ty->0) {
        match t.first_kind(t.kids(n), "new"@) {
            Some(word) => if ctx.offset >= t.end_of(word) {
                at_constructor(Seq::empty(), expected, new_qualifier(ctx, n))
            } else {
                nowhere()
            },
            None => nowhere(),
        }
    } else if let Some(l) = before_new(ctx, n) {
        l
    } else {
        let class_prefix = match ty {
            Some(ty) => generic_base(unmarked(ctx.text_to_cursor(ty))),
            None => Seq::empty(),
        };
        at_constructor(class_prefix, expected, new_qualifier(ctx, n))
    }
}

pub fn handle_constructor(ctx: &JavaContextExtractor, n: NodeId) -> (r: (CursorLocation, String))
    requires
        ctx.wf(),
        ctx.tree.has(n),
    ensures
        r.deep_view() == constructor_location(ctx, n),
{
    let t = &ctx.tree;
    let expected = infer_expected_type_from_lhs(ctx, n);
    let qualifier = qualifier_of_new(ctx, n);
    let type_node = t.child_by_field(n, "type");
    if let Some(ty) = type_node {
        if contains_char(ctx.byte_slice(ctx.offset, t.start(ty)), '\n') {
            return match t.first_of_kind(t.children(n), "new") {
                Some(word) => if ctx.offset >= t.end(word) {
                    constructor_call(String::new(), expected, qualifier)
                } else {
                    unknown()
                },
                None => unknown(),
            };
        }
    }
    if let Some(l) = handle_before_new(ctx, n) {
        return l;
    }
    let prefix: String = match type_node {
        Some(ty) => {
            let clean = strip_sentinel(cursor_truncated_text(ctx, ty));
            to_text(normalize_top_level_generic_base(&clean))
        },
        None => String::new(),
    };
    constructor_call(prefix, expected, qualifier)
}

} // verus!
