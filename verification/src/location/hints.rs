//! What a functional expression at the cursor is expected to be.
pub mod laws;

use vstd::prelude::*;
use vstd::slice::slice_subrange;

use crate::extractor::JavaContextExtractor;
use crate::location::handlers::{after_type_arguments, strip_leading_type_arguments};
use crate::location::hints::laws::{all_arguments, lemma_split_into_arguments};
use crate::location::names::{declared_type_text, extract_type_from_decl};
use crate::location::text::{non_empty, unless_empty};
use crate::semantic::{
    CallHintView, ExpectedTypeSource, FunctionalExprShape, FunctionalMethodCallHint,
    FunctionalTargetHint, MethodRefQualifierKind, ShapeView, TargetHintView,
};
use crate::syntax::{KindClass, NodeId, SyntaxTree};
use crate::text::{
    begins_with, contains_char, find, find_text, spells, starts_with, to_chars, to_text, trim,
    trim_start, trimmed, trimmed_start,
};

verus! {

// ---- commas outside brackets -------------------------------------------------------------------

/// How many brackets are open behind the character at `i`, `depth` before it. The `>` of an arrow
/// closes none.
pub open spec fn depth_after(s: Seq<char>, i: int, depth: int) -> int {
    let c = s[i];
    if c == '(' || c == '<' || c == '[' || c == '{' {
        depth + 1
    } else if c == '>' && i > 0 && s[i - 1] == '-' {
        depth
    } else if (c == ')' || c == '>' || c == ']' || c == '}') && depth > 0 {
        depth - 1
    } else {
        depth
    }
}

fn next_depth(s: &[char], i: usize, depth: usize) -> (r: usize)
    requires
        i < s@.len(),
        depth <= i,
    ensures
        r == depth_after(s@, i as int, depth as int),
        r <= i + 1,
{
    let n: usize = s.len();
    let c = s[i];
    if c == '(' || c == '<' || c == '[' || c == '{' {
        depth + 1
    } else if c == '>' && i > 0 && s[i - 1] == '-' {
        depth
    } else if (c == ')' || c == '>' || c == ']' || c == '}') && depth > 0 {
        depth - 1
    } else {
        depth
    }
}

/// How many commas stand outside all brackets from `i` on.
pub open spec fn commas_from(s: Seq<char>, i: int, depth: int) -> int
    decreases s.len() - i,
{
    if i < 0 || i >= s.len() {
        0
    } else {
        (if s[i] == ',' && depth == 0 {
            1int
        } else {
            0int
        }) + commas_from(s, i + 1, depth_after(s, i, depth))
    }
}

/// The texts between the commas outside all brackets, from `i` on; the first began at `start`.
/// Blank texts are left out.
pub open spec fn args_from(s: Seq<char>, i: int, depth: int, start: int) -> Seq<Seq<char>>
    decreases s.len() - i,
{
    if i < 0 || i >= s.len() {
        unless_blank(s.subrange(start, s.len() as int))
    } else if s[i] == ',' && depth == 0 {
        unless_blank(s.subrange(start, i)) + args_from(s, i + 1, 0, i + 1)
    } else {
        args_from(s, i + 1, depth_after(s, i, depth), start)
    }
}

/// The trimmed text, unless it is blank.
pub open spec fn unless_blank(s: Seq<char>) -> Seq<Seq<char>> {
    if trim(s).len() == 0 {
        Seq::empty()
    } else {
        seq![trim(s)]
    }
}

/// There is at most one argument more than there are commas.
pub proof fn lemma_args_and_commas(s: Seq<char>, i: int, depth: int, start: int)
    requires
        0 <= depth,
        0 <= i <= s.len(),
    ensures
        args_from(s, i, depth, start).len() <= commas_from(s, i, depth) + 1,
        commas_from(s, i, depth) >= 0,
    decreases s.len() - i,
{
    if i < s.len() {
        if s[i] == ',' && depth == 0 {
            lemma_args_and_commas(s, i + 1, 0, i + 1);
        } else {
            lemma_args_and_commas(s, i + 1, depth_after(s, i, depth), start);
        }
    }
}

pub fn top_level_commas(s: &[char]) -> (r: usize)
    ensures
        r == commas_from(s@, 0, 0),
{
    let n: usize = s.len();
    let mut depth: usize = 0;
    let mut commas: usize = 0;
    let mut i: usize = 0;
    while i < n
        invariant
            i <= n,
            n == s@.len(),
            depth <= i,
            commas <= i,
            commas_from(s@, 0, 0) == commas + commas_from(s@, i as int, depth as int),
        decreases n - i,
    {
        if s[i] == ',' && depth == 0 {
            commas += 1;
        }
        depth = next_depth(s, i, depth);
        i += 1;
    }
    commas
}

fn push_unless_blank(out: &mut Vec<String>, s: &[char])
    ensures
        final(out).deep_view() == old(out).deep_view() + unless_blank(s@),
{
    let part = trimmed(s);
    if part.len() > 0 {
        out.push(to_text(part));
    }
    assert(out.deep_view() =~= old(out).deep_view() + unless_blank(s@));
}

pub fn top_level_args(s: &[char]) -> (r: Vec<String>)
    ensures
        r.deep_view() == args_from(s@, 0, 0, 0),
{
    let n: usize = s.len();
    let mut out: Vec<String> = Vec::new();
    let mut depth: usize = 0;
    let mut start: usize = 0;
    let mut i: usize = 0;
    assert(out.deep_view() + args_from(s@, 0, 0, 0) =~= args_from(s@, 0, 0, 0));
    while i < n
        invariant
            i <= n,
            n == s@.len(),
            depth <= i,
            start <= i,
            args_from(s@, 0, 0, 0) == out.deep_view() + args_from(
                s@,
                i as int,
                depth as int,
                start as int,
            ),
        decreases n - i,
    {
        if s[i] == ',' && depth == 0 {
            let ghost before = out.deep_view();
            push_unless_blank(&mut out, slice_subrange(s, start, i));
            assert(before + (unless_blank(s@.subrange(start as int, i as int)) + args_from(
                s@,
                i + 1,
                0,
                i + 1,
            )) =~= out.deep_view() + args_from(s@, i + 1, 0, i + 1));
            start = i + 1;
        } else {
            depth = next_depth(s, i, depth);
        }
        i += 1;
    }
    push_unless_blank(&mut out, slice_subrange(s, start, n));
    out
}

/// How many commas of the text stand outside all brackets.
pub fn count_top_level_commas(s: &str) -> (r: usize)
    ensures
        r == commas_from(s@, 0, 0),
{
    let c = to_chars(s);
    top_level_commas(&c)
}

/// Splits the text at its commas outside all brackets.
pub fn split_top_level_args(s: &str) -> (r: Vec<String>)
    ensures
        r.deep_view() == args_from(s@, 0, 0, 0),
        r@.len() <= commas_from(s@, 0, 0) + 1,
        all_arguments(r.deep_view()),
{
    let c = to_chars(s);
    proof {
        lemma_args_and_commas(s@, 0, 0, 0);
        lemma_split_into_arguments(s@);
    }
    let r = top_level_args(&c);
    assert(r@.len() == r.deep_view().len());
    r
}

// ---- expected types ----------------------------------------------------------------------------

/// The declared type of the variable whose initializer holds the node.
pub open spec fn initializer_type(ctx: &JavaContextExtractor, n: NodeId) -> Option<Seq<char>> {
    let t = &ctx.tree;
    match t.ancestor(n, "variable_declarator"@) {
        Some(declarator) => match (t.field_of(declarator, "value"@), t.parent_of(declarator)) {
            (Some(value), Some(decl)) => if t.descends(n, value)
                && KindClass::VariableDeclaration.has(t.kind_of(decl)) {
                Some(declared_type_text(ctx, decl))
            } else {
                None
            },
            _ => None,
        },
        None => None,
    }
}

pub fn infer_assignment_rhs_expected_type(ctx: &JavaContextExtractor, n: NodeId) -> (r: Option<
    String,
>)
    requires
        ctx.wf(),
        ctx.tree.has(n),
    ensures
        r.deep_view() == initializer_type(ctx, n),
{
    let t = &ctx.tree;
    match t.ancestor_of_kind(n, "variable_declarator") {
        Some(declarator) => match (t.child_by_field(declarator, "value"), t.parent(declarator)) {
            (Some(value), Some(decl)) => if t.is_descendant_of(n, value) && t.is_in(
                decl,
                KindClass::VariableDeclaration,
            ) {
                Some(extract_type_from_decl(ctx, decl))
            } else {
                None
            },
            _ => None,
        },
        None => None,
    }
}

/// The return type of a method among its named children from place `i` on: the first text before
/// its name and parameters, modifiers and type parameters aside.
pub open spec fn return_type_from(ctx: &JavaContextExtractor, ids: Seq<NodeId>, i: int) -> Option<
    Seq<char>,
>
    decreases ids.len() - i,
{
    if i < 0 || i >= ids.len() {
        None
    } else {
        let k = ctx.tree.kind_of(ids[i]);
        let ty = trim(ctx.text_of(ids[i]));
        if k == "modifiers"@ || k == "type_parameters"@ {
            return_type_from(ctx, ids, i + 1)
        } else if k == "identifier"@ || k == "formal_parameters"@ {
            None
        } else if ty.len() > 0 {
            Some(ty)
        } else {
            return_type_from(ctx, ids, i + 1)
        }
    }
}

/// The return type of the method whose `return` holds the node.
pub open spec fn returned_type(ctx: &JavaContextExtractor, n: NodeId) -> Option<Seq<char>> {
    let t = &ctx.tree;
    match t.ancestor(n, "return_statement"@) {
        Some(stmt) => match (t.field_of(stmt, "value"@), t.ancestor(stmt, "method_declaration"@)) {
            (Some(_), Some(method)) => return_type_from(ctx, t.named_kids(method), 0),
            _ => None,
        },
        None => None,
    }
}

pub fn infer_return_expected_type(ctx: &JavaContextExtractor, n: NodeId) -> (r: Option<String>)
    requires
        ctx.wf(),
        ctx.tree.has(n),
    ensures
        r.deep_view() == returned_type(ctx, n),
{
    let t = &ctx.tree;
    let stmt: NodeId = match t.ancestor_of_kind(n, "return_statement") {
        Some(s) => s,
        None => {
            return None;
        },
    };
    if t.child_by_field(stmt, "value").is_none() {
        return None;
    }
    let method: NodeId = match t.ancestor_of_kind(stmt, "method_declaration") {
        Some(m) => m,
        None => {
            return None;
        },
    };
    let ids = t.named_children(method);
    let mut i: usize = 0;
    while i < ids.len()
        invariant
            i <= ids@.len(),
            *t == ctx.tree,
            ids@ == t.named_kids(method),
            t.has(method),
            ctx.wf(),
            returned_type(ctx, n) == return_type_from(ctx, ids@, i as int),
        decreases ids@.len() - i,
    {
        let k = ids[i];
        if !t.is_kind(k, "modifiers") && !t.is_kind(k, "type_parameters") {
            if t.is_kind(k, "identifier") || t.is_kind(k, "formal_parameters") {
                return None;
            }
            let ty = trimmed(ctx.node_text(k));
            if ty.len() > 0 {
                return Some(to_text(ty));
            }
        }
        i += 1;
    }
    None
}

/// The left side of the assignment whose right side holds the node.
pub open spec fn assigned_to(ctx: &JavaContextExtractor, n: NodeId) -> Option<Seq<char>> {
    let t = &ctx.tree;
    match t.ancestor(n, "assignment_expression"@) {
        Some(assign) => match (t.field_of(assign, "right"@), t.field_of(assign, "left"@)) {
            (Some(right), Some(left)) => if t.descends(n, right) {
                unless_empty(trim(ctx.text_of(left)))
            } else {
                None
            },
            _ => None,
        },
        None => None,
    }
}

pub fn infer_assignment_rhs_lhs_expr(ctx: &JavaContextExtractor, n: NodeId) -> (r: Option<String>)
    requires
        ctx.wf(),
        ctx.tree.has(n),
    ensures
        r.deep_view() == assigned_to(ctx, n),
{
    let t = &ctx.tree;
    match t.ancestor_of_kind(n, "assignment_expression") {
        Some(assign) => match (t.child_by_field(assign, "right"), t.child_by_field(assign, "left")) {
            (Some(right), Some(left)) => if t.is_descendant_of(n, right) {
                non_empty(trimmed(ctx.node_text(left)))
            } else {
                None
            },
            _ => None,
        },
        None => None,
    }
}

// ---- the call round the cursor -----------------------------------------------------------------

/// What stands between the parentheses of an argument list, up to `to`.
pub open spec fn inside_list(ctx: &JavaContextExtractor, list: NodeId, to: int) -> Seq<char> {
    let end = if ctx.tree.end_of(list) - 1 < to {
        ctx.tree.end_of(list) - 1
    } else {
        to
    };
    ctx.piece(ctx.tree.start_of(list) + 1, end)
}

fn text_inside_list(ctx: &JavaContextExtractor, list: NodeId, to: usize) -> (r: &[char])
    requires
        ctx.wf(),
        ctx.tree.has(list),
    ensures
        r@ == inside_list(ctx, list, to as int),
{
    let start: usize = ctx.tree.start(list);
    let end: usize = ctx.tree.end(list);
    if end <= start {
        let r = ctx.byte_slice(0, 0);
        assert(r@ =~= inside_list(ctx, list, to as int));
        return r;
    }
    ctx.byte_slice(
        start + 1,
        if end - 1 < to {
            end - 1
        } else {
            to
        },
    )
}

/// The receiver of a call, `this` where none is written.
pub open spec fn call_receiver(ctx: &JavaContextExtractor, call: NodeId) -> Seq<char> {
    match ctx.tree.field_of(call, "object"@) {
        Some(object) => if trim(ctx.text_of(object)).len() > 0 {
            ctx.text_of(object)
        } else {
            "this"@
        },
        None => "this"@,
    }
}

fn receiver_of_call(ctx: &JavaContextExtractor, call: NodeId) -> (r: String)
    requires
        ctx.wf(),
        ctx.tree.has(call),
    ensures
        r@ == call_receiver(ctx, call),
{
    if let Some(object) = ctx.tree.child_by_field(call, "object") {
        let text = ctx.node_text(object);
        if trimmed(text).len() > 0 {
            return to_text(text);
        }
    }
    "this".to_owned()
}

/// The call of which the node is in an argument: its receiver and name, which argument the cursor
/// is in, and the arguments.
pub open spec fn enclosing_call(ctx: &JavaContextExtractor, n: NodeId) -> Option<CallHintView> {
    let t = &ctx.tree;
    match t.ancestor(n, "argument_list"@) {
        Some(list) => match t.parent_of(list) {
            Some(call) => match t.field_of(call, "name"@) {
                Some(name) => if t.kind_of(call) != "method_invocation"@ || ctx.text_of(name).len()
                    == 0 {
                    None
                } else {
                    Some(
                        CallHintView {
                            receiver_expr: call_receiver(ctx, call),
                            method_name: ctx.text_of(name),
                            arg_index: commas_from(
                                inside_list(ctx, list, ctx.offset as int),
                                0,
                                0,
                            ),
                            arg_texts: args_from(
                                inside_list(ctx, list, t.end_of(list)),
                                0,
                                0,
                                0,
                            ),
                        },
                    )
                },
                None => None,
            },
            None => None,
        },
        None => None,
    }
}

pub fn infer_method_argument_target_hint(ctx: &JavaContextExtractor, n: NodeId) -> (r: Option<
    FunctionalMethodCallHint,
>)
    requires
        ctx.wf(),
        ctx.tree.has(n),
    ensures
        r.deep_view() == enclosing_call(ctx, n),
{
    let t = &ctx.tree;
    match t.ancestor_of_kind(n, "argument_list") {
        Some(list) => match t.parent(list) {
            Some(call) => match t.child_by_field(call, "name") {
                Some(name) => {
                    let text = ctx.node_text(name);
                    if !t.is_kind(call, "method_invocation") || text.len() == 0 {
                        return None;
                    }
                    let receiver_expr = receiver_of_call(ctx, call);
                    let arg_index = top_level_commas(text_inside_list(ctx, list, ctx.offset));
                    let arg_texts = top_level_args(text_inside_list(ctx, list, t.end(list)));
                    Some(
                        FunctionalMethodCallHint {
                            receiver_expr,
                            method_name: to_text(text),
                            arg_index,
                            arg_texts,
                        },
                    )
                },
                None => None,
            },
            None => None,
        },
        None => None,
    }
}

// ---- shapes ------------------------------------------------------------------------------------

/// Whether the qualifier of a method reference is a type or an expression.
pub open spec fn qualifier_kind(s: Seq<char>) -> MethodRefQualifierKind {
    let u = trim(s);
    if u == "this"@ || u == "super"@ {
        MethodRefQualifierKind::Expr
    } else if u.len() > 0 && 'A' <= u[0] <= 'Z' {
        MethodRefQualifierKind::Type
    } else {
        MethodRefQualifierKind::Unknown
    }
}

pub fn infer_method_ref_qualifier_kind(s: &[char]) -> (r: MethodRefQualifierKind)
    ensures
        r == qualifier_kind(s@),
{
    let u = trimmed(s);
    if spells(u, "this") || spells(u, "super") {
        MethodRefQualifierKind::Expr
    } else if u.len() > 0 && 'A' <= u[0] && u[0] <= 'Z' {
        MethodRefQualifierKind::Type
    } else {
        MethodRefQualifierKind::Unknown
    }
}

/// The shape of a method reference, if both its sides are there.
pub open spec fn method_reference_shape(text: Seq<char>) -> Option<ShapeView> {
    let raw = trim(text);
    match find(raw, "::"@) {
        Some(i) => {
            let qualifier_expr = trim(raw.take(i));
            let member_name = trim(after_type_arguments(trim_start(raw.skip(i + 2))));
            if qualifier_expr.len() == 0 || member_name.len() == 0 {
                None
            } else {
                Some(
                    ShapeView::MethodReference {
                        qualifier_expr,
                        member_name,
                        is_constructor: starts_with(member_name, "new"@),
                        qualifier_kind: qualifier_kind(qualifier_expr),
                    },
                )
            }
        },
        None => None,
    }
}

pub fn infer_method_reference_shape(text: &[char]) -> (r: Option<FunctionalExprShape>)
    ensures
        r.deep_view() == method_reference_shape(text@),
{
    let raw = trimmed(text);
    let n: usize = raw.len();
    proof {
        reveal_strlit("::");
    }
    match find_text(raw, "::") {
        Some(i) => {
            let head = slice_subrange(raw, 0, i);
            let tail = slice_subrange(raw, i + 2, n);
            assert(head@ =~= raw@.take(i as int));
            assert(tail@ =~= raw@.skip(i + 2));
            let qualifier = trimmed(head);
            let member = trimmed(strip_leading_type_arguments(trimmed_start(tail)));
            if qualifier.len() == 0 || member.len() == 0 {
                return None;
            }
            Some(
                FunctionalExprShape::MethodReference {
                    qualifier_expr: to_text(qualifier),
                    member_name: to_text(member),
                    is_constructor: begins_with(member, "new"),
                    qualifier_kind: infer_method_ref_qualifier_kind(qualifier),
                },
            )
        },
        None => None,
    }
}

/// How many parameters the text before a lambda's arrow lists.
pub open spec fn lambda_param_count(s: Seq<char>) -> Option<int> {
    let p = trim(s);
    if p.len() == 0 {
        None
    } else if p.len() >= 2 && p[0] == '(' && p.last() == ')' {
        Some(args_from(trim(p.subrange(1, p.len() - 1)), 0, 0, 0).len() as int)
    } else if p.contains(',') {
        None
    } else {
        Some(1)
    }
}

pub fn parse_lambda_param_count(s: &[char]) -> (r: Option<usize>)
    ensures
        crate::text::at(r) == lambda_param_count(s@),
{
    let p = trimmed(s);
    let n: usize = p.len();
    if n == 0 {
        return None;
    }
    if n >= 2 && p[0] == '(' && p[n - 1] == ')' {
        let inner = trimmed(slice_subrange(p, 1, n - 1));
        let args = top_level_args(inner);
        assert(args@.len() == args.deep_view().len());
        return Some(args.len());
    }
    if contains_char(p, ',') {
        return None;
    }
    Some(1)
}

/// The body of a lambda, if it is an expression.
pub open spec fn expression_body(s: Seq<char>) -> Option<Seq<char>> {
    let b = trim(s);
    if b.len() == 0 || b[0] == '{' {
        None
    } else {
        Some(b)
    }
}

fn expression_body_of(s: &[char]) -> (r: Option<String>)
    ensures
        r.deep_view() == expression_body(s@),
{
    let b = trimmed(s);
    if b.len() == 0 || b[0] == '{' {
        None
    } else {
        Some(to_text(b))
    }
}

/// The shape of a lambda.
pub open spec fn lambda_shape(text: Seq<char>) -> Option<ShapeView> {
    let raw = trim(text);
    match find(raw, "->"@) {
        Some(i) => match lambda_param_count(trim(raw.take(i))) {
            Some(param_count) => Some(
                ShapeView::Lambda { param_count, expression_body: expression_body(raw.skip(i + 2)) },
            ),
            None => None,
        },
        None => None,
    }
}

pub fn infer_lambda_shape(text: &[char]) -> (r: Option<FunctionalExprShape>)
    ensures
        r.deep_view() == lambda_shape(text@),
{
    let raw = trimmed(text);
    let n: usize = raw.len();
    proof {
        reveal_strlit("->");
    }
    match find_text(raw, "->") {
        Some(i) => {
            let head = slice_subrange(raw, 0, i);
            let tail = slice_subrange(raw, i + 2, n);
            assert(head@ =~= raw@.take(i as int));
            assert(tail@ =~= raw@.skip(i + 2));
            match parse_lambda_param_count(trimmed(head)) {
                Some(param_count) => Some(
                    FunctionalExprShape::Lambda {
                        param_count,
                        expression_body: expression_body_of(tail),
                    },
                ),
                None => None,
            }
        },
        None => None,
    }
}

/// The shape of the functional expression round the node.
pub open spec fn shape_at(ctx: &JavaContextExtractor, n: NodeId) -> Option<ShapeView> {
    let t = &ctx.tree;
    match t.ancestor(n, "method_reference"@) {
        Some(m) => method_reference_shape(ctx.text_of(m)),
        None => match t.ancestor(n, "lambda_expression"@) {
            Some(l) => lambda_shape(ctx.text_of(l)),
            None => None,
        },
    }
}

pub fn infer_functional_expr_shape(ctx: &JavaContextExtractor, n: NodeId) -> (r: Option<
    FunctionalExprShape,
>)
    requires
        ctx.wf(),
        ctx.tree.has(n),
    ensures
        r.deep_view() == shape_at(ctx, n),
{
    let t = &ctx.tree;
    match t.ancestor_of_kind(n, "method_reference") {
        Some(m) => infer_method_reference_shape(ctx.node_text(m)),
        None => match t.ancestor_of_kind(n, "lambda_expression") {
            Some(l) => infer_lambda_shape(ctx.node_text(l)),
            None => None,
        },
    }
}

// ---- arrows in errors --------------------------------------------------------------------------

/// The place of the last arrow in `ids` before place `j` that ends by the cursor.
pub open spec fn last_arrow(ctx: &JavaContextExtractor, ids: Seq<NodeId>, j: int) -> Option<int>
    decreases j,
{
    if j <= 0 || j > ids.len() {
        None
    } else if ctx.tree.kind_of(ids[j - 1]) == "->"@ && ctx.tree.end_of(ids[j - 1]) <= ctx.offset {
        Some(j - 1)
    } else {
        last_arrow(ctx, ids, j - 1)
    }
}

pub fn find_last_arrow(ctx: &JavaContextExtractor, ids: &[NodeId]) -> (r: Option<usize>)
    requires
        ctx.tree.all_in(ids@),
    ensures
        crate::text::at(r) == last_arrow(ctx, ids@, ids@.len() as int),
        r matches Some(i) ==> i < ids@.len(),
{
    let mut j: usize = ids.len();
    while j > 0
        invariant
            j <= ids@.len(),
            ctx.tree.all_in(ids@),
            last_arrow(ctx, ids@, ids@.len() as int) == last_arrow(ctx, ids@, j as int),
        decreases j,
    {
        let k = ids[j - 1];
        if ctx.tree.is_kind(k, "->") && ctx.tree.end(k) <= ctx.offset {
            return Some(j - 1);
        }
        j -= 1;
    }
    None
}

/// Whether the node is an error or the program, with an arrow before the cursor among its children.
pub open spec fn holds_arrow(ctx: &JavaContextExtractor, n: NodeId) -> bool {
    let t = &ctx.tree;
    &&& t.kind_of(n) == "ERROR"@ || t.kind_of(n) == "program"@
    &&& last_arrow(ctx, t.kids(n), t.kids(n).len() as int) is Some
}

fn has_arrow(ctx: &JavaContextExtractor, n: NodeId) -> (r: bool)
    requires
        ctx.wf(),
        ctx.tree.has(n),
    ensures
        r == holds_arrow(ctx, n),
{
    (ctx.tree.is_kind(n, "ERROR") || ctx.tree.is_kind(n, "program")) && find_last_arrow(
        ctx,
        ctx.tree.children(n),
    ).is_some()
}

/// The nearest node at or above `n` that holds an arrow.
pub open spec fn arrow_holder(ctx: &JavaContextExtractor, n: NodeId) -> Option<NodeId>
    decreases n,
{
    if holds_arrow(ctx, n) {
        Some(n)
    } else {
        match ctx.tree.parent_of(n) {
            Some(p) => if p < n {
                arrow_holder(ctx, p)
            } else {
                None
            },
            None => None,
        }
    }
}

fn find_arrow_holder(ctx: &JavaContextExtractor, n: NodeId) -> (r: Option<NodeId>)
    requires
        ctx.wf(),
        ctx.tree.has(n),
    ensures
        r == arrow_holder(ctx, n),
        r matches Some(a) ==> ctx.tree.has(a),
{
    let mut cur: NodeId = n;
    loop
        invariant
            cur <= n,
            ctx.wf(),
            ctx.tree.has(n),
            arrow_holder(ctx, n) == arrow_holder(ctx, cur),
        decreases cur,
    {
        if has_arrow(ctx, cur) {
            return Some(cur);
        }
        match ctx.tree.parent(cur) {
            Some(p) => {
                cur = p;
            },
            None => {
                return None;
            },
        }
    }
}

/// The place of the last node of the given kind in `ids` before place `j`.
pub open spec fn last_place_of_kind(t: &SyntaxTree, ids: Seq<NodeId>, kind: Seq<char>, j: int) -> Option<
    int,
>
    decreases j,
{
    if j <= 0 || j > ids.len() {
        None
    } else if t.kind_of(ids[j - 1]) == kind {
        Some(j - 1)
    } else {
        last_place_of_kind(t, ids, kind, j - 1)
    }
}

fn find_last_place_of_kind(t: &SyntaxTree, ids: &[NodeId], kind: &str, before: usize) -> (r: Option<
    usize,
>)
    requires
        t.all_in(ids@),
        before <= ids@.len(),
    ensures
        crate::text::at(r) == last_place_of_kind(t, ids@, kind@, before as int),
        r matches Some(i) ==> i < before,
{
    let mut j: usize = before;
    while j > 0
        invariant
            j <= before <= ids@.len(),
            t.all_in(ids@),
            last_place_of_kind(t, ids@, kind@, before as int) == last_place_of_kind(
                t,
                ids@,
                kind@,
                j as int,
            ),
        decreases j,
    {
        if t.is_kind(ids[j - 1], kind) {
            return Some(j - 1);
        }
        j -= 1;
    }
    None
}

/// How many nodes in `ids`, from place `i` on, are identifiers or, with `formal`, parameters.
pub open spec fn params_from(t: &SyntaxTree, ids: Seq<NodeId>, formal: bool, i: int) -> int
    decreases ids.len() - i,
{
    if i < 0 || i >= ids.len() {
        0
    } else {
        (if is_param(t, ids[i], formal) {
            1int
        } else {
            0int
        }) + params_from(t, ids, formal, i + 1)
    }
}

pub open spec fn is_param(t: &SyntaxTree, n: NodeId, formal: bool) -> bool {
    if formal {
        KindClass::Parameter.has(t.kind_of(n))
    } else {
        t.kind_of(n) == "identifier"@
    }
}

fn count_params(t: &SyntaxTree, ids: &[NodeId], formal: bool) -> (r: usize)
    requires
        t.all_in(ids@),
    ensures
        r == params_from(t, ids@, formal, 0),
{
    let n: usize = ids.len();
    let mut count: usize = 0;
    let mut i: usize = 0;
    while i < n
        invariant
            i <= n,
            n == ids@.len(),
            count <= i,
            t.all_in(ids@),
            params_from(t, ids@, formal, 0) == count + params_from(t, ids@, formal, i as int),
        decreases n - i,
    {
        let hit: bool = if formal {
            t.is_in(ids[i], KindClass::Parameter)
        } else {
            t.is_kind(ids[i], "identifier")
        };
        if hit {
            count += 1;
        }
        i += 1;
    }
    count
}

/// How many parameters the node before an arrow lists.
pub open spec fn param_count(t: &SyntaxTree, params: NodeId) -> int {
    if t.kind_of(params) == "identifier"@ {
        1
    } else {
        params_from(t, t.named_kids(params), t.kind_of(params) == "formal_parameters"@, 0)
    }
}

/// What the tokens `Type name = params ->` in an error tell of the lambda that is being typed: the
/// arrow at place `arrow`, the sign at place `eq`.
pub open spec fn hint_at_arrow(
    ctx: &JavaContextExtractor,
    ids: Seq<NodeId>,
    arrow: int,
    eq: int,
) -> Option<TargetHintView> {
    let t = &ctx.tree;
    let params = ids[arrow - 1];
    let ty = ids[eq - 2];
    let expected = trim(ctx.text_of(ty));
    if !KindClass::RecoveredType.has(t.kind_of(ty)) || expected.len() == 0 {
        None
    } else {
        Some(
            TargetHintView {
                expected_type_source: Some(expected),
                expected_type_context: Some(ExpectedTypeSource::VariableInitializer),
                assignment_lhs_expr: None,
                method_call: None,
                expr_shape: Some(
                    ShapeView::Lambda {
                        param_count: param_count(t, params),
                        expression_body: expression_body(
                            ctx.piece(t.end_of(ids[arrow]), ctx.offset as int),
                        ),
                    },
                ),
            },
        )
    }
}

/// What an arrow in an error round the node tells of the lambda that is being typed.
pub open spec fn hint_in_error(ctx: &JavaContextExtractor, n: NodeId) -> Option<TargetHintView> {
    let t = &ctx.tree;
    match arrow_holder(ctx, n) {
        Some(holder) => {
            let ids = t.kids(holder);
            match last_arrow(ctx, ids, ids.len() as int) {
                Some(arrow) => if arrow < 3 || !KindClass::LambdaParameters.has(
                    t.kind_of(ids[arrow - 1]),
                ) {
                    None
                } else {
                    match last_place_of_kind(t, ids, "="@, arrow - 1) {
                        Some(eq) => if eq < 2 {
                            None
                        } else {
                            hint_at_arrow(ctx, ids, arrow, eq)
                        },
                        None => None,
                    }
                },
                None => None,
            }
        },
        None => None,
    }
}

fn make_hint_at_arrow(
    ctx: &JavaContextExtractor,
    ids: &[NodeId],
    arrow: usize,
    eq: usize,
) -> (r: Option<FunctionalTargetHint>)
    requires
        ctx.wf(),
        ctx.tree.all_in(ids@),
        3 <= arrow < ids@.len(),
        2 <= eq < arrow,
    ensures
        r.deep_view() == hint_at_arrow(ctx, ids@, arrow as int, eq as int),
{
    let t = &ctx.tree;
    let params = ids[arrow - 1];
    let ty = ids[eq - 2];
    let expected = trimmed(ctx.node_text(ty));
    if !t.is_in(ty, KindClass::RecoveredType) || expected.len() == 0 {
        return None;
    }
    let param_count: usize = if t.is_kind(params, "identifier") {
        1
    } else {
        let formal: bool = t.is_kind(params, "formal_parameters");
        count_params(t, t.named_children(params), formal)
    };
    let expression_body = expression_body_of(ctx.byte_slice(t.end(ids[arrow]), ctx.offset));
    Some(
        FunctionalTargetHint {
            expected_type_source: Some(to_text(expected)),
            expected_type_context: Some(ExpectedTypeSource::VariableInitializer),
            assignment_lhs_expr: None,
            method_call: None,
            expr_shape: Some(FunctionalExprShape::Lambda { param_count, expression_body }),
        },
    )
}

/// Recovers the target of a lambda from an error that holds `->`: the type in the pattern
/// `Type name = params ->` before the cursor.
pub fn infer_functional_target_hint_from_error_arrow(ctx: &JavaContextExtractor, n: NodeId) -> (r:
    Option<FunctionalTargetHint>)
    requires
        ctx.wf(),
        ctx.tree.has(n),
    ensures
        r.deep_view() == hint_in_error(ctx, n),
{
    let t = &ctx.tree;
    match find_arrow_holder(ctx, n) {
        Some(holder) => {
            let ids = t.children(holder);
            match find_last_arrow(ctx, ids) {
                Some(arrow) => {
                    if arrow < 3 || !t.is_in(ids[arrow - 1], KindClass::LambdaParameters) {
                        return None;
                    }
                    match find_last_place_of_kind(t, ids, "=", arrow - 1) {
                        Some(eq) => if eq < 2 {
                            None
                        } else {
                            make_hint_at_arrow(ctx, ids, arrow, eq)
                        },
                        None => None,
                    }
                },
                None => None,
            }
        },
        None => None,
    }
}

// ---- everything together -----------------------------------------------------------------------

/// The expected type that the declaration or the method round the node gives.
pub open spec fn expected_source(ctx: &JavaContextExtractor, n: NodeId) -> (
    Option<Seq<char>>,
    Option<ExpectedTypeSource>,
) {
    if let Some(ty) = initializer_type(ctx, n) {
        (Some(ty), Some(ExpectedTypeSource::VariableInitializer))
    } else if let Some(ty) = returned_type(ctx, n) {
        (Some(ty), Some(ExpectedTypeSource::ReturnExpr))
    } else {
        (None, None)
    }
}

pub fn infer_expected_type_source(ctx: &JavaContextExtractor, n: NodeId) -> (r: (
    Option<String>,
    Option<ExpectedTypeSource>,
))
    requires
        ctx.wf(),
        ctx.tree.has(n),
    ensures
        r.0.deep_view() == expected_source(ctx, n).0,
        r.1 == expected_source(ctx, n).1,
{
    if let Some(ty) = infer_assignment_rhs_expected_type(ctx, n) {
        return (Some(ty), Some(ExpectedTypeSource::VariableInitializer));
    }
    if let Some(ty) = infer_return_expected_type(ctx, n) {
        return (Some(ty), Some(ExpectedTypeSource::ReturnExpr));
    }
    (None, None)
}

/// What is known of the target of the functional expression at the node.
pub open spec fn target_hint(ctx: &JavaContextExtractor, n: NodeId) -> Option<TargetHintView> {
    let (source, context) = expected_source(ctx, n);
    let lhs = assigned_to(ctx, n);
    let call = enclosing_call(ctx, n);
    if source is None && lhs is None && call is None {
        hint_in_error(ctx, n)
    } else {
        Some(
            TargetHintView {
                expected_type_source: source,
                expected_type_context: if context is None && lhs is Some {
                    Some(ExpectedTypeSource::AssignmentRhs)
                } else {
                    context
                },
                assignment_lhs_expr: lhs,
                method_call: call,
                expr_shape: shape_at(ctx, n),
            },
        )
    }
}

/// Tells what the functional expression at the cursor is expected to be.
pub fn infer_functional_target_hint(
    ctx: &JavaContextExtractor,
    cursor_node: Option<NodeId>,
) -> (r: Option<FunctionalTargetHint>)
    requires
        ctx.wf(),
        cursor_node matches Some(n) ==> ctx.tree.has(n),
    ensures
        match cursor_node {
            Some(n) => r.deep_view() == target_hint(ctx, n),
            None => r is None,
        },
{
    match cursor_node {
        Some(n) => {
            let (source, mut context) = infer_expected_type_source(ctx, n);
            let lhs = infer_assignment_rhs_lhs_expr(ctx, n);
            if context.is_none() && lhs.is_some() {
                context = Some(ExpectedTypeSource::AssignmentRhs);
            }
            let call = infer_method_argument_target_hint(ctx, n);
            let shape = infer_functional_expr_shape(ctx, n);
            if source.is_none() && lhs.is_none() && call.is_none() {
                return infer_functional_target_hint_from_error_arrow(ctx, n);
            }
            Some(
                FunctionalTargetHint {
                    expected_type_source: source,
                    expected_type_context: context,
                    assignment_lhs_expr: lhs,
                    method_call: call,
                    expr_shape: shape,
                },
            )
        },
        None => None,
    }
}

} // verus!
