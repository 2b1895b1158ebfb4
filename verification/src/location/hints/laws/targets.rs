//! What is told of the target of a lambda or a method reference.
use vstd::prelude::*;

use crate::extractor::JavaContextExtractor;
use crate::location::hints::{
    args_from, commas_from, expression_body, initializer_type, lambda_param_count, lambda_shape,
    method_reference_shape, qualifier_kind, return_type_from, returned_type, shape_at, target_hint,
};
use crate::location::names::declared_type_text;
use crate::semantic::{ExpectedTypeSource, MethodRefQualifierKind, ShapeView};
use crate::syntax::{NodeId, SyntaxTree};
use crate::text::laws::{lemma_find_from, lemma_trim_keeps};
use crate::text::{find, is_white, lemma_run_end, trim, trim_start, CharClass};

verus! {

/// In the initializer of a variable, the type that the variable is declared with is expected.
pub proof fn lemma_initializer_targets(
    ctx: &JavaContextExtractor,
    n: NodeId,
    d: NodeId,
    value: NodeId,
    decl: NodeId,
)
    requires
        ctx.tree.ancestor(n, "variable_declarator"@) == Some(d),
        ctx.tree.field_of(d, "value"@) == Some(value),
        ctx.tree.parent_of(d) == Some(decl),
        ctx.tree.descends(n, value),
        ctx.tree.kind_of(decl) == "local_variable_declaration"@ || ctx.tree.kind_of(decl)
            == "field_declaration"@,
    ensures
        target_hint(ctx, n) matches Some(h) && h.expected_type_source == Some(
            declared_type_text(ctx, decl),
        ) && h.expected_type_context == Some(ExpectedTypeSource::VariableInitializer)
            && h.expr_shape == shape_at(ctx, n),
{
}

/// The type that a variable is declared with is the text of its first part behind the modifiers.
pub proof fn lemma_declared_type_texts(ctx: &JavaContextExtractor, decl: NodeId, i: int)
    requires
        0 <= i < ctx.tree.named_kids(decl).len(),
        ctx.tree.kind_of(ctx.tree.named_kids(decl)[i]) != "modifiers"@,
        forall|q: int|
            0 <= q < i ==> ctx.tree.kind_of(#[trigger] ctx.tree.named_kids(decl)[q])
                == "modifiers"@,
    ensures
        declared_type_text(ctx, decl) == trim(ctx.text_of(ctx.tree.named_kids(decl)[i])),
{
    lemma_first_other_is(ctx.tree, ctx.tree.named_kids(decl), "modifiers"@, 0, i);
}

proof fn lemma_first_other_is(t: SyntaxTree, ids: Seq<NodeId>, kind: Seq<char>, j: int, i: int)
    requires
        0 <= j <= i < ids.len(),
        t.kind_of(ids[i]) != kind,
        forall|q: int| j <= q < i ==> t.kind_of(#[trigger] ids[q]) == kind,
    ensures
        t.first_other_from(ids, kind, j) == Some(ids[i]),
    decreases i - j,
{
    if j < i {
        lemma_first_other_is(t, ids, kind, j + 1, i);
    }
}

/// In a value that is returned, the type that the method returns is expected: the first part of it
/// behind modifiers and type parameters.
pub proof fn lemma_return_targets(
    ctx: &JavaContextExtractor,
    n: NodeId,
    stmt: NodeId,
    value: NodeId,
    method: NodeId,
    i: int,
)
    requires
        initializer_type(ctx, n) is None,
        ctx.tree.ancestor(n, "return_statement"@) == Some(stmt),
        ctx.tree.field_of(stmt, "value"@) == Some(value),
        ctx.tree.ancestor(stmt, "method_declaration"@) == Some(method),
        0 <= i < ctx.tree.named_kids(method).len(),
        forall|q: int|
            0 <= q < i ==> ctx.tree.kind_of(#[trigger] ctx.tree.named_kids(method)[q])
                == "modifiers"@ || ctx.tree.kind_of(ctx.tree.named_kids(method)[q])
                == "type_parameters"@,
        ({
            let k = ctx.tree.kind_of(ctx.tree.named_kids(method)[i]);
            k != "modifiers"@ && k != "type_parameters"@ && k != "identifier"@ && k
                != "formal_parameters"@
        }),
        trim(ctx.text_of(ctx.tree.named_kids(method)[i])).len() > 0,
    ensures
        target_hint(ctx, n) matches Some(h) && h.expected_type_source == Some(
            trim(ctx.text_of(ctx.tree.named_kids(method)[i])),
        ) && h.expected_type_context == Some(ExpectedTypeSource::ReturnExpr),
{
    lemma_return_type(ctx, ctx.tree.named_kids(method), 0, i);
}

proof fn lemma_return_type(ctx: &JavaContextExtractor, ids: Seq<NodeId>, j: int, i: int)
    requires
        0 <= j <= i < ids.len(),
        forall|q: int|
            j <= q < i ==> ctx.tree.kind_of(#[trigger] ids[q]) == "modifiers"@ || ctx.tree.kind_of(
                ids[q],
            ) == "type_parameters"@,
        ({
            let k = ctx.tree.kind_of(ids[i]);
            k != "modifiers"@ && k != "type_parameters"@ && k != "identifier"@ && k
                != "formal_parameters"@
        }),
        trim(ctx.text_of(ids[i])).len() > 0,
    ensures
        return_type_from(ctx, ids, j) == Some(trim(ctx.text_of(ids[i]))),
    decreases i - j,
{
    if j < i {
        lemma_return_type(ctx, ids, j + 1, i);
    }
}

/// On the right side of an assignment, the left side is told.
pub proof fn lemma_assignment_targets(
    ctx: &JavaContextExtractor,
    n: NodeId,
    assign: NodeId,
    l: NodeId,
    r: NodeId,
)
    requires
        ctx.tree.ancestor(n, "assignment_expression"@) == Some(assign),
        ctx.tree.field_of(assign, "left"@) == Some(l),
        ctx.tree.field_of(assign, "right"@) == Some(r),
        ctx.tree.descends(n, r),
        trim(ctx.text_of(l)).len() > 0,
    ensures
        target_hint(ctx, n) matches Some(h) && h.assignment_lhs_expr == Some(trim(ctx.text_of(l)))
            && (initializer_type(ctx, n) is None && returned_type(ctx, n) is None
            ==> h.expected_type_context == Some(ExpectedTypeSource::AssignmentRhs)
            && h.expected_type_source is None),
{
}

/// In an argument of a call, the call is told: its receiver, `this` where none is written, its name,
/// its arguments, and which of them the cursor is in, by the commas before it.
pub proof fn lemma_call_targets(
    ctx: &JavaContextExtractor,
    n: NodeId,
    list: NodeId,
    call: NodeId,
    name: NodeId,
)
    requires
        ctx.tree.ancestor(n, "argument_list"@) == Some(list),
        ctx.tree.parent_of(list) == Some(call),
        ctx.tree.kind_of(call) == "method_invocation"@,
        ctx.tree.field_of(call, "name"@) == Some(name),
        ctx.text_of(name).len() > 0,
        ctx.tree.start_of(list) < ctx.offset < ctx.tree.end_of(list),
    ensures
        ({
            let t = ctx.tree;
            let inside = ctx.piece(t.start_of(list) + 1, t.end_of(list) - 1);
            let before = ctx.piece(t.start_of(list) + 1, ctx.offset as int);
            &&& target_hint(ctx, n) matches Some(h) && h.method_call matches Some(c)
                && c.method_name == ctx.text_of(name) && c.arg_index == commas_from(before, 0, 0)
                && c.arg_texts == args_from(inside, 0, 0, 0) && (t.field_of(call, "object"@) is None
                ==> c.receiver_expr == "this"@) && (t.field_of(call, "object"@) matches Some(o)
                ==> trim(ctx.text_of(o)).len() > 0 ==> c.receiver_expr == ctx.text_of(o))
        }),
{
}

/// The first argument is counted from zero, and each comma outside of brackets begins the next.
pub proof fn lemma_commas_count(s: Seq<char>, i: int, depth: int)
    requires
        0 <= i < s.len(),
        depth >= 0,
    ensures
        s[i] == ',' && depth == 0 ==> commas_from(s, i, depth) == 1 + commas_from(s, i + 1, 0),
        s[i] == '(' || s[i] == '[' || s[i] == '{' || s[i] == '<' ==> commas_from(s, i, depth)
            == commas_from(s, i + 1, depth + 1),
        (s[i] == ')' || s[i] == ']' || s[i] == '}') && depth > 0 ==> commas_from(s, i, depth)
            == commas_from(s, i + 1, depth - 1),
        s[i] == ',' && depth > 0 ==> commas_from(s, i, depth) == commas_from(s, i + 1, depth),
        commas_from(s, s.len() as int, depth) == 0,
{
}

// ---- shapes ------------------------------------------------------------------------------------

/// A text with no white space at its ends and without colons, hyphens and angle brackets.
pub open spec fn is_part(s: Seq<char>) -> bool {
    &&& s.len() > 0
    &&& !is_white(s[0]) && !is_white(s.last())
    &&& !s.contains(':') && !s.contains('-') && !s.contains('<')
}

/// A method reference has what stands before its colons as its qualifier and what stands behind
/// them as its name; it makes an object where the name begins with `new`.
pub proof fn lemma_method_reference_shapes(q: Seq<char>, m: Seq<char>)
    requires
        is_part(q),
        is_part(m),
    ensures
        method_reference_shape(q + seq![':', ':'] + m) == Some(
            ShapeView::MethodReference {
                qualifier_expr: q,
                member_name: m,
                is_constructor: m.len() >= 3 && m.take(3) == seq!['n', 'e', 'w'],
                qualifier_kind: qualifier_kind(q),
            },
        ),
{
    let s = q + seq![':', ':'] + m;
    let at = q.len() as int;
    reveal_strlit("::");
    reveal_strlit("new");
    assert("::"@ =~= seq![':', ':']);
    assert("new"@ =~= seq!['n', 'e', 'w']);
    assert(s[0] == q[0] && s.last() == m.last());
    lemma_trim_keeps(s);
    assert(s.subrange(at, at + 2) =~= "::"@);
    lemma_find_from(s, "::"@, 0);
    let i = find(s, "::"@)->0;
    if i < at {
        assert(s.subrange(i, i + 2)[0] == s[i]);
        assert(q.contains(s[i]));
    } else if i > at {
        assert(s.subrange(at, at + "::"@.len()) != "::"@);
    }
    assert(s.take(at) =~= q);
    assert(s.skip(at + 2) =~= m);
    lemma_trim_keeps(q);
    lemma_trim_keeps(m);
    lemma_run_end(m, CharClass::White, 0);
    assert(trim_start(m) =~= m);
    assert(m[0] != '<') by {
        if m[0] == '<' {
            assert(m.contains(m[0]));
        }
    }
}

/// `this` and `super` are expressions, what begins with a capital is a type, and of anything else it
/// is not known.
pub proof fn lemma_qualifier_kinds(s: Seq<char>)
    requires
        s.len() > 0,
        !is_white(s[0]),
        !is_white(s.last()),
    ensures
        s == "this"@ || s == "super"@ ==> qualifier_kind(s) == MethodRefQualifierKind::Expr,
        'A' <= s[0] <= 'Z' ==> qualifier_kind(s) == MethodRefQualifierKind::Type,
        s != "this"@ && s != "super"@ && !('A' <= s[0] <= 'Z') ==> qualifier_kind(s)
            == MethodRefQualifierKind::Unknown,
{
    lemma_trim_keeps(s);
    reveal_strlit("this");
    reveal_strlit("super");
    assert("this"@[0] == 't' && "super"@[0] == 's');
}

/// A lambda with one name before its arrow has one parameter; its body is what stands behind the
/// arrow, if that is an expression.
pub proof fn lemma_lambda_shapes(param: Seq<char>, body: Seq<char>)
    requires
        is_part(param),
        param[0] != '(',
        !param.contains(','),
        body.len() > 0,
        !is_white(body[0]),
        !is_white(body.last()),
    ensures
        lambda_shape(param + seq!['-', '>'] + body) == Some(
            ShapeView::Lambda {
                param_count: 1,
                expression_body: if body[0] == '{' {
                    None
                } else {
                    Some(body)
                },
            },
        ),
{
    let s = param + seq!['-', '>'] + body;
    let at = param.len() as int;
    reveal_strlit("->");
    assert("->"@ =~= seq!['-', '>']);
    assert(s[0] == param[0] && s.last() == body.last());
    lemma_trim_keeps(s);
    assert(s.subrange(at, at + 2) =~= "->"@);
    lemma_find_from(s, "->"@, 0);
    let i = find(s, "->"@)->0;
    if i < at {
        assert(s.subrange(i, i + 2)[0] == s[i]);
        assert(param.contains(s[i]));
    } else if i > at {
        assert(s.subrange(at, at + "->"@.len()) != "->"@);
    }
    assert(s.take(at) =~= param);
    assert(s.skip(at + 2) =~= body);
    lemma_trim_keeps(param);
    lemma_trim_keeps(body);
}

/// Names in brackets before the arrow are one parameter each.
pub proof fn lemma_listed_parameters(inner: Seq<char>)
    requires
        inner.len() > 0 ==> !is_white(inner[0]) && !is_white(inner.last()),
    ensures
        lambda_param_count(seq!['('] + inner + seq![')']) == Some(
            args_from(inner, 0, 0, 0).len() as int,
        ),
{
    let p = seq!['('] + inner + seq![')'];
    assert(p[0] == '(' && p.last() == ')');
    lemma_trim_keeps(p);
    assert(p.subrange(1, p.len() - 1) =~= inner);
    lemma_trim_keeps(inner);
}

} // verus!
