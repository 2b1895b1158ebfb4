//! Literals and operators.
use vstd::prelude::*;

use crate::extractor::JavaContextExtractor;
use crate::promotion::{
    promote, promoted, promoted_integral, promoted_integral_pair, promoted_integral_result,
    promoted_numeric_result, promoted_pair, promoted_shift, promoted_shift_result,
    promoted_unary_integral_result, Numeric,
};
use crate::source_view::{field_child, view_of, SourceView};
use crate::syntax::NodeId;
use crate::text::{str_eq, to_text, trim, trimmed};
use crate::type_names::{TypeName, TypeView};

pub mod laws;

verus! {

/// The text from the `i`-th character on without underscores.
pub open spec fn digits_from(s: Seq<char>, i: int) -> Seq<char>
    decreases s.len() - i,
{
    if i < 0 || i >= s.len() {
        Seq::empty()
    } else if s[i] == '_' {
        digits_from(s, i + 1)
    } else {
        seq![s[i]] + digits_from(s, i + 1)
    }
}

fn without_underscores(s: &[char]) -> (r: Vec<char>)
    ensures
        r@ == digits_from(s@, 0),
{
    let mut out: Vec<char> = Vec::new();
    let mut i: usize = 0;
    while i < s.len()
        invariant
            i <= s.len(),
            out@ + digits_from(s@, i as int) =~= digits_from(s@, 0),
        decreases s.len() - i,
    {
        if s[i] != '_' {
            out.push(s[i]);
        }
        i += 1;
    }
    assert(out@ =~= digits_from(s@, 0));
    out
}

/// The type of an integer literal: `long` where something stands before a final `l`, else `int`.
pub open spec fn integer_type(text: Seq<char>) -> Option<TypeView> {
    let s = digits_from(trim(text), 0);
    if s.len() == 0 {
        None
    } else if s.len() > 1 && (s.last() == 'l' || s.last() == 'L') {
        Some(TypeView::plain("long"@))
    } else {
        Some(TypeView::plain("int"@))
    }
}

/// The type of an integer literal.
pub fn resolve_integer_literal_type(text: &[char]) -> (r: Option<TypeName>)
    ensures
        r.deep_view() == integer_type(text@),
{
    let s = without_underscores(trimmed(text));
    let n: usize = s.len();
    if n == 0 {
        return None;
    }
    if n > 1 && (s[n - 1] == 'l' || s[n - 1] == 'L') {
        return Some(TypeName::new("long"));
    }
    Some(TypeName::new("int"))
}

/// The type of a floating point literal: `float` where it ends in `f`, else `double`.
pub open spec fn floating_type(text: Seq<char>) -> Option<TypeView> {
    let s = digits_from(trim(text), 0);
    if s.len() == 0 {
        None
    } else if s.last() == 'f' || s.last() == 'F' {
        Some(TypeView::plain("float"@))
    } else {
        Some(TypeView::plain("double"@))
    }
}

/// The type of a floating point literal.
pub fn resolve_floating_point_literal_type(text: &[char]) -> (r: Option<TypeName>)
    ensures
        r.deep_view() == floating_type(text@),
{
    let s = without_underscores(trimmed(text));
    let n: usize = s.len();
    if n == 0 {
        return None;
    }
    if s[n - 1] == 'f' || s[n - 1] == 'F' {
        return Some(TypeName::new("float"));
    }
    Some(TypeName::new("double"))
}

/// The operators with two operands.
pub open spec fn is_binary_operator(s: Seq<char>) -> bool {
    ||| s == "+"@
    ||| s == "-"@
    ||| s == "*"@
    ||| s == "/"@
    ||| s == "%"@
    ||| s == "<"@
    ||| s == "<="@
    ||| s == ">"@
    ||| s == ">="@
    ||| s == "=="@
    ||| s == "!="@
    ||| s == "&&"@
    ||| s == "||"@
    ||| s == "&"@
    ||| s == "|"@
    ||| s == "^"@
    ||| s == "<<"@
    ||| s == ">>"@
    ||| s == ">>>"@
}

fn names_binary_operator(s: &str) -> (r: bool)
    ensures
        r == is_binary_operator(s@),
{
    str_eq(s, "+") || str_eq(s, "-") || str_eq(s, "*") || str_eq(s, "/") || str_eq(s, "%")
        || str_eq(s, "<") || str_eq(s, "<=") || str_eq(s, ">") || str_eq(s, ">=") || str_eq(s, "==")
        || str_eq(s, "!=") || str_eq(s, "&&") || str_eq(s, "||") || str_eq(s, "&") || str_eq(s, "|")
        || str_eq(s, "^") || str_eq(s, "<<") || str_eq(s, ">>") || str_eq(s, ">>>")
}

/// The operators with one operand.
pub open spec fn is_unary_operator(s: Seq<char>) -> bool {
    s == "~"@ || s == "+"@ || s == "-"@ || s == "!"@
}

fn names_unary_operator(s: &str) -> (r: bool)
    ensures
        r == is_unary_operator(s@),
{
    str_eq(s, "~") || str_eq(s, "+") || str_eq(s, "-") || str_eq(s, "!")
}

/// The kind of the first of the nodes from the `i`-th on that is an operator.
pub open spec fn operator_from(src: SourceView, ids: Seq<NodeId>, binary: bool, i: int) -> Option<
    Seq<char>,
>
    decreases ids.len() - i,
{
    if i < 0 || i >= ids.len() {
        None
    } else if (binary && is_binary_operator(src.kind(ids[i]))) || (!binary && is_unary_operator(
        src.kind(ids[i]),
    )) {
        Some(src.kind(ids[i]))
    } else {
        operator_from(src, ids, binary, i + 1)
    }
}

/// The operator of an expression.
pub open spec fn operator_of(src: SourceView, n: NodeId, binary: bool) -> Option<Seq<char>> {
    match src.field(n, "operator"@) {
        Some(op) => Some(trim(src.text(op))),
        None => operator_from(src, src.nodes[n as int].kids, binary, 0),
    }
}

fn find_operator(ctx: &JavaContextExtractor, n: NodeId, binary: bool) -> (r: Option<String>)
    requires
        ctx.wf(),
        ctx.tree.has(n),
    ensures
        r.deep_view() == operator_of(view_of(*ctx), n, binary),
{
    let ghost src = view_of(*ctx);
    if let Some(op) = field_child(ctx, n, "operator") {
        assert(src.text(op) == ctx.text_of(op));
        return Some(to_text(trimmed(ctx.node_text(op))));
    }
    let t = &ctx.tree;
    let ids = t.children(n);
    let mut i: usize = 0;
    while i < ids.len()
        invariant
            i <= ids.len(),
            ctx.wf(),
            *t == ctx.tree,
            t.all_in(ids@),
            src == view_of(*ctx),
            src.field(n, "operator"@) is None,
            ids@ == src.nodes[n as int].kids,
            operator_from(src, ids@, binary, 0) == operator_from(src, ids@, binary, i as int),
        decreases ids.len() - i,
    {
        let kind = t.kind(ids[i]);
        assert(src.kind(ids@[i as int]) == kind@);
        if (binary && names_binary_operator(kind)) || (!binary && names_unary_operator(kind)) {
            return Some(kind.to_string());
        }
        i += 1;
    }
    None
}

/// The operator of an expression with two operands.
pub fn binary_operator(ctx: &JavaContextExtractor, n: NodeId) -> (r: Option<String>)
    requires
        ctx.wf(),
        ctx.tree.has(n),
    ensures
        r.deep_view() == operator_of(view_of(*ctx), n, true),
{
    find_operator(ctx, n, true)
}

/// The operator of an expression with one operand.
pub fn unary_operator(ctx: &JavaContextExtractor, n: NodeId) -> (r: Option<String>)
    requires
        ctx.wf(),
        ctx.tree.has(n),
    ensures
        r.deep_view() == operator_of(view_of(*ctx), n, false),
{
    find_operator(ctx, n, false)
}

// ---- operators on types ------------------------------------------------------------------------

pub open spec fn boolean() -> TypeView {
    TypeView::plain("boolean"@)
}

/// The type of a number.
pub open spec fn number(n: Option<Numeric>) -> Option<TypeView> {
    match n {
        Some(n) => Some(TypeView::plain(n.spelled())),
        None => None,
    }
}

fn make_number(n: Option<Numeric>) -> (r: Option<TypeName>)
    ensures
        r.deep_view() == number(n),
{
    match n {
        Some(n) => Some(TypeName::new(n.name())),
        None => None,
    }
}

/// The type of arithmetic.
pub open spec fn numeric_type(left: TypeView, right: TypeView) -> Option<TypeView> {
    number(promoted_pair(left.base, right.base))
}

/// The type of arithmetic.
pub fn numeric_binary_result_type(left: &TypeName, right: &TypeName) -> (r: Option<TypeName>)
    ensures
        r.deep_view() == numeric_type(left.deep_view(), right.deep_view()),
{
    make_number(promoted_numeric_result(left.erased_internal(), right.erased_internal()))
}

/// The type of arithmetic on integers.
pub fn integral_binary_result_type(left: &TypeName, right: &TypeName) -> (r: Option<TypeName>)
    ensures
        r.deep_view() == number(
            promoted_integral_pair(left.deep_view().base, right.deep_view().base),
        ),
{
    make_number(promoted_integral_result(left.erased_internal(), right.erased_internal()))
}

/// The type of a shift.
pub fn shift_binary_result_type(left: &TypeName, right: &TypeName) -> (r: Option<TypeName>)
    ensures
        r.deep_view() == number(promoted_shift(left.deep_view().base, right.deep_view().base)),
{
    make_number(promoted_shift_result(left.erased_internal(), right.erased_internal()))
}

/// Two values can be compared for equality: where one is `null` unless both are primitive, where
/// both are `boolean`, numbers or no primitives.
pub open spec fn comparable(left: TypeView, right: TypeView) -> bool {
    if left.base == "null"@ || right.base == "null"@ {
        !left.is_primitive() || !right.is_primitive()
    } else {
        ||| left.base == "boolean"@ && right.base == "boolean"@
        ||| numeric_type(left, right) is Some
        ||| !left.is_primitive() && !right.is_primitive()
    }
}

/// The type of a comparison for equality.
pub fn equality_result_type(left: &TypeName, right: &TypeName) -> (r: Option<TypeName>)
    ensures
        r.deep_view() == if comparable(left.deep_view(), right.deep_view()) {
            Some(boolean())
        } else {
            None
        },
{
    let l = left.erased_internal();
    let r = right.erased_internal();
    if str_eq(l, "null") || str_eq(r, "null") {
        if !left.is_primitive() || !right.is_primitive() {
            return Some(TypeName::new("boolean"));
        }
        return None;
    }
    if str_eq(l, "boolean") && str_eq(r, "boolean") {
        return Some(TypeName::new("boolean"));
    }
    if numeric_binary_result_type(left, right).is_some() {
        return Some(TypeName::new("boolean"));
    }
    if !left.is_primitive() && !right.is_primitive() {
        return Some(TypeName::new("boolean"));
    }
    None
}

/// Both values are `boolean`.
pub open spec fn both_boolean(left: TypeView, right: TypeView) -> bool {
    left.base == "boolean"@ && right.base == "boolean"@
}

/// The type of `&&` and `||`.
pub fn logical_result_type(left: &TypeName, right: &TypeName) -> (r: Option<TypeName>)
    ensures
        r.deep_view() == if both_boolean(left.deep_view(), right.deep_view()) {
            Some(boolean())
        } else {
            None
        },
{
    if str_eq(left.erased_internal(), "boolean") && str_eq(right.erased_internal(), "boolean") {
        Some(TypeName::new("boolean"))
    } else {
        None
    }
}

/// The type of `&`, `|` and `^`.
pub open spec fn bitwise_type(left: TypeView, right: TypeView) -> Option<TypeView> {
    if both_boolean(left, right) {
        Some(boolean())
    } else {
        number(promoted_integral_pair(left.base, right.base))
    }
}

/// The type of `&`, `|` and `^`.
pub fn bitwise_result_type(left: &TypeName, right: &TypeName) -> (r: Option<TypeName>)
    ensures
        r.deep_view() == bitwise_type(left.deep_view(), right.deep_view()),
{
    if str_eq(left.erased_internal(), "boolean") && str_eq(right.erased_internal(), "boolean") {
        return Some(TypeName::new("boolean"));
    }
    integral_binary_result_type(left, right)
}

pub open spec fn is_string(t: TypeView) -> bool {
    t.base == "java/lang/String"@
}

/// Whether a type is that of strings.
pub fn is_string_type(ty: &TypeName) -> (r: bool)
    ensures
        r == is_string(ty.deep_view()),
{
    str_eq(ty.erased_internal(), "java/lang/String")
}

/// The type of an operator on two values.
pub open spec fn binary_type(op: Seq<char>, left: TypeView, right: TypeView) -> Option<TypeView> {
    if op == "+"@ {
        if is_string(left) || is_string(right) {
            Some(TypeView::plain("java/lang/String"@))
        } else {
            numeric_type(left, right)
        }
    } else if op == "-"@ || op == "*"@ || op == "/"@ || op == "%"@ {
        numeric_type(left, right)
    } else if op == "<"@ || op == "<="@ || op == ">"@ || op == ">="@ {
        if numeric_type(left, right) is Some {
            Some(boolean())
        } else {
            None
        }
    } else if op == "=="@ || op == "!="@ {
        if comparable(left, right) {
            Some(boolean())
        } else {
            None
        }
    } else if op == "&&"@ || op == "||"@ {
        if both_boolean(left, right) {
            Some(boolean())
        } else {
            None
        }
    } else if op == "&"@ || op == "|"@ || op == "^"@ {
        bitwise_type(left, right)
    } else if op == "<<"@ || op == ">>"@ || op == ">>>"@ {
        number(promoted_shift(left.base, right.base))
    } else {
        None
    }
}

/// The type of an operator on two values.
pub fn binary_result_type(op: &str, left: &TypeName, right: &TypeName) -> (r: Option<TypeName>)
    ensures
        r.deep_view() == binary_type(op@, left.deep_view(), right.deep_view()),
{
    if str_eq(op, "+") {
        if is_string_type(left) || is_string_type(right) {
            Some(TypeName::new("java/lang/String"))
        } else {
            numeric_binary_result_type(left, right)
        }
    } else if str_eq(op, "-") || str_eq(op, "*") || str_eq(op, "/") || str_eq(op, "%") {
        numeric_binary_result_type(left, right)
    } else if str_eq(op, "<") || str_eq(op, "<=") || str_eq(op, ">") || str_eq(op, ">=") {
        if numeric_binary_result_type(left, right).is_some() {
            Some(TypeName::new("boolean"))
        } else {
            None
        }
    } else if str_eq(op, "==") || str_eq(op, "!=") {
        equality_result_type(left, right)
    } else if str_eq(op, "&&") || str_eq(op, "||") {
        logical_result_type(left, right)
    } else if str_eq(op, "&") || str_eq(op, "|") || str_eq(op, "^") {
        bitwise_result_type(left, right)
    } else if str_eq(op, "<<") || str_eq(op, ">>") || str_eq(op, ">>>") {
        shift_binary_result_type(left, right)
    } else {
        None
    }
}

/// The type of an operator on one value.
pub open spec fn unary_type(op: Seq<char>, operand: TypeView) -> Option<TypeView> {
    if op == "+"@ || op == "-"@ {
        number(promoted(operand.base))
    } else if op == "!"@ {
        if operand.base == "boolean"@ {
            Some(boolean())
        } else {
            None
        }
    } else if op == "~"@ {
        number(promoted_integral(operand.base))
    } else {
        None
    }
}

/// The type of an operator on one value.
pub fn unary_result_type(op: &str, operand: &TypeName) -> (r: Option<TypeName>)
    ensures
        r.deep_view() == unary_type(op@, operand.deep_view()),
{
    if str_eq(op, "+") || str_eq(op, "-") {
        make_number(promote(operand.erased_internal()))
    } else if str_eq(op, "!") {
        if str_eq(operand.erased_internal(), "boolean") {
            Some(TypeName::new("boolean"))
        } else {
            None
        }
    } else if str_eq(op, "~") {
        make_number(promoted_unary_integral_result(operand.erased_internal()))
    } else {
        None
    }
}

/// The type of a choice between two values.
pub open spec fn choice_type(left: TypeView, right: TypeView) -> Option<TypeView> {
    if left.base == right.base && left.array_dims == right.array_dims {
        Some(left)
    } else if left.base == "null"@ && !right.is_primitive() {
        Some(right)
    } else if right.base == "null"@ && !left.is_primitive() {
        Some(left)
    } else if numeric_type(left, right) is Some {
        numeric_type(left, right)
    } else if !left.is_primitive() && !right.is_primitive() {
        Some(left)
    } else {
        None
    }
}

/// The type of a choice between two values.
pub fn choice_result_type(left: TypeName, right: TypeName) -> (r: Option<TypeName>)
    ensures
        r.deep_view() == choice_type(left.deep_view(), right.deep_view()),
{
    if str_eq(left.erased_internal(), right.erased_internal()) && left.array_dims
        == right.array_dims {
        return Some(left);
    }
    if str_eq(left.erased_internal(), "null") && !right.is_primitive() {
        return Some(right);
    }
    if str_eq(right.erased_internal(), "null") && !left.is_primitive() {
        return Some(left);
    }
    if let Some(promoted) = numeric_binary_result_type(&left, &right) {
        return Some(promoted);
    }
    if !left.is_primitive() && !right.is_primitive() {
        return Some(left);
    }
    None
}

} // verus!
