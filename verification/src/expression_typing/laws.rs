//! What the types of expressions are made of.
use vstd::prelude::*;

use crate::expression_typing::operators::{
    binary_type, choice_type, floating_type, integer_type, unary_type,
};
use crate::expression_typing::{
    argument_types, boundary_from, chain_type, closing_angle, count_from, creation_type,
    element_type, expression_node, field_descriptor, init_type, is_array_access, letter_type,
    no_target, node_type, params_from, part_type, step_type, typed, wrapped, ExpectedView,
    TypingView,
};
use crate::index::FieldView;
use crate::source_view::{parsed_view, SourceView};
use crate::syntax::NodeId;
use crate::text::laws::{
    lemma_after_last, lemma_index_from, lemma_last_index_before, lemma_trim_keeps,
};
use crate::text::{index_of, is_white, last_index_of, starts_with, trim, trim_end, trim_start};
use crate::type_facts::{result_from, CallView, FactsView, SegmentView};
use crate::type_names::{is_primitive_name, TypeView};

pub mod ways;

verus! {

/// No two kinds of expressions are named alike.
pub proof fn lemma_expression_kinds_differ()
    ensures
        "parenthesized_expression"@.len() == 24,
        "identifier"@.len() == 10,
        "decimal_integer_literal"@.len() == 23,
        "hex_integer_literal"@.len() == 19,
        "octal_integer_literal"@.len() == 21,
        "binary_integer_literal"@.len() == 22,
        "decimal_floating_point_literal"@.len() == 30,
        "hex_floating_point_literal"@.len() == 26,
        "boolean_literal"@.len() == 15,
        "character_literal"@.len() == 17,
        "null_literal"@.len() == 12,
        "string_literal"@.len() == 14,
        "text_block"@.len() == 10,
        "cast_expression"@.len() == 15,
        "assignment_expression"@.len() == 21,
        "ternary_expression"@.len() == 18,
        "unary_expression"@.len() == 16,
        "method_invocation"@.len() == 17,
        "field_access"@.len() == 12,
        "object_creation_expression"@.len() == 26,
        "explicit_constructor_invocation"@.len() == 31,
        "lambda_expression"@.len() == 17,
        "binary_expression"@.len() == 17,
        "inferred_parameters"@.len() == 19,
        "formal_parameters"@.len() == 17,
        "formal_parameter"@.len() == 16,
        "spread_parameter"@.len() == 16,
        "identifier"@ != "text_block"@,
        "hex_integer_literal"@ != "inferred_parameters"@,
        "octal_integer_literal"@ != "assignment_expression"@,
        "hex_floating_point_literal"@ != "object_creation_expression"@,
        "boolean_literal"@ != "cast_expression"@,
        "character_literal"@ != "method_invocation"@,
        "character_literal"@ != "lambda_expression"@,
        "character_literal"@ != "binary_expression"@,
        "character_literal"@ != "formal_parameters"@,
        "null_literal"@ != "field_access"@,
        "unary_expression"@ != "formal_parameter"@,
        "unary_expression"@ != "spread_parameter"@,
        "method_invocation"@ != "lambda_expression"@,
        "method_invocation"@ != "binary_expression"@,
        "method_invocation"@ != "formal_parameters"@,
        "lambda_expression"@ != "binary_expression"@,
        "lambda_expression"@ != "formal_parameters"@,
        "binary_expression"@ != "formal_parameters"@,
        "formal_parameter"@ != "spread_parameter"@,
{
    reveal_strlit("parenthesized_expression");
    reveal_strlit("identifier");
    reveal_strlit("decimal_integer_literal");
    reveal_strlit("hex_integer_literal");
    reveal_strlit("octal_integer_literal");
    reveal_strlit("binary_integer_literal");
    reveal_strlit("decimal_floating_point_literal");
    reveal_strlit("hex_floating_point_literal");
    reveal_strlit("boolean_literal");
    reveal_strlit("character_literal");
    reveal_strlit("null_literal");
    reveal_strlit("string_literal");
    reveal_strlit("text_block");
    reveal_strlit("cast_expression");
    reveal_strlit("assignment_expression");
    reveal_strlit("ternary_expression");
    reveal_strlit("unary_expression");
    reveal_strlit("method_invocation");
    reveal_strlit("field_access");
    reveal_strlit("object_creation_expression");
    reveal_strlit("explicit_constructor_invocation");
    reveal_strlit("lambda_expression");
    reveal_strlit("binary_expression");
    reveal_strlit("inferred_parameters");
    reveal_strlit("formal_parameters");
    reveal_strlit("formal_parameter");
    reveal_strlit("spread_parameter");
    assert("identifier"@[0] == 'i');
    assert("text_block"@[0] == 't');
    assert("hex_integer_literal"@[0] == 'h');
    assert("inferred_parameters"@[0] == 'i');
    assert("octal_integer_literal"@[0] == 'o');
    assert("assignment_expression"@[0] == 'a');
    assert("hex_floating_point_literal"@[0] == 'h');
    assert("object_creation_expression"@[0] == 'o');
    assert("boolean_literal"@[0] == 'b');
    assert("cast_expression"@[0] == 'c');
    assert("character_literal"@[0] == 'c');
    assert("method_invocation"@[0] == 'm');
    assert("lambda_expression"@[0] == 'l');
    assert("binary_expression"@[0] == 'b');
    assert("formal_parameters"@[0] == 'f');
    assert("null_literal"@[0] == 'n');
    assert("field_access"@[0] == 'f');
    assert("unary_expression"@[0] == 'u');
    assert("formal_parameter"@[0] == 'f');
    assert("spread_parameter"@[0] == 's');
}

/// The type with a name, without arguments, that is no array.
pub open spec fn bare(name: Seq<char>) -> TypeView {
    TypeView { base: name, args: Seq::empty(), array_dims: 0 }
}

/// The node below another, as the parts of an expression are.
pub open spec fn is_part(src: SourceView, n: NodeId, k: NodeId) -> bool {
    n < k && src.has(k)
}

/// Parentheses do not change the type.
pub proof fn lemma_parentheses(
    facts: FactsView,
    src: SourceView,
    n: NodeId,
    k: NodeId,
    target: ExpectedView,
    depth: nat,
)
    requires
        src.kind(n) == "parenthesized_expression"@,
        src.field(n, "expression"@) == Some(k) || src.field(n, "expression"@) is None
            && src.named_kids(n).len() > 0 && src.named_kids(n)[0] == k,
        is_part(src, n, k),
    ensures
        node_type(facts, src, n, target, depth) == node_type(facts, src, k, target, depth),
{
    reveal_with_fuel(node_type, 3);
    reveal_with_fuel(part_type, 3);
}

/// A name has the type that is known of it, and none if nothing is.
pub proof fn lemma_names(
    facts: FactsView,
    src: SourceView,
    n: NodeId,
    target: ExpectedView,
    depth: nat,
)
    requires
        src.kind(n) == "identifier"@,
    ensures
        node_type(facts, src, n, target, depth) == if facts.names.contains_key(trim(src.text(n))) {
            TypingView::Known(facts.names[trim(src.text(n))])
        } else {
            TypingView::Unknown
        },
{
    lemma_expression_kinds_differ();
}

/// Literals have the types that the language gives them, whatever is known or expected.
pub proof fn lemma_literal_nodes(
    facts: FactsView,
    src: SourceView,
    n: NodeId,
    target: ExpectedView,
    depth: nat,
)
    ensures
        src.kind(n) == "boolean_literal"@ ==> node_type(facts, src, n, target, depth)
            == TypingView::Known(bare("boolean"@)),
        src.kind(n) == "character_literal"@ ==> node_type(facts, src, n, target, depth)
            == TypingView::Known(bare("char"@)),
        src.kind(n) == "null_literal"@ ==> node_type(facts, src, n, target, depth)
            == TypingView::Known(bare("null"@)),
        src.kind(n) == "string_literal"@ || src.kind(n) == "text_block"@ ==> node_type(
            facts,
            src,
            n,
            target,
            depth,
        ) == TypingView::Known(bare("java/lang/String"@)),
        src.kind(n) == "decimal_integer_literal"@ || src.kind(n) == "hex_integer_literal"@
            || src.kind(n) == "octal_integer_literal"@ || src.kind(n) == "binary_integer_literal"@
            ==> (integer_type(src.text(n)) matches Some(t) ==> node_type(
            facts,
            src,
            n,
            target,
            depth,
        ) == TypingView::Known(t)),
        src.kind(n) == "decimal_floating_point_literal"@ || src.kind(n)
            == "hex_floating_point_literal"@ ==> (floating_type(src.text(n)) matches Some(t)
            ==> node_type(facts, src, n, target, depth) == TypingView::Known(t)),
{
    lemma_expression_kinds_differ();
}

/// A cast to a primitive type has that type, whatever is cast.
pub proof fn lemma_casts(
    facts: FactsView,
    src: SourceView,
    n: NodeId,
    ty: NodeId,
    target: ExpectedView,
    depth: nat,
)
    requires
        src.kind(n) == "cast_expression"@,
        src.field(n, "type"@) == Some(ty),
        src.text(ty).len() > 0,
        !is_white(src.text(ty)[0]),
        !is_white(src.text(ty).last()),
    ensures
        is_primitive_name(src.text(ty)) ==> node_type(facts, src, n, target, depth)
            == TypingView::Known(bare(src.text(ty))),
        !is_primitive_name(src.text(ty)) && src.text(ty) != "void"@ ==> node_type(
            facts,
            src,
            n,
            target,
            depth,
        ) == if facts.relaxed_types.contains_key(src.text(ty)) {
            TypingView::Known(facts.relaxed_types[src.text(ty)])
        } else if facts.types.contains_key(src.text(ty)) {
            TypingView::Known(facts.types[src.text(ty)])
        } else if facts.qualified_types.contains_key(src.text(ty)) {
            TypingView::Known(facts.qualified_types[src.text(ty)])
        } else {
            TypingView::Unknown
        },
{
    lemma_expression_kinds_differ();
    lemma_trim_keeps(src.text(ty));
}

/// An assignment has the type of its left side if that is known, else that of its right side.
pub proof fn lemma_assignments(
    facts: FactsView,
    src: SourceView,
    n: NodeId,
    l: NodeId,
    r: NodeId,
    target: ExpectedView,
    depth: nat,
)
    requires
        src.kind(n) == "assignment_expression"@,
        src.field(n, "left"@) == Some(l),
        src.field(n, "right"@) == Some(r),
        is_part(src, n, l),
        is_part(src, n, r),
    ensures
        node_type(facts, src, l, target, depth) is Known ==> node_type(facts, src, n, target, depth)
            == node_type(facts, src, l, target, depth),
        node_type(facts, src, l, target, depth) is Unknown ==> node_type(
            facts,
            src,
            n,
            target,
            depth,
        ) == node_type(facts, src, r, target, depth),
{
    reveal_with_fuel(node_type, 3);
    reveal_with_fuel(part_type, 3);
    reveal_with_fuel(crate::expression_typing::assignment_type, 3);
    lemma_expression_kinds_differ();
}

/// A choice has the type that its two sides make, whatever its condition is.
pub proof fn lemma_choices(
    facts: FactsView,
    src: SourceView,
    n: NodeId,
    yes: NodeId,
    no: NodeId,
    l: TypeView,
    r: TypeView,
    target: ExpectedView,
    depth: nat,
)
    requires
        src.kind(n) == "ternary_expression"@,
        src.field(n, "consequence"@) == Some(yes),
        src.field(n, "alternative"@) == Some(no),
        is_part(src, n, yes),
        is_part(src, n, no),
        node_type(facts, src, yes, target, depth) == TypingView::Known(l),
        node_type(facts, src, no, target, depth) == TypingView::Known(r),
    ensures
        choice_type(l, r) matches Some(t) ==> node_type(facts, src, n, target, depth)
            == TypingView::Known(t),
        choice_type(l, r) is None ==> node_type(facts, src, n, target, depth) is Unknown,
{
    reveal_with_fuel(node_type, 3);
    reveal_with_fuel(part_type, 3);
    reveal_with_fuel(crate::expression_typing::ternary_type, 3);
    lemma_expression_kinds_differ();
}

/// An operator with two operands has the type that the operator gives for theirs, the left one
/// first.
pub proof fn lemma_binaries(
    facts: FactsView,
    src: SourceView,
    n: NodeId,
    l: NodeId,
    r: NodeId,
    op: NodeId,
    lt: TypeView,
    rt: TypeView,
    target: ExpectedView,
    depth: nat,
)
    requires
        src.kind(n) == "binary_expression"@,
        src.field(n, "left"@) == Some(l),
        src.field(n, "right"@) == Some(r),
        src.field(n, "operator"@) == Some(op),
        is_part(src, n, l),
        is_part(src, n, r),
        node_type(facts, src, l, target, depth) == TypingView::Known(lt),
        node_type(facts, src, r, target, depth) == TypingView::Known(rt),
    ensures
        binary_type(trim(src.text(op)), lt, rt) matches Some(t) ==> node_type(
            facts,
            src,
            n,
            target,
            depth,
        ) == TypingView::Known(t),
        binary_type(trim(src.text(op)), lt, rt) is None ==> node_type(facts, src, n, target, depth)
            is Unknown,
{
    reveal_with_fuel(node_type, 3);
    reveal_with_fuel(part_type, 3);
    reveal_with_fuel(crate::expression_typing::binary_node_type, 3);
    lemma_expression_kinds_differ();
}

/// An operator with one operand has the type that the operator gives for it.
pub proof fn lemma_unaries(
    facts: FactsView,
    src: SourceView,
    n: NodeId,
    k: NodeId,
    op: NodeId,
    t: TypeView,
    target: ExpectedView,
    depth: nat,
)
    requires
        src.kind(n) == "unary_expression"@,
        src.field(n, "operand"@) == Some(k),
        src.field(n, "operator"@) == Some(op),
        is_part(src, n, k),
        node_type(facts, src, k, target, depth) == TypingView::Known(t),
    ensures
        unary_type(trim(src.text(op)), t) matches Some(u) ==> node_type(facts, src, n, target, depth)
            == TypingView::Known(u),
        unary_type(trim(src.text(op)), t) is None ==> node_type(facts, src, n, target, depth)
            is Unknown,
{
    reveal_with_fuel(node_type, 3);
    reveal_with_fuel(part_type, 3);
    reveal_with_fuel(crate::expression_typing::unary_node_type, 3);
    lemma_expression_kinds_differ();
}

/// Where a part of an operator is not known, the whole is not.
pub proof fn lemma_unknown_parts(
    facts: FactsView,
    src: SourceView,
    n: NodeId,
    l: NodeId,
    r: NodeId,
    target: ExpectedView,
    depth: nat,
)
    requires
        src.kind(n) == "binary_expression"@,
        src.field(n, "left"@) == Some(l),
        src.field(n, "right"@) == Some(r),
        is_part(src, n, l),
        is_part(src, n, r),
        node_type(facts, src, l, target, depth) is Unknown || node_type(
            facts,
            src,
            l,
            target,
            depth,
        ) is Known && node_type(facts, src, r, target, depth) is Unknown,
    ensures
        node_type(facts, src, n, target, depth) is Unknown,
{
    reveal_with_fuel(node_type, 3);
    reveal_with_fuel(part_type, 3);
    reveal_with_fuel(crate::expression_typing::binary_node_type, 3);
    lemma_expression_kinds_differ();
}

// ---- lambdas -----------------------------------------------------------------------------------

/// A lambda has the type that is expected of it exactly where it has as many parameters as the
/// method of the interface.
pub proof fn lemma_lambdas(
    facts: FactsView,
    src: SourceView,
    n: NodeId,
    params: NodeId,
    t: TypeView,
    arity: usize,
    depth: nat,
)
    requires
        src.kind(n) == "lambda_expression"@,
        src.field(n, "parameters"@) == Some(params),
    ensures
        ({
            let target = ExpectedView { interface: Some(t), arity: Some(arity) };
            let count = if src.kind(params) == "identifier"@ {
                Some(1int)
            } else if src.kind(params) == "inferred_parameters"@ {
                Some(
                    src.named_kids(params).filter(
                        |k: NodeId| src.kind(k) == "identifier"@,
                    ).len() as int,
                )
            } else if src.kind(params) == "formal_parameters"@ {
                Some(
                    src.named_kids(params).filter(
                        |k: NodeId|
                            src.kind(k) == "formal_parameter"@ || src.kind(k)
                                == "spread_parameter"@,
                    ).len() as int,
                )
            } else {
                None
            };
            &&& count == Some(arity as int) ==> node_type(facts, src, n, target, depth)
                == TypingView::Known(t)
            &&& count != Some(arity as int) ==> node_type(facts, src, n, target, depth)
                == TypingView::Unknown
        }),
{
    lemma_expression_kinds_differ();
    let ids = src.named_kids(params);
    lemma_params_counted(src, ids, false, ids.len() as int);
    lemma_params_counted(src, ids, true, ids.len() as int);
    assert(ids.take(ids.len() as int) =~= ids);
    let plain = |k: NodeId| src.kind(k) == "identifier"@;
    let typed_ones = |k: NodeId|
        src.kind(k) == "formal_parameter"@ || src.kind(k) == "spread_parameter"@;
    assert(ids.filter(is_param(src, false)) =~= ids.filter(plain)) by {
        assert(is_param(src, false) =~= plain);
    }
    assert(ids.filter(is_param(src, true)) =~= ids.filter(typed_ones)) by {
        assert(is_param(src, true) =~= typed_ones);
    }
}

spec fn is_param(src: SourceView, with_types: bool) -> spec_fn(NodeId) -> bool {
    |k: NodeId|
        if with_types {
            src.kind(k) == "formal_parameter"@ || src.kind(k) == "spread_parameter"@
        } else {
            src.kind(k) == "identifier"@
        }
}

/// How many parameters there are among the first `j` nodes, and among those behind them.
proof fn lemma_params_counted(src: SourceView, ids: Seq<NodeId>, with_types: bool, j: int)
    requires
        0 <= j <= ids.len(),
    ensures
        params_from(src, ids, with_types, 0) == ids.take(j).filter(is_param(src, with_types)).len()
            + params_from(src, ids, with_types, j),
    decreases j,
{
    reveal(Seq::filter);
    if j > 0 {
        lemma_params_counted(src, ids, with_types, j - 1);
        assert(ids.take(j).drop_last() =~= ids.take(j - 1));
        assert(ids.take(j).last() == ids[j - 1]);
    } else {
        assert(ids.take(0) =~= Seq::<NodeId>::empty());
    }
}

// ---- whole expressions -------------------------------------------------------------------------

/// White space around an expression does not matter.
pub proof fn lemma_white_space_does_not_matter(
    facts: FactsView,
    expr: Seq<char>,
    target: ExpectedView,
    depth: nat,
)
    ensures
        typed(facts, expr, target, depth) == typed(facts, trim(expr), target, depth),
{
    let b = crate::text::laws::lemma_trim(expr);
    lemma_trim_keeps(trim(expr));
}

/// An expression has the type of its syntax, where that is known.
pub proof fn lemma_syntax_decides(
    facts: FactsView,
    expr: Seq<char>,
    n: NodeId,
    t: TypeView,
    target: ExpectedView,
    depth: nat,
)
    requires
        depth > 0,
        trim(expr).len() > 0,
        expression_node(parsed_view(wrapped(trim(expr)))) == Some(n),
        parsed_view(wrapped(trim(expr))).has(n),
        node_type(facts, parsed_view(wrapped(trim(expr))), n, target, depth)
            == TypingView::Known(t),
    ensures
        typed(facts, expr, target, depth) == TypingView::Known(t),
{
}

/// An element of an array has the type of the array with one array less around it; what is no
/// array has no elements.
pub proof fn lemma_elements(
    facts: FactsView,
    array: Seq<char>,
    index: Seq<char>,
    t: TypeView,
    depth: nat,
)
    requires
        depth > 0,
        !index.contains('['),
        array.len() > 0,
        !is_white(array[0]),
        !is_white(array.last()),
        typed(facts, array, no_target(), (depth - 1) as nat) == TypingView::Known(t),
    ensures
        ({
            let access = array + seq!['['] + index + seq![']'];
            &&& is_array_access(access)
            &&& element_type(facts, access, depth) == if t.array_dims > 0 {
                TypingView::Known(TypeView { array_dims: (t.array_dims - 1) as nat, ..t })
            } else {
                TypingView::Unknown
            }
        }),
{
    let access = array + seq!['['] + index + seq![']'];
    let at = array.len() as int;
    assert(access[at] == '[');
    assert(access.contains('['));
    lemma_last_index_before(access, '[', access.len() as int);
    let k = last_index_of(access, '[')->0;
    if k > at {
        if k < access.len() - 1 {
            assert(index[k - at - 1] == '[');
        }
    }
    assert(access.take(at) =~= array);
    lemma_trim_keeps(array);
    assert(access.last() == ']');
    crate::text::lemma_run_start(
        access,
        crate::text::CharClass::White,
        access.len() as int,
    );
    assert(trim_end(access) =~= access);
    reveal_strlit("]");
    assert("]"@ =~= seq![']']);
    assert(access.skip(access.len() - 1) =~= seq![']']);
}

/// A chain of accesses is looked up by its text, and a name where there is no chain.
pub proof fn lemma_chains_and_names(
    facts: FactsView,
    src: SourceView,
    n: NodeId,
    target: ExpectedView,
    depth: nat,
)
    requires
        src.kind(n) == "method_invocation"@ || src.kind(n) == "field_access"@,
    ensures
        facts.chains.contains_key(trim(src.text(n))) && facts.chains[trim(src.text(n))].len() > 0
            ==> node_type(facts, src, n, target, depth) == chain_type(
            facts,
            facts.chains[trim(src.text(n))],
            0,
            None,
            depth,
        ),
        !facts.chains.contains_key(trim(src.text(n))) ==> node_type(facts, src, n, target, depth)
            == if facts.names.contains_key(src.text(n)) {
            TypingView::Known(facts.names[src.text(n)])
        } else {
            TypingView::Unknown
        },
{
    lemma_expression_kinds_differ();
}

// ---- chains ------------------------------------------------------------------------------------

/// A step without brackets and arguments.
pub open spec fn is_name_step(step: SegmentView) -> bool {
    step.arg_count is None && !step.name.contains('[')
}

proof fn lemma_no_brackets(s: Seq<char>, c: char, i: int)
    requires
        0 <= i,
        !s.contains(c),
    ensures
        count_from(s, c, i) == 0,
        index_of(s, c) is None,
    decreases s.len() - i,
{
    lemma_index_from(s, c, 0);
    if let Some(k) = index_of(s, c) {
        assert(s.contains(s[k]));
    }
    if i < s.len() {
        assert(s.contains(s[i]));
        lemma_no_brackets(s, c, i + 1);
    }
}

/// A chain of one name has the type of the name: what can be seen by it, else the class around, if
/// that is its simple name, else a type.
pub proof fn lemma_chain_heads(facts: FactsView, step: SegmentView, depth: nat)
    requires
        is_name_step(step),
    ensures
        chain_type(facts, seq![step], 0, None, depth) == if facts.names.contains_key(step.name) {
            TypingView::Known(facts.names[step.name])
        } else if facts.enclosing is Some && step.name == crate::text::after_last(
            crate::text::after_last(facts.enclosing->0, '/'),
            '$',
        ) {
            TypingView::Known(bare(facts.enclosing->0))
        } else if facts.types.contains_key(step.name) {
            TypingView::Known(facts.types[step.name])
        } else {
            TypingView::Unknown
        },
{
    lemma_no_brackets(step.name, '[', 0);
    reveal_with_fuel(chain_type, 3);
}

/// The class around an expression is known by its simple name, that of a nested class too.
pub proof fn lemma_enclosing_simple(path: Seq<char>, outer: Seq<char>, name: Seq<char>)
    requires
        !name.contains('/'),
        !name.contains('$'),
        !outer.contains('/'),
        path.len() == 0 || path.last() == '/',
        outer.len() == 0 || outer.last() == '$',
    ensures
        crate::text::after_last(crate::text::after_last(path + outer + name, '/'), '$') == name,
{
    let simple = outer + name;
    assert(path + outer + name =~= path + simple);
    assert forall|i: int| 0 <= i < simple.len() implies simple[i] != '/' by {
        if i < outer.len() {
            assert(outer.contains(outer[i]));
        } else {
            assert(name.contains(name[i - outer.len()]));
        }
    }
    lemma_after_last(path, simple, '/');
    lemma_after_last(outer, name, '$');
}

/// A field of what stands before it has the type of the first field of that name in the class.
pub proof fn lemma_chain_fields(
    facts: FactsView,
    chain: Seq<SegmentView>,
    recv: TypeView,
    f: int,
    depth: nat,
)
    requires
        chain.len() > 0,
        is_name_step(chain.last()),
        chain.last().name.len() > 0,
        recv.base.contains('/'),
        facts.fields.contains_key(recv.base),
        0 <= f < facts.fields[recv.base].len(),
        facts.fields[recv.base][f].name == chain.last().name,
        forall|q: int|
            0 <= q < f ==> (#[trigger] facts.fields[recv.base][q]).name != chain.last().name,
    ensures
        chain_type(facts, chain, chain.len() - 1, Some(recv), depth) == match letter_type(
            facts.fields[recv.base][f].descriptor,
        ) {
            Some(t) => TypingView::Known(bare(t)),
            None => if facts.descriptors.contains_key(facts.fields[recv.base][f].descriptor) {
                TypingView::Known(facts.descriptors[facts.fields[recv.base][f].descriptor])
            } else {
                TypingView::Unknown
            },
        },
{
    lemma_no_brackets(chain.last().name, '[', 0);
    lemma_field_descriptor(facts.fields[recv.base], chain.last().name, 0, f);
    reveal_with_fuel(chain_type, 3);
}

proof fn lemma_field_descriptor(fields: Seq<FieldView>, name: Seq<char>, i: int, f: int)
    requires
        0 <= i <= f < fields.len(),
        fields[f].name == name,
        forall|q: int| i <= q < f ==> (#[trigger] fields[q]).name != name,
    ensures
        field_descriptor(fields, name, i) == Some(fields[f].descriptor),
    decreases f - i,
{
    if i < f {
        lemma_field_descriptor(fields, name, i + 1, f);
    }
}

/// What follows in a chain is looked up in the type of what stands before it, brackets taken off.
pub proof fn lemma_chain_steps(
    facts: FactsView,
    chain: Seq<SegmentView>,
    i: int,
    recv: Option<TypeView>,
    t: TypeView,
    depth: nat,
)
    requires
        0 <= i < chain.len(),
        step_type(facts, chain[i], recv, depth) == TypingView::Known(t),
        !chain[i].name.contains('['),
    ensures
        chain_type(facts, chain, i, recv, depth) == chain_type(facts, chain, i + 1, Some(t), depth),
        i + 1 == chain.len() ==> chain_type(facts, chain, i, recv, depth) == TypingView::Known(t),
{
    lemma_no_brackets(chain[i].name, '[', 0);
    reveal_with_fuel(chain_type, 2);
}

/// A call on an object has the result of the first known call with the same receiver, name and
/// arguments.
pub proof fn lemma_chain_calls(
    facts: FactsView,
    step: SegmentView,
    recv: TypeView,
    count: int,
    types: Seq<TypeView>,
    c: int,
    depth: nat,
)
    requires
        step.arg_count == Some(count),
        step.name.len() > 0,
        !step.name.contains('['),
        recv.base.contains('/'),
        argument_types(facts, step.arg_texts, 0, depth) == Some(types),
        0 <= c < facts.calls.len(),
        fits_call(facts.calls[c], recv, step.name, count, types, step.arg_texts),
        forall|q: int|
            0 <= q < c ==> !fits_call(
                #[trigger] facts.calls[q],
                recv,
                step.name,
                count,
                types,
                step.arg_texts,
            ),
    ensures
        step_type(facts, step, Some(recv), depth) == TypingView::Known(facts.calls[c].result),
{
    lemma_no_brackets(step.name, '[', 0);
    lemma_result_from(facts.calls, recv, step.name, count, types, step.arg_texts, 0, c);
}

/// A call at the start of a chain is one of the class around it: what is known of its calls comes
/// before what its methods in the text say.
pub proof fn lemma_own_calls(
    facts: FactsView,
    step: SegmentView,
    enclosing: Seq<char>,
    count: int,
    types: Seq<TypeView>,
    c: int,
    depth: nat,
)
    requires
        step.arg_count == Some(count),
        !step.name.contains('['),
        facts.enclosing == Some(enclosing),
        argument_types(facts, step.arg_texts, 0, depth) == Some(types),
        0 <= c < facts.calls.len(),
        fits_call(facts.calls[c], bare(enclosing), step.name, count, types, step.arg_texts),
        forall|q: int|
            0 <= q < c ==> !fits_call(
                #[trigger] facts.calls[q],
                bare(enclosing),
                step.name,
                count,
                types,
                step.arg_texts,
            ),
    ensures
        step_type(facts, step, None, depth) == TypingView::Known(facts.calls[c].result),
{
    lemma_no_brackets(step.name, '[', 0);
    lemma_result_from(facts.calls, bare(enclosing), step.name, count, types, step.arg_texts, 0, c);
}

pub open spec fn fits_call(
    c: CallView,
    receiver: TypeView,
    name: Seq<char>,
    count: int,
    types: Seq<TypeView>,
    texts: Seq<Seq<char>>,
) -> bool {
    &&& c.receiver == receiver
    &&& c.name == name
    &&& c.arg_count == count
    &&& c.arg_types == types
    &&& c.arg_texts == texts
}

proof fn lemma_result_from(
    calls: Seq<CallView>,
    receiver: TypeView,
    name: Seq<char>,
    count: int,
    types: Seq<TypeView>,
    texts: Seq<Seq<char>>,
    i: int,
    c: int,
)
    requires
        0 <= i <= c < calls.len(),
        fits_call(calls[c], receiver, name, count, types, texts),
        forall|q: int|
            i <= q < c ==> !fits_call(#[trigger] calls[q], receiver, name, count, types, texts),
    ensures
        result_from(calls, receiver, name, count, types, texts, i) == Some(calls[c].result),
    decreases c - i,
{
    if i < c {
        assert(!fits_call(calls[i], receiver, name, count, types, texts));
        lemma_result_from(calls, receiver, name, count, types, texts, i + 1, c);
    }
}

/// The type of an argument: that of its text, or `unknown` where that has none.
pub open spec fn is_type_of(facts: FactsView, text: Seq<char>, depth: nat, t: TypeView) -> bool {
    match typed(facts, trim(text), no_target(), depth) {
        TypingView::Known(known) => t == known,
        TypingView::Unknown => t == bare("unknown"@),
        TypingView::TooDeep => false,
    }
}

/// The types of arguments are those of their texts, one for each, `unknown` where there is none.
pub proof fn lemma_argument_types(
    facts: FactsView,
    texts: Seq<Seq<char>>,
    j: int,
    depth: nat,
)
    requires
        0 <= j <= texts.len(),
        depth > 0,
    ensures
        argument_types(facts, texts, j, depth) matches Some(types) ==> types.len() == texts.len()
            - j && forall|k: int|
            j <= k < texts.len() ==> is_type_of(
                facts,
                #[trigger] texts[k],
                (depth - 1) as nat,
                types[k - j],
            ),
    decreases texts.len() - j,
{
    reveal_with_fuel(argument_types, 2);
    if j < texts.len() {
        lemma_argument_types(facts, texts, j + 1, depth);
        if let Some(types) = argument_types(facts, texts, j, depth) {
            let rest = argument_types(facts, texts, j + 1, depth)->0;
            assert forall|k: int| j <= k < texts.len() implies is_type_of(
                facts,
                #[trigger] texts[k],
                (depth - 1) as nat,
                types[k - j],
            ) by {
                if k > j {
                    assert(types[k - j] == rest[k - j - 1]);
                }
            }
        }
    }
}

// ---- creations ---------------------------------------------------------------------------------

proof fn lemma_boundary(s: Seq<char>, i: int, b: int)
    requires
        0 <= i <= b <= s.len(),
        forall|k: int| i <= k < b ==> s[k] != '(' && s[k] != '[' && s[k] != '{',
        b < s.len() ==> s[b] == '(' || s[b] == '[' || s[b] == '{',
    ensures
        boundary_from(s, i) == b,
    decreases b - i,
{
    if i < b {
        lemma_boundary(s, i + 1, b);
    }
}

/// A name that a type can have where it is created, without arguments.
pub open spec fn is_plain_name(name: Seq<char>) -> bool {
    &&& name.len() > 0
    &&& !is_white(name[0])
    &&& !is_white(name.last())
    &&& forall|k: int|
        0 <= k < name.len() ==> name[k] != '(' && name[k] != '[' && name[k] != '{' && name[k] != '<'
}

/// The type that a created type's name stands for: a primitive one or what it resolves to.
pub open spec fn names_created(facts: FactsView, name: Seq<char>, t: TypeView) -> bool {
    if is_primitive_name(name) {
        t == bare(name)
    } else if facts.types.contains_key(name) {
        t == facts.types[name]
    } else {
        facts.qualified_types.contains_key(name) && t == facts.qualified_types[name]
    }
}

/// `new` with a name and arguments in brackets makes an object of the type with that name.
pub proof fn lemma_objects(facts: FactsView, name: Seq<char>, args: Seq<char>, t: TypeView)
    requires
        is_plain_name(name),
        !args.contains('<'),
        names_created(facts, name, t),
        t.array_dims <= usize::MAX,
    ensures
        creation_type(facts, name + seq!['('] + args) == TypingView::Known(t),
{
    let rest = name + seq!['('] + args;
    assert(rest[name.len() as int] == '(');
    assert forall|k: int| 0 <= k < name.len() implies rest[k] != '(' && rest[k] != '[' && rest[k]
        != '{' by {
        assert(rest[k] == name[k]);
    }
    lemma_boundary(rest, 0, name.len() as int);
    lemma_index_from(rest, '<', 0);
    if let Some(k) = index_of(rest, '<') {
        if k < name.len() {
            assert(rest[k] == name[k]);
        }
    }
    assert(rest.take(name.len() as int) =~= name);
    lemma_trim_keeps(name);
    let after = rest.skip(name.len() as int);
    assert(after[0] == '(');
    crate::text::lemma_run_end(after, crate::text::CharClass::White, 0);
    assert(trim_start(after) =~= after);
    reveal_strlit("[");
    reveal_strlit("{");
    assert("["@[0] == '[' && "{"@[0] == '{');
    if starts_with(after, "["@) {
        assert(after.take(1)[0] == after[0]);
    }
    if starts_with(after, "{"@) {
        assert(after.take(1)[0] == after[0]);
    }
    assert(TypeView { array_dims: t.array_dims + 0, ..t } == t);
}

/// `new` with a name and brackets makes an array with as many dimensions as there are brackets
/// before the values, round the type with that name.
pub proof fn lemma_arrays(
    facts: FactsView,
    name: Seq<char>,
    brackets: Seq<char>,
    values: Seq<char>,
    t: TypeView,
)
    requires
        is_plain_name(name),
        brackets.len() > 0,
        brackets[0] == '[',
        !brackets.contains('{'),
        !brackets.contains('<'),
        !values.contains('<'),
        values.len() == 0 || values[0] == '{',
        names_created(facts, name, t),
        t.array_dims + count_from(brackets, '[', 0) <= usize::MAX,
    ensures
        creation_type(facts, name + brackets + values) == TypingView::Known(
            TypeView { array_dims: t.array_dims + count_from(brackets, '[', 0), ..t },
        ),
{
    let rest = name + brackets + values;
    assert(rest[name.len() as int] == '[');
    assert forall|k: int| 0 <= k < name.len() implies rest[k] != '(' && rest[k] != '[' && rest[k]
        != '{' by {
        assert(rest[k] == name[k]);
    }
    lemma_boundary(rest, 0, name.len() as int);
    lemma_index_from(rest, '<', 0);
    if let Some(k) = index_of(rest, '<') {
        if k < name.len() {
            assert(rest[k] == name[k]);
        }
    }
    assert(rest.take(name.len() as int) =~= name);
    lemma_trim_keeps(name);
    let after = rest.skip(name.len() as int);
    assert(after =~= brackets + values);
    assert(after[0] == '[');
    crate::text::lemma_run_end(after, crate::text::CharClass::White, 0);
    assert(trim_start(after) =~= after);
    reveal_strlit("[");
    assert("["@ =~= seq!['[']);
    assert(after.take(1) =~= seq!['[']);
    lemma_index_from(after, '{', 0);
    let brace = match index_of(after, '{') {
        Some(i) => i,
        None => after.len() as int,
    };
    if brace < brackets.len() {
        assert(brackets[brace] == '{');
    }
    if values.len() > 0 {
        assert(after[brackets.len() as int] == '{');
    }
    assert(after.take(brace) =~= brackets);
}

/// What follows the brackets of type arguments is found behind the one that closes the first.
pub proof fn lemma_closing_angle(s: Seq<char>, depth: int, i: int, k: int)
    requires
        0 <= i <= k < s.len(),
        depth >= 1,
        s[k] == '>',
        forall|q: int| i <= q < k ==> s[q] != '<' && s[q] != '>',
    ensures
        depth == 1 ==> closing_angle(s, depth, i) == Some(k),
        depth > 1 ==> closing_angle(s, depth, i) == closing_angle(s, depth - 1, k + 1),
    decreases k - i,
{
    if i < k {
        lemma_closing_angle(s, depth, i + 1, k);
    }
}

/// The type of an initializer that begins with `new ` is what it creates.
pub proof fn lemma_initializers(facts: FactsView, rest: Seq<char>, depth: nat)
    requires
        rest.len() > 0,
        !is_white(rest.last()),
    ensures
        init_type(facts, seq!['n', 'e', 'w', ' '] + rest, depth) == creation_type(facts, rest),
{
    let s = seq!['n', 'e', 'w', ' '] + rest;
    reveal_strlit("new ");
    assert("new "@ =~= seq!['n', 'e', 'w', ' ']);
    assert(s.last() == rest.last());
    lemma_trim_keeps(s);
    assert(s.take(4) =~= "new "@);
    assert(s.skip(4) =~= rest);
}

/// The letters that stand for primitive types in descriptors.
pub proof fn lemma_letters()
    ensures
        letter_type("B"@) == Some("byte"@),
        letter_type("C"@) == Some("char"@),
        letter_type("D"@) == Some("double"@),
        letter_type("F"@) == Some("float"@),
        letter_type("I"@) == Some("int"@),
        letter_type("J"@) == Some("long"@),
        letter_type("S"@) == Some("short"@),
        letter_type("Z"@) == Some("boolean"@),
        letter_type("V"@) == Some("void"@),
{
    lemma_letters_differ();
}

/// No two letters of descriptors are alike.
proof fn lemma_letters_differ()
    ensures
        "B"@.len() == 1,
        "C"@.len() == 1,
        "D"@.len() == 1,
        "F"@.len() == 1,
        "I"@.len() == 1,
        "J"@.len() == 1,
        "S"@.len() == 1,
        "Z"@.len() == 1,
        "V"@.len() == 1,
        "B"@ != "C"@,
        "B"@ != "D"@,
        "B"@ != "F"@,
        "B"@ != "I"@,
        "B"@ != "J"@,
        "B"@ != "S"@,
        "B"@ != "Z"@,
        "B"@ != "V"@,
        "C"@ != "D"@,
        "C"@ != "F"@,
        "C"@ != "I"@,
        "C"@ != "J"@,
        "C"@ != "S"@,
        "C"@ != "Z"@,
        "C"@ != "V"@,
        "D"@ != "F"@,
        "D"@ != "I"@,
        "D"@ != "J"@,
        "D"@ != "S"@,
        "D"@ != "Z"@,
        "D"@ != "V"@,
        "F"@ != "I"@,
        "F"@ != "J"@,
        "F"@ != "S"@,
        "F"@ != "Z"@,
        "F"@ != "V"@,
        "I"@ != "J"@,
        "I"@ != "S"@,
        "I"@ != "Z"@,
        "I"@ != "V"@,
        "J"@ != "S"@,
        "J"@ != "Z"@,
        "J"@ != "V"@,
        "S"@ != "Z"@,
        "S"@ != "V"@,
        "Z"@ != "V"@,
{
    reveal_strlit("B");
    reveal_strlit("C");
    reveal_strlit("D");
    reveal_strlit("F");
    reveal_strlit("I");
    reveal_strlit("J");
    reveal_strlit("S");
    reveal_strlit("Z");
    reveal_strlit("V");
    assert("B"@[0] == 'B');
    assert("C"@[0] == 'C');
    assert("D"@[0] == 'D');
    assert("F"@[0] == 'F');
    assert("I"@[0] == 'I');
    assert("J"@[0] == 'J');
    assert("S"@[0] == 'S');
    assert("Z"@[0] == 'Z');
    assert("V"@[0] == 'V');
}

} // verus!
