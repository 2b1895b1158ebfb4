//! The ways in which a type is looked for, one after the other.
use vstd::prelude::*;

use crate::expression_typing::operators::{is_binary_operator, is_unary_operator, operator_from, operator_of};
use crate::expression_typing::{
    bare_from, boundary_from, chain_type, closing_angle, creation_type, element_type,
    expression_node, first_of_kind_from, matching_angle, no_target, node_type, receiver_type,
    source_type, step_name, step_type, type_end, typed, wrapped, ExpectedView, TypingView,
};
use crate::parse::byte_len;
use crate::source_view::{parsed_view, SourceView};
use crate::syntax::NodeId;
use crate::text::laws::lemma_index_from;
use crate::text::{index_of, trim};
use crate::type_facts::{FactsView, SegmentView};
use crate::type_names::{is_primitive_name, TypeView};

use super::lemma_expression_kinds_differ;

verus! {

/// Nothing has no type, and what is nested too deeply is not looked at.
pub proof fn lemma_nothing_to_type(
    facts: FactsView,
    expr: Seq<char>,
    target: ExpectedView,
    depth: nat,
)
    ensures
        depth == 0 ==> typed(facts, expr, target, depth) is TooDeep,
        depth > 0 && trim(expr).len() == 0 ==> typed(facts, expr, target, depth) is Unknown,
{
}

/// Where the syntax tells nothing, an expression that ends in brackets is an element of an array,
/// and any other a chain of accesses or a name.
pub proof fn lemma_without_syntax(
    facts: FactsView,
    expr: Seq<char>,
    target: ExpectedView,
    depth: nat,
)
    requires
        depth > 0,
        trim(expr).len() > 0,
        expression_node(parsed_view(wrapped(trim(expr)))) is None,
    ensures
        ({
            let e = trim(expr);
            let in_brackets = e.contains('[') && crate::text::trim_end(e).last() == ']'
                && crate::text::trim_end(e).len() > 0;
            &&& in_brackets ==> typed(facts, expr, target, depth) == element_type(facts, e, depth)
            &&& !in_brackets && facts.chains.contains_key(e) && facts.chains[e].len() > 0 ==> typed(
                facts,
                expr,
                target,
                depth,
            ) == chain_type(facts, facts.chains[e], 0, None, depth)
            &&& !in_brackets && !facts.chains.contains_key(e) && facts.names.contains_key(e)
                ==> typed(facts, expr, target, depth) == TypingView::Known(facts.names[e])
            &&& !in_brackets && !facts.chains.contains_key(e) && !facts.names.contains_key(e)
                ==> typed(facts, expr, target, depth) is Unknown
        }),
{
    let e = trim(expr);
    let s = crate::text::trim_end(e);
    reveal_strlit("]");
    assert("]"@ =~= seq![']']);
    if s.len() > 0 {
        assert(s.skip(s.len() - 1)[0] == s.last());
        if s.last() == ']' {
            assert(s.skip(s.len() - 1) =~= "]"@);
        }
    }
}

/// Where nothing is expected, neither an interface nor a number of parameters is.
pub proof fn lemma_nothing_expected()
    ensures
        no_target().interface is None,
        no_target().arity is None,
{
}

/// An expression is parsed as what a method of a class returns.
pub proof fn lemma_wrapped(expr: Seq<char>)
    ensures
        wrapped(expr) == "class __ExprTyping { Object __e() { return "@ + expr + "; } }"@,
{
}

/// The expression is the value of the first `return` of the text.
pub proof fn lemma_expression_nodes(src: SourceView, r: int, value: NodeId)
    requires
        0 <= r < src.nodes.len(),
        src.nodes.len() <= usize::MAX,
        src.nodes[r].kind == "return_statement"@,
        forall|q: int| 0 <= q < r ==> (#[trigger] src.nodes[q]).kind != "return_statement"@,
    ensures
        src.field(r as usize, "value"@) == Some(value) ==> expression_node(src) == Some(value),
        src.field(r as usize, "value"@) is None && src.named_kids(r as usize).len() > 0
            && src.named_kids(r as usize)[0] == value ==> expression_node(src) == Some(value),
        src.field(r as usize, "value"@) is None && src.named_kids(r as usize).len() == 0
            ==> expression_node(src) is None,
{
    lemma_first_of_kind(src, "return_statement"@, 0, r);
}

proof fn lemma_first_of_kind(src: SourceView, kind: Seq<char>, i: int, r: int)
    requires
        0 <= i <= r < src.nodes.len(),
        src.nodes[r].kind == kind,
        forall|q: int| 0 <= q < r ==> (#[trigger] src.nodes[q]).kind != kind,
    ensures
        first_of_kind_from(src, kind, i) == Some(r as usize),
    decreases r - i,
{
    if i < r {
        lemma_first_of_kind(src, kind, i + 1, r);
    }
}

/// A node of a kind that is no expression with a type of its own has none.
pub proof fn lemma_other_nodes(
    facts: FactsView,
    src: SourceView,
    n: NodeId,
    target: ExpectedView,
    depth: nat,
)
    requires
        src.kind(n).len() > 31,
    ensures
        node_type(facts, src, n, target, depth) is Unknown,
{
    lemma_expression_kinds_differ();
}

/// What is nested too deeply in brackets is not looked at, and what stands before them has to be
/// something.
pub proof fn lemma_elements_too_deep(facts: FactsView, expr: Seq<char>, depth: nat)
    requires
        expr.contains('['),
    ensures
        depth == 0 ==> element_type(facts, expr, depth) is TooDeep,
        depth > 0 && expr[0] == '[' && (forall|k: int| 0 < k < expr.len() ==> expr[k] != '[')
            ==> element_type(facts, expr, depth) is Unknown,
{
    crate::text::laws::lemma_last_index_before(expr, '[', expr.len() as int);
    crate::text::laws::lemma_trim(Seq::empty());
    if expr[0] == '[' && (forall|k: int| 0 < k < expr.len() ==> expr[k] != '[') {
        assert(expr.take(0) =~= Seq::<char>::empty());
    }
}

// ---- operators ---------------------------------------------------------------------------------

/// Without a field for it, the operator is the first child whose kind is one.
pub proof fn lemma_operators_among_children(src: SourceView, n: NodeId, binary: bool, k: int)
    requires
        src.field(n, "operator"@) is None,
        0 <= k < src.nodes[n as int].kids.len(),
        forall|q: int|
            0 <= q < k ==> ({
                let kind = src.kind(#[trigger] src.nodes[n as int].kids[q]);
                !is_binary_operator(kind) && !is_unary_operator(kind)
            }),
    ensures
        ({
            let kind = src.kind(src.nodes[n as int].kids[k]);
            &&& binary && (kind == "+"@ || kind == "-"@ || kind == "*"@ || kind == "/"@ || kind
                == "%"@ || kind == "<"@ || kind == "<="@ || kind == ">"@ || kind == ">="@ || kind
                == "=="@ || kind == "!="@ || kind == "&&"@ || kind == "||"@ || kind == "&"@ || kind
                == "|"@ || kind == "^"@ || kind == "<<"@ || kind == ">>"@ || kind == ">>>"@)
                ==> operator_of(src, n, binary) == Some(kind)
            &&& !binary && (kind == "+"@ || kind == "-"@ || kind == "!"@ || kind == "~"@)
                ==> operator_of(src, n, binary) == Some(kind)
        }),
{
    lemma_operator_from(src, src.nodes[n as int].kids, binary, 0, k);
}

proof fn lemma_operator_from(src: SourceView, ids: Seq<NodeId>, binary: bool, i: int, k: int)
    requires
        0 <= i <= k < ids.len(),
        forall|q: int|
            0 <= q < k ==> ({
                let kind = src.kind(#[trigger] ids[q]);
                !is_binary_operator(kind) && !is_unary_operator(kind)
            }),
    ensures
        operator_from(src, ids, binary, i) == operator_from(src, ids, binary, k),
    decreases k - i,
{
    if i < k {
        lemma_operator_from(src, ids, binary, i + 1, k);
    }
}

// ---- casts -------------------------------------------------------------------------------------

/// A cast without a field for its type is to the first part that is not in parentheses.
pub proof fn lemma_casts_without_field(src: SourceView, ids: Seq<NodeId>, i: int, k: int)
    requires
        0 <= i <= k < ids.len(),
        src.kind(ids[k]) != "parenthesized_expression"@,
        forall|q: int|
            0 <= q < k ==> src.kind(#[trigger] ids[q]) == "parenthesized_expression"@,
    ensures
        bare_from(src, ids, i) == Some(ids[k]),
    decreases k - i,
{
    if i < k {
        lemma_casts_without_field(src, ids, i + 1, k);
    }
}

/// A type's name stands for itself where it is primitive or `void`; else what it resolves to among
/// the types that are seen in the text comes before the others.
pub proof fn lemma_named_types(facts: FactsView, name: Seq<char>)
    requires
        name.len() > 0,
        trim(name) == name,
    ensures
        is_primitive_name(name) || name == "void"@ ==> source_type(facts, name) == Some(
            TypeView { base: name, args: Seq::empty(), array_dims: 0 },
        ),
        !is_primitive_name(name) && name != "void"@ ==> source_type(facts, name)
            == if facts.relaxed_types.contains_key(name) {
            Some(facts.relaxed_types[name])
        } else if facts.types.contains_key(name) {
            Some(facts.types[name])
        } else if facts.qualified_types.contains_key(name) {
            Some(facts.qualified_types[name])
        } else {
            None
        },
{
}

/// The primitive types are these eight.
pub proof fn lemma_primitive_names(s: Seq<char>)
    ensures
        is_primitive_name(s) <==> s == "byte"@ || s == "short"@ || s == "int"@ || s == "long"@ || s
            == "float"@ || s == "double"@ || s == "boolean"@ || s == "char"@,
{
}

// ---- receivers ---------------------------------------------------------------------------------

/// A receiver with a path is what it is; one with a simple name is what the name resolves to, with
/// its own arguments, if it has any, and its own arrays.
pub proof fn lemma_receivers(facts: FactsView, recv: TypeView)
    ensures
        recv.base.contains('/') ==> receiver_type(facts, recv) == Some(recv),
        !recv.base.contains('/') && !facts.types.contains_key(recv.base) ==> receiver_type(
            facts,
            recv,
        ) is None,
        !recv.base.contains('/') && facts.types.contains_key(recv.base) ==> (receiver_type(
            facts,
            recv,
        ) matches Some(t) && t.base == facts.types[recv.base].base && t.array_dims
            == recv.array_dims && (recv.args.len() > 0 ==> t.args == recv.args) && (recv.args.len()
            == 0 ==> t.args == facts.types[recv.base].args)),
{
}

/// A step that is only brackets has the type of what stands before it.
pub proof fn lemma_steps_of_brackets(
    facts: FactsView,
    step: SegmentView,
    recv: TypeView,
    depth: nat,
)
    requires
        step.name.len() == 0 || step.name[0] == '[',
    ensures
        step_type(facts, step, Some(recv), depth) == TypingView::Known(recv),
{
    lemma_index_from(step.name, '[', 0);
    assert(step_name(step.name).len() == 0);
}

/// The name of a step is what stands before its first bracket.
pub proof fn lemma_step_names(name: Seq<char>, rest: Seq<char>)
    requires
        !name.contains('['),
    ensures
        step_name(name) == name,
        step_name(name + seq!['['] + rest) == name,
{
    let s = name + seq!['['] + rest;
    lemma_index_from(s, '[', 0);
    lemma_index_from(name, '[', 0);
    assert(s[name.len() as int] == '[');
    assert forall|k: int| 0 <= k < name.len() implies s[k] != '[' by {
        assert(s[k] == name[k]);
        assert(name.contains(name[k]));
    }
    assert(s.take(name.len() as int) =~= name);
}

/// A type with arrays around it has elements, down to what is inside all of them.
pub proof fn lemma_elements_of_types(t: TypeView, dims: nat)
    ensures
        t.array_dims == 0 ==> t.element() is None,
        t.array_dims > 0 ==> t.element() == Some(
            TypeView { base: t.base, args: t.args, array_dims: (t.array_dims - 1) as nat },
        ),
        dims <= t.array_dims ==> t.element_at(dims) == Some(
            TypeView { base: t.base, args: t.args, array_dims: (t.array_dims - dims) as nat },
        ),
        dims > t.array_dims ==> t.element_at(dims) is None,
{
}

// ---- created types with arguments --------------------------------------------------------------

proof fn lemma_ascii_bytes(s: Seq<char>, k: int)
    requires
        0 <= k <= s.len(),
        forall|q: int| 0 <= q < k ==> (#[trigger] s[q] as u32) < 128,
    ensures
        byte_len(s, k) == k,
    decreases k,
{
    if k > 0 {
        lemma_ascii_bytes(s, k - 1);
        assert((s[k - 1] as u32) < 128);
    }
}

proof fn lemma_angle_closed(s: Seq<char>, i: int, k: int)
    requires
        0 <= i <= k < s.len(),
        s[k] == '>',
        forall|q: int| i <= q < k ==> #[trigger] s[q] != '<' && s[q] != '>',
    ensures
        closing_angle(s, 1, i) == Some(k),
    decreases k - i,
{
    if i < k {
        lemma_angle_closed(s, i + 1, k);
    }
}

proof fn lemma_boundary_behind(s: Seq<char>, i: int, k: int)
    requires
        0 <= i <= k <= s.len(),
        forall|q: int|
            i <= q < k ==> #[trigger] s[q] != '(' && s[q] != '[' && s[q] != '{',
    ensures
        boundary_from(s, i) >= k,
    decreases k - i,
{
    if i < k {
        lemma_boundary_behind(s, i + 1, k);
    } else {
        lemma_boundary_grows(s, i);
    }
}

proof fn lemma_boundary_grows(s: Seq<char>, i: int)
    requires
        0 <= i <= s.len(),
    ensures
        boundary_from(s, i) >= i,
    decreases s.len() - i,
{
    if i < s.len() {
        lemma_boundary_grows(s, i + 1);
    }
}

/// The type arguments of a created type belong to its name, which ends behind them.
pub proof fn lemma_created_with_arguments(
    facts: FactsView,
    name: Seq<char>,
    args: Seq<char>,
    rest: Seq<char>,
)
    requires
        forall|k: int|
            0 <= k < name.len() ==> (#[trigger] name[k] as u32) < 128 && name[k] != '<' && name[k]
                != '(' && name[k] != '[' && name[k] != '{',
        forall|k: int| 0 <= k < args.len() ==> #[trigger] args[k] != '<' && args[k] != '>',
    ensures
        type_end(name + seq!['<'] + args + seq!['>'] + rest) == Some(
            (name.len() + args.len() + 2) as int,
        ),
{
    let s = name + seq!['<'] + args + seq!['>'] + rest;
    let n = name.len() as int;
    let close = n + 1 + args.len();
    assert(s[n] == '<');
    assert forall|k: int| 0 <= k < n implies (#[trigger] s[k] as u32) < 128 && s[k] != '<' && s[k]
        != '(' && s[k] != '[' && s[k] != '{' by {
        assert(s[k] == name[k]);
    }
    assert forall|k: int| n < k < close implies #[trigger] s[k] != '<' && s[k] != '>' by {
        assert(s[k] == args[k - n - 1]);
    }
    assert(s[close] == '>');
    lemma_index_from(s, '<', 0);
    assert(index_of(s, '<') == Some(n));
    lemma_boundary_behind(s, 0, n + 1);
    lemma_ascii_bytes(s, n);
    lemma_angle_closed(s, n + 1, close);
    assert(matching_angle(s, n) == closing_angle(s, 0, n));
    assert(closing_angle(s, 0, n) == closing_angle(s, 1, n + 1));
}

/// Without type arguments before it, the name ends at the first bracket.
pub proof fn lemma_created_without_arguments(s: Seq<char>)
    requires
        !s.contains('<'),
    ensures
        type_end(s) == Some(boundary_from(s, 0)),
{
    lemma_index_from(s, '<', 0);
    if let Some(i) = index_of(s, '<') {
        assert(s[i] == '<');
    }
}

/// Where the type arguments are not closed, the type is not known.
pub proof fn lemma_created_unclosed(facts: FactsView, name: Seq<char>, rest: Seq<char>)
    requires
        forall|k: int|
            0 <= k < name.len() ==> (#[trigger] name[k] as u32) < 128 && name[k] != '<' && name[k]
                != '(' && name[k] != '[' && name[k] != '{',
        !rest.contains('>'),
    ensures
        creation_type(facts, name + seq!['<'] + rest) is Unknown,
{
    let s = name + seq!['<'] + rest;
    let n = name.len() as int;
    assert(s[n] == '<');
    assert forall|k: int| 0 <= k < n implies (#[trigger] s[k] as u32) < 128 && s[k] != '<' && s[k]
        != '(' && s[k] != '[' && s[k] != '{' by {
        assert(s[k] == name[k]);
    }
    assert forall|k: int| n <= k < s.len() implies #[trigger] s[k] != '>' by {
        if k > n {
            assert(s[k] == rest[k - n - 1]);
            assert(rest.contains(rest[k - n - 1]));
        }
    }
    lemma_index_from(s, '<', 0);
    assert(index_of(s, '<') == Some(n));
    lemma_boundary_behind(s, 0, n + 1);
    lemma_ascii_bytes(s, n);
    lemma_never_closed(s, 0, n);
}

proof fn lemma_never_closed(s: Seq<char>, depth: int, i: int)
    requires
        0 <= i,
        forall|k: int| i <= k < s.len() ==> #[trigger] s[k] != '>',
    ensures
        closing_angle(s, depth, i) is None,
    decreases s.len() - i,
{
    if i < s.len() {
        if s[i] == '<' {
            lemma_never_closed(s, depth + 1, i + 1);
        } else {
            lemma_never_closed(s, depth, i + 1);
        }
    }
}

} // verus!
