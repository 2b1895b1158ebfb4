//! What operators and literals give.
use vstd::prelude::*;

use crate::expression_typing::operators::{
    binary_type, choice_type, digits_from, floating_type, integer_type, operator_from, unary_type,
};
use crate::promotion::{promoted, Numeric};
use crate::source_view::SourceView;
use crate::syntax::NodeId;
use crate::text::laws::lemma_trim_keeps;
use crate::text::is_white;
use crate::type_names::TypeView;

verus! {

/// No two operators are spelled alike.
pub proof fn lemma_operators_differ()
    ensures
        "+"@.len() == 1,
        "-"@.len() == 1,
        "*"@.len() == 1,
        "/"@.len() == 1,
        "%"@.len() == 1,
        "<"@.len() == 1,
        "<="@.len() == 2,
        ">"@.len() == 1,
        ">="@.len() == 2,
        "=="@.len() == 2,
        "!="@.len() == 2,
        "&&"@.len() == 2,
        "||"@.len() == 2,
        "&"@.len() == 1,
        "|"@.len() == 1,
        "^"@.len() == 1,
        "<<"@.len() == 2,
        ">>"@.len() == 2,
        ">>>"@.len() == 3,
        "!"@.len() == 1,
        "~"@.len() == 1,
        "+"@ != "-"@,
        "+"@ != "*"@,
        "+"@ != "/"@,
        "+"@ != "%"@,
        "+"@ != "<"@,
        "+"@ != ">"@,
        "+"@ != "&"@,
        "+"@ != "|"@,
        "+"@ != "^"@,
        "+"@ != "!"@,
        "+"@ != "~"@,
        "-"@ != "*"@,
        "-"@ != "/"@,
        "-"@ != "%"@,
        "-"@ != "<"@,
        "-"@ != ">"@,
        "-"@ != "&"@,
        "-"@ != "|"@,
        "-"@ != "^"@,
        "-"@ != "!"@,
        "-"@ != "~"@,
        "*"@ != "/"@,
        "*"@ != "%"@,
        "*"@ != "<"@,
        "*"@ != ">"@,
        "*"@ != "&"@,
        "*"@ != "|"@,
        "*"@ != "^"@,
        "*"@ != "!"@,
        "*"@ != "~"@,
        "/"@ != "%"@,
        "/"@ != "<"@,
        "/"@ != ">"@,
        "/"@ != "&"@,
        "/"@ != "|"@,
        "/"@ != "^"@,
        "/"@ != "!"@,
        "/"@ != "~"@,
        "%"@ != "<"@,
        "%"@ != ">"@,
        "%"@ != "&"@,
        "%"@ != "|"@,
        "%"@ != "^"@,
        "%"@ != "!"@,
        "%"@ != "~"@,
        "<"@ != ">"@,
        "<"@ != "&"@,
        "<"@ != "|"@,
        "<"@ != "^"@,
        "<"@ != "!"@,
        "<"@ != "~"@,
        "<="@ != ">="@,
        "<="@ != "=="@,
        "<="@ != "!="@,
        "<="@ != "&&"@,
        "<="@ != "||"@,
        "<="@ != "<<"@,
        "<="@ != ">>"@,
        ">"@ != "&"@,
        ">"@ != "|"@,
        ">"@ != "^"@,
        ">"@ != "!"@,
        ">"@ != "~"@,
        ">="@ != "=="@,
        ">="@ != "!="@,
        ">="@ != "&&"@,
        ">="@ != "||"@,
        ">="@ != "<<"@,
        ">="@ != ">>"@,
        "=="@ != "!="@,
        "=="@ != "&&"@,
        "=="@ != "||"@,
        "=="@ != "<<"@,
        "=="@ != ">>"@,
        "!="@ != "&&"@,
        "!="@ != "||"@,
        "!="@ != "<<"@,
        "!="@ != ">>"@,
        "&&"@ != "||"@,
        "&&"@ != "<<"@,
        "&&"@ != ">>"@,
        "||"@ != "<<"@,
        "||"@ != ">>"@,
        "&"@ != "|"@,
        "&"@ != "^"@,
        "&"@ != "!"@,
        "&"@ != "~"@,
        "|"@ != "^"@,
        "|"@ != "!"@,
        "|"@ != "~"@,
        "^"@ != "!"@,
        "^"@ != "~"@,
        "<<"@ != ">>"@,
        "!"@ != "~"@,
{
    reveal_strlit("+");
    reveal_strlit("-");
    reveal_strlit("*");
    reveal_strlit("/");
    reveal_strlit("%");
    reveal_strlit("<");
    reveal_strlit("<=");
    reveal_strlit(">");
    reveal_strlit(">=");
    reveal_strlit("==");
    reveal_strlit("!=");
    reveal_strlit("&&");
    reveal_strlit("||");
    reveal_strlit("&");
    reveal_strlit("|");
    reveal_strlit("^");
    reveal_strlit("<<");
    reveal_strlit(">>");
    reveal_strlit(">>>");
    reveal_strlit("!");
    reveal_strlit("~");
    assert("+"@[0] == '+');
    assert("-"@[0] == '-');
    assert("*"@[0] == '*');
    assert("/"@[0] == '/');
    assert("%"@[0] == '%');
    assert("<"@[0] == '<');
    assert(">"@[0] == '>');
    assert("&"@[0] == '&');
    assert("|"@[0] == '|');
    assert("^"@[0] == '^');
    assert("!"@[0] == '!');
    assert("~"@[0] == '~');
    assert("<="@[0] == '<');
    assert(">="@[0] == '>');
    assert("=="@[0] == '=');
    assert("!="@[0] == '!');
    assert("&&"@[0] == '&');
    assert("||"@[0] == '|');
    assert("<="@[1] == '=');
    assert("<<"@[1] == '<');
    assert(">>"@[0] == '>');
    assert("<<"@[0] == '<');
    assert(">="@[1] == '=');
    assert(">>"@[1] == '>');
}

/// No two types of numbers, nor the classes that box them, are named alike.
pub proof fn lemma_type_names_differ()
    ensures
        "byte"@.len() == 4,
        "short"@.len() == 5,
        "char"@.len() == 4,
        "int"@.len() == 3,
        "long"@.len() == 4,
        "float"@.len() == 5,
        "double"@.len() == 6,
        "boolean"@.len() == 7,
        "null"@.len() == 4,
        "java/lang/Byte"@.len() == 14,
        "java/lang/Short"@.len() == 15,
        "java/lang/Character"@.len() == 19,
        "java/lang/Integer"@.len() == 17,
        "java/lang/Long"@.len() == 14,
        "java/lang/Float"@.len() == 15,
        "java/lang/Double"@.len() == 16,
        "java/lang/Boolean"@.len() == 17,
        "java/lang/String"@.len() == 16,
        "byte"@ != "char"@,
        "byte"@ != "long"@,
        "byte"@ != "null"@,
        "short"@ != "float"@,
        "char"@ != "long"@,
        "char"@ != "null"@,
        "long"@ != "null"@,
        "java/lang/Byte"@ != "java/lang/Long"@,
        "java/lang/Short"@ != "java/lang/Float"@,
        "java/lang/Integer"@ != "java/lang/Boolean"@,
        "java/lang/Double"@ != "java/lang/String"@,
{
    reveal_strlit("byte");
    reveal_strlit("short");
    reveal_strlit("char");
    reveal_strlit("int");
    reveal_strlit("long");
    reveal_strlit("float");
    reveal_strlit("double");
    reveal_strlit("boolean");
    reveal_strlit("null");
    reveal_strlit("java/lang/Byte");
    reveal_strlit("java/lang/Short");
    reveal_strlit("java/lang/Character");
    reveal_strlit("java/lang/Integer");
    reveal_strlit("java/lang/Long");
    reveal_strlit("java/lang/Float");
    reveal_strlit("java/lang/Double");
    reveal_strlit("java/lang/Boolean");
    reveal_strlit("java/lang/String");
    assert("byte"@[0] == 'b');
    assert("char"@[0] == 'c');
    assert("long"@[0] == 'l');
    assert("null"@[0] == 'n');
    assert("short"@[0] == 's');
    assert("float"@[0] == 'f');
    assert("java/lang/Byte"@[10] == 'B');
    assert("java/lang/Long"@[10] == 'L');
    assert("java/lang/Short"@[10] == 'S');
    assert("java/lang/Float"@[10] == 'F');
    assert("java/lang/Integer"@[10] == 'I');
    assert("java/lang/Boolean"@[10] == 'B');
    assert("java/lang/Double"@[10] == 'D');
    assert("java/lang/String"@[10] == 'S');
}

// ---- promotion ---------------------------------------------------------------------------------

/// A type that holds whole numbers of no more than 32 bits.
pub open spec fn is_narrow(name: Seq<char>) -> bool {
    name == "byte"@ || name == "short"@ || name == "char"@ || name == "int"@
}

/// The class that boxes a primitive type.
pub open spec fn boxes(class: Seq<char>, primitive: Seq<char>) -> bool {
    ||| class == "java/lang/Byte"@ && primitive == "byte"@
    ||| class == "java/lang/Short"@ && primitive == "short"@
    ||| class == "java/lang/Character"@ && primitive == "char"@
    ||| class == "java/lang/Integer"@ && primitive == "int"@
    ||| class == "java/lang/Long"@ && primitive == "long"@
    ||| class == "java/lang/Float"@ && primitive == "float"@
    ||| class == "java/lang/Double"@ && primitive == "double"@
    ||| class == "java/lang/Boolean"@ && primitive == "boolean"@
}

/// Narrow types are promoted to `int`, the types of arithmetic to themselves.
pub proof fn lemma_promotes(name: Seq<char>, n: Numeric)
    ensures
        is_narrow(name) ==> promoted(name) == Some(Numeric::Int),
        promoted(n.spelled()) == Some(n),
        promoted("boolean"@) is None,
        promoted("null"@) is None,
        promoted("java/lang/String"@) is None,
{
    lemma_type_names_differ();
}

/// A class that boxes a primitive type is promoted like that type.
pub proof fn lemma_boxes_promote(class: Seq<char>, primitive: Seq<char>)
    requires
        boxes(class, primitive),
    ensures
        promoted(class) == promoted(primitive),
{
    lemma_type_names_differ();
}

/// What is promoted is a primitive number or boxes one.
pub proof fn lemma_only_numbers_promote(name: Seq<char>)
    requires
        promoted(name) is Some,
    ensures
        ({
            ||| is_narrow(name)
            ||| name == "long"@ || name == "float"@ || name == "double"@
            ||| exists|p: Seq<char>| boxes(name, p)
        }),
{
    lemma_type_names_differ();
    if !(is_narrow(name) || name == "long"@ || name == "float"@ || name == "double"@) {
        let p = if name == "java/lang/Byte"@ {
            "byte"@
        } else if name == "java/lang/Short"@ {
            "short"@
        } else if name == "java/lang/Character"@ {
            "char"@
        } else if name == "java/lang/Integer"@ {
            "int"@
        } else if name == "java/lang/Long"@ {
            "long"@
        } else if name == "java/lang/Float"@ {
            "float"@
        } else {
            "double"@
        };
        assert(boxes(name, p));
    }
}

/// One of two types of arithmetic that is no narrower than either.
pub open spec fn is_wider(w: Numeric, p: Numeric, q: Numeric) -> bool {
    (w == p || w == q) && w.rank() >= p.rank() && w.rank() >= q.rank()
}

/// The order of the types of arithmetic: `int`, `long`, `float`, `double`.
pub proof fn lemma_ranks()
    ensures
        Numeric::Int.rank() < Numeric::Long.rank(),
        Numeric::Long.rank() < Numeric::Float.rank(),
        Numeric::Float.rank() < Numeric::Double.rank(),
{
}

// ---- operators with two operands ---------------------------------------------------------------

pub open spec fn is_arithmetic(op: Seq<char>) -> bool {
    op == "+"@ || op == "-"@ || op == "*"@ || op == "/"@ || op == "%"@
}

pub open spec fn is_comparison(op: Seq<char>) -> bool {
    op == "<"@ || op == "<="@ || op == ">"@ || op == ">="@
}

pub open spec fn is_equality(op: Seq<char>) -> bool {
    op == "=="@ || op == "!="@
}

pub open spec fn is_logical(op: Seq<char>) -> bool {
    op == "&&"@ || op == "||"@
}

pub open spec fn is_bitwise(op: Seq<char>) -> bool {
    op == "&"@ || op == "|"@ || op == "^"@
}

pub open spec fn is_shift(op: Seq<char>) -> bool {
    op == "<<"@ || op == ">>"@ || op == ">>>"@
}

/// The plain type with a name, if it is the name of an arithmetic type.
pub open spec fn is_number(t: Option<TypeView>, n: Numeric) -> bool {
    t == Some(TypeView { base: n.spelled(), args: Seq::empty(), array_dims: 0 })
}

pub open spec fn is_truth(t: Option<TypeView>) -> bool {
    t == Some(TypeView { base: "boolean"@, args: Seq::empty(), array_dims: 0 })
}

/// Arithmetic on two numbers gives the wider of the types that they are promoted to, for every
/// operator alike.
pub proof fn lemma_arithmetic(op: Seq<char>, l: TypeView, r: TypeView, p: Numeric, q: Numeric)
    requires
        is_arithmetic(op),
        promoted(l.base) == Some(p),
        promoted(r.base) == Some(q),
    ensures
        exists|w: Numeric| #[trigger] is_wider(w, p, q) && is_number(binary_type(op, l, r), w),
        !is_truth(binary_type(op, l, r)),
        forall|other: Seq<char>|
            is_arithmetic(other) ==> #[trigger] binary_type(other, l, r) == binary_type(op, l, r),
{
    lemma_operators_differ();
    lemma_type_names_differ();
    assert(is_wider(p.wider(q), p, q));
}

/// Text is joined where one of the operands of `+` is text; else, arithmetic on what is no number
/// has no type.
pub proof fn lemma_joining(op: Seq<char>, l: TypeView, r: TypeView)
    requires
        is_arithmetic(op),
    ensures
        op == "+"@ && (l.base == "java/lang/String"@ || r.base == "java/lang/String"@)
            ==> binary_type(op, l, r) == Some(
            TypeView { base: "java/lang/String"@, args: Seq::empty(), array_dims: 0 },
        ),
        op != "+"@ || !(l.base == "java/lang/String"@ || r.base == "java/lang/String"@) ==> (
        promoted(l.base) is None || promoted(r.base) is None ==> binary_type(op, l, r) is None),
{
    lemma_operators_differ();
}

/// Comparing gives a truth value, and only numbers are compared.
pub proof fn lemma_comparison(op: Seq<char>, l: TypeView, r: TypeView)
    requires
        is_comparison(op),
    ensures
        promoted(l.base) is Some && promoted(r.base) is Some ==> is_truth(binary_type(op, l, r)),
        promoted(l.base) is None || promoted(r.base) is None ==> binary_type(op, l, r) is None,
{
    lemma_operators_differ();
}

/// Equality gives a truth value: of two numbers, of two truth values, of two objects, of an object
/// and nothing; and of nothing else.
pub proof fn lemma_equality(op: Seq<char>, l: TypeView, r: TypeView)
    requires
        is_equality(op),
    ensures
        is_truth(binary_type(op, l, r)) <==> {
            ||| !l.is_primitive() && !r.is_primitive()
            ||| l.base == "null"@ && !l.is_primitive()
            ||| r.base == "null"@ && !r.is_primitive()
            ||| l.base == "boolean"@ && r.base == "boolean"@
            ||| promoted(l.base) is Some && promoted(r.base) is Some
        },
        is_truth(binary_type(op, l, r)) || binary_type(op, l, r) is None,
{
    lemma_operators_differ();
    lemma_type_names_differ();
}

/// `&&` and `||` take truth values and give one.
pub proof fn lemma_logic(op: Seq<char>, l: TypeView, r: TypeView)
    requires
        is_logical(op),
    ensures
        l.base == "boolean"@ && r.base == "boolean"@ ==> is_truth(binary_type(op, l, r)),
        l.base != "boolean"@ || r.base != "boolean"@ ==> binary_type(op, l, r) is None,
{
    lemma_operators_differ();
}

/// `&`, `|` and `^` take truth values and give one, or whole numbers and give the wider type; and
/// they take nothing else.
pub proof fn lemma_bits(op: Seq<char>, l: TypeView, r: TypeView)
    requires
        is_bitwise(op),
    ensures
        l.base == "boolean"@ && r.base == "boolean"@ ==> is_truth(binary_type(op, l, r)),
        match (promoted(l.base), promoted(r.base)) {
            (Some(p), Some(q)) => if (p == Numeric::Int || p == Numeric::Long) && (q == Numeric::Int
                || q == Numeric::Long) {
                is_number(
                    binary_type(op, l, r),
                    if p == Numeric::Long || q == Numeric::Long {
                        Numeric::Long
                    } else {
                        Numeric::Int
                    },
                )
            } else {
                binary_type(op, l, r) is None
            },
            _ => l.base == "boolean"@ && r.base == "boolean"@ || binary_type(op, l, r) is None,
        },
{
    lemma_operators_differ();
    lemma_type_names_differ();
}

/// A shift of whole numbers has the type that its left side is promoted to, whatever the right side
/// is; nothing else is shifted.
pub proof fn lemma_shift(op: Seq<char>, l: TypeView, r: TypeView)
    requires
        is_shift(op),
    ensures
        match (promoted(l.base), promoted(r.base)) {
            (Some(p), Some(q)) => if (p == Numeric::Int || p == Numeric::Long) && (q == Numeric::Int
                || q == Numeric::Long) {
                is_number(binary_type(op, l, r), p)
            } else {
                binary_type(op, l, r) is None
            },
            _ => binary_type(op, l, r) is None,
        },
{
    lemma_operators_differ();
}

/// Except in shifts, the order of the operands does not matter to the type.
pub proof fn lemma_operands_swap(op: Seq<char>, l: TypeView, r: TypeView)
    requires
        !is_shift(op),
    ensures
        binary_type(op, l, r) == binary_type(op, r, l),
{
}

/// There are no other operators with two operands.
pub proof fn lemma_no_other_operator(op: Seq<char>, l: TypeView, r: TypeView)
    requires
        binary_type(op, l, r) is Some,
    ensures
        is_arithmetic(op) || is_comparison(op) || is_equality(op) || is_logical(op) || is_bitwise(
            op,
        ) || is_shift(op),
{
}

// ---- operators with one operand ----------------------------------------------------------------

/// A sign keeps a promoted number, `!` a truth value, `~` a promoted whole number; nothing else has
/// an operator with one operand.
pub proof fn lemma_unary(op: Seq<char>, t: TypeView)
    ensures
        op == "+"@ || op == "-"@ ==> match promoted(t.base) {
            Some(p) => is_number(unary_type(op, t), p),
            None => unary_type(op, t) is None,
        },
        op == "!"@ ==> if t.base == "boolean"@ {
            is_truth(unary_type(op, t))
        } else {
            unary_type(op, t) is None
        },
        op == "~"@ ==> match promoted(t.base) {
            Some(p) => if p == Numeric::Int || p == Numeric::Long {
                is_number(unary_type(op, t), p)
            } else {
                unary_type(op, t) is None
            },
            None => unary_type(op, t) is None,
        },
        unary_type(op, t) is Some ==> op == "+"@ || op == "-"@ || op == "!"@ || op == "~"@,
{
    lemma_operators_differ();
}

/// The operator of an expression with two operands: the field that holds it or, without one, the
/// first child that is an operator.
pub proof fn lemma_operator_found(src: SourceView, ids: Seq<NodeId>, binary: bool, i: int, k: int)
    requires
        0 <= i <= k < ids.len(),
        binary ==> (is_arithmetic(src.kind(ids[k])) || is_comparison(src.kind(ids[k]))
            || is_equality(src.kind(ids[k])) || is_logical(src.kind(ids[k])) || is_bitwise(
            src.kind(ids[k]),
        ) || is_shift(src.kind(ids[k]))),
        !binary ==> (src.kind(ids[k]) == "+"@ || src.kind(ids[k]) == "-"@ || src.kind(ids[k])
            == "!"@ || src.kind(ids[k]) == "~"@),
        forall|q: int|
            i <= q < k ==> !(is_arithmetic(src.kind(#[trigger] ids[q])) || is_comparison(
                src.kind(ids[q]),
            ) || is_equality(src.kind(ids[q])) || is_logical(src.kind(ids[q])) || is_bitwise(
                src.kind(ids[q]),
            ) || is_shift(src.kind(ids[q])) || src.kind(ids[q]) == "!"@ || src.kind(ids[q])
                == "~"@),
    ensures
        operator_from(src, ids, binary, i) == Some(src.kind(ids[k])),
    decreases k - i,
{
    if i < k {
        lemma_operator_found(src, ids, binary, i + 1, k);
    }
}

// ---- choices -----------------------------------------------------------------------------------

/// A choice between two values of one type is of that type, one between an object and nothing is of
/// the type of the object, one between two numbers is of the wider type, and one between two other
/// objects is of the type of the first; there is no choice between an object and a truth value.
pub proof fn lemma_choice(l: TypeView, r: TypeView, p: Numeric, q: Numeric)
    ensures
        l == r ==> choice_type(l, r) == Some(l),
        l.base == "null"@ && r.base != "null"@ && !r.is_primitive() ==> choice_type(l, r) == Some(r),
        r.base == "null"@ && l.base != "null"@ && !l.is_primitive() ==> choice_type(l, r) == Some(l),
        promoted(l.base) == Some(p) && promoted(r.base) == Some(q) && !(l.base == r.base
            && l.array_dims == r.array_dims) ==> exists|w: Numeric| #[trigger]
            is_wider(w, p, q) && is_number(choice_type(l, r), w),
        !l.is_primitive() && !r.is_primitive() && l.base != "null"@ && (promoted(l.base) is None
            || promoted(r.base) is None) && !(r.base == "null"@) ==> choice_type(l, r) == Some(l),
        l.base == "boolean"@ && l.array_dims == 0 && r.base != "boolean"@ ==> choice_type(l, r)
            is None,
{
    lemma_type_names_differ();
    assert(is_wider(p.wider(q), p, q));
}

// ---- literals ----------------------------------------------------------------------------------

/// A text without underscores is read as it stands.
pub proof fn lemma_digits_keep(s: Seq<char>, i: int)
    requires
        0 <= i <= s.len(),
        !s.contains('_'),
    ensures
        digits_from(s, i) == s.skip(i),
    decreases s.len() - i,
{
    if i < s.len() {
        lemma_digits_keep(s, i + 1);
        assert(s.contains(s[i]));
        assert(seq![s[i]] + s.skip(i + 1) =~= s.skip(i));
    } else {
        assert(s.skip(i) =~= Seq::<char>::empty());
    }
}

/// Underscores between digits do not matter, wherever they stand.
pub proof fn lemma_underscores_do_not_matter(a: Seq<char>, b: Seq<char>, i: int)
    requires
        0 <= i <= a.len(),
    ensures
        digits_from(a + seq!['_'] + b, i) == digits_from(a + b, i),
    decreases a.len() - i,
{
    let s = a + seq!['_'] + b;
    let t = a + b;
    if i < a.len() {
        assert(s[i] == t[i]);
        lemma_underscores_do_not_matter(a, b, i + 1);
    } else {
        assert(s[i] == '_');
        assert(s.skip(i + 1) =~= t.skip(i));
        lemma_same_rest(s, i + 1, t, i);
    }
}

proof fn lemma_same_rest(s: Seq<char>, i: int, t: Seq<char>, j: int)
    requires
        0 <= i <= s.len(),
        0 <= j <= t.len(),
        s.skip(i) == t.skip(j),
    ensures
        digits_from(s, i) == digits_from(t, j),
    decreases s.len() - i,
{
    assert(s.skip(i).len() == s.len() - i);
    assert(t.skip(j).len() == t.len() - j);
    if i < s.len() {
        assert(s.skip(i)[0] == s[i]);
        assert(t.skip(j)[0] == t[j]);
        assert(s.skip(i + 1) =~= s.skip(i).skip(1));
        assert(t.skip(j + 1) =~= t.skip(j).skip(1));
        lemma_same_rest(s, i + 1, t, j + 1);
    }
}

/// A number that ends in `l` is a `long`, any other an `int`; one with a point or an exponent that
/// ends in `f` is a `float`, any other a `double`.
pub proof fn lemma_literals(s: Seq<char>)
    requires
        s.len() > 1,
        !s.contains('_'),
        !is_white(s[0]),
        !is_white(s.last()),
    ensures
        integer_type(s) == Some(
            TypeView {
                base: if s.last() == 'l' || s.last() == 'L' {
                    "long"@
                } else {
                    "int"@
                },
                args: Seq::empty(),
                array_dims: 0,
            },
        ),
        floating_type(s) == Some(
            TypeView {
                base: if s.last() == 'f' || s.last() == 'F' {
                    "float"@
                } else {
                    "double"@
                },
                args: Seq::empty(),
                array_dims: 0,
            },
        ),
{
    lemma_trim_keeps(s);
    lemma_digits_keep(s, 0);
    assert(s.skip(0) =~= s);
}

/// A single digit is an `int`.
pub proof fn lemma_digit(c: char)
    requires
        c != '_',
        !is_white(c),
    ensures
        integer_type(seq![c]) == Some(
            TypeView { base: "int"@, args: Seq::empty(), array_dims: 0 },
        ),
{
    let s = seq![c];
    lemma_trim_keeps(s);
    lemma_digits_keep(s, 0);
    assert(s.skip(0) =~= s);
}

} // verus!
