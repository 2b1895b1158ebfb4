//! Which accesses the language defines.
use vstd::prelude::*;

use crate::intrinsics::access::{
    first_piece, intrinsic_access, names_type, without_brackets, JavaAccessReceiverKind,
    JavaIntrinsicAccess, JavaIntrinsicAccessKind,
};
use crate::semantic::LocationView;
use crate::text::laws::lemma_trim_keeps;
use crate::text::{all_of, ends_with, is_white, split, starts_with, CharClass};
use crate::type_facts::{FactsView, LocalView};
use crate::type_names::{is_primitive_name, TypeView};

verus! {

/// A beginning of the word `class`.
pub open spec fn begins_class(prefix: Seq<char>) -> bool {
    prefix.len() <= 5 && prefix == seq!['c', 'l', 'a', 's', 's'].take(prefix.len() as int)
}

proof fn lemma_class_prefix(prefix: Seq<char>)
    ensures
        starts_with("class"@, prefix) == begins_class(prefix),
{
    reveal_strlit("class");
    assert("class"@ =~= seq!['c', 'l', 'a', 's', 's']);
}

/// The access to the class that a type is.
pub open spec fn is_class_literal(a: Option<JavaIntrinsicAccess>) -> bool {
    a matches Some(a) && a.kind == JavaIntrinsicAccessKind::ClassLiteral && a.receiver_kind
        == JavaAccessReceiverKind::Type
}

/// Brackets behind a type are those of arrays and come off, one pair after the other.
pub proof fn lemma_brackets_come_off(s: Seq<char>)
    requires
        s.len() > 0,
        !is_white(s[0]),
        !is_white(s.last()),
    ensures
        without_brackets(s + seq!['[', ']']) == without_brackets(s),
        s.last() != ']' ==> without_brackets(s) == s,
{
    reveal_strlit("[]");
    assert("[]"@ =~= seq!['[', ']']);
    let t = s + seq!['[', ']'];
    assert(t.skip(t.len() - 2) =~= "[]"@);
    assert(t.take(t.len() - 2) =~= s);
    lemma_trim_keeps(s);
    if s.last() != ']' && ends_with(s, "[]"@) {
        assert(s.skip(s.len() - 2)[1] == s.last());
    }
}

/// A primitive type and `void` are types, with or without brackets behind them.
pub proof fn lemma_primitives_are_types(
    s: Seq<char>,
    locals: Seq<LocalView>,
    facts: FactsView,
)
    requires
        s.len() > 0,
        !is_white(s[0]),
        !is_white(s.last()),
        s.last() != ']',
        is_primitive_name(s) || s == "void"@,
    ensures
        names_type(s, locals, facts),
        names_type(s + seq!['[', ']'], locals, facts),
{
    lemma_brackets_come_off(s);
    lemma_trim_keeps(s);
    let t = s + seq!['[', ']'];
    assert(t[0] == s[0] && t.last() == ']');
    lemma_trim_keeps(t);
}

/// A simple name is a type where it is known as one and no local variable has it.
pub proof fn lemma_simple_types(s: Seq<char>, locals: Seq<LocalView>, facts: FactsView)
    requires
        s.len() > 0,
        forall|i: int| 0 <= i < s.len() ==> CharClass::Ident.has(#[trigger] s[i]),
        s != "this"@,
        !is_primitive_name(s),
        s != "void"@,
    ensures
        names_type(s, locals, facts) <==> (forall|i: int|
            0 <= i < locals.len() ==> (#[trigger] locals[i]).name != s) && (
        facts.symbols.contains_key(s) || facts.types.contains_key(s)),
{
    assert(!is_white(s[0]) && !is_white(s.last())) by {
        assert(CharClass::Ident.has(s[0]));
        assert(CharClass::Ident.has(s[s.len() - 1]));
    }
    assert(s.last() != ']') by {
        assert(CharClass::Ident.has(s[s.len() - 1]));
    }
    lemma_brackets_come_off(s);
    lemma_trim_keeps(s);
    assert(!s.contains('.')) by {
        if s.contains('.') {
            let i = choose|i: int| 0 <= i < s.len() && s[i] == '.';
            assert(CharClass::Ident.has(s[i]));
        }
    }
    crate::text::laws::lemma_index_from(s, '.', 0);
    if let Some(k) = crate::text::index_of(s, '.') {
        assert(s.contains(s[k]));
    }
    assert(split(s, '.') == seq![s]);
    assert(first_piece(split(s, '.'), 0) == Some(s));
    assert(all_of(s, CharClass::ClassPath));
}

/// `.class` follows a type and nothing else; `length` is that of an array; `getClass()` is a method
/// of every object; and the language defines no other access.
pub proof fn lemma_accesses(
    receiver: Option<TypeView>,
    receiver_type: Option<Seq<char>>,
    prefix: Seq<char>,
    expr: Seq<char>,
    arguments: Option<Seq<char>>,
    locals: Seq<LocalView>,
    facts: FactsView,
)
    ensures
        ({
            let r = intrinsic_access(
                LocationView::MemberAccess {
                    receiver_semantic_type: receiver,
                    receiver_type,
                    member_prefix: prefix,
                    receiver_expr: expr,
                    arguments,
                },
                locals,
                facts,
            );
            let asks_class = arguments is None && names_type(expr, locals, facts) && begins_class(
                prefix,
            );
            let is_array = receiver matches Some(t) && t.array_dims > 0;
            let is_object = receiver matches Some(t) && !t.is_primitive() && t.base != "null"@;
            &&& asks_class ==> is_class_literal(r)
            &&& prefix == "length"@ && is_array ==> (r matches Some(a) && a.kind
                == JavaIntrinsicAccessKind::ArrayLength && a.receiver_kind
                == JavaAccessReceiverKind::Expression)
            &&& prefix == "getClass"@ && arguments == Some("()"@) && is_object ==> (r matches Some(
                a,
            ) && a.kind == JavaIntrinsicAccessKind::ObjectGetClass && a.receiver_kind
                == JavaAccessReceiverKind::Expression)
            &&& !asks_class && !(prefix == "length"@ && is_array) && !(prefix == "getClass"@
                && arguments == Some("()"@) && is_object) ==> r is None
        }),
{
    lemma_class_prefix(prefix);
    reveal_strlit("length");
    reveal_strlit("getClass");
    reveal_strlit("class");
    assert("length"@.len() == 6 && "getClass"@.len() == 8);
}

/// A member of a class that begins `class` is the class itself.
pub proof fn lemma_static_accesses(
    class: Seq<char>,
    prefix: Seq<char>,
    locals: Seq<LocalView>,
    facts: FactsView,
)
    ensures
        ({
            let r = intrinsic_access(
                LocationView::StaticAccess {
                    class_internal_name: class,
                    member_prefix: prefix,
                },
                locals,
                facts,
            );
            &&& begins_class(prefix) ==> is_class_literal(r)
            &&& !begins_class(prefix) ==> r is None
        }),
{
    lemma_class_prefix(prefix);
}

/// A text with a character in it that no path has, a call for one, is no type.
pub proof fn lemma_calls_are_no_types(
    s: Seq<char>,
    locals: Seq<LocalView>,
    facts: FactsView,
    i: int,
)
    requires
        0 <= i < s.len(),
        !is_white(s[0]),
        !is_white(s.last()),
        s.last() != ']',
        !CharClass::ClassPath.has(s[i]),
        !is_primitive_name(s),
        s != "void"@,
    ensures
        !names_type(s, locals, facts),
{
    lemma_brackets_come_off(s);
    lemma_trim_keeps(s);
    assert(!all_of(s, CharClass::ClassPath));
}

/// A path is a type exactly where its first name is neither `this` nor a variable, and the whole is
/// known.
pub proof fn lemma_paths_as_types(
    first: Seq<char>,
    rest: Seq<char>,
    locals: Seq<LocalView>,
    facts: FactsView,
)
    requires
        first.len() > 0,
        rest.len() > 0,
        forall|i: int| 0 <= i < first.len() ==> CharClass::Ident.has(#[trigger] first[i]),
        forall|i: int| 0 <= i < rest.len() ==> CharClass::ClassPath.has(#[trigger] rest[i]),
    ensures
        ({
            let s = first + seq!['.'] + rest;
            names_type(s, locals, facts) <==> first != "this"@ && (forall|i: int|
                0 <= i < locals.len() ==> (#[trigger] locals[i]).name != first) && (
            facts.symbols.contains_key(s) || facts.types.contains_key(s))
        }),
{
    let s = first + seq!['.'] + rest;
    let n = first.len() as int;
    assert(s[0] == first[0]);
    assert(CharClass::Ident.has(first[0]));
    assert(s.last() == rest[rest.len() - 1]);
    assert(CharClass::ClassPath.has(rest[rest.len() - 1]));
    lemma_brackets_come_off(s);
    lemma_trim_keeps(s);
    assert(s[n] == '.');
    assert forall|i: int| 0 <= i < s.len() implies CharClass::ClassPath.has(#[trigger] s[i]) by {
        if i < n {
            assert(s[i] == first[i]);
        } else if i > n {
            assert(s[i] == rest[i - n - 1]);
        }
    }
    assert(all_of(s, CharClass::ClassPath));
    crate::text::laws::lemma_index_from(s, '.', 0);
    assert forall|i: int| 0 <= i < n implies s[i] != '.' by {
        assert(s[i] == first[i]);
        assert(CharClass::Ident.has(first[i]));
    }
    assert(crate::text::index_of(s, '.') == Some(n));
    assert(s.take(n) =~= first);
    assert(split(s, '.')[0] == first);
    assert(first_piece(split(s, '.'), 0) == Some(first));
    lemma_paths_are_not_primitive(s, n);
}

proof fn lemma_paths_are_not_primitive(s: Seq<char>, n: int)
    requires
        0 <= n < s.len(),
        s[n] == '.',
    ensures
        !is_primitive_name(s),
        s != "void"@,
{
    reveal_strlit("byte");
    reveal_strlit("short");
    reveal_strlit("int");
    reveal_strlit("long");
    reveal_strlit("float");
    reveal_strlit("double");
    reveal_strlit("boolean");
    reveal_strlit("char");
    reveal_strlit("void");
    assert("byte"@ =~= seq!['b', 'y', 't', 'e']);
    assert("short"@ =~= seq!['s', 'h', 'o', 'r', 't']);
    assert("int"@ =~= seq!['i', 'n', 't']);
    assert("long"@ =~= seq!['l', 'o', 'n', 'g']);
    assert("float"@ =~= seq!['f', 'l', 'o', 'a', 't']);
    assert("double"@ =~= seq!['d', 'o', 'u', 'b', 'l', 'e']);
    assert("boolean"@ =~= seq!['b', 'o', 'o', 'l', 'e', 'a', 'n']);
    assert("char"@ =~= seq!['c', 'h', 'a', 'r']);
    assert("void"@ =~= seq!['v', 'o', 'i', 'd']);
}

} // verus!
