//! Class literals, the length of arrays and `getClass`.
use vstd::prelude::*;

use crate::semantic::{CursorLocation, LocationView};
use crate::text::{
    all_of, begins_with, is_all, split, split_at_char, starts_with, str_eq, strip_suffix, to_chars,
    to_text, trim, trimmed, without_suffix, CharClass,
};
use crate::text_map::at_key;
use crate::type_facts::{has_local, local_exists, FactsView, LocalVar, LocalView, TypeFacts};
use crate::type_names::{is_primitive_name, names_primitive, TypeName, TypeView};

pub mod laws;

verus! {

const CLASS_LITERAL_KEYWORD: &'static str = "class";

const ARRAY_LENGTH_NAME: &'static str = "length";

const OBJECT_GET_CLASS_NAME: &'static str = "getClass";

const JAVA_LANG_CLASS_INTERNAL: &'static str = "java/lang/Class";

/// What an access that the language defines gives.
#[derive(Clone, Copy, Debug, PartialEq, Eq, Structural)]
pub enum JavaIntrinsicAccessKind {
    ClassLiteral,
    ArrayLength,
    ObjectGetClass,
}

/// What stands before the dot.
#[derive(Clone, Copy, Debug, PartialEq, Eq, Structural)]
pub enum JavaAccessReceiverKind {
    Type,
    Expression,
}

/// An access that the language defines.
#[derive(Clone, Copy, Debug, PartialEq, Eq, Structural)]
pub struct JavaIntrinsicAccess {
    pub kind: JavaIntrinsicAccessKind,
    pub receiver_kind: JavaAccessReceiverKind,
}

/// A cursor location and the local variables that can be seen from it.
#[derive(Debug, PartialEq, Eq)]
pub struct SemanticContext {
    pub location: CursorLocation,
    pub local_variables: Vec<LocalVar>,
}

/// Whether what is typed can become `class`.
pub fn is_class_literal_prefix(prefix: &str) -> (r: bool)
    ensures
        r == starts_with("class"@, prefix@),
{
    let keyword = to_chars(CLASS_LITERAL_KEYWORD);
    begins_with(keyword.as_slice(), prefix)
}

/// The type of a class literal: `Class` with the type before the dot as its argument.
pub fn class_literal_result_type(operand: TypeName) -> (r: TypeName)
    ensures
        r.deep_view() == (TypeView {
            base: "java/lang/Class"@,
            args: seq![operand.deep_view()],
            array_dims: 0,
        }),
{
    let mut args: Vec<TypeName> = Vec::new();
    args.push(operand);
    assert(args.deep_view() =~= seq![operand.deep_view()]);
    TypeName::with_args(JAVA_LANG_CLASS_INTERNAL, args)
}

proof fn lemma_trim_shorter(s: Seq<char>)
    ensures
        trim(s).len() <= s.len(),
{
    crate::text::lemma_run_end(s, CharClass::White, 0);
    let t = crate::text::trim_start(s);
    crate::text::lemma_run_start(t, CharClass::White, t.len() as int);
}

/// A type without the brackets of arrays at its end.
pub open spec fn without_brackets(s: Seq<char>) -> Seq<char>
    decreases s.len(),
    via without_brackets_decreases
{
    match strip_suffix(s, "[]"@) {
        Some(t) => without_brackets(trim(t)),
        None => s,
    }
}

#[via_fn]
proof fn without_brackets_decreases(s: Seq<char>) {
    reveal_strlit("[]");
    match strip_suffix(s, "[]"@) {
        Some(t) => {
            lemma_trim_shorter(t);
        },
        None => {},
    }
}

fn drop_brackets(s: &[char]) -> (r: &[char])
    ensures
        r@ == without_brackets(s@),
{
    let mut base: &[char] = s;
    proof {
        reveal_strlit("[]");
    }
    loop
        invariant
            without_brackets(base@) == without_brackets(s@),
            "[]"@.len() == 2,
        decreases base@.len(),
    {
        match without_suffix(base, "[]") {
            Some(t) => {
                proof {
                    lemma_trim_shorter(t@);
                }
                base = trimmed(t);
            },
            None => {
                return base;
            },
        }
    }
}

/// The first piece from the `i`-th on that is not empty.
pub open spec fn first_piece(pieces: Seq<Seq<char>>, i: int) -> Option<Seq<char>>
    decreases pieces.len() - i,
{
    if i < 0 || i >= pieces.len() {
        None
    } else if pieces[i].len() > 0 {
        Some(pieces[i])
    } else {
        first_piece(pieces, i + 1)
    }
}

fn find_first_piece(s: &[char]) -> (r: Option<String>)
    ensures
        r.deep_view() == first_piece(split(s@, '.'), 0),
{
    let pieces = split_at_char(s, '.');
    let ghost all = pieces.deep_view();
    let mut i: usize = 0;
    while i < pieces.len()
        invariant
            i <= pieces.len(),
            all == pieces.deep_view(),
            all == split(s@, '.'),
            first_piece(all, 0) == first_piece(all, i as int),
        decreases pieces.len() - i,
    {
        assert(all[i as int] =~= pieces@[i as int]@);
        if pieces[i].len() > 0 {
            return Some(to_text(pieces[i].as_slice()));
        }
        i += 1;
    }
    None
}

/// What stands before the dot is a type, to which `.class` can be added: a primitive type or
/// `void`, or a path that does not begin with `this` or a local variable and that names a type;
/// brackets of arrays may follow.
pub open spec fn names_type(expr: Seq<char>, locals: Seq<LocalView>, facts: FactsView) -> bool {
    let base = without_brackets(trim(expr));
    &&& trim(expr).len() > 0
    &&& {
        ||| is_primitive_name(base) || base == "void"@
        ||| {
            &&& all_of(base, CharClass::ClassPath)
            &&& match first_piece(split(base, '.'), 0) {
                Some(first) => first != "this"@ && !has_local(locals, first),
                None => false,
            }
            &&& at_key(facts.symbols, base) is Some || at_key(facts.types, base) is Some
        }
    }
}

/// Whether what stands before the dot is a type.
pub fn class_literal_access_for_member_receiver(
    receiver_expr: &str,
    local_variables: &[LocalVar],
    facts: &TypeFacts,
) -> (r: bool)
    ensures
        r == names_type(receiver_expr@, local_variables.deep_view(), facts.deep_view()),
{
    let text = to_chars(receiver_expr);
    let expr = trimmed(text.as_slice());
    if expr.len() == 0 {
        return false;
    }
    let base = drop_brackets(expr);
    let name = to_text(base);
    if names_primitive(name.as_str()) || str_eq(name.as_str(), "void") {
        return true;
    }
    if !is_all(base, CharClass::ClassPath) {
        return false;
    }
    match find_first_piece(base) {
        None => false,
        Some(first) => {
            if str_eq(first.as_str(), "this") || local_exists(local_variables, first.as_str()) {
                return false;
            }
            facts.symbols.get(name.as_str()).is_some() || facts.types.get(name.as_str()).is_some()
        },
    }
}

/// An access that gives a class literal.
pub open spec fn class_literal() -> JavaIntrinsicAccess {
    JavaIntrinsicAccess {
        kind: JavaIntrinsicAccessKind::ClassLiteral,
        receiver_kind: JavaAccessReceiverKind::Type,
    }
}

/// The access that the language defines at a location, if there is one.
pub open spec fn intrinsic_access(
    location: LocationView,
    locals: Seq<LocalView>,
    facts: FactsView,
) -> Option<JavaIntrinsicAccess> {
    match location {
        LocationView::StaticAccess { class_internal_name, member_prefix } => if starts_with(
            "class"@,
            member_prefix,
        ) {
            Some(class_literal())
        } else {
            None
        },
        LocationView::MemberAccess {
            receiver_semantic_type,
            receiver_type,
            member_prefix,
            receiver_expr,
            arguments,
        } => if arguments is None && names_type(receiver_expr, locals, facts) && starts_with(
            "class"@,
            member_prefix,
        ) {
            Some(class_literal())
        } else if member_prefix == "length"@ && receiver_semantic_type is Some && (
        receiver_semantic_type->0).array_dims > 0 {
            Some(
                JavaIntrinsicAccess {
                    kind: JavaIntrinsicAccessKind::ArrayLength,
                    receiver_kind: JavaAccessReceiverKind::Expression,
                },
            )
        } else if member_prefix == "getClass"@ && arguments == Some("()"@)
            && receiver_semantic_type is Some && !(receiver_semantic_type->0).is_primitive() && (
        receiver_semantic_type->0).base != "null"@ {
            Some(
                JavaIntrinsicAccess {
                    kind: JavaIntrinsicAccessKind::ObjectGetClass,
                    receiver_kind: JavaAccessReceiverKind::Expression,
                },
            )
        } else {
            None
        },
        _ => None,
    }
}

fn literal_access() -> (r: JavaIntrinsicAccess)
    ensures
        r == class_literal(),
{
    JavaIntrinsicAccess {
        kind: JavaIntrinsicAccessKind::ClassLiteral,
        receiver_kind: JavaAccessReceiverKind::Type,
    }
}

/// The access that the language defines at the cursor, if there is one.
pub fn classify_intrinsic_access(ctx: &SemanticContext, facts: &TypeFacts) -> (r: Option<
    JavaIntrinsicAccess,
>)
    ensures
        r == intrinsic_access(
            ctx.location.deep_view(),
            ctx.local_variables.deep_view(),
            facts.deep_view(),
        ),
{
    match &ctx.location {
        CursorLocation::StaticAccess { member_prefix, .. } => if is_class_literal_prefix(
            member_prefix.as_str(),
        ) {
            Some(literal_access())
        } else {
            None
        },
        CursorLocation::MemberAccess {
            receiver_semantic_type,
            member_prefix,
            receiver_expr,
            arguments,
            ..
        } => {
            if arguments.is_none() && class_literal_access_for_member_receiver(
                receiver_expr.as_str(),
                ctx.local_variables.as_slice(),
                facts,
            ) && is_class_literal_prefix(member_prefix.as_str()) {
                return Some(literal_access());
            }
            if let Some(ty) = receiver_semantic_type {
                if str_eq(member_prefix.as_str(), ARRAY_LENGTH_NAME) && ty.is_array() {
                    return Some(
                        JavaIntrinsicAccess {
                            kind: JavaIntrinsicAccessKind::ArrayLength,
                            receiver_kind: JavaAccessReceiverKind::Expression,
                        },
                    );
                }
                let called = match arguments {
                    Some(a) => str_eq(a.as_str(), "()"),
                    None => false,
                };
                if str_eq(member_prefix.as_str(), OBJECT_GET_CLASS_NAME) && called
                    && !ty.is_primitive() && !str_eq(ty.erased_internal(), "null") {
                    return Some(
                        JavaIntrinsicAccess {
                            kind: JavaIntrinsicAccessKind::ObjectGetClass,
                            receiver_kind: JavaAccessReceiverKind::Expression,
                        },
                    );
                }
            }
            None
        },
        _ => None,
    }
}

} // verus!
