//! What is told in code that is not finished.
use vstd::prelude::*;

use crate::extractor::{is_keyword, unmarked, JavaContextExtractor, SENTINEL};
use crate::location::arguments::{
    argument_list_location, dotted_argument_from, dotted_rest, subtree_prefix, subtree_prefix_from,
};
use crate::location::block::{
    between_statements, block_location, error_before_cursor, last_ending_from,
};
use crate::location::declarations::{
    dot_after_receiver, last_receiver, lying_in, name_after_complete_type, scoped_member,
    scoped_type_at_cursor, sign_between, space_before_cursor, type_in_error,
};
use crate::location::error::{error_in_code, error_location};
use crate::location::handlers::constructor_location;
use crate::location::heuristics::{
    import_from_text, in_import, new_before_cursor, trailing_dot, type_before_name,
};
use crate::location::labels::ending_jump;
use crate::location::names::{
    as_expression, identifier_location, in_declaration, in_error, said_above,
};
use crate::location::recovery::{
    misread_expression, semicolon_after, semicolon_before, semicolons, semicolons_from,
};
use crate::location::utils::{last_separator, preceding_from, type_argument_prefix, Located};
use crate::location::text;
use crate::location::{location, location_in_blank, location_without_rule};
use crate::semantic::{LocationView, StatementLabelCompletionKind};
use crate::syntax::laws::{lemma_first_kind_from, lemma_under_holds};
use crate::syntax::{KindClass, NodeId, SyntaxTree};
use crate::text::laws::lemma_trim_keeps;
use crate::text::{
    any_of, find, is_white, is_word, lemma_run_end, lemma_run_start, run_end, trim, trim_end,
    trim_start, CharClass,
};

use super::{lemma_node_kinds_differ, lemma_place_of_kind};

verus! {

/// A member of an expression, with what is typed of its name.
pub open spec fn is_member_of(l: Located, receiver: Seq<char>, prefix: Seq<char>) -> bool {
    l == (
        LocationView::MemberAccess {
            receiver_semantic_type: None,
            receiver_type: None,
            member_prefix: prefix,
            receiver_expr: receiver,
            arguments: None,
        },
        prefix,
    )
}

// ---- no cursor node, no rule -------------------------------------------------------------------

/// Without a node, the text decides: a dot, then `new`, then a type, and else an expression begins.
pub proof fn lemma_blank_places(ctx: &JavaContextExtractor)
    ensures
        ({
            let before = ctx.before();
            let l = location_in_blank(ctx);
            &&& trailing_dot(before) matches Some((r, p)) ==> is_member_of(l, r, p)
            &&& trailing_dot(before) is None ==> (new_before_cursor(before) matches Some((c, q))
                ==> l == (
                LocationView::ConstructorCall {
                    class_prefix: c,
                    expected_type: None,
                    qualifier_expr: q,
                    qualifier_owner_internal: None,
                },
                c,
            ))
            &&& trailing_dot(before) is None && new_before_cursor(before) is None ==> (
            type_before_name(before) matches Some(t) ==> l == (
                LocationView::VariableName { type_text: t },
                Seq::<char>::empty(),
            ))
            &&& trailing_dot(before) is None && new_before_cursor(before) is None
                && type_before_name(before) is None ==> l == (
                LocationView::Expression { prefix: Seq::<char>::empty() },
                Seq::<char>::empty(),
            )
        }),
{
}

/// A name that no node says anything of is an expression that is being typed, up to the cursor.
pub proof fn lemma_names_are_expressions(ctx: &JavaContextExtractor, n: NodeId)
    requires
        ctx.tree.kind_of(n) == "identifier"@ || ctx.tree.kind_of(n) == "type_identifier"@
            || ctx.tree.kind_of(n) == "this"@ || ctx.tree.kind_of(n) == "super"@,
        find(ctx.text_to_cursor(n), SENTINEL@) is None,
    ensures
        location_without_rule(ctx, n) == (
            LocationView::Expression { prefix: ctx.text_to_cursor(n) },
            ctx.text_to_cursor(n),
        ),
        as_expression(ctx, n) == (
            LocationView::Expression { prefix: ctx.text_to_cursor(n) },
            ctx.text_to_cursor(n),
        ),
{
    let s = ctx.text_to_cursor(n);
    assert(unmarked(s) == s);
}

/// Where neither a declaration before it nor an error makes it a type, an identifier is what the
/// nodes above say, and else an expression.
pub proof fn lemma_identifiers(ctx: &JavaContextExtractor, id: NodeId, p: NodeId)
    requires
        ctx.tree.parent_of(id) == Some(p),
        ctx.tree.ancestor(id, "ERROR"@) is None,
        ctx.tree.end_of(id) >= ctx.offset,
    ensures
        said_above(ctx, p, id) matches Some(l) ==> identifier_location(ctx, id) == l,
        said_above(ctx, p, id) is None ==> identifier_location(ctx, id) == as_expression(ctx, id),
{
    let gap = ctx.piece(ctx.tree.end_of(id), ctx.offset as int);
    assert(gap.len() == 0);
    assert(!space_before_cursor(ctx, id));
}

// ---- scoped names ------------------------------------------------------------------------------

/// A qualified type at the cursor is a member access: what stands before its dot is the receiver,
/// its last part is what is being typed.
pub proof fn lemma_scoped_names(ctx: &JavaContextExtractor, n: NodeId, d: int, receiver: Seq<char>)
    requires
        0 <= d < ctx.tree.kids(n).len(),
        ctx.tree.kind_of(ctx.tree.kids(n)[d]) == "."@,
        forall|q: int| 0 <= q < d ==> ctx.tree.kind_of(#[trigger] ctx.tree.kids(n)[q]) != "."@,
        ctx.piece(ctx.tree.start_of(n), ctx.tree.start_of(ctx.tree.kids(n)[d])) == receiver,
        receiver.len() > 0,
        forall|k: int| 0 <= k < receiver.len() ==> !is_white(#[trigger] receiver[k]),
        ctx.tree.named_kids(n).len() >= 2,
        find(ctx.text_to_cursor(ctx.tree.named_kids(n).last()), SENTINEL@) is None,
    ensures
        scoped_member(ctx, n) == Some(
            (receiver, ctx.text_to_cursor(ctx.tree.named_kids(n).last())),
        ),
        ctx.tree.kind_of(n) == "scoped_type_identifier"@ && ctx.tree.start_of(n) <= ctx.offset
            <= ctx.tree.end_of(n) ==> (scoped_type_at_cursor(ctx, n) matches Some(l)
            && is_member_of(l, receiver, ctx.text_to_cursor(ctx.tree.named_kids(n).last()))),
{
    let t = ctx.tree;
    lemma_first_kind_from(t, t.kids(n), "."@, 0);
    let r = t.first_kind(t.kids(n), "."@)->0;
    let p = choose|p: int|
        0 <= p < t.kids(n).len() && #[trigger] t.kids(n)[p] == r && t.kind_of(t.kids(n)[p])
            == "."@ && forall|q: int|
            0 <= q < p ==> t.kind_of(#[trigger] t.kids(n)[q]) != "."@;
    if p < d {
        assert(t.kind_of(t.kids(n)[p]) != "."@);
    } else if d < p {
        assert(t.kind_of(t.kids(n)[d]) != "."@);
    }
    assert(!is_white(receiver[0]) && !is_white(receiver[receiver.len() - 1]));
    lemma_trim_keeps(receiver);
    if receiver.contains(' ') {
        let k = choose|k: int| 0 <= k < receiver.len() && receiver[k] == ' ';
        assert(!is_white(receiver[k]));
    }
    let s = ctx.text_to_cursor(t.named_kids(n).last());
    assert(unmarked(s) == s);
}

// ---- errors ------------------------------------------------------------------------------------

/// In an error among statements, the text before the cursor is asked first for an import, then for
/// a dot, then for `new`, then the expression before a dot in the error; else the identifier at the
/// cursor is what it is, and else an expression begins.
pub proof fn lemma_errors_in_code(ctx: &JavaContextExtractor, error: NodeId, cursor: NodeId)
    ensures
        ({
            let before = ctx.before();
            let l = error_in_code(ctx, error, cursor);
            let read = !in_import(before) && text::trailing_dot(before) is None && text::new_before_cursor(
                before,
            ) is None;
            &&& in_import(before) ==> l == import_from_text(before)
            &&& !in_import(before) ==> (text::trailing_dot(before) matches Some((r, p)) ==> is_member_of(
                l,
                r,
                p,
            ))
            &&& !in_import(before) && text::trailing_dot(before) is None ==> (text::new_before_cursor(
                before,
            ) matches Some((c, q)) ==> l.1 == c && (l.0 matches LocationView::ConstructorCall {
                class_prefix,
                ..
            } && class_prefix == c))
            &&& read ==> (dot_after_receiver(ctx, error, KindClass::Receiver) matches Some(found)
                ==> l == found)
            &&& read && dot_after_receiver(ctx, error, KindClass::Receiver) is None && (
            ctx.tree.kind_of(cursor) == "identifier"@ || ctx.tree.kind_of(cursor)
                == "type_identifier"@) ==> l == identifier_location(ctx, cursor)
            &&& read && dot_after_receiver(ctx, error, KindClass::Receiver) is None
                && ctx.tree.kind_of(cursor) != "identifier"@ && ctx.tree.kind_of(cursor)
                != "type_identifier"@ ==> l == (
                LocationView::Expression { prefix: Seq::<char>::empty() },
                Seq::<char>::empty(),
            )
        }),
{
}

/// An error in a list of arguments that is a dot asks for the members of the argument before it;
/// any other is an argument.
pub proof fn lemma_errors_in_arguments(
    ctx: &JavaContextExtractor,
    error: NodeId,
    cursor: NodeId,
    list: NodeId,
    k: int,
)
    requires
        ctx.tree.parent_of(error) == Some(list),
        ctx.tree.kind_of(list) == "argument_list"@,
        0 < k < ctx.tree.named_kids(list).len(),
        ctx.tree.named_kids(list)[k] == error,
        forall|q: int| 0 <= q < k ==> #[trigger] ctx.tree.named_kids(list)[q] != error,
    ensures
        ctx.tree.kids(error).len() == 1 && ctx.tree.kind_of(ctx.tree.kids(error)[0]) == "."@
            ==> is_member_of(
            error_location(ctx, error, cursor),
            ctx.text_of(ctx.tree.named_kids(list)[k - 1]),
            Seq::empty(),
        ),
        !(ctx.tree.kids(error).len() == 1 && ctx.tree.kind_of(ctx.tree.kids(error)[0]) == "."@)
            ==> error_location(ctx, error, cursor) == argument_list_location(ctx, list),
{
    lemma_preceding(ctx.tree.named_kids(list), error, None, 0, k);
}

proof fn lemma_preceding(
    kids: Seq<NodeId>,
    n: NodeId,
    prev: Option<NodeId>,
    i: int,
    k: int,
)
    requires
        0 <= i <= k < kids.len(),
        kids[k] == n,
        forall|q: int| i <= q < k ==> #[trigger] kids[q] != n,
    ensures
        preceding_from(kids, n, prev, i) == if k == i {
            prev
        } else {
            Some(kids[k - 1])
        },
    decreases k - i,
{
    if i < k {
        lemma_preceding(kids, n, Some(kids[i]), i + 1, k);
    }
}

/// An error in the body of a class is the name of a member that is being typed.
pub proof fn lemma_errors_in_classes(
    ctx: &JavaContextExtractor,
    error: NodeId,
    cursor: NodeId,
    body: NodeId,
)
    requires
        ctx.tree.parent_of(error) == Some(body),
        ctx.tree.kind_of(body) == "class_body"@,
        ctx.tree.kind_of(cursor) == "identifier"@ || ctx.tree.kind_of(cursor)
            == "type_identifier"@,
    ensures
        error_location(ctx, error, cursor) == as_expression(ctx, cursor),
{
    lemma_node_kinds_differ();
}

/// In an error, an identifier is an import, a member or a constructor call where the text before
/// the cursor spells one, and else an expression.
pub proof fn lemma_identifiers_in_errors(ctx: &JavaContextExtractor, id: NodeId)
    ensures
        ({
            let before = ctx.before();
            let l = in_error(ctx, id);
            &&& in_import(before) ==> l == import_from_text(before)
            &&& !in_import(before) ==> (trailing_dot(before) matches Some((r, p)) ==> is_member_of(
                l,
                r,
                p,
            ))
            &&& !in_import(before) && trailing_dot(before) is None ==> (new_before_cursor(
                before,
            ) matches Some((c, q)) ==> l == (
                LocationView::ConstructorCall {
                    class_prefix: c,
                    expected_type: None,
                    qualifier_expr: q,
                    qualifier_owner_internal: None,
                },
                c,
            ))
            &&& !in_import(before) && trailing_dot(before) is None && new_before_cursor(before)
                is None ==> l == as_expression(ctx, id)
        }),
{
}

proof fn lemma_last_receiver(
    t: &SyntaxTree,
    ids: Seq<NodeId>,
    class: KindClass,
    offset: int,
    j: int,
    k: int,
)
    requires
        0 <= k < j <= ids.len(),
        !t.node(ids[k]).extra,
        t.end_of(ids[k]) <= offset,
        class.has(t.kind_of(ids[k])),
        forall|q: int|
            k < q < j ==> t.node(#[trigger] ids[q]).extra || t.end_of(ids[q]) > offset
                || !class.has(t.kind_of(ids[q])),
    ensures
        last_receiver(t, ids, class, offset, j) == Some(ids[k]),
    decreases j - k,
{
    if k < j - 1 {
        lemma_last_receiver(t, ids, class, offset, j - 1, k);
    }
}

/// The last expression of an error before the cursor with a dot right behind it asks for its
/// members.
pub proof fn lemma_dots_behind_receivers(
    ctx: &JavaContextExtractor,
    error: NodeId,
    k: int,
    prefix: Seq<char>,
)
    requires
        0 <= k < ctx.tree.kids(error).len(),
        !ctx.tree.node(ctx.tree.kids(error)[k]).extra,
        ctx.tree.end_of(ctx.tree.kids(error)[k]) <= ctx.offset,
        ({
            let kind = ctx.tree.kind_of(ctx.tree.kids(error)[k]);
            kind == "method_invocation"@ || kind == "object_creation_expression"@ || kind
                == "field_access"@ || kind == "identifier"@ || kind == "this"@
        }),
        forall|q: int|
            k < q < ctx.tree.kids(error).len() ==> ctx.tree.end_of(
                #[trigger] ctx.tree.kids(error)[q],
            ) > ctx.offset || !KindClass::Receiver.has(ctx.tree.kind_of(ctx.tree.kids(error)[q])),
        ctx.piece(ctx.tree.end_of(ctx.tree.kids(error)[k]), ctx.offset as int) == seq!['.']
            + prefix,
        forall|i: int| 0 <= i < prefix.len() ==> is_word(#[trigger] prefix[i]),
        trim(ctx.text_of(ctx.tree.kids(error)[k])).len() > 0,
    ensures
        dot_after_receiver(ctx, error, KindClass::Receiver) matches Some(l) && is_member_of(
            l,
            trim(ctx.text_of(ctx.tree.kids(error)[k])),
            prefix,
        ),
{
    let t = &ctx.tree;
    let ids = t.kids(error);
    lemma_last_receiver(t, ids, KindClass::Receiver, ctx.offset as int, ids.len() as int, k);
    let s = seq!['.'] + prefix;
    lemma_run_end(s, CharClass::White, 0);
    assert(s[0] == '.');
    assert(trim_start(s) =~= s);
    assert(s.skip(1) =~= prefix);
    lemma_run_end(prefix, CharClass::White, 0);
    if prefix.len() > 0 {
        assert(is_word(prefix[0]));
    }
    assert(trim_start(prefix) =~= prefix);
    lemma_run_end(prefix, CharClass::Word, 0);
    let e = run_end(prefix, CharClass::Word, 0);
    if e < prefix.len() {
        assert(is_word(prefix[e]));
    }
    assert(prefix.take(e) =~= prefix);
}

// ---- types that await a name -------------------------------------------------------------------

proof fn lemma_no_semicolons(t: &SyntaxTree, n: NodeId, root: NodeId)
    requires
        t.linked(),
        t.has(n),
        forall|m: NodeId| #[trigger] t.under(n).contains(m) ==> t.kind_of(m) != ";"@,
    ensures
        semicolons(t, n, root) == Seq::<(usize, usize)>::empty(),
    decreases t.nodes@.len() - n, t.kids(n).len() + 1,
{
    lemma_no_semicolons_from(t, n, root, 0);
}

proof fn lemma_no_semicolons_from(t: &SyntaxTree, n: NodeId, root: NodeId, i: int)
    requires
        t.linked(),
        t.has(n),
        forall|m: NodeId| #[trigger] t.under(n).contains(m) ==> t.kind_of(m) != ";"@,
        0 <= i,
    ensures
        semicolons_from(t, n, root, i) == Seq::<(usize, usize)>::empty(),
    decreases t.nodes@.len() - n, t.kids(n).len() - i,
{
    if i < t.kids(n).len() {
        let k = t.kids(n)[i];
        assert(t.nodes@[n as int].placed(n as int, t.nodes@.len() as int));
        assert(t.under(k)[0] == k);
        assert(t.under(k).contains(k));
        lemma_under_holds(*t, n, i, k);
        assert forall|m: NodeId| #[trigger] t.under(k).contains(m) implies t.kind_of(m) != ";"@ by {
            lemma_under_holds(*t, n, i, m);
            assert(t.under(n).contains(m));
        }
        lemma_no_semicolons(t, k, root);
        lemma_no_semicolons_from(t, n, root, i + 1);
    }
}

/// A type that is alone in an error, with white space between it and the cursor, awaits the name of
/// a variable; without white space it does not.
pub proof fn lemma_lone_types(ctx: &JavaContextExtractor, error: NodeId, ty: NodeId)
    requires
        ctx.wf(),
        ctx.tree.has(error),
        ctx.tree.named_kids(error) == seq![ty],
        ctx.tree.kind_of(ty) == "type_identifier"@ || ctx.tree.kind_of(ty) == "generic_type"@
            || ctx.tree.kind_of(ty) == "array_type"@ || ctx.tree.kind_of(ty) == "integral_type"@
            || ctx.tree.kind_of(ty) == "boolean_type"@ || ctx.tree.kind_of(ty)
            == "floating_point_type"@,
        ctx.tree.start_of(error) <= ctx.tree.start_of(ty),
        ctx.tree.end_of(ty) <= ctx.tree.end_of(error),
        ctx.offset >= ctx.tree.end_of(error),
        forall|m: NodeId| #[trigger]
            ctx.tree.under(error).contains(m) ==> ctx.tree.kind_of(m) != ";"@,
        forall|q: int|
            0 <= q < ctx.tree.kids(error).len() ==> ctx.tree.kind_of(
                #[trigger] ctx.tree.kids(error)[q],
            ) != "="@,
        trim(ctx.text_of(ty)).len() > 0,
        find(trim(ctx.text_of(ty)), SENTINEL@) is None,
    ensures
        any_of(ctx.piece(ctx.tree.end_of(ty), ctx.offset as int), CharClass::White)
            ==> type_in_error(ctx, error) == Some(trim(ctx.text_of(ty))),
        !any_of(ctx.piece(ctx.tree.end_of(ty), ctx.offset as int), CharClass::White)
            ==> type_in_error(ctx, error) is None,
{
    let t = &ctx.tree;
    lemma_node_kinds_differ();
    lemma_type_kinds();
    lemma_no_semicolons(t, error, error);
    assert(semicolon_before(t, error, ctx.offset as int) is None);
    assert(semicolon_after(t, error, ctx.offset as int) is None);
    let from = t.start_of(error);
    let to = t.end_of(error);
    let ids = t.named_kids(error);
    assert(lying_in(t, ids, from, to, 1) =~= Seq::<NodeId>::empty());
    assert(lying_in(t, ids, from, to, 0) =~= seq![ty]);
    lemma_no_sign(ctx, error, from, to, 0);
    let name = trim(ctx.text_of(ty));
    assert(unmarked(name) == name);
}

proof fn lemma_type_kinds()
    ensures
        "array_type"@ != "identifier"@,
        "integral_type"@ != "identifier"@,
        "boolean_type"@ != "identifier"@,
        "floating_point_type"@ != "identifier"@,
{
    reveal_strlit("array_type");
    reveal_strlit("integral_type");
    reveal_strlit("boolean_type");
    reveal_strlit("floating_point_type");
    reveal_strlit("identifier");
    assert("array_type"@[0] == 'a' && "identifier"@[0] == 'i');
    assert("integral_type"@.len() == 13 && "identifier"@.len() == 10);
    assert("boolean_type"@.len() == 12 && "floating_point_type"@.len() == 19);
}

proof fn lemma_no_sign(ctx: &JavaContextExtractor, error: NodeId, from: int, to: int, i: int)
    requires
        ctx.wf(),
        ctx.tree.has(error),
        forall|m: NodeId| #[trigger]
            ctx.tree.under(error).contains(m) ==> ctx.tree.kind_of(m) != ";"@,
        forall|q: int|
            0 <= q < ctx.tree.kids(error).len() ==> ctx.tree.kind_of(
                #[trigger] ctx.tree.kids(error)[q],
            ) != "="@,
        0 <= i,
    ensures
        !sign_between(&ctx.tree, ctx.tree.kids(error), from, to, i),
    decreases ctx.tree.kids(error).len() - i,
{
    let t = ctx.tree;
    if i < t.kids(error).len() {
        let k = t.kids(error)[i];
        assert(t.under(k)[0] == k);
        assert(t.under(k).contains(k));
        lemma_under_holds(t, error, i, k);
        assert(t.under(error).contains(k));
        lemma_no_sign(ctx, error, from, to, i + 1);
    }
}

/// A declaration with a complete type and no variable yet, with white space behind the type, awaits
/// the name of a variable.
pub proof fn lemma_awaits_name(ctx: &JavaContextExtractor, decl: NodeId, i: int)
    requires
        ctx.tree.kind_of(decl) == "local_variable_declaration"@,
        0 <= i < ctx.tree.named_kids(decl).len(),
        ctx.tree.kind_of(ctx.tree.named_kids(decl)[i]) != "modifiers"@,
        forall|q: int|
            0 <= q < i ==> ctx.tree.kind_of(#[trigger] ctx.tree.named_kids(decl)[q])
                == "modifiers"@,
        ({
            let k = ctx.tree.kind_of(ctx.tree.named_kids(decl)[i]);
            k == "type_identifier"@ || k == "generic_type"@ || k == "array_type"@ || k
                == "scoped_type_identifier"@ || k == "integral_type"@ || k
                == "floating_point_type"@ || k == "boolean_type"@
        }),
    ensures
        name_after_complete_type(ctx, decl) <==> {
            let ty = ctx.tree.named_kids(decl)[i];
            &&& forall|q: int|
                0 <= q < ctx.tree.named_kids(decl).len() ==> ctx.tree.kind_of(
                    #[trigger] ctx.tree.named_kids(decl)[q],
                ) != "variable_declarator"@
            &&& any_of(ctx.piece(ctx.tree.end_of(ty), ctx.offset as int), CharClass::White)
            &&& !is_keyword(trim(ctx.text_of(ty)))
        },
{
    super::lemma_first_other_is(ctx.tree, ctx.tree.named_kids(decl), "modifiers"@, 0, i);
    lemma_first_kind_from(ctx.tree, ctx.tree.named_kids(decl), "variable_declarator"@, 0);
}

// ---- declarations that were misread ------------------------------------------------------------

/// A declaration that a bracket follows is an expression that was misread.
pub proof fn lemma_calls_are_misread(ctx: &JavaContextExtractor, id: NodeId, decl: NodeId, next: NodeId)
    requires
        ctx.tree.kind_of(decl) == "local_variable_declaration"@,
        ctx.tree.next_of(decl) == Some(next),
        ctx.text_of(next).len() > 0,
        ctx.text_of(next)[0] == '(',
    ensures
        misread_expression(ctx, id, decl),
        in_declaration(ctx, id, decl) == as_expression(ctx, id),
{
    let s = ctx.text_of(next);
    lemma_run_end(s, CharClass::White, 0);
    assert(trim_start(s) =~= s);
}

/// A declaration without an error in it that no bracket follows was read as it is meant.
pub proof fn lemma_not_misread(ctx: &JavaContextExtractor, id: NodeId, decl: NodeId)
    requires
        ctx.tree.next_of(decl) matches Some(next) ==> ({
            let s = trim_start(ctx.text_of(next));
            s.len() == 0 || s[0] != '('
        }),
        forall|q: int|
            0 <= q < ctx.tree.kids(decl).len() ==> ctx.tree.kind_of(
                #[trigger] ctx.tree.kids(decl)[q],
            ) != "ERROR"@,
        forall|k: int, q: int|
            0 <= k < ctx.tree.named_kids(decl).len() && 0 <= q < ctx.tree.kids(
                ctx.tree.named_kids(decl)[k],
            ).len() ==> ctx.tree.kind_of(
                #[trigger] ctx.tree.kids(#[trigger] ctx.tree.named_kids(decl)[k])[q],
            ) != "ERROR"@,
    ensures
        !misread_expression(ctx, id, decl),
{
    let t = ctx.tree;
    lemma_first_kind_from(t, t.kids(decl), "ERROR"@, 0);
    lemma_first_kind_from(t, t.named_kids(decl), "variable_declarator"@, 0);
    if let Some(d) = t.first_kind(t.named_kids(decl), "variable_declarator"@) {
        lemma_first_kind_from(t, t.kids(d), "ERROR"@, 0);
        let p = choose|p: int|
            0 <= p < t.named_kids(decl).len() && #[trigger] t.named_kids(decl)[p] == d;
        if let Some(e) = t.first_kind(t.kids(d), "ERROR"@) {
            let q = choose|q: int|
                0 <= q < t.kids(d).len() && #[trigger] t.kids(d)[q] == e && t.kind_of(t.kids(d)[q])
                    == "ERROR"@;
            assert(t.kind_of(t.kids(t.named_kids(decl)[p])[q]) != "ERROR"@);
        }
    }
}

// ---- constructors with a qualifier -------------------------------------------------------------

/// Before `new` in a qualified call: up to the dot it is the qualifier that is being typed, between
/// the dot and `new` its members are asked for, and behind `new` the qualifier is told.
pub proof fn lemma_qualified_new(ctx: &JavaContextExtractor, n: NodeId, i: int)
    requires
        2 <= i < ctx.tree.kids(n).len(),
        ctx.tree.kind_of(ctx.tree.kids(n)[i]) == "new"@,
        forall|q: int| 0 <= q < i ==> ctx.tree.kind_of(#[trigger] ctx.tree.kids(n)[q]) != "new"@,
        ctx.tree.kind_of(ctx.tree.kids(n)[i - 1]) == "."@,
        trim(ctx.text_of(ctx.tree.kids(n)[i - 2])).len() > 0,
        ctx.tree.field_of(n, "type"@) matches Some(ty) ==> !ctx.piece(
            ctx.offset as int,
            ctx.tree.start_of(ty),
        ).contains('\n'),
        find(ctx.text_to_cursor(ctx.tree.kids(n)[i - 2]), SENTINEL@) is None,
    ensures
        ({
            let t = ctx.tree;
            let q = t.kids(n)[i - 2];
            let l = constructor_location(ctx, n);
            &&& ctx.offset < t.end_of(t.kids(n)[i - 1]) ==> l == (
                LocationView::Expression { prefix: ctx.text_to_cursor(q) },
                ctx.text_to_cursor(q),
            )
            &&& t.end_of(t.kids(n)[i - 1]) <= ctx.offset <= t.start_of(t.kids(n)[i])
                ==> is_member_of(l, trim(ctx.text_of(q)), Seq::empty())
            &&& ctx.offset > t.start_of(t.kids(n)[i]) && ctx.offset >= t.end_of(t.kids(n)[i - 1])
                ==> (l.0 matches LocationView::ConstructorCall { qualifier_expr, .. }
                && qualifier_expr == Some(trim(ctx.text_of(q))))
        }),
{
    let t = &ctx.tree;
    lemma_place_of_kind(t, t.kids(n), "new"@, 0, i);
    let s = ctx.text_to_cursor(t.kids(n)[i - 2]);
    assert(unmarked(s) == s);
}

// ---- type arguments ----------------------------------------------------------------------------

/// A type argument without brackets and commas is typed as it stands; behind a comma, the next one
/// begins.
pub proof fn lemma_type_arguments(
    ctx: &JavaContextExtractor,
    args: NodeId,
    head: Seq<char>,
    last: Seq<char>,
)
    requires
        ctx.tree.start_of(args) < ctx.offset < ctx.tree.end_of(args),
        ctx.piece(ctx.tree.start_of(args) + 1, ctx.offset as int) == head + last,
        head.len() == 0 || head.last() == ',',
        forall|k: int| 0 <= k < head.len() ==> is_plain(#[trigger] head[k]),
        forall|k: int| 0 <= k < last.len() ==> is_plain(#[trigger] last[k]) && last[k] != ',',
    ensures
        type_argument_prefix(ctx, args) == trim(last),
{
    let s = head + last;
    lemma_separator(s, head.len() as int, 0, 0);
    assert(s.skip(head.len() as int) =~= last);
}

/// No bracket.
pub open spec fn is_plain(c: char) -> bool {
    c != '<' && c != '>' && c != '(' && c != ')' && c != '[' && c != ']' && c != '{' && c != '}'
}

proof fn lemma_separator(s: Seq<char>, at: int, i: int, sep: int)
    requires
        0 <= i <= s.len(),
        0 <= at <= s.len(),
        at > 0 ==> s[at - 1] == ',',
        forall|k: int| 0 <= k < s.len() ==> is_plain(#[trigger] s[k]),
        forall|k: int| at <= k < s.len() ==> s[k] != ',',
        i >= at ==> sep == at,
    ensures
        last_separator(s, i, 0, sep) == at,
    decreases s.len() - i,
{
    if i < s.len() {
        assert(is_plain(s[i]));
        if s[i] == ',' {
            lemma_separator(s, at, i + 1, i + 1);
        } else {
            lemma_separator(s, at, i + 1, sep);
        }
    }
}

// ---- arguments ---------------------------------------------------------------------------------

/// An argument with a dot and a beginning of a name behind it asks for its members.
pub proof fn lemma_dotted_arguments(
    ctx: &JavaContextExtractor,
    list: NodeId,
    k: int,
    prefix: Seq<char>,
)
    requires
        0 <= k < ctx.tree.named_kids(list).len(),
        ctx.piece(ctx.tree.end_of(ctx.tree.named_kids(list)[k]), ctx.offset as int) == seq!['.']
            + prefix,
        forall|i: int| 0 <= i < prefix.len() ==> is_word(#[trigger] prefix[i]),
        find(seq!['.'] + prefix, SENTINEL@) is None,
        find(prefix, SENTINEL@) is None,
        forall|q: int|
            0 <= q < k ==> dotted_rest(
                ctx.piece(
                    ctx.tree.end_of(#[trigger] ctx.tree.named_kids(list)[q]),
                    ctx.offset as int,
                ),
            ) is None,
    ensures
        is_member_of(
            argument_list_location(ctx, list),
            ctx.text_of(ctx.tree.named_kids(list)[k]),
            prefix,
        ),
{
    let gap = seq!['.'] + prefix;
    assert(unmarked(gap) == gap);
    lemma_run_end(gap, CharClass::White, 0);
    assert(gap[0] == '.');
    assert(trim_start(gap) =~= gap);
    assert(gap.skip(1) =~= prefix);
    lemma_run_end(prefix, CharClass::White, 0);
    lemma_run_start(prefix, CharClass::White, prefix.len() as int);
    if prefix.len() > 0 {
        assert(is_word(prefix[0]) && is_word(prefix[prefix.len() - 1]));
    }
    assert(trim_start(prefix) =~= prefix);
    assert(unmarked(prefix) == prefix);
    assert(trim_end(prefix) =~= prefix);
    lemma_dotted_found(ctx, ctx.tree.named_kids(list), 0, k, prefix);
}

proof fn lemma_dotted_found(
    ctx: &JavaContextExtractor,
    ids: Seq<NodeId>,
    i: int,
    k: int,
    prefix: Seq<char>,
)
    requires
        0 <= i <= k < ids.len(),
        dotted_rest(ctx.piece(ctx.tree.end_of(ids[k]), ctx.offset as int)) == Some(prefix),
        forall|q: int|
            i <= q < k ==> dotted_rest(
                ctx.piece(ctx.tree.end_of(#[trigger] ids[q]), ctx.offset as int),
            ) is None,
    ensures
        dotted_argument_from(ctx, ids, i) == Some((ctx.text_of(ids[k]), prefix)),
    decreases k - i,
{
    if i < k {
        lemma_dotted_found(ctx, ids, i + 1, k, prefix);
    }
}

/// What is being typed in an expression is what is being typed in its first part near the cursor
/// that anything is typed in.
pub proof fn lemma_typed_in_parts(ctx: &JavaContextExtractor, n: NodeId, i: int, k: int)
    requires
        ctx.wf(),
        ctx.tree.has(n),
        0 <= i <= k < ctx.tree.named_kids(n).len(),
        subtree_prefix(ctx, ctx.tree.named_kids(n)[k]).len() > 0,
        forall|q: int|
            i <= q < k ==> subtree_prefix(ctx, #[trigger] ctx.tree.named_kids(n)[q]).len() == 0,
    ensures
        subtree_prefix_from(ctx, n, i) == subtree_prefix(ctx, ctx.tree.named_kids(n)[k]),
    decreases k - i,
{
    assert(ctx.tree.nodes@[n as int].placed(n as int, ctx.tree.nodes@.len() as int));
    if i < k {
        lemma_typed_in_parts(ctx, n, i + 1, k);
    }
}

/// A name that reaches to the cursor is typed up to the cursor; what ends before the byte before the
/// cursor is not being typed.
pub proof fn lemma_typed_names(ctx: &JavaContextExtractor, n: NodeId)
    ensures
        (ctx.tree.kind_of(n) == "identifier"@ || ctx.tree.kind_of(n) == "type_identifier"@)
            && ctx.tree.start_of(n) <= ctx.offset && ctx.tree.end_of(n) >= ctx.offset && find(
            ctx.text_to_cursor(n),
            SENTINEL@,
        ) is None ==> subtree_prefix(ctx, n) == ctx.text_to_cursor(n),
        ctx.tree.end_of(n) < ctx.offset - 1 || ctx.tree.start_of(n) > ctx.offset ==> subtree_prefix(
            ctx,
            n,
        ).len() == 0,
{
    let s = ctx.text_to_cursor(n);
    if find(s, SENTINEL@) is None {
        assert(unmarked(s) == s);
    }
}

// ---- labels ------------------------------------------------------------------------------------

/// `break` and `continue` at the end of the text before the cursor, as words of their own, await a
/// label.
pub proof fn lemma_ending_jumps(head: Seq<char>)
    ensures
        ending_jump(head + seq!['b', 'r', 'e', 'a', 'k']) == Some(
            (
                StatementLabelCompletionKind::Break,
                !(head.len() > 0 && is_word(head.last())),
            ),
        ),
        ending_jump(head + seq!['c', 'o', 'n', 't', 'i', 'n', 'u', 'e']) == Some(
            (
                StatementLabelCompletionKind::Continue,
                !(head.len() > 0 && is_word(head.last())),
            ),
        ),
{
    reveal_strlit("break");
    reveal_strlit("continue");
    assert("break"@ =~= seq!['b', 'r', 'e', 'a', 'k']);
    assert("continue"@ =~= seq!['c', 'o', 'n', 't', 'i', 'n', 'u', 'e']);
    let a = head + seq!['b', 'r', 'e', 'a', 'k'];
    let b = head + seq!['c', 'o', 'n', 't', 'i', 'n', 'u', 'e'];
    assert(a.skip(a.len() - 5) =~= "break"@);
    assert(a.take(a.len() - 5) =~= head);
    assert(b.skip(b.len() - 8) =~= "continue"@);
    assert(b.take(b.len() - 8) =~= head);
    if crate::text::ends_with(b, "break"@) {
        assert(b.skip(b.len() - 5)[0] == b[b.len() - 5]);
        assert("break"@[0] == 'b');
        assert(b[b.len() - 5] == 't');
    }
}

// ---- blocks ------------------------------------------------------------------------------------

proof fn lemma_last_ending(t: &SyntaxTree, ids: Seq<NodeId>, offset: int, i: int, last: Option<NodeId>, k: int)
    requires
        0 <= i <= k < ids.len(),
        t.end_of(ids[k]) <= offset,
        forall|q: int| k < q < ids.len() ==> t.end_of(#[trigger] ids[q]) > offset,
    ensures
        last_ending_from(t, ids, offset, i, last) == Some(ids[k]),
    decreases ids.len() - i,
{
    if i < k {
        let next = if t.end_of(ids[i]) <= offset {
            Some(ids[i])
        } else {
            last
        };
        lemma_last_ending(t, ids, offset, i + 1, next, k);
    } else {
        lemma_rest_not_ending(t, ids, offset, k + 1, Some(ids[k]));
    }
}

proof fn lemma_rest_not_ending(
    t: &SyntaxTree,
    ids: Seq<NodeId>,
    offset: int,
    i: int,
    last: Option<NodeId>,
)
    requires
        0 <= i,
        forall|q: int| i <= q < ids.len() ==> t.end_of(#[trigger] ids[q]) > offset,
    ensures
        last_ending_from(t, ids, offset, i, last) == last,
    decreases ids.len() - i,
{
    if i < ids.len() {
        lemma_rest_not_ending(t, ids, offset, i + 1, last);
    }
}

/// In a block, the last thing before the cursor decides: an error tells what it is, and behind
/// anything else a statement begins.
pub proof fn lemma_blocks(ctx: &JavaContextExtractor, block: NodeId, k: int)
    requires
        0 <= k < ctx.tree.named_kids(block).len(),
        ctx.tree.end_of(ctx.tree.named_kids(block)[k]) <= ctx.offset,
        forall|q: int|
            k < q < ctx.tree.named_kids(block).len() ==> ctx.tree.end_of(
                #[trigger] ctx.tree.named_kids(block)[q],
            ) > ctx.offset,
    ensures
        ctx.tree.kind_of(ctx.tree.named_kids(block)[k]) == "ERROR"@ ==> block_location(ctx, block)
            == error_before_cursor(ctx, ctx.tree.named_kids(block)[k]),
        ctx.tree.kind_of(ctx.tree.named_kids(block)[k]) != "ERROR"@ ==> block_location(ctx, block)
            == between_statements(ctx, block),
{
    lemma_last_ending(
        &ctx.tree,
        ctx.tree.named_kids(block),
        ctx.offset as int,
        0,
        None,
        k,
    );
}

/// Behind an error that is a type, the name of a variable is awaited.
pub proof fn lemma_types_in_errors_await_names(
    ctx: &JavaContextExtractor,
    error: NodeId,
    ty: Seq<char>,
)
    requires
        type_in_error(ctx, error) == Some(ty),
        forall|q: int|
            0 <= q < ctx.tree.named_kids(error).len() ==> ctx.tree.kind_of(
                #[trigger] ctx.tree.named_kids(error)[q],
            ) != "scoped_type_identifier"@,
    ensures
        error_before_cursor(ctx, error) == (
            LocationView::VariableName { type_text: ty },
            Seq::<char>::empty(),
        ),
{
    lemma_no_scoped(ctx, ctx.tree.named_kids(error), 0);
}

proof fn lemma_no_scoped(ctx: &JavaContextExtractor, ids: Seq<NodeId>, i: int)
    requires
        0 <= i,
        forall|q: int|
            0 <= q < ids.len() ==> ctx.tree.kind_of(#[trigger] ids[q]) != "scoped_type_identifier"@,
    ensures
        crate::location::block::scoped_member_from(ctx, ids, i) is None,
    decreases ids.len() - i,
{
    if i < ids.len() {
        lemma_no_scoped(ctx, ids, i + 1);
    }
}

/// Between statements, where neither the tree nor the text tells anything, an expression begins.
pub proof fn lemma_between_statements(ctx: &JavaContextExtractor, block: NodeId, k: int)
    requires
        type_before_name(ctx.before()) is None,
        trailing_dot(ctx.before()) is None,
        forall|q: int|
            0 <= q < ctx.tree.named_kids(block).len() ==> ctx.tree.kind_of(
                #[trigger] ctx.tree.named_kids(block)[q],
            ) != "ERROR"@,
    ensures
        between_statements(ctx, block) == (
            LocationView::Expression { prefix: Seq::<char>::empty() },
            Seq::<char>::empty(),
        ),
{
    lemma_last_ended_in(ctx, ctx.tree.named_kids(block), 0, None);
}

proof fn lemma_last_ended_in(
    ctx: &JavaContextExtractor,
    ids: Seq<NodeId>,
    i: int,
    last: Option<NodeId>,
)
    requires
        0 <= i,
        last matches Some(n) ==> ctx.tree.kind_of(n) != "ERROR"@,
        forall|q: int| 0 <= q < ids.len() ==> ctx.tree.kind_of(#[trigger] ids[q]) != "ERROR"@,
    ensures
        crate::location::declarations::last_ended_from(
            &ctx.tree,
            ids,
            ctx.offset as int,
            i,
            last,
        ) matches Some(n) ==> ctx.tree.kind_of(n) != "ERROR"@,
    decreases ids.len() - i,
{
    if i < ids.len() && ctx.tree.end_of(ids[i]) <= ctx.offset {
        lemma_last_ended_in(ctx, ids, i + 1, Some(ids[i]));
    }
}

} // verus!
