//! The order of the rules, names that are awaited on a line of their own, and calls in
//! declarations.
use vstd::prelude::*;

use crate::extractor::{is_keyword, unmarked, JavaContextExtractor, SENTINEL};
use crate::location::declarations::{
    constructor_in_declaration, container_and_statement, declaration_before_from, error_by,
    expected_type, expected_type_from, last_declaration, last_declaration_from,
    name_after_declaration, semicolon_among,
};
use crate::extractor::string_ancestor;
use crate::location::heuristics::new_before_cursor;
use crate::location::labels::label_location;
use crate::location::utils::{
    constructor_type_arguments, creation_at, creation_at_from, innermost_args, innermost_args_from,
    type_argument_prefix,
};
use crate::location::{
    climbed, creation_location, declaration_location, location, location_in_blank,
    location_without_rule, raw_location,
};
use crate::semantic::LocationView;
use crate::syntax::laws::lemma_first_kind_from;
use crate::syntax::{KindClass, NodeId, SyntaxTree};
use crate::text::{all_of, any_of, find, trim, CharClass};

use super::{lemma_first_other_is, lemma_node_kinds_differ};

verus! {

// ---- the order of the rules --------------------------------------------------------------------

/// In a comment nothing is completed.
pub proof fn lemma_comments(ctx: &JavaContextExtractor, n: NodeId)
    requires
        ctx.tree.kind_of(n) == "line_comment"@ || ctx.tree.kind_of(n) == "block_comment"@,
    ensures
        location(ctx, Some(n)) == (LocationView::Unknown, Seq::<char>::empty()),
{
}

/// Outside of comments, a string comes first, then a label, then what the nodes say, and last the
/// text.
pub proof fn lemma_order_of_rules(ctx: &JavaContextExtractor, n: NodeId)
    requires
        ctx.tree.kind_of(n) != "line_comment"@,
        ctx.tree.kind_of(n) != "block_comment"@,
    ensures
        string_ancestor(&ctx.tree, n) is Some ==> raw_location(ctx, Some(n)).0 is StringLiteral,
        string_ancestor(&ctx.tree, n) is None ==> (label_location(ctx, n) matches Some(l)
            ==> raw_location(ctx, Some(n)) == l),
        string_ancestor(&ctx.tree, n) is None && label_location(ctx, n) is None ==> (climbed(
            ctx,
            n,
            n,
        ) matches Some(l) ==> raw_location(ctx, Some(n)) == l),
        string_ancestor(&ctx.tree, n) is None && label_location(ctx, n) is None && climbed(ctx, n, n)
            is None ==> raw_location(ctx, Some(n)) == location_without_rule(ctx, n),
        raw_location(ctx, None) == location_in_blank(ctx),
{
}

/// What is to be completed never runs over the end of a line.
pub proof fn lemma_no_line_ends(ctx: &JavaContextExtractor, cursor: Option<NodeId>)
    ensures
        match location(ctx, cursor).0 {
            LocationView::ConstructorCall { class_prefix, .. } => !class_prefix.contains('\n'),
            LocationView::MemberAccess { member_prefix, .. } => !member_prefix.contains('\n'),
            LocationView::Expression { prefix } => !prefix.contains('\n'),
            LocationView::MethodArgument { prefix } => !prefix.contains('\n'),
            LocationView::TypeAnnotation { prefix } => !prefix.contains('\n'),
            LocationView::MethodReference { qualifier_expr, member_prefix, .. } =>
                !qualifier_expr.contains('\n') && !member_prefix.contains('\n'),
            LocationView::Annotation { prefix, .. } => !prefix.contains('\n'),
            LocationView::Import { prefix } => !prefix.contains('\n'),
            LocationView::StringLiteral { prefix } => !prefix.contains('\n'),
            _ => true,
        },
{
}

/// What does not run over the end of a line stays.
pub proof fn lemma_within_a_line(ctx: &JavaContextExtractor, cursor: Option<NodeId>)
    ensures
        ({
            let l = raw_location(ctx, cursor);
            &&& (l.0 matches LocationView::Expression { prefix } && !prefix.contains('\n'))
                ==> location(ctx, cursor) == l
            &&& (l.0 matches LocationView::MemberAccess { member_prefix, .. }
                && !member_prefix.contains('\n')) ==> location(ctx, cursor) == l
            &&& (l.0 matches LocationView::ConstructorCall { class_prefix, .. }
                && !class_prefix.contains('\n')) ==> location(ctx, cursor) == l
            &&& (l.0 matches LocationView::MethodArgument { prefix } && !prefix.contains('\n'))
                ==> location(ctx, cursor) == l
            &&& (l.0 matches LocationView::TypeAnnotation { prefix } && !prefix.contains('\n'))
                ==> location(ctx, cursor) == l
            &&& (l.0 matches LocationView::Import { prefix } && !prefix.contains('\n'))
                ==> location(ctx, cursor) == l
            &&& (l.0 matches LocationView::StringLiteral { prefix } && !prefix.contains('\n'))
                ==> location(ctx, cursor) == l
            &&& (l.0 matches LocationView::Annotation { prefix, .. } && !prefix.contains('\n'))
                ==> location(ctx, cursor) == l
            &&& l.0 is VariableName || l.0 is StatementLabel || l.0 is ImportStatic ==> location(
                ctx,
                cursor,
            ) == l
        }),
{
}

// ---- names on a line of their own --------------------------------------------------------------

/// A declaration with a variable in it, of a kind with none below it, is the last one there.
pub proof fn lemma_own_declaration(t: &SyntaxTree, n: NodeId, d: int)
    requires
        t.kind_of(n) == "local_variable_declaration"@ || t.kind_of(n) == "field_declaration"@,
        0 <= d < t.named_kids(n).len(),
        t.kind_of(t.named_kids(n)[d]) == "variable_declarator"@,
        forall|q: int|
            0 <= q < t.named_kids(n).len() ==> last_declaration(
                t,
                #[trigger] t.named_kids(n)[q],
                None,
            ) is None,
    ensures
        last_declaration(t, n, None) == Some(n),
{
    lemma_first_kind_from(*t, t.named_kids(n), "variable_declarator"@, 0);
    lemma_last_stays(t, n, 0, Some(n));
}

/// Where no part holds a declaration, the last one stays what it was.
pub proof fn lemma_last_stays(t: &SyntaxTree, n: NodeId, i: int, last: Option<NodeId>)
    requires
        0 <= i,
        forall|q: int|
            0 <= q < t.named_kids(n).len() ==> last_declaration(
                t,
                #[trigger] t.named_kids(n)[q],
                None,
            ) is None,
    ensures
        last_declaration_from(t, n, None, i, last) == last,
    decreases t.named_kids(n).len() - i,
{
    if i < t.named_kids(n).len() {
        assert(last_declaration(t, t.named_kids(n)[i], None) is None);
        lemma_last_stays(t, n, i + 1, last);
    }
}

/// What holds no declaration and is none has none.
pub proof fn lemma_no_declaration(t: &SyntaxTree, n: NodeId)
    requires
        t.kind_of(n) != "local_variable_declaration"@,
        t.kind_of(n) != "field_declaration"@,
        t.named_kids(n).len() == 0,
    ensures
        last_declaration(t, n, None) is None,
{
    reveal_with_fuel(last_declaration_from, 2);
    assert(!KindClass::VariableDeclaration.has(t.kind_of(n)));
}

proof fn lemma_declaration_before(
    t: &SyntaxTree,
    kids: Seq<NodeId>,
    position: int,
    i: int,
    last: Option<NodeId>,
    k: int,
    prev: NodeId,
)
    requires
        0 <= i <= k < kids.len(),
        last_declaration(t, kids[k], None) == Some(prev),
        forall|q: int| 0 <= q <= k ==> t.start_of(#[trigger] kids[q]) < position,
        k + 1 < kids.len() ==> t.start_of(kids[k + 1]) >= position,
    ensures
        declaration_before_from(t, kids, position, i, last) == Some(prev),
    decreases k - i,
{
    let next = crate::location::declarations::or_else(last_declaration(t, kids[i], None), last);
    if i < k {
        lemma_declaration_before(t, kids, position, i + 1, next, k, prev);
    } else {
        reveal_with_fuel(declaration_before_from, 2);
    }
}

/// A name alone on its line, with white space behind it, right after the declaration of an array on
/// a line before it, is the type of a variable whose name is awaited.
pub proof fn lemma_types_after_arrays(
    ctx: &JavaContextExtractor,
    id: NodeId,
    stmt: NodeId,
    block: NodeId,
    k: int,
    ty: int,
)
    requires
        ctx.wf(),
        ctx.tree.has(id),
        ctx.tree.has(stmt),
        trim(crate::location::text::last_line(ctx.before())).len() > 0,
        all_of(trim(crate::location::text::last_line(ctx.before())), CharClass::Ident),
        any_of(ctx.piece(ctx.tree.end_of(id), ctx.offset as int), CharClass::White),
        ctx.tree.parent_of(id) == Some(stmt),
        ctx.tree.parent_of(stmt) == Some(block),
        ctx.tree.kind_of(stmt) == "local_variable_declaration"@,
        ctx.tree.kind_of(block) == "block"@,
        forall|q: int|
            0 <= q < ctx.tree.kids(stmt).len() ==> ctx.tree.kind_of(
                #[trigger] ctx.tree.kids(stmt)[q],
            ) != ";"@,
        0 <= k < ctx.tree.named_kids(block).len(),
        ({
            let t = ctx.tree;
            let prev = t.named_kids(block)[k];
            &&& last_declaration(&t, prev, None) == Some(prev)
            &&& find(ctx.text_of(prev), "[]"@) is Some
            &&& ctx.piece(t.end_of(prev), t.start_of(id)).contains('\n')
            &&& forall|q: int|
                0 <= q <= k ==> t.start_of(#[trigger] t.named_kids(block)[q]) < t.start_of(stmt)
            &&& k + 1 < t.named_kids(block).len() ==> t.start_of(t.named_kids(block)[k + 1])
                >= t.start_of(stmt)
        }),
        0 <= ty < ctx.tree.named_kids(stmt).len(),
        ctx.tree.kind_of(ctx.tree.named_kids(stmt)[ty]) != "modifiers"@,
        forall|q: int|
            0 <= q < ty ==> ctx.tree.kind_of(#[trigger] ctx.tree.named_kids(stmt)[q])
                == "modifiers"@,
        ({
            let text = trim(ctx.text_of(ctx.tree.named_kids(stmt)[ty]));
            text.len() > 0 && !is_keyword(text) && find(text, SENTINEL@) is None
        }),
    ensures
        name_after_declaration(ctx, id) == Some(
            trim(ctx.text_of(ctx.tree.named_kids(stmt)[ty])),
        ),
{
    let t = &ctx.tree;
    assert(t.nodes@[id as int].placed(id as int, t.nodes@.len() as int));
    assert(t.nodes@[stmt as int].placed(stmt as int, t.nodes@.len() as int));
    lemma_node_kinds_differ();
    lemma_statement_is_no_container();
    reveal_with_fuel(container_and_statement, 3);
    assert(container_and_statement(t, id) == Some((block, stmt)));
    lemma_no_semicolon(t, t.kids(stmt), ctx.offset as int, 0);
    lemma_declaration_before(
        t,
        t.named_kids(block),
        t.start_of(stmt),
        0,
        None,
        k,
        t.named_kids(block)[k],
    );
    lemma_first_other_is(ctx.tree, t.named_kids(stmt), "modifiers"@, 0, ty);
    let text = trim(ctx.text_of(t.named_kids(stmt)[ty]));
    assert(unmarked(text) == text);
}

proof fn lemma_statement_is_no_container()
    ensures
        !KindClass::Container.has("local_variable_declaration"@),
        KindClass::Container.has("block"@),
        "local_variable_declaration"@ != "ERROR"@,
{
    crate::syntax::groups::lemma_container("local_variable_declaration"@);
    crate::syntax::groups::lemma_container("block"@);
    reveal_strlit("local_variable_declaration");
    reveal_strlit("ERROR");
    reveal_strlit("block");
    reveal_strlit("class_body");
    reveal_strlit("program");
    assert("local_variable_declaration"@.len() == 26);
}

proof fn lemma_no_semicolon(t: &SyntaxTree, kids: Seq<NodeId>, offset: int, i: int)
    requires
        0 <= i,
        forall|q: int| 0 <= q < kids.len() ==> t.kind_of(#[trigger] kids[q]) != ";"@,
    ensures
        !semicolon_among(t, kids, offset, i),
    decreases kids.len() - i,
{
    if i < kids.len() {
        lemma_no_semicolon(t, kids, offset, i + 1);
    }
}

/// A semicolon at the cursor or behind it ends the statement.
pub proof fn lemma_semicolons_follow(t: &SyntaxTree, kids: Seq<NodeId>, offset: int, i: int, k: int)
    requires
        0 <= i <= k < kids.len(),
        t.kind_of(kids[k]) == ";"@,
        t.start_of(kids[k]) >= offset,
    ensures
        semicolon_among(t, kids, offset, i),
    decreases k - i,
{
    if i < k {
        lemma_semicolons_follow(t, kids, offset, i + 1, k);
    }
}

/// A line with more than one name on it, and a name right at the cursor, await nothing.
pub proof fn lemma_nothing_awaited(ctx: &JavaContextExtractor, id: NodeId)
    ensures
        !any_of(ctx.piece(ctx.tree.end_of(id), ctx.offset as int), CharClass::White)
            ==> name_after_declaration(ctx, id) is None,
        trim(crate::location::text::last_line(ctx.before())).len() > 0 && !all_of(
            trim(crate::location::text::last_line(ctx.before())),
            CharClass::Ident,
        ) ==> name_after_declaration(ctx, id) is None,
{
}

// ---- constructor calls in declarations ---------------------------------------------------------

proof fn lemma_error_by(t: &SyntaxTree, ids: Seq<NodeId>, offset: int, i: int, k: int)
    requires
        0 <= i <= k < ids.len(),
        t.kind_of(ids[k]) == "ERROR"@,
        t.start_of(ids[k]) <= offset,
        forall|q: int|
            0 <= q < k ==> t.kind_of(#[trigger] ids[q]) != "ERROR"@ || t.start_of(ids[q]) > offset,
    ensures
        error_by(t, ids, offset, i) == Some(ids[k]),
    decreases k - i,
{
    if i < k {
        lemma_error_by(t, ids, offset, i + 1, k);
    }
}

proof fn lemma_expected_type_at(t: &SyntaxTree, ids: Seq<NodeId>, i: int, k: int)
    requires
        0 <= i <= k < ids.len(),
        t.kind_of(ids[k]) != "ERROR"@,
        t.kind_of(ids[k]) != "variable_declarator"@,
        forall|q: int|
            0 <= q < k ==> t.kind_of(#[trigger] ids[q]) == "ERROR"@ || t.kind_of(ids[q])
                == "variable_declarator"@,
    ensures
        expected_type_from(t, ids, i) == Some(ids[k]),
    decreases k - i,
{
    if i < k {
        lemma_expected_type_at(t, ids, i + 1, k);
    }
}

/// `new` in an error of a declaration, where the line spells a constructor call, is that call, and
/// the type of the declaration is what is expected.
pub proof fn lemma_created_in_declarations(
    ctx: &JavaContextExtractor,
    decl: NodeId,
    e: int,
    w: int,
    ty: int,
    class: Seq<char>,
    qualifier: Option<Seq<char>>,
)
    requires
        0 <= e < ctx.tree.kids(decl).len(),
        ctx.tree.kind_of(ctx.tree.kids(decl)[e]) == "ERROR"@,
        ctx.tree.start_of(ctx.tree.kids(decl)[e]) <= ctx.offset,
        forall|q: int|
            0 <= q < e ==> ctx.tree.kind_of(#[trigger] ctx.tree.kids(decl)[q]) != "ERROR"@
                || ctx.tree.start_of(ctx.tree.kids(decl)[q]) > ctx.offset,
        0 <= w < ctx.tree.kids(ctx.tree.kids(decl)[e]).len(),
        ctx.tree.kind_of(ctx.tree.kids(ctx.tree.kids(decl)[e])[w]) == "new"@,
        new_before_cursor(ctx.before()) == Some((class, qualifier)),
        0 <= ty < ctx.tree.named_kids(decl).len(),
        ctx.tree.kind_of(ctx.tree.named_kids(decl)[ty]) != "ERROR"@,
        ctx.tree.kind_of(ctx.tree.named_kids(decl)[ty]) != "variable_declarator"@,
        forall|q: int|
            0 <= q < ty ==> ctx.tree.kind_of(#[trigger] ctx.tree.named_kids(decl)[q]) == "ERROR"@
                || ctx.tree.kind_of(ctx.tree.named_kids(decl)[q]) == "variable_declarator"@,
        trim(ctx.text_of(ctx.tree.named_kids(decl)[ty])).len() > 0,
    ensures
        constructor_in_declaration(ctx, decl) == Some(
            (
                LocationView::ConstructorCall {
                    class_prefix: class,
                    expected_type: Some(trim(ctx.text_of(ctx.tree.named_kids(decl)[ty]))),
                    qualifier_expr: qualifier,
                    qualifier_owner_internal: None,
                },
                class,
            ),
        ),
{
    let t = &ctx.tree;
    lemma_error_by(t, t.kids(decl), ctx.offset as int, 0, e);
    lemma_expected_type_at(t, t.named_kids(decl), 0, ty);
    lemma_first_kind_from(ctx.tree, t.kids(t.kids(decl)[e]), "new"@, 0);
}

/// A constructor call at the cursor is found: the node itself, or the first among its children at
/// the cursor that holds one.
pub proof fn lemma_creations_at_cursor(t: &SyntaxTree, n: NodeId, offset: int, i: int, k: int)
    requires
        t.linked(),
        t.has(n),
    ensures
        t.kind_of(n) == "object_creation_expression"@ && t.start_of(n) <= offset <= t.end_of(n)
            ==> creation_at(t, n, offset) == Some(n),
        0 <= i <= k < t.named_kids(n).len() && t.kind_of(t.named_kids(n)[k])
            == "object_creation_expression"@ && t.start_of(t.named_kids(n)[k]) <= offset
            <= t.end_of(t.named_kids(n)[k]) && (forall|q: int|
            0 <= q < k ==> t.start_of(#[trigger] t.named_kids(n)[q]) > offset || t.end_of(
                t.named_kids(n)[q],
            ) < offset) ==> creation_at_from(t, n, offset, i) == Some(t.named_kids(n)[k]),
        t.kind_of(n) != "object_creation_expression"@ && t.named_kids(n).len() == 0 ==> creation_at(
            t,
            n,
            offset,
        ) is None,
    decreases k - i,
{
    assert(t.nodes@[n as int].placed(n as int, t.nodes@.len() as int));
    if 0 <= i <= k < t.named_kids(n).len() {
        assert(t.named_kids(n)[i] == t.nodes@[n as int].named_children@[i]);
        if i < k {
            lemma_creations_at_cursor(t, n, offset, i + 1, k);
        } else {
            let c = t.named_kids(n)[k];
            if t.kind_of(c) == "object_creation_expression"@ && t.start_of(c) <= offset <= t.end_of(
                c,
            ) {
                assert(creation_at(t, c, offset) == Some(c));
            }
        }
    }
}

/// The type arguments at the cursor: what is found holds the cursor between its brackets, and is no
/// longer than any of those that the search began with or has in hand.
pub proof fn lemma_type_arguments_at_cursor(
    t: &SyntaxTree,
    n: NodeId,
    offset: int,
    best: Option<NodeId>,
)
    requires
        t.linked(),
        t.has(n),
    ensures
        ({
            let r = innermost_args(t, n, offset, best);
            &&& best matches Some(b) ==> (r matches Some(x) && t.end_of(x) - t.start_of(x)
                <= t.end_of(b) - t.start_of(b))
            &&& t.kind_of(n) == "type_arguments"@ && t.start_of(n) < offset < t.end_of(n) ==> (
            r matches Some(x) && t.end_of(x) - t.start_of(x) <= t.end_of(n) - t.start_of(n))
            &&& r matches Some(x) ==> r == best || t.kind_of(x) == "type_arguments"@ && t.start_of(
                x,
            ) < offset < t.end_of(x)
        }),
    decreases t.nodes@.len() - n, t.named_kids(n).len() + 1,
{
    let own = crate::location::utils::shorter_args(t, n, offset, best);
    lemma_type_arguments_from(t, n, offset, 0, own);
}

proof fn lemma_type_arguments_from(
    t: &SyntaxTree,
    n: NodeId,
    offset: int,
    i: int,
    best: Option<NodeId>,
)
    requires
        t.linked(),
        t.has(n),
        0 <= i <= t.named_kids(n).len(),
    ensures
        ({
            let r = innermost_args_from(t, n, offset, i, best);
            &&& best matches Some(b) ==> (r matches Some(x) && t.end_of(x) - t.start_of(x)
                <= t.end_of(b) - t.start_of(b))
            &&& forall|q: int|
                i <= q < t.named_kids(n).len() && t.kind_of(#[trigger] t.named_kids(n)[q])
                    == "type_arguments"@ && t.start_of(t.named_kids(n)[q]) < offset < t.end_of(
                    t.named_kids(n)[q],
                ) ==> (r matches Some(x) && t.end_of(x) - t.start_of(x) <= t.end_of(
                    t.named_kids(n)[q],
                ) - t.start_of(t.named_kids(n)[q]))
            &&& r matches Some(x) ==> r == best || t.kind_of(x) == "type_arguments"@ && t.start_of(
                x,
            ) < offset < t.end_of(x)
        }),
    decreases t.nodes@.len() - n, t.named_kids(n).len() - i,
{
    if i < t.named_kids(n).len() {
        assert(t.nodes@[n as int].placed(n as int, t.nodes@.len() as int));
        let k = t.named_kids(n)[i];
        assert(k == t.nodes@[n as int].named_children@[i]);
        lemma_type_arguments_at_cursor(t, k, offset, best);
        lemma_type_arguments_from(t, n, offset, i + 1, innermost_args(t, k, offset, best));
    }
}

/// With the cursor in the type arguments of a constructor call, a type is completed, else the call.
pub proof fn lemma_created_types(ctx: &JavaContextExtractor, ctor: NodeId)
    ensures
        constructor_type_arguments(&ctx.tree, ctor, ctx.offset as int) matches Some(args)
            ==> creation_location(ctx, ctor) == (
            LocationView::TypeAnnotation { prefix: type_argument_prefix(ctx, args) },
            type_argument_prefix(ctx, args),
        ),
        constructor_type_arguments(&ctx.tree, ctor, ctx.offset as int) is None ==> creation_location(
            ctx,
            ctor,
        ) == crate::location::handlers::constructor_location(ctx, ctor),
        creation_at(&ctx.tree, ctor, ctx.offset as int) matches Some(c) ==> declaration_location(
            ctx,
            ctor,
        ) == Some(creation_location(ctx, c)),
{
}

} // verus!
