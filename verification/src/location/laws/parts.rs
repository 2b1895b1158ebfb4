//! Type arguments before a name, dots behind receivers, and qualified types on the next line.
use vstd::prelude::*;

use crate::extractor::{is_keyword, JavaContextExtractor};
use crate::location::arguments::{awaits_operand, near_cursor};
use crate::location::declarations::{
    complete_declaration, last_declaration, last_declaration_from, prefix_after_dot, usable_type,
};
use crate::location::handlers::{
    after_type_arguments, angle_close, member_expression, string_prefix,
};
use crate::location::hints::{hint_at_arrow, hint_in_error, last_arrow};
use crate::location::recovery::misread_expression;
use crate::semantic::LocationView;
use crate::syntax::laws::lemma_first_kind_from;
use crate::syntax::{KindClass, NodeId, SyntaxTree};
use crate::text::{is_white, is_word, lemma_run_end, run_end, trim, trim_start, CharClass};

use super::jumps::has_parts;
use super::lemma_first_kind_is;

verus! {

// ---- type arguments before a name --------------------------------------------------------------

proof fn lemma_angle_close(s: Seq<char>, i: int, k: int)
    requires
        0 <= i <= k < s.len(),
        s[k] == '>',
        forall|q: int| i <= q < k ==> #[trigger] s[q] != '<' && s[q] != '>',
    ensures
        angle_close(s, i, 1) == Some(k),
    decreases k - i,
{
    if i < k {
        lemma_angle_close(s, i + 1, k);
    }
}

proof fn lemma_start_stays(s: Seq<char>)
    requires
        s.len() == 0 || !is_white(s[0]),
    ensures
        trim_start(s) == s,
{
    lemma_run_end(s, CharClass::White, 0);
    let e = run_end(s, CharClass::White, 0);
    if e > 0 {
        assert(is_white(s[0]));
    }
    assert(s.skip(0) =~= s);
}

/// Type arguments before a name are passed over, and so are those within them.
pub proof fn lemma_type_arguments_before_name(
    a: Seq<char>,
    b: Seq<char>,
    c: Seq<char>,
    name: Seq<char>,
)
    requires
        forall|k: int| 0 <= k < a.len() ==> #[trigger] a[k] != '<' && a[k] != '>',
        forall|k: int| 0 <= k < b.len() ==> #[trigger] b[k] != '<' && b[k] != '>',
        forall|k: int| 0 <= k < c.len() ==> #[trigger] c[k] != '<' && c[k] != '>',
        name.len() == 0 || !is_white(name[0]) && name[0] != '<',
    ensures
        after_type_arguments(name) == name,
        after_type_arguments(seq!['<'] + a + seq!['>'] + name) == name,
        after_type_arguments(
            seq!['<'] + a + seq!['<'] + b + seq!['>'] + c + seq!['>'] + name,
        ) == name,
{
    lemma_start_stays(name);
    let s = seq!['<'] + a + seq!['>'] + name;
    lemma_start_stays(s);
    let k = 1 + a.len() as int;
    assert forall|q: int| 1 <= q < k implies #[trigger] s[q] != '<' && s[q] != '>' by {
        assert(s[q] == a[q - 1]);
    }
    assert(s[k] == '>');
    lemma_angle_close(s, 1, k);
    assert(angle_close(s, 0, 0) == angle_close(s, 1, 1));
    assert(s.skip(k + 1) =~= name);
    let t = seq!['<'] + a + seq!['<'] + b + seq!['>'] + c + seq!['>'] + name;
    lemma_start_stays(t);
    let i = 1 + a.len() as int;
    let j = i + 1 + b.len();
    let e = j + 1 + c.len();
    assert(t[i] == '<' && t[j] == '>' && t[e] == '>');
    assert forall|q: int| 1 <= q < i implies #[trigger] t[q] != '<' && t[q] != '>' by {
        assert(t[q] == a[q - 1]);
    }
    assert forall|q: int| i < q < j implies #[trigger] t[q] != '<' && t[q] != '>' by {
        assert(t[q] == b[q - i - 1]);
    }
    assert forall|q: int| j < q < e implies #[trigger] t[q] != '<' && t[q] != '>' by {
        assert(t[q] == c[q - j - 1]);
    }
    lemma_angle_runs(t, 1, i, 1);
    lemma_angle_runs(t, i + 1, j, 2);
    lemma_angle_close(t, j + 1, e);
    assert(angle_close(t, 0, 0) == angle_close(t, 1, 1));
    assert(angle_close(t, i, 1) == angle_close(t, i + 1, 2));
    assert(angle_close(t, j, 2) == angle_close(t, j + 1, 1));
    assert(t.skip(e + 1) =~= name);
}

proof fn lemma_angle_runs(s: Seq<char>, i: int, k: int, depth: int)
    requires
        0 <= i <= k <= s.len(),
        forall|q: int| i <= q < k ==> #[trigger] s[q] != '<' && s[q] != '>',
    ensures
        angle_close(s, i, depth) == angle_close(s, k, depth),
    decreases k - i,
{
    if i < k {
        lemma_angle_runs(s, i + 1, k, depth);
    }
}

// ---- text blocks -------------------------------------------------------------------------------

/// In a block of text, what stands behind its three quotes is completed, without the end of the
/// line that they stand on; other nodes are taken as they are.
pub proof fn lemma_text_blocks(ctx: &JavaContextExtractor, n: NodeId, inner: Seq<char>)
    ensures
        ctx.tree.kind_of(n) == "text_block"@ && ctx.text_to_cursor(n) == seq!['"', '"', '"', '\n']
            + inner ==> string_prefix(ctx, n) == inner,
        ctx.tree.kind_of(n) == "text_block"@ && ctx.text_to_cursor(n) == seq!['"', '"', '"'] + inner
            && (inner.len() == 0 || inner[0] != '\n') ==> string_prefix(ctx, n) == inner,
        ctx.tree.kind_of(n) == "text_block"@ && (ctx.text_to_cursor(n).len() < 3
            || ctx.text_to_cursor(n)[0] != '"') ==> string_prefix(ctx, n) == ctx.text_to_cursor(n),
{
    reveal_strlit("text_block");
    reveal_strlit("string_literal");
    assert("text_block"@.len() != "string_literal"@.len());
    reveal_strlit("\"\"\"");
    assert("\"\"\""@ =~= seq!['"', '"', '"']);
    let raw = ctx.text_to_cursor(n);
    let a = seq!['"', '"', '"', '\n'] + inner;
    let b = seq!['"', '"', '"'] + inner;
    assert(a.take(3) =~= "\"\"\""@);
    assert(b.take(3) =~= "\"\"\""@);
    assert(a.skip(3) =~= seq!['\n'] + inner);
    assert(b.skip(3) =~= inner);
    assert(a.skip(3).skip(1) =~= inner);
    if raw.len() >= 3 {
        assert(raw.take(3)[0] == raw[0]);
    }
}

// ---- dots --------------------------------------------------------------------------------------

/// What does not begin with a dot is no member; behind a dot, the first word is what is typed.
pub proof fn lemma_behind_dots(s: Seq<char>, word: Seq<char>, rest: Seq<char>)
    requires
        forall|k: int| 0 <= k < word.len() ==> is_word(#[trigger] word[k]),
        rest.len() == 0 || !is_word(rest[0]),
        word.len() > 0,
    ensures
        s.len() == 0 || !is_white(s[0]) && s[0] != '.' ==> prefix_after_dot(s) is None,
        prefix_after_dot(seq!['.'] + word + rest) == Some(word),
{
    if s.len() == 0 || !is_white(s[0]) {
        lemma_start_stays(s);
    }
    let t = seq!['.'] + word + rest;
    assert(t[0] == '.');
    lemma_start_stays(t);
    let u = t.skip(1);
    assert(u =~= word + rest);
    assert(u[0] == word[0]);
    assert(is_word(word[0]));
    lemma_start_stays(u);
    lemma_run_end(u, CharClass::Word, 0);
    let e = run_end(u, CharClass::Word, 0);
    if e < word.len() {
        assert(u[e] == word[e]);
    }
    if e > word.len() {
        assert(u[word.len() as int] == rest[0]);
        assert(CharClass::Word.has(u[word.len() as int]));
    }
    assert(u.take(e) =~= word);
}

/// An operation that begins behind the cursor awaits nothing.
pub proof fn lemma_operations_ahead(ctx: &JavaContextExtractor, n: NodeId)
    ensures
        ctx.offset < ctx.tree.start_of(n) ==> !awaits_operand(ctx, n),
        ctx.tree.field_of(n, "right"@) is None ==> (ctx.tree.field_of(n, "value"@) matches Some(v)
            && ctx.tree.node(v).missing && ctx.offset >= ctx.tree.start_of(n)
            && KindClass::OperandHolder.has(ctx.tree.kind_of(n)) ==> awaits_operand(ctx, n)),
{
}

// ---- qualified types on the next line ----------------------------------------------------------

/// A type on a line of its own, with an error on the next line that holds a dot between names, is an
/// expression, and the names on the next line are a type.
pub proof fn lemma_joined_qualified_types(
    ctx: &JavaContextExtractor,
    n: NodeId,
    decl: NodeId,
    ty: int,
    d: int,
    name: NodeId,
    e: int,
    dot: int,
)
    requires
        has_parts(ctx.tree, decl, ty, d),
        ctx.tree.descends(n, ctx.tree.named_kids(decl)[ty]),
        ctx.tree.field_of(ctx.tree.named_kids(decl)[d], "name"@) == Some(name),
        ctx.piece(
            ctx.tree.end_of(ctx.tree.named_kids(decl)[ty]),
            ctx.tree.start_of(name),
        ).contains('\n'),
        ({
            let t = ctx.tree;
            let error = t.kids(decl)[e];
            &&& 0 <= e < t.kids(decl).len() && t.kind_of(error) == "ERROR"@
            &&& forall|x: int| 0 <= x < e ==> t.kind_of(#[trigger] t.kids(decl)[x]) != "ERROR"@
            &&& t.start_of(error) > t.end_of(t.named_kids(decl)[ty])
            &&& t.end_of(error) <= t.start_of(t.named_kids(decl)[d])
            &&& ctx.piece(t.end_of(t.named_kids(decl)[ty]), t.start_of(error)).contains('\n')
            &&& 0 <= dot < t.kids(error).len() && t.kind_of(t.kids(error)[dot]) == "."@
            &&& t.named_kids(error).len() >= 2
            &&& forall|x: int|
                0 <= x < t.named_kids(error).len() ==> t.kind_of(
                    #[trigger] t.named_kids(error)[x],
                ) == "identifier"@ || t.kind_of(t.named_kids(error)[x]) == "type_identifier"@
        }),
    ensures
        misread_expression(ctx, n, decl),
{
    let t = &ctx.tree;
    let ids = t.named_kids(decl);
    super::jumps::lemma_declared_type_at(t, ids, 0, ty);
    lemma_first_kind_is(ctx.tree, ids, "variable_declarator"@, 0, d);
    lemma_first_kind_is(ctx.tree, t.kids(decl), "ERROR"@, 0, e);
    lemma_first_kind_from(ctx.tree, t.kids(t.kids(decl)[e]), "."@, 0);
}

/// Names on the same line as the type, or something that is no name among them, leave the type a
/// type.
pub proof fn lemma_not_joined(
    ctx: &JavaContextExtractor,
    n: NodeId,
    decl: NodeId,
    ty: int,
    d: int,
    name: NodeId,
    e: int,
    x: int,
)
    requires
        has_parts(ctx.tree, decl, ty, d),
        ctx.tree.next_of(decl) is None,
        ctx.tree.field_of(ctx.tree.named_kids(decl)[d], "name"@) == Some(name),
        trim(ctx.text_of(name)) != "this"@,
        trim(ctx.text_of(name)) != "super"@,
        forall|q: int|
            0 <= q < ctx.tree.kids(ctx.tree.named_kids(decl)[d]).len() ==> ctx.tree.kind_of(
                #[trigger] ctx.tree.kids(ctx.tree.named_kids(decl)[d])[q],
            ) != "ERROR"@,
        ({
            let t = ctx.tree;
            let error = t.kids(decl)[e];
            &&& 0 <= e < t.kids(decl).len() && t.kind_of(error) == "ERROR"@
            &&& forall|q: int| 0 <= q < e ==> t.kind_of(#[trigger] t.kids(decl)[q]) != "ERROR"@
            &&& {
                ||| !ctx.piece(t.end_of(t.named_kids(decl)[ty]), t.start_of(error)).contains('\n')
                ||| t.named_kids(error).len() < 2
                ||| t.start_of(error) <= t.end_of(t.named_kids(decl)[ty])
                ||| t.end_of(error) > t.start_of(t.named_kids(decl)[d])
                ||| forall|q: int|
                    0 <= q < t.kids(error).len() ==> t.kind_of(#[trigger] t.kids(error)[q]) != "."@
                ||| 0 <= x < t.named_kids(error).len() && t.kind_of(t.named_kids(error)[x])
                    == "method_invocation"@
            }
        }),
    ensures
        !misread_expression(ctx, n, decl),
{
    let t = &ctx.tree;
    let ids = t.named_kids(decl);
    super::jumps::lemma_declared_type_at(t, ids, 0, ty);
    lemma_first_kind_is(ctx.tree, ids, "variable_declarator"@, 0, d);
    lemma_first_kind_is(ctx.tree, t.kids(decl), "ERROR"@, 0, e);
    lemma_first_kind_from(ctx.tree, t.kids(t.kids(decl)[e]), "."@, 0);
    lemma_first_kind_from(ctx.tree, t.kids(ids[d]), "ERROR"@, 0);
    lemma_calls_are_no_types();
}

proof fn lemma_calls_are_no_types()
    ensures
        !KindClass::TypeLikeOrIdentifier.has("method_invocation"@),
{
    crate::syntax::groups::lemma_type_like_or_identifier("method_invocation"@);
    reveal_strlit("method_invocation");
    reveal_strlit("identifier");
    reveal_strlit("type_identifier");
    reveal_strlit("scoped_type_identifier");
    reveal_strlit("generic_type");
    reveal_strlit("array_type");
    reveal_strlit("integral_type");
    reveal_strlit("floating_point_type");
    reveal_strlit("boolean_type");
    reveal_strlit("void_type");
    reveal_strlit("annotated_type");
    assert("method_invocation"@.len() == 17);
}

// ---- arrows ------------------------------------------------------------------------------------

/// An error without an arrow before the cursor asks the node above it.
pub proof fn lemma_errors_without_arrow(ctx: &JavaContextExtractor, n: NodeId, p: NodeId)
    requires
        ctx.tree.parent_of(n) == Some(p),
        p < n,
        forall|q: int|
            0 <= q < ctx.tree.kids(n).len() ==> ctx.tree.kind_of(#[trigger] ctx.tree.kids(n)[q])
                != "->"@ || ctx.tree.end_of(ctx.tree.kids(n)[q]) > ctx.offset,
    ensures
        hint_in_error(ctx, n) == hint_in_error(ctx, p),
{
    lemma_no_arrow(ctx, ctx.tree.kids(n), ctx.tree.kids(n).len() as int);
}

proof fn lemma_no_arrow(ctx: &JavaContextExtractor, ids: Seq<NodeId>, j: int)
    requires
        0 <= j <= ids.len(),
        forall|q: int|
            0 <= q < ids.len() ==> ctx.tree.kind_of(#[trigger] ids[q]) != "->"@ || ctx.tree.end_of(
                ids[q],
            ) > ctx.offset,
    ensures
        last_arrow(ctx, ids, j) is None,
    decreases j,
{
    if j > 0 {
        lemma_no_arrow(ctx, ids, j - 1);
    }
}

/// Without a type two places before the sign, an arrow tells nothing.
pub proof fn lemma_arrows_without_type(ctx: &JavaContextExtractor, n: NodeId, arrow: int, eq: int)
    requires
        2 <= eq < ctx.tree.kids(n).len(),
        ctx.tree.kind_of(ctx.tree.kids(n)[eq - 2]) == "identifier"@ || trim(
            ctx.text_of(ctx.tree.kids(n)[eq - 2]),
        ).len() == 0,
    ensures
        hint_at_arrow(ctx, ctx.tree.kids(n), arrow, eq) is None,
{
    reveal_strlit("identifier");
    reveal_strlit("type_identifier");
    reveal_strlit("generic_type");
    reveal_strlit("scoped_type_identifier");
    reveal_strlit("array_type");
    assert("identifier"@.len() == 10 && "type_identifier"@.len() == 15 && "generic_type"@.len()
        == 12 && "scoped_type_identifier"@.len() == 22);
    assert("identifier"@[0] == 'i' && "array_type"@[0] == 'a');
}

// ---- members without a receiver ----------------------------------------------------------------

/// A dot that nothing stands before has no receiver; before it nothing is typed yet.
pub proof fn lemma_leading_dots(ctx: &JavaContextExtractor, n: NodeId)
    requires
        ctx.tree.kids(n).len() > 0,
        ctx.tree.kind_of(ctx.tree.kids(n)[0]) == "."@,
    ensures
        ctx.offset <= ctx.tree.start_of(ctx.tree.kids(n)[0]) ==> member_expression(ctx, n) == (
            LocationView::Expression { prefix: Seq::<char>::empty() },
            Seq::<char>::empty(),
        ),
        ctx.offset > ctx.tree.start_of(ctx.tree.kids(n)[0]) ==> (member_expression(ctx, n).0 matches
            LocationView::MemberAccess { receiver_expr, .. } && receiver_expr.len() == 0),
{
}

/// A node is near the cursor where it begins by the cursor and reaches to it, or ends right before
/// a character of one byte.
pub proof fn lemma_near_cursor(ctx: &JavaContextExtractor, n: NodeId)
    ensures
        ctx.tree.start_of(n) <= ctx.offset && ctx.tree.end_of(n) >= ctx.offset ==> near_cursor(
            ctx,
            n,
        ),
        ctx.tree.start_of(n) <= ctx.offset && ctx.tree.end_of(n) == ctx.offset - 1 && (
        ctx.source@[ctx.offset - 1] as u32) < 128 ==> near_cursor(ctx, n),
        ctx.tree.start_of(n) > ctx.offset || ctx.tree.end_of(n) < ctx.offset - 1 ==> !near_cursor(
            ctx,
            n,
        ),
        ctx.tree.end_of(n) == ctx.offset - 1 && (ctx.source@[ctx.offset - 1] as u32) >= 128
            ==> !near_cursor(ctx, n),
{
}

// ---- declarations ------------------------------------------------------------------------------

/// Before a limit, only a declaration that is complete and ends by the limit counts.
pub proof fn lemma_limited_declarations(t: &SyntaxTree, n: NodeId, limit: int)
    requires
        t.linked(),
        t.has(n),
    ensures
        last_declaration(t, n, Some(limit)) matches Some(r) ==> t.end_of(r) <= limit && (t.kind_of(r)
            == "local_variable_declaration"@ || t.kind_of(r) == "field_declaration"@),
    decreases t.nodes@.len() - n, t.named_kids(n).len() + 1,
{
    let own = if complete_declaration(t, n) && t.end_of(n) <= limit {
        Some(n)
    } else {
        None
    };
    lemma_limited_from(t, n, limit, 0, own);
}

proof fn lemma_limited_from(
    t: &SyntaxTree,
    n: NodeId,
    limit: int,
    i: int,
    last: Option<NodeId>,
)
    requires
        t.linked(),
        t.has(n),
        0 <= i <= t.named_kids(n).len(),
        last matches Some(r) ==> t.end_of(r) <= limit && (t.kind_of(r)
            == "local_variable_declaration"@ || t.kind_of(r) == "field_declaration"@),
    ensures
        last_declaration_from(t, n, Some(limit), i, last) matches Some(r) ==> t.end_of(r) <= limit
            && (t.kind_of(r) == "local_variable_declaration"@ || t.kind_of(r)
            == "field_declaration"@),
    decreases t.nodes@.len() - n, t.named_kids(n).len() - i,
{
    if i < t.named_kids(n).len() {
        assert(t.nodes@[n as int].placed(n as int, t.nodes@.len() as int));
        let k = t.named_kids(n)[i];
        assert(k == t.nodes@[n as int].named_children@[i]);
        if t.start_of(k) <= limit {
            lemma_limited_declarations(t, k, limit);
            let next = match last_declaration(t, k, Some(limit)) {
                Some(r) => Some(r),
                None => last,
            };
            lemma_limited_from(t, n, limit, i + 1, next);
        }
    }
}

/// A complete declaration that ends by the limit, with none in its parts, counts; a part that begins
/// by the limit and holds the last one tells it.
pub proof fn lemma_counted_declarations(t: &SyntaxTree, n: NodeId, limit: int, d: int, r: NodeId)
    requires
        t.linked(),
        t.has(n),
    ensures
        (t.kind_of(n) == "local_variable_declaration"@ || t.kind_of(n) == "field_declaration"@)
            && t.end_of(n) <= limit && 0 <= d < t.named_kids(n).len() && t.kind_of(
            t.named_kids(n)[d],
        ) == "variable_declarator"@ && (forall|q: int|
            0 <= q < t.named_kids(n).len() ==> last_declaration(
                t,
                #[trigger] t.named_kids(n)[q],
                Some(limit),
            ) is None) ==> last_declaration(t, n, Some(limit)) == Some(n),
        t.named_kids(n).len() == 1 && t.start_of(t.named_kids(n)[0]) <= limit && last_declaration(
            t,
            t.named_kids(n)[0],
            Some(limit),
        ) == Some(r) ==> last_declaration(t, n, Some(limit)) == Some(r),
{
    assert(t.nodes@[n as int].placed(n as int, t.nodes@.len() as int));
    lemma_first_kind_from(*t, t.named_kids(n), "variable_declarator"@, 0);
    if forall|q: int|
        0 <= q < t.named_kids(n).len() ==> last_declaration(
            t,
            #[trigger] t.named_kids(n)[q],
            Some(limit),
        ) is None {
        lemma_limited_stays(t, n, limit, 0, Some(n));
    }
    if t.named_kids(n).len() == 1 {
        assert(t.named_kids(n)[0] == t.nodes@[n as int].named_children@[0]);
        reveal_with_fuel(last_declaration_from, 3);
    }
}

proof fn lemma_limited_stays(t: &SyntaxTree, n: NodeId, limit: int, i: int, last: Option<NodeId>)
    requires
        0 <= i,
        forall|q: int|
            0 <= q < t.named_kids(n).len() ==> last_declaration(
                t,
                #[trigger] t.named_kids(n)[q],
                Some(limit),
            ) is None,
    ensures
        last_declaration_from(t, n, Some(limit), i, last) == last,
    decreases t.named_kids(n).len() - i,
{
    if i < t.named_kids(n).len() {
        assert(last_declaration(t, t.named_kids(n)[i], Some(limit)) is None);
        lemma_limited_stays(t, n, limit, i + 1, last);
    }
}

/// A declaration without a variable is not complete, and is none to await a name behind.
pub proof fn lemma_incomplete_declarations(t: &SyntaxTree, n: NodeId)
    requires
        forall|q: int|
            0 <= q < t.named_kids(n).len() ==> t.kind_of(#[trigger] t.named_kids(n)[q])
                != "variable_declarator"@ && last_declaration(t, t.named_kids(n)[q], None) is None,
    ensures
        last_declaration(t, n, None) is None,
{
    lemma_first_kind_from(*t, t.named_kids(n), "variable_declarator"@, 0);
    super::awaited::lemma_last_stays(t, n, 0, None);
}

/// A keyword and nothing are no types.
pub proof fn lemma_usable_types(s: Seq<char>)
    ensures
        usable_type(s) == if s.len() == 0 || is_keyword(s) {
            None
        } else {
            Some(s)
        },
{
}

} // verus!
