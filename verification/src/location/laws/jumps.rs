//! Labels, statements that lack a part, and lines that were joined.
use vstd::prelude::*;

use crate::extractor::{is_keyword, unmarked, JavaContextExtractor};
use crate::location::arguments::{
    argument_prefix, awaits_operand, expression_statement_location, fresh_argument,
    last_proper_before, list_prefix_from, lone_dot_from, near_cursor, operand_missing,
    some_awaits_operand, subtree_prefix, word_at_cursor,
};
use crate::location::handlers::jump_label;
use crate::location::heuristics::{first_ident, first_token, last_ident_end, last_token, type_before_name};
use crate::location::labels::{
    ending_jump, label_in_text, label_location, partial_jump_location, scope_start,
};
use crate::location::recovery::{
    declared_type_from, first_proper_from, first_start, in_for_header, last_end, member_tail,
    misread_expression, semicolons_from,
};
use crate::location::text::last_line;
use crate::semantic::{LocationView, StatementLabelCompletionKind};
use crate::syntax::laws::lemma_first_kind_from;
use crate::syntax::{KindClass, NodeId, SyntaxTree};
use crate::text::laws::{lemma_trim, lemma_trim_keeps};
use crate::text::{
    is_white, is_word, lemma_run_end, lemma_run_start, run_end, run_start, trim, trim_end,
    trim_start, CharClass,
};

use super::recovery::{is_member_of, lemma_ending_jumps};
use super::{lemma_first_kind_is, lemma_node_kinds_differ};

verus! {

/// A label of a statement that is jumped out of or on with.
pub open spec fn is_label(
    l: (LocationView, Seq<char>),
    breaks: bool,
    prefix: Seq<char>,
) -> bool {
    l == (
        LocationView::StatementLabel {
            kind: if breaks {
                StatementLabelCompletionKind::Break
            } else {
                StatementLabelCompletionKind::Continue
            },
            prefix,
        },
        prefix,
    )
}

// ---- labels ------------------------------------------------------------------------------------

/// A label that the cursor is not at is not being typed.
pub proof fn lemma_labels_elsewhere(ctx: &JavaContextExtractor, stmt: NodeId, k: int)
    requires
        ctx.tree.kind_of(stmt) == "break_statement"@ || ctx.tree.kind_of(stmt)
            == "continue_statement"@,
        0 <= k < ctx.tree.named_kids(stmt).len(),
        ctx.tree.kind_of(ctx.tree.named_kids(stmt)[k]) == "identifier"@,
        forall|q: int|
            0 <= q < k ==> ctx.tree.kind_of(#[trigger] ctx.tree.named_kids(stmt)[q])
                != "identifier"@,
        !(ctx.tree.start_of(ctx.tree.named_kids(stmt)[k]) <= ctx.offset <= ctx.tree.end_of(
            ctx.tree.named_kids(stmt)[k],
        )),
    ensures
        label_location(ctx, stmt) is None,
        jump_label(ctx, stmt) is None,
{
    lemma_first_kind_is(ctx.tree, ctx.tree.named_kids(stmt), "identifier"@, 0, k);
}

/// Without a label yet, the cursor behind the keyword and before the end of the statement is where
/// one goes; what stands behind the keyword is what is typed of it.
pub proof fn lemma_labels_to_come(ctx: &JavaContextExtractor, stmt: NodeId)
    requires
        ctx.tree.kind_of(stmt) == "break_statement"@ || ctx.tree.kind_of(stmt)
            == "continue_statement"@,
        forall|q: int|
            0 <= q < ctx.tree.named_kids(stmt).len() ==> ctx.tree.kind_of(
                #[trigger] ctx.tree.named_kids(stmt)[q],
            ) != "identifier"@,
    ensures
        ({
            let t = ctx.tree;
            let breaks = t.kind_of(stmt) == "break_statement"@;
            let len = if breaks {
                5int
            } else {
                8int
            };
            let behind = t.start_of(stmt) + len <= ctx.offset < t.end_of(stmt);
            &&& behind ==> (label_location(ctx, stmt) matches Some(l) && is_label(
                l,
                breaks,
                label_in_text(ctx.piece(t.start_of(stmt), ctx.offset as int)),
            ))
            &&& !behind ==> label_location(ctx, stmt) is None
            &&& t.kids(stmt).len() > 0 && ctx.offset > t.end_of(t.kids(stmt)[0]) ==> (jump_label(
                ctx,
                stmt,
            ) matches Some(l) && is_label(l, breaks, Seq::empty()))
            &&& t.kids(stmt).len() > 0 && ctx.offset <= t.end_of(t.kids(stmt)[0]) ==> jump_label(
                ctx,
                stmt,
            ) is None
        }),
{
    lemma_node_kinds_differ();
    lemma_first_kind_from(ctx.tree, ctx.tree.named_kids(stmt), "identifier"@, 0);
    lemma_jumps_differ();
}

proof fn lemma_jumps_differ()
    ensures
        "break_statement"@ != "continue_statement"@,
{
    reveal_strlit("break_statement");
    reveal_strlit("continue_statement");
    assert("break_statement"@.len() != "continue_statement"@.len());
}

/// A label at the cursor is told up to the cursor, without the marker.
pub proof fn lemma_jump_labels(ctx: &JavaContextExtractor, stmt: NodeId, k: int)
    requires
        ctx.tree.kind_of(stmt) == "break_statement"@ || ctx.tree.kind_of(stmt)
            == "continue_statement"@,
        0 <= k < ctx.tree.named_kids(stmt).len(),
        ctx.tree.kind_of(ctx.tree.named_kids(stmt)[k]) == "identifier"@,
        forall|q: int|
            0 <= q < k ==> ctx.tree.kind_of(#[trigger] ctx.tree.named_kids(stmt)[q])
                != "identifier"@,
        ctx.tree.start_of(ctx.tree.named_kids(stmt)[k]) <= ctx.offset <= ctx.tree.end_of(
            ctx.tree.named_kids(stmt)[k],
        ),
    ensures
        jump_label(ctx, stmt) matches Some(l) && is_label(
            l,
            ctx.tree.kind_of(stmt) == "break_statement"@,
            unmarked(ctx.text_to_cursor(ctx.tree.named_kids(stmt)[k])),
        ),
{
    lemma_jumps_differ();
    lemma_first_kind_is(ctx.tree, ctx.tree.named_kids(stmt), "identifier"@, 0, k);
}

/// The label in the text of a jump is the word behind the keyword.
pub proof fn lemma_label_texts(word: Seq<char>)
    requires
        word.len() > 0,
        forall|i: int| 0 <= i < word.len() ==> !is_white(#[trigger] word[i]),
    ensures
        label_in_text("break"@ + seq![' '] + word) == word,
        label_in_text("continue"@ + seq![' '] + word) == word,
        label_in_text("break"@) == Seq::<char>::empty(),
        label_in_text("continue"@) == Seq::<char>::empty(),
{
    reveal_strlit("break");
    reveal_strlit("continue");
    assert("break"@ =~= seq!['b', 'r', 'e', 'a', 'k']);
    assert("continue"@ =~= seq!['c', 'o', 'n', 't', 'i', 'n', 'u', 'e']);
    let gap = seq![' '] + word;
    let a = "break"@ + seq![' '] + word;
    let b = "continue"@ + seq![' '] + word;
    lemma_white_ends(a);
    lemma_white_ends(b);
    lemma_white_ends("break"@);
    lemma_white_ends("continue"@);
    assert(!is_white(word.last()));
    assert(!is_white('k') && !is_white('e'));
    assert(a.take(5) =~= "break"@ && a.skip(5) =~= gap);
    assert(b.take(8) =~= "continue"@ && b.skip(8) =~= gap);
    assert(b.take(5)[0] == 'c');
    assert("break"@[0] == 'b');
    assert("break"@.take(5) =~= "break"@ && "break"@.skip(5) =~= Seq::<char>::empty());
    assert("continue"@.take(8) =~= "continue"@ && "continue"@.skip(8) =~= Seq::<char>::empty());
    assert("continue"@.take(5)[0] == 'c');
    lemma_trim_behind_blank(word);
    lemma_trim(Seq::empty());
}

proof fn lemma_white_ends(s: Seq<char>)
    requires
        s.len() > 0,
    ensures
        !is_white(s.last()) ==> trim_end(s) == s,
{
    lemma_run_start(s, CharClass::White, s.len() as int);
    if !is_white(s.last()) {
        let at = run_start(s, CharClass::White, s.len() as int);
        if at < s.len() {
            assert(is_white(s[s.len() - 1]));
        }
        assert(s.take(s.len() as int) =~= s);
    }
}

proof fn lemma_trim_behind_blank(word: Seq<char>)
    requires
        word.len() > 0,
        forall|i: int| 0 <= i < word.len() ==> !is_white(#[trigger] word[i]),
    ensures
        trim(seq![' '] + word) == word,
{
    let s = seq![' '] + word;
    lemma_run_end(s, CharClass::White, 0);
    let e = run_end(s, CharClass::White, 0);
    assert(is_white(' '));
    assert(s[0] == ' ');
    assert(s[1] == word[0]);
    assert(!is_white(s[1]));
    if e == 0 {
        assert(!is_white(s[0]));
    }
    if e > 1 {
        assert(is_white(s[1]));
    }
    assert(s.skip(1) =~= word);
    lemma_white_ends(s);
    lemma_white_ends(word);
    lemma_trim_keeps(word);
    assert(s.last() == word.last());
    assert(trim_start(s) =~= word);
}

/// A jump that the parser made no statement of: the keyword before the cursor, by itself, awaits a
/// label; with a word behind it, the word is what is typed of the label.
pub proof fn lemma_jumps_in_text(ctx: &JavaContextExtractor, n: NodeId, head: Seq<char>, breaks: bool)
    requires
        head.len() == 0 || !is_word(head.last()),
        breaks ==> trim_end(ctx.piece(scope_start(&ctx.tree, n), ctx.offset as int)) == head + seq![
            'b',
            'r',
            'e',
            'a',
            'k',
        ],
        !breaks ==> trim_end(ctx.piece(scope_start(&ctx.tree, n), ctx.offset as int)) == head
            + seq!['c', 'o', 'n', 't', 'i', 'n', 'u', 'e'],
    ensures
        partial_jump_location(ctx, n) matches Some(l) && is_label(l, breaks, Seq::empty()),
{
    lemma_ending_jumps(head);
}

/// A word before the cursor with a jump keyword before it is what is typed of a label; without one
/// it is not.
pub proof fn lemma_labels_in_text(ctx: &JavaContextExtractor, n: NodeId, head: Seq<char>, breaks: bool)
    requires
        ending_jump(trim_end(ctx.piece(scope_start(&ctx.tree, n), ctx.offset as int))) is None,
        word_at_cursor(ctx, scope_start(&ctx.tree, n)).len() > 0,
    ensures
        ({
            let lower = scope_start(&ctx.tree, n);
            let word = word_at_cursor(ctx, lower);
            let rest = trim_end(ctx.piece(lower, ctx.offset - word.len()));
            &&& (head.len() == 0 || !is_word(head.last())) && rest == head + (if breaks {
                seq!['b', 'r', 'e', 'a', 'k']
            } else {
                seq!['c', 'o', 'n', 't', 'i', 'n', 'u', 'e']
            }) ==> (partial_jump_location(ctx, n) matches Some(l) && is_label(l, breaks, word))
            &&& head.len() > 0 && is_word(head.last()) && rest == head + (if breaks {
                seq!['b', 'r', 'e', 'a', 'k']
            } else {
                seq!['c', 'o', 'n', 't', 'i', 'n', 'u', 'e']
            }) ==> partial_jump_location(ctx, n) is None
            &&& ending_jump(rest) is None ==> partial_jump_location(ctx, n) is None
        }),
{
    lemma_ending_jumps(head);
}

/// A keyword that ends a longer word is none.
pub proof fn lemma_no_jump_in_word(ctx: &JavaContextExtractor, n: NodeId, head: Seq<char>)
    requires
        head.len() > 0,
        is_word(head.last()),
        trim_end(ctx.piece(scope_start(&ctx.tree, n), ctx.offset as int)) == head + seq![
            'b',
            'r',
            'e',
            'a',
            'k',
        ] || trim_end(ctx.piece(scope_start(&ctx.tree, n), ctx.offset as int)) == head + seq![
            'c',
            'o',
            'n',
            't',
            'i',
            'n',
            'u',
            'e',
        ],
    ensures
        partial_jump_location(ctx, n) is None,
{
    lemma_ending_jumps(head);
}

/// Jumps are looked for from the beginning of the block, the case or the body around the cursor.
pub proof fn lemma_scope_starts(t: &SyntaxTree, n: NodeId)
    ensures
        t.kind_of(n) == "block"@ || t.kind_of(n) == "lambda_expression"@ || t.kind_of(n)
            == "switch_rule"@ || t.kind_of(n) == "method_declaration"@ ==> scope_start(t, n)
            == t.start_of(n),
        !KindClass::StatementScope.has(t.kind_of(n)) ==> (t.ancestor_in(
            n,
            KindClass::StatementScope,
        ) matches Some(a) ==> scope_start(t, n) == t.start_of(a)),
        !KindClass::StatementScope.has(t.kind_of(n)) && t.ancestor_in(n, KindClass::StatementScope)
            is None ==> scope_start(t, n) == 0,
{
}

// ---- operands ----------------------------------------------------------------------------------

/// An operand is missing exactly where the text is blank, or ends in an operator, an opening bracket
/// or a comma.
pub proof fn lemma_missing_operands(s: Seq<char>)
    ensures
        trim_end(s).len() == 0 ==> operand_missing(s),
        trim_end(s).len() > 0 ==> (operand_missing(s) <==> {
            let c = trim_end(s).last();
            c == '+' || c == '-' || c == '*' || c == '/' || c == '%' || c == '&' || c == '|' || c
                == '^' || c == '<' || c == '>' || c == '=' || c == '!' || c == '?' || c == ':' || c
                == '(' || c == '[' || c == '{' || c == ','
        }),
{
}

/// A fresh argument begins behind a comma and behind the opening bracket.
pub proof fn lemma_fresh_arguments(ctx: &JavaContextExtractor, list: NodeId)
    ensures
        fresh_argument(ctx, list) <==> {
            let s = trim_end(
                unmarked(ctx.piece(ctx.tree.start_of(list), ctx.offset as int)),
            );
            s.len() > 0 && (s.last() == ',' || s.last() == '(')
        },
{
}

/// What is typed of an argument is an identifier in it, else the argument up to the cursor, and
/// nothing where an operand is missing.
pub proof fn lemma_typed_arguments(ctx: &JavaContextExtractor, n: NodeId)
    ensures
        subtree_prefix(ctx, n).len() > 0 ==> argument_prefix(ctx, n) == subtree_prefix(ctx, n),
        subtree_prefix(ctx, n).len() == 0 && operand_missing(unmarked(ctx.text_to_cursor(n)))
            ==> argument_prefix(ctx, n) == Seq::<char>::empty(),
        subtree_prefix(ctx, n).len() == 0 && !operand_missing(unmarked(ctx.text_to_cursor(n)))
            ==> argument_prefix(ctx, n) == unmarked(ctx.text_to_cursor(n)),
{
}

/// The argument that is being typed is the first near the cursor.
pub proof fn lemma_argument_near_cursor(
    ctx: &JavaContextExtractor,
    ids: Seq<NodeId>,
    i: int,
    k: int,
)
    requires
        0 <= i <= k < ids.len(),
        near_cursor(ctx, ids[k]),
        forall|q: int| i <= q < k ==> !near_cursor(ctx, #[trigger] ids[q]),
    ensures
        list_prefix_from(ctx, ids, i) == argument_prefix(ctx, ids[k]),
    decreases k - i,
{
    if i < k {
        lemma_argument_near_cursor(ctx, ids, i + 1, k);
    }
}

// ---- expression statements ---------------------------------------------------------------------

/// An error with a dot and nothing else.
pub open spec fn is_lone_dot(t: SyntaxTree, n: NodeId) -> bool {
    t.kind_of(n) == "ERROR"@ && t.kids(n).len() == 1 && t.kind_of(t.kids(n)[0]) == "."@
}

proof fn lemma_lone_dot_at(t: &SyntaxTree, ids: Seq<NodeId>, i: int, k: int)
    requires
        0 <= i <= k < ids.len(),
        is_lone_dot(*t, ids[k]),
        forall|q: int| 0 <= q < k ==> !is_lone_dot(*t, #[trigger] ids[q]),
    ensures
        lone_dot_from(t, ids, i) == Some(ids[k]),
    decreases k - i,
{
    if i < k {
        assert(!is_lone_dot(*t, ids[i]));
        lemma_lone_dot_at(t, ids, i + 1, k);
    }
}

proof fn lemma_no_lone_dot(t: &SyntaxTree, ids: Seq<NodeId>, i: int)
    requires
        0 <= i,
        forall|q: int| 0 <= q < ids.len() ==> !is_lone_dot(*t, #[trigger] ids[q]),
    ensures
        lone_dot_from(t, ids, i) is None,
    decreases ids.len() - i,
{
    if i < ids.len() {
        assert(!is_lone_dot(*t, ids[i]));
        lemma_no_lone_dot(t, ids, i + 1);
    }
}

proof fn lemma_proper_before(t: &SyntaxTree, ids: Seq<NodeId>, limit: int, j: int, k: int)
    requires
        0 <= k < j <= ids.len(),
        t.kind_of(ids[k]) != "ERROR"@,
        t.end_of(ids[k]) <= limit,
        forall|q: int|
            k < q < ids.len() ==> t.kind_of(#[trigger] ids[q]) == "ERROR"@ || t.end_of(ids[q])
                > limit,
    ensures
        last_proper_before(t, ids, limit, j) == Some(ids[k]),
    decreases j - k,
{
    if k < j - 1 {
        lemma_proper_before(t, ids, limit, j - 1, k);
    }
}

/// A lone dot behind an expression asks for its members, and the word behind the dot is what is
/// typed of them.
pub proof fn lemma_lone_dots(
    ctx: &JavaContextExtractor,
    stmt: NodeId,
    k: int,
    r: int,
    prefix: Seq<char>,
)
    requires
        0 <= k < ctx.tree.named_kids(stmt).len(),
        is_lone_dot(ctx.tree, ctx.tree.named_kids(stmt)[k]),
        forall|q: int|
            0 <= q < k ==> !is_lone_dot(ctx.tree, #[trigger] ctx.tree.named_kids(stmt)[q]),
        0 <= r < ctx.tree.named_kids(stmt).len(),
        ctx.tree.kind_of(ctx.tree.named_kids(stmt)[r]) != "ERROR"@,
        ctx.tree.end_of(ctx.tree.named_kids(stmt)[r]) <= ctx.tree.start_of(
            ctx.tree.named_kids(stmt)[k],
        ),
        forall|q: int|
            r < q < ctx.tree.named_kids(stmt).len() ==> ctx.tree.kind_of(
                #[trigger] ctx.tree.named_kids(stmt)[q],
            ) == "ERROR"@ || ctx.tree.end_of(ctx.tree.named_kids(stmt)[q]) > ctx.tree.start_of(
                ctx.tree.named_kids(stmt)[k],
            ),
        trim(ctx.text_of(ctx.tree.named_kids(stmt)[r])).len() > 0,
        ctx.piece(ctx.tree.start_of(ctx.tree.named_kids(stmt)[k]) + 1, ctx.offset as int) == prefix,
        forall|i: int| 0 <= i < prefix.len() ==> is_word(#[trigger] prefix[i]),
    ensures
        expression_statement_location(ctx, stmt) matches Some(l) && is_member_of(
            l,
            trim(ctx.text_of(ctx.tree.named_kids(stmt)[r])),
            prefix,
        ),
{
    let t = &ctx.tree;
    let ids = t.named_kids(stmt);
    lemma_lone_dot_at(t, ids, 0, k);
    lemma_proper_before(t, ids, t.start_of(ids[k]), ids.len() as int, r);
    lemma_run_end(prefix, CharClass::White, 0);
    lemma_run_end(prefix, CharClass::Word, 0);
    if prefix.len() > 0 {
        assert(is_word(prefix[0]));
    }
    assert(trim_start(prefix) =~= prefix);
    let e = run_end(prefix, CharClass::Word, 0);
    if e < prefix.len() {
        assert(is_word(prefix[e]));
    }
    assert(prefix.take(e) =~= prefix);
}

/// Without a lone dot, an operation whose right side is missing before the cursor awaits an
/// expression, and any other statement tells nothing.
pub proof fn lemma_awaited_operands(ctx: &JavaContextExtractor, stmt: NodeId, k: int)
    requires
        forall|q: int|
            0 <= q < ctx.tree.named_kids(stmt).len() ==> !is_lone_dot(
                ctx.tree,
                #[trigger] ctx.tree.named_kids(stmt)[q],
            ),
    ensures
        0 <= k < ctx.tree.named_kids(stmt).len() && KindClass::OperandHolder.has(
            ctx.tree.kind_of(ctx.tree.named_kids(stmt)[k]),
        ) && (ctx.tree.field_of(ctx.tree.named_kids(stmt)[k], "right"@) matches Some(right)
            && ctx.tree.node(right).missing) && ctx.offset >= ctx.tree.start_of(
            ctx.tree.named_kids(stmt)[k],
        ) ==> expression_statement_location(ctx, stmt) == Some(
            (
                LocationView::Expression { prefix: Seq::<char>::empty() },
                Seq::<char>::empty(),
            ),
        ),
        (forall|q: int|
            0 <= q < ctx.tree.named_kids(stmt).len() ==> ({
                let n = #[trigger] ctx.tree.named_kids(stmt)[q];
                &&& ctx.tree.field_of(n, "right"@) matches Some(right)
                    ==> !ctx.tree.node(right).missing
                &&& ctx.tree.field_of(n, "right"@) is None ==> ctx.tree.field_of(n, "value"@) is None
            })) ==> expression_statement_location(ctx, stmt) is None,
{
    let ids = ctx.tree.named_kids(stmt);
    lemma_no_lone_dot(&ctx.tree, ids, 0);
    if 0 <= k < ids.len() && awaits_operand(ctx, ids[k]) {
        assert(some_awaits_operand(ctx, ids));
    }
}

// ---- tokens of a line --------------------------------------------------------------------------

/// The first token of a line is the first run of letters, digits, `_` and `$` in it.
pub proof fn lemma_first_tokens(junk: Seq<char>, word: Seq<char>, rest: Seq<char>)
    requires
        forall|i: int| 0 <= i < junk.len() ==> !CharClass::Ident.has(#[trigger] junk[i]),
        word.len() > 0,
        forall|i: int| 0 <= i < word.len() ==> CharClass::Ident.has(#[trigger] word[i]),
        rest.len() == 0 || !CharClass::Ident.has(rest[0]),
    ensures
        first_token(junk + word + rest) == Some(word),
        first_token(junk) is None,
{
    let s = junk + word + rest;
    lemma_first_ident(s, 0, junk.len() as int);
    lemma_first_ident(junk, 0, junk.len() as int);
    let e = junk.len() + word.len();
    lemma_run_end(s, CharClass::Ident, junk.len() as int);
    let at = run_end(s, CharClass::Ident, junk.len() as int);
    if at < e {
        assert(s[at] == word[at - junk.len()]);
    }
    if at > e {
        assert(s[e as int] == rest[0]);
        assert(CharClass::Ident.has(s[e as int]));
    }
    assert(s.subrange(junk.len() as int, e as int) =~= word);
}

proof fn lemma_first_ident(s: Seq<char>, i: int, at: int)
    requires
        0 <= i <= at <= s.len(),
        forall|k: int| i <= k < at ==> !CharClass::Ident.has(#[trigger] s[k]),
        at < s.len() ==> CharClass::Ident.has(s[at]),
    ensures
        first_ident(s, i) == at,
    decreases at - i,
{
    if i < at {
        lemma_first_ident(s, i + 1, at);
    }
}

/// The last token of a line is the last such run.
pub proof fn lemma_last_tokens(rest: Seq<char>, word: Seq<char>, junk: Seq<char>)
    requires
        forall|i: int| 0 <= i < junk.len() ==> !CharClass::Ident.has(#[trigger] junk[i]),
        word.len() > 0,
        forall|i: int| 0 <= i < word.len() ==> CharClass::Ident.has(#[trigger] word[i]),
        rest.len() == 0 || !CharClass::Ident.has(rest.last()),
    ensures
        last_token(rest + word + junk) == Some(word),
{
    let s = rest + word + junk;
    let e = rest.len() + word.len();
    assert forall|k: int| e <= k < s.len() implies !CharClass::Ident.has(#[trigger] s[k]) by {
        assert(s[k] == junk[k - e]);
    }
    assert(s[e - 1] == word[word.len() - 1]);
    lemma_last_ident_end(s, s.len() as int, e as int);
    lemma_run_start(s, CharClass::Ident, e as int);
    let at = run_start(s, CharClass::Ident, e as int);
    if at > rest.len() {
        assert(s[at - 1] == word[at - 1 - rest.len()]);
    }
    if at < rest.len() {
        assert(s[rest.len() - 1] == rest.last());
        assert(CharClass::Ident.has(s[rest.len() - 1]));
    }
    assert(s.subrange(rest.len() as int, e as int) =~= word);
}

proof fn lemma_last_ident_end(s: Seq<char>, j: int, at: int)
    requires
        0 < at <= j <= s.len(),
        forall|k: int| at <= k < j ==> !CharClass::Ident.has(#[trigger] s[k]),
        CharClass::Ident.has(s[at - 1]),
    ensures
        last_ident_end(s, j) == at,
    decreases j - at,
{
    if at < j {
        lemma_last_ident_end(s, j - 1, at);
    }
}

/// A line that does not end in white space, is blank, holds a semicolon or has a keyword at either
/// end is no type that awaits a name.
pub proof fn lemma_no_type_lines(before: Seq<char>)
    ensures
        before.len() == 0 || !is_white(before.last()) ==> type_before_name(before) is None,
        ({
            let line = trim_end(last_line(before));
            line.len() == 0 || line.contains(';') || (first_token(line) matches Some(w)
                && is_keyword(w)) || (last_token(line) matches Some(w) && is_keyword(w))
                ==> type_before_name(before) is None
        }),
{
}

// ---- joined lines ------------------------------------------------------------------------------

/// The type of a declaration is the first part of it that is neither modifiers nor a variable.
pub proof fn lemma_declared_type_at(t: &SyntaxTree, ids: Seq<NodeId>, i: int, k: int)
    requires
        0 <= i <= k < ids.len(),
        t.kind_of(ids[k]) != "modifiers"@,
        t.kind_of(ids[k]) != "variable_declarator"@,
        forall|q: int|
            0 <= q < k ==> t.kind_of(#[trigger] ids[q]) == "modifiers"@ || t.kind_of(ids[q])
                == "variable_declarator"@,
    ensures
        declared_type_from(t, ids, i) == Some(ids[k]),
    decreases k - i,
{
    if i < k {
        lemma_declared_type_at(t, ids, i + 1, k);
    }
}

/// The parts of a declaration: its type at place `ty`, its first declarator at place `d`.
pub open spec fn has_parts(t: SyntaxTree, decl: NodeId, ty: int, d: int) -> bool {
    let ids = t.named_kids(decl);
    &&& t.kind_of(decl) == "local_variable_declaration"@
    &&& 0 <= ty < ids.len()
    &&& t.kind_of(ids[ty]) != "modifiers"@
    &&& t.kind_of(ids[ty]) != "variable_declarator"@
    &&& forall|q: int|
        0 <= q < ty ==> t.kind_of(#[trigger] ids[q]) == "modifiers"@ || t.kind_of(ids[q])
            == "variable_declarator"@
    &&& 0 <= d < ids.len()
    &&& t.kind_of(ids[d]) == "variable_declarator"@
    &&& forall|q: int| 0 <= q < d ==> t.kind_of(#[trigger] ids[q]) != "variable_declarator"@
}

/// A type on a line of its own, with an error in the initializer of the next line that holds an
/// identifier, is an expression; on the same line it is a type.
pub proof fn lemma_joined_initializers(
    ctx: &JavaContextExtractor,
    n: NodeId,
    decl: NodeId,
    ty: int,
    d: int,
    name: NodeId,
    e: int,
    q: int,
    s: int,
)
    requires
        has_parts(ctx.tree, decl, ty, d),
        ctx.tree.descends(n, ctx.tree.named_kids(decl)[ty]),
        ctx.tree.field_of(ctx.tree.named_kids(decl)[d], "name"@) == Some(name),
        ({
            let t = ctx.tree;
            let dr = t.named_kids(decl)[d];
            &&& 0 <= e < t.kids(dr).len() && t.kind_of(t.kids(dr)[e]) == "ERROR"@
            &&& forall|x: int| 0 <= x < e ==> t.kind_of(#[trigger] t.kids(dr)[x]) != "ERROR"@
            &&& 0 <= q < t.named_kids(t.kids(dr)[e]).len() && t.kind_of(
                t.named_kids(t.kids(dr)[e])[q],
            ) == "identifier"@
            &&& 0 <= s < t.kids(dr).len() && t.kind_of(t.kids(dr)[s]) == "="@
        }),
    ensures
        ctx.piece(
            ctx.tree.end_of(ctx.tree.named_kids(decl)[ty]),
            ctx.tree.start_of(name),
        ).contains('\n') ==> misread_expression(ctx, n, decl),
        !ctx.piece(
            ctx.tree.end_of(ctx.tree.named_kids(decl)[ty]),
            ctx.tree.start_of(name),
        ).contains('\n') && trim(ctx.text_of(name)) != "this"@ && trim(ctx.text_of(name))
            != "super"@ && ctx.tree.next_of(decl) is None ==> !misread_expression(ctx, n, decl),
{
    let t = &ctx.tree;
    let ids = t.named_kids(decl);
    let dr = ids[d];
    lemma_declared_type_at(t, ids, 0, ty);
    lemma_first_kind_is(ctx.tree, ids, "variable_declarator"@, 0, d);
    lemma_first_kind_is(ctx.tree, t.kids(dr), "ERROR"@, 0, e);
    lemma_first_kind_from(ctx.tree, t.kids(dr), "="@, 0);
    crate::syntax::laws::lemma_first_class_from(
        ctx.tree,
        t.named_kids(t.kids(dr)[e]),
        KindClass::Identifier,
        0,
    );
}

proof fn lemma_proper_at(t: &SyntaxTree, ids: Seq<NodeId>, i: int, k: int)
    requires
        0 <= i <= k < ids.len(),
        !t.node(ids[k]).extra,
        forall|q: int| 0 <= q < k ==> t.node(#[trigger] ids[q]).extra,
    ensures
        first_proper_from(t, ids, i) == Some(ids[k]),
    decreases k - i,
{
    if i < k {
        lemma_proper_at(t, ids, i + 1, k);
    }
}

/// `this.` or `super.` on the next line, which the parser took for the name of a variable and an
/// error, makes the type an expression.
pub proof fn lemma_joined_self(
    ctx: &JavaContextExtractor,
    n: NodeId,
    decl: NodeId,
    ty: int,
    d: int,
    name: NodeId,
    e: int,
    k: int,
)
    requires
        has_parts(ctx.tree, decl, ty, d),
        ctx.tree.descends(n, ctx.tree.named_kids(decl)[ty]),
        ctx.tree.field_of(ctx.tree.named_kids(decl)[d], "name"@) == Some(name),
        trim(ctx.text_of(name)) == "this"@ || trim(ctx.text_of(name)) == "super"@,
        ({
            let t = ctx.tree;
            let error = t.kids(decl)[e];
            &&& 0 <= e < t.kids(decl).len() && t.kind_of(error) == "ERROR"@
            &&& forall|x: int| 0 <= x < e ==> t.kind_of(#[trigger] t.kids(decl)[x]) != "ERROR"@
            &&& 0 <= k < t.kids(error).len() && !t.node(t.kids(error)[k]).extra
            &&& forall|x: int| 0 <= x < k ==> t.node(#[trigger] t.kids(error)[x]).extra
            &&& t.kind_of(t.kids(error)[k]) == "."@
        }),
    ensures
        misread_expression(ctx, n, decl),
{
    let t = &ctx.tree;
    let ids = t.named_kids(decl);
    lemma_declared_type_at(t, ids, 0, ty);
    lemma_first_kind_is(ctx.tree, ids, "variable_declarator"@, 0, d);
    lemma_first_kind_is(ctx.tree, t.kids(decl), "ERROR"@, 0, e);
    lemma_proper_at(t, t.kids(t.kids(decl)[e]), 0, k);
}

/// In a declaration with an error around the node, the last dot before the cursor parts the
/// receiver from what is typed of the member.
pub proof fn lemma_member_tails(
    ctx: &JavaContextExtractor,
    n: NodeId,
    decl: NodeId,
    error: NodeId,
    receiver: Seq<char>,
    member: Seq<char>,
)
    requires
        ctx.tree.ancestor(n, "ERROR"@) == Some(error),
        ctx.tree.descends(error, decl),
        trim_end(unmarked(ctx.piece(ctx.tree.start_of(decl), ctx.offset as int))) == receiver
            + seq!['.'] + member,
        receiver.len() > 0,
        !is_white(receiver[0]),
        !is_white(receiver.last()),
        forall|i: int| 0 <= i < member.len() ==> is_word(#[trigger] member[i]),
    ensures
        member_tail(ctx, n, decl) == Some((receiver, member)),
{
    let s = receiver + seq!['.'] + member;
    let at = receiver.len() as int;
    assert(s[at] == '.');
    assert forall|k: int| at < k < s.len() implies s[k] != '.' by {
        assert(s[k] == member[k - at - 1]);
        assert(is_word(member[k - at - 1]));
    }
    lemma_last_dot(s, s.len() as int, at);
    assert(s.take(at) =~= receiver);
    assert(s.skip(at + 1) =~= member);
    lemma_trim_keeps(receiver);
    if member.len() > 0 {
        assert(is_word(member[0]) && is_word(member[member.len() - 1]));
        lemma_trim_keeps(member);
    } else {
        lemma_trim(member);
        assert(trim(member) =~= member);
    }
}

proof fn lemma_last_dot(s: Seq<char>, j: int, at: int)
    requires
        0 <= at < j <= s.len(),
        s[at] == '.',
        forall|k: int| at < k < j ==> s[k] != '.',
    ensures
        crate::text::last_index_before(s, '.', j) == Some(at),
    decreases j - at,
{
    if at < j - 1 {
        lemma_last_dot(s, j - 1, at);
    }
}

// ---- semicolons --------------------------------------------------------------------------------

/// The last end by a limit is by the limit, is that of a span, and no end by the limit is greater.
pub proof fn lemma_last_ends(
    spans: Seq<(usize, usize)>,
    limit: int,
    best: Option<int>,
    i: int,
    k: int,
)
    requires
        0 <= i,
        best matches Some(b) ==> b <= limit,
    ensures
        best matches Some(b) ==> (last_end(spans, limit, best, i) matches Some(r) && r >= b),
        i <= k < spans.len() && spans[k].1 <= limit ==> (last_end(spans, limit, best, i) matches
            Some(r) && r >= spans[k].1),
        last_end(spans, limit, best, i) matches Some(r) ==> r <= limit && (best == Some(r)
            || exists|x: int| i <= x < spans.len() && (#[trigger] spans[x]).1 == r),
    decreases spans.len() - i,
{
    if i < spans.len() {
        let e = spans[i].1 as int;
        let next = if e <= limit && (best is None || best->0 < e) {
            Some(e)
        } else {
            best
        };
        lemma_last_ends(spans, limit, next, i + 1, k);
        assert(spans[i].1 == e);
    }
}

/// The first start at a limit or later is there, is that of a span, and none there is smaller.
pub proof fn lemma_first_starts(
    spans: Seq<(usize, usize)>,
    limit: int,
    best: Option<int>,
    i: int,
    k: int,
)
    requires
        0 <= i,
        best matches Some(b) ==> b >= limit,
    ensures
        best matches Some(b) ==> (first_start(spans, limit, best, i) matches Some(r) && r <= b),
        i <= k < spans.len() && spans[k].0 >= limit ==> (first_start(spans, limit, best, i) matches
            Some(r) && r <= spans[k].0),
        first_start(spans, limit, best, i) matches Some(r) ==> r >= limit && (best == Some(r)
            || exists|x: int| i <= x < spans.len() && (#[trigger] spans[x]).0 == r),
    decreases spans.len() - i,
{
    if i < spans.len() {
        let b = spans[i].0 as int;
        let next = if b >= limit && (best is None || b < best->0) {
            Some(b)
        } else {
            best
        };
        lemma_first_starts(spans, limit, next, i + 1, k);
        assert(spans[i].0 == b);
    }
}

/// A semicolon in the head of a loop ends no statement, any other right below the node does.
pub proof fn lemma_semicolons_of_loops(t: &SyntaxTree, n: NodeId, root: NodeId, i: int)
    requires
        0 <= i < t.kids(n).len(),
        t.kind_of(t.kids(n)[i]) == ";"@,
        t.parent_of(t.kids(n)[i]) == Some(n),
        n < t.kids(n)[i],
    ensures
        t.kind_of(n) == "for_statement"@ && n != root ==> semicolons_from(t, n, root, i)
            == semicolons_from(t, n, root, i + 1),
        n == root ==> semicolons_from(t, n, root, i) == seq![
            (t.node(t.kids(n)[i]).start, t.node(t.kids(n)[i]).end),
        ] + semicolons_from(t, n, root, i + 1),
{
    let k = t.kids(n)[i];
    reveal_with_fuel(in_for_header, 2);
    assert(Seq::<(usize, usize)>::empty() + semicolons_from(t, n, root, i + 1) =~= semicolons_from(
        t,
        n,
        root,
        i + 1,
    ));
}

} // verus!
