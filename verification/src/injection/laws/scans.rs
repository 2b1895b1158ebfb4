//! How the text is scanned for open brackets, and which way the marker is put in.
use vstd::prelude::*;

use crate::extractor::{unmarked, JavaContextExtractor, SENTINEL};
use crate::injection::{
    bare_new, broken_creation, closing, dot_before_cursor, error_at, has_new_word, identifier_above,
    injected_source, last_identifier, last_identifier_from, last_token_before, letter_or_number,
    location_at_marker, mode_after, new_word_at, open_from, told_by_injection, typed_identifier,
    unmarked_location, ScanMode,
};
use crate::location::location;
use crate::location::utils::Located;
use crate::parse::{parsed, records_of, tree_matches};
use crate::syntax::laws::lemma_first_kind_from;
use crate::syntax::{NodeId, SyntaxTree};
use crate::text::{find, is_word, run_end, trim_end, CharClass};

verus! {

// ---- strings, characters and comments ----------------------------------------------------------

proof fn lemma_in_string(s: Seq<char>, i: int, j: int, open: Seq<char>)
    requires
        0 <= i <= j < s.len(),
        s[j] == '"',
        forall|k: int| i <= k < j ==> #[trigger] s[k] != '"' && s[k] != '\\' && s[k] != '\n',
    ensures
        open_from(s, i, ScanMode::Text, open) == open_from(s, j + 1, ScanMode::Code, open),
    decreases j - i,
{
    if i < j {
        lemma_in_string(s, i + 1, j, open);
    }
}

/// What stands in a string opens no bracket and closes none.
pub proof fn lemma_strings_do_not_count(s: Seq<char>, i: int, j: int, open: Seq<char>)
    requires
        0 <= i < j < s.len(),
        s[i] == '"',
        s[j] == '"',
        forall|k: int| i < k < j ==> #[trigger] s[k] != '"' && s[k] != '\\' && s[k] != '\n',
    ensures
        open_from(s, i, ScanMode::Code, open) == open_from(s, j + 1, ScanMode::Code, open),
{
    lemma_in_string(s, i + 1, j, open);
}

/// In a string and in a character, what stands behind a backslash ends nothing.
pub proof fn lemma_escapes(s: Seq<char>, i: int, open: Seq<char>)
    requires
        0 <= i < s.len() - 1,
        s[i] == '\\',
    ensures
        open_from(s, i, ScanMode::Text, open) == open_from(s, i + 2, ScanMode::Text, open),
        open_from(s, i, ScanMode::Character, open) == open_from(
            s,
            i + 2,
            ScanMode::Character,
            open,
        ),
{
    reveal_with_fuel(open_from, 3);
}

/// A string and a character end with their line.
pub proof fn lemma_ends_with_line(s: Seq<char>, i: int, open: Seq<char>)
    requires
        0 <= i < s.len(),
        s[i] == '\n',
    ensures
        open_from(s, i, ScanMode::Text, open) == open_from(s, i + 1, ScanMode::Code, open),
        open_from(s, i, ScanMode::Character, open) == open_from(s, i + 1, ScanMode::Code, open),
        open_from(s, i, ScanMode::LineComment, open) == open_from(s, i + 1, ScanMode::Code, open),
        open_from(s, i, ScanMode::BlockComment, open) == open_from(
            s,
            i + 1,
            ScanMode::BlockComment,
            open,
        ),
{
}

/// What stands between single quotes opens no bracket and closes none.
pub proof fn lemma_characters_do_not_count(s: Seq<char>, i: int, open: Seq<char>)
    requires
        0 <= i < s.len() - 2,
        s[i] == '\'',
        s[i + 1] != '\'',
        s[i + 1] != '\\',
        s[i + 1] != '\n',
        s[i + 2] == '\'',
    ensures
        open_from(s, i, ScanMode::Code, open) == open_from(s, i + 3, ScanMode::Code, open),
{
    reveal_with_fuel(open_from, 4);
}

proof fn lemma_in_line_comment(s: Seq<char>, i: int, j: int, open: Seq<char>)
    requires
        0 <= i <= j < s.len(),
        s[j] == '\n',
        forall|k: int| i <= k < j ==> #[trigger] s[k] != '\n',
    ensures
        open_from(s, i, ScanMode::LineComment, open) == open_from(s, j + 1, ScanMode::Code, open),
    decreases j - i,
{
    if i < j {
        lemma_in_line_comment(s, i + 1, j, open);
    }
}

/// What stands behind two slashes, up to the end of the line, opens no bracket and closes none.
pub proof fn lemma_line_comments_do_not_count(s: Seq<char>, i: int, j: int, open: Seq<char>)
    requires
        0 <= i,
        i + 1 < j < s.len(),
        s[i] == '/',
        s[i + 1] == '/',
        s[j] == '\n',
        forall|k: int| i < k < j ==> #[trigger] s[k] != '\n',
    ensures
        open_from(s, i, ScanMode::Code, open) == open_from(s, j + 1, ScanMode::Code, open),
{
    lemma_in_line_comment(s, i + 1, j, open);
}

proof fn lemma_in_block_comment(s: Seq<char>, i: int, j: int, open: Seq<char>)
    requires
        0 < i <= j < s.len(),
        s[j] == '/',
        s[j - 1] == '*',
        forall|k: int| i <= k < j ==> !(#[trigger] s[k] == '/' && s[k - 1] == '*'),
    ensures
        open_from(s, i, ScanMode::BlockComment, open) == open_from(s, j + 1, ScanMode::Code, open),
    decreases j - i,
{
    if i < j {
        lemma_in_block_comment(s, i + 1, j, open);
    }
}

/// What stands between `/*` and `*/` opens no bracket and closes none.
pub proof fn lemma_block_comments_do_not_count(s: Seq<char>, i: int, j: int, open: Seq<char>)
    requires
        0 <= i,
        i + 1 < j < s.len(),
        s[i] == '/',
        s[i + 1] == '*',
        s[j] == '/',
        s[j - 1] == '*',
        forall|k: int| i < k < j ==> !(#[trigger] s[k] == '/' && s[k - 1] == '*'),
    ensures
        open_from(s, i, ScanMode::Code, open) == open_from(s, j + 1, ScanMode::Code, open),
{
    lemma_in_block_comment(s, i + 1, j, open);
}

/// A slash that begins no comment, and any other character, leaves the scan in the code.
pub proof fn lemma_code_stays_code(s: Seq<char>, i: int)
    requires
        0 <= i < s.len(),
        s[i] != '"',
        s[i] != '\'',
        s[i] != '/' || i + 1 == s.len() || s[i + 1] != '/' && s[i + 1] != '*',
    ensures
        mode_after(s, i, ScanMode::Code) == ScanMode::Code,
{
}

// ---- the word `new` ----------------------------------------------------------------------------

/// Nothing is typed yet behind `new`: what stands behind it is on another line, or begins no name.
pub proof fn lemma_bare_new(ctx: &JavaContextExtractor)
    ensures
        ({
            let before = trim_end(ctx.before());
            let n = before.len() as int;
            let is_new = n >= 3 && before[n - 3] == 'n' && before[n - 2] == 'e' && before[n - 1]
                == 'w';
            let after = ctx.source@.skip(ctx.offset as int);
            let gap = after.take(run_end(after, CharClass::White, 0));
            let rest = after.skip(run_end(after, CharClass::White, 0));
            &&& !is_new ==> !bare_new(ctx)
            &&& is_new && rest.len() == 0 ==> bare_new(ctx)
            &&& is_new && (gap.contains('\n') || gap.contains('\r')) ==> bare_new(ctx)
            &&& is_new && rest.len() > 0 && rest[0] != '_' && !letter_or_number(rest[0])
                ==> bare_new(ctx)
            &&& rest.len() > 0 && (rest[0] == '_' || letter_or_number(rest[0])) && !gap.contains(
                '\n',
            ) && !gap.contains('\r') ==> !bare_new(ctx)
        }),
{
    reveal_strlit("new");
    assert("new"@ =~= seq!['n', 'e', 'w']);
    let before = trim_end(ctx.before());
    let n = before.len() as int;
    if n >= 3 {
        let tail = before.skip(n - 3);
        assert(tail[0] == before[n - 3] && tail[1] == before[n - 2] && tail[2] == before[n - 1]);
        if before[n - 3] == 'n' && before[n - 2] == 'e' && before[n - 1] == 'w' {
            assert(tail =~= "new"@);
        }
    }
}

/// In ASCII, the letters and the digits are what they are.
pub proof fn lemma_letters_and_numbers(c: char)
    requires
        (c as u32) < 128,
    ensures
        letter_or_number(c) <==> 'a' <= c <= 'z' || 'A' <= c <= 'Z' || '0' <= c <= '9',
{
}

/// A text holds the word `new` exactly where the three letters stand in it with no letter, digit or
/// `_` beside them.
pub proof fn lemma_new_words(s: Seq<char>, i: int)
    ensures
        0 <= i && i + 3 <= s.len() && s[i] == 'n' && s[i + 1] == 'e' && s[i + 2] == 'w' && (i == 0
            || !is_word(s[i - 1])) && (i + 3 == s.len() || !is_word(s[i + 3])) ==> has_new_word(s),
        (forall|k: int|
            0 <= k && k + 3 <= s.len() && #[trigger] s[k] == 'n' ==> s[k + 1] != 'e' || s[k + 2]
                != 'w' || k > 0 && is_word(s[k - 1]) || k + 3 < s.len() && is_word(s[k + 3]))
            ==> !has_new_word(s),
{
    reveal_strlit("new");
    assert("new"@ =~= seq!['n', 'e', 'w']);
    if 0 <= i && i + 3 <= s.len() && s[i] == 'n' && s[i + 1] == 'e' && s[i + 2] == 'w' && (i == 0
        || !is_word(s[i - 1])) && (i + 3 == s.len() || !is_word(s[i + 3])) {
        assert(s.subrange(i, i + 3) =~= "new"@);
        assert(new_word_at(s, i));
    }
    if has_new_word(s) {
        let k = choose|k: int| #[trigger] new_word_at(s, k);
        let w = s.subrange(k, k + 3);
        assert(w[0] == s[k] && w[1] == s[k + 1] && w[2] == s[k + 2]);
        assert(s[k] == 'n');
    }
}

// ---- what is at the cursor ---------------------------------------------------------------------

/// The error at the cursor is its node, or the nearest one above.
pub proof fn lemma_error_at(t: &SyntaxTree, n: NodeId)
    ensures
        t.kind_of(n) == "ERROR"@ ==> error_at(t, Some(n)) == Some(n),
        t.kind_of(n) != "ERROR"@ ==> error_at(t, Some(n)) == t.ancestor(n, "ERROR"@),
        error_at(t, None) is None,
{
}

/// The node at the cursor is being typed exactly where it is an identifier that begins before the
/// cursor and holds text up to it.
pub proof fn lemma_being_typed(ctx: &JavaContextExtractor, n: NodeId)
    ensures
        typed_identifier(ctx, Some(n)) is Some <==> (ctx.tree.kind_of(n) == "identifier"@
            || ctx.tree.kind_of(n) == "type_identifier"@) && ctx.tree.start_of(n) < ctx.offset
            && ctx.text_to_cursor(n).len() > 0,
        typed_identifier(ctx, Some(n)) matches Some(m) ==> m == n,
        typed_identifier(ctx, None) is None,
{
}

proof fn lemma_last_token(t: &SyntaxTree, ids: Seq<NodeId>, offset: int, j: int, k: int)
    requires
        0 <= k < j <= ids.len(),
        !t.node(ids[k]).extra,
        t.end_of(ids[k]) <= offset,
        forall|q: int|
            k < q < ids.len() ==> t.node(#[trigger] ids[q]).extra || t.end_of(ids[q]) > offset,
    ensures
        last_token_before(t, ids, offset, j) == Some(ids[k]),
    decreases j - k,
{
    if k < j - 1 {
        lemma_last_token(t, ids, offset, j - 1, k);
    }
}

/// A dot stands before the cursor where the last child of the error that ends by the cursor,
/// comments aside, is one.
pub proof fn lemma_dots_before_cursor(t: &SyntaxTree, error: NodeId, offset: int, k: int)
    requires
        0 <= k < t.kids(error).len(),
        !t.node(t.kids(error)[k]).extra,
        t.end_of(t.kids(error)[k]) <= offset,
        forall|q: int|
            k < q < t.kids(error).len() ==> t.node(#[trigger] t.kids(error)[q]).extra || t.end_of(
                t.kids(error)[q],
            ) > offset,
    ensures
        dot_before_cursor(t, error, offset) <==> t.kind_of(t.kids(error)[k]) == "."@,
{
    lemma_last_token(t, t.kids(error), offset, t.kids(error).len() as int, k);
}

// ---- unfinished constructor calls --------------------------------------------------------------

/// An error is an unfinished constructor call only where `new` is a child of it; and it is one where
/// the word stands in its text before the cursor too.
pub proof fn lemma_broken_creations(
    ctx: &JavaContextExtractor,
    error: NodeId,
    cursor: Option<NodeId>,
    k: int,
)
    ensures
        (forall|q: int|
            0 <= q < ctx.tree.kids(error).len() ==> ctx.tree.kind_of(
                #[trigger] ctx.tree.kids(error)[q],
            ) != "new"@) ==> !broken_creation(ctx, error, cursor),
        0 <= k < ctx.tree.kids(error).len() && ctx.tree.kind_of(ctx.tree.kids(error)[k]) == "new"@
            && has_new_word(ctx.text_to_cursor(error)) ==> broken_creation(ctx, error, cursor),
{
    lemma_first_kind_from(ctx.tree, ctx.tree.kids(error), "new"@, 0);
}

/// In an unfinished constructor call the marker is put in behind what is typed of the class, with
/// brackets; what the class holds behind the cursor goes.
pub proof fn lemma_put_in_creation(ctx: &JavaContextExtractor, error: NodeId, id: NodeId, k: int)
    requires
        !bare_new(ctx),
        error_at(&ctx.tree, Some(id)) == Some(error),
        0 <= k < ctx.tree.kids(error).len(),
        ctx.tree.kind_of(ctx.tree.kids(error)[k]) == "new"@,
        has_new_word(ctx.text_to_cursor(error)),
        ctx.tree.kind_of(id) == "identifier"@ || ctx.tree.kind_of(id) == "type_identifier"@,
        ctx.tree.start_of(id) < ctx.offset,
        ctx.tree.descends(id, error),
        ctx.text_to_cursor(id).len() > 0,
    ensures
        ({
            let text = ctx.source@.take(ctx.tree.start_of(id)) + (ctx.text_to_cursor(id)
                + SENTINEL@ + seq!['(', ')']) + ctx.source@.skip(ctx.tree.end_of(id));
            injected_source(ctx, Some(id)) == text + closing(text)
        }),
{
    lemma_broken_creations(ctx, error, Some(id), k);
    reveal_strlit("()");
    assert("()"@ =~= seq!['(', ')']);
}

/// The last identifier below a node is one that starts by the cursor, and none that does starts
/// behind it.
pub proof fn lemma_last_identifiers(
    t: SyntaxTree,
    n: NodeId,
    offset: int,
    best: Option<NodeId>,
    m: NodeId,
)
    requires
        t.linked(),
        t.has(n),
    ensures
        best matches Some(b) ==> (last_identifier(&t, n, offset, best) matches Some(r) && t.start_of(
            r,
        ) >= t.start_of(b)),
        t.under(n).contains(m) && (t.kind_of(m) == "identifier"@ || t.kind_of(m)
            == "type_identifier"@) && t.start_of(m) <= offset ==> (last_identifier(
            &t,
            n,
            offset,
            best,
        ) matches Some(r) && t.start_of(r) >= t.start_of(m)),
        last_identifier(&t, n, offset, best) matches Some(r) ==> best == Some(r) || (t.kind_of(r)
            == "identifier"@ || t.kind_of(r) == "type_identifier"@) && t.start_of(r) <= offset,
    decreases t.nodes@.len() - n, t.kids(n).len() + 1,
{
    let own = crate::injection::later_identifier(&t, n, offset, best);
    lemma_last_identifiers_from(t, n, offset, 0, own, m);
    if t.under(n).contains(m) && m != n {
        assert(t.nodes@[n as int].placed(n as int, t.nodes@.len() as int));
        let at = choose|at: int| 0 <= at < t.under(n).len() && t.under(n)[at] == m;
        assert(t.under_kids(n, 0)[at - 1] == m);
        assert(t.under_kids(n, 0).contains(m));
    }
}

proof fn lemma_last_identifiers_from(
    t: SyntaxTree,
    n: NodeId,
    offset: int,
    i: int,
    best: Option<NodeId>,
    m: NodeId,
)
    requires
        t.linked(),
        t.has(n),
        0 <= i <= t.kids(n).len(),
    ensures
        best matches Some(b) ==> (last_identifier_from(&t, n, offset, i, best) matches Some(r)
            && t.start_of(r) >= t.start_of(b)),
        t.under_kids(n, i).contains(m) && (t.kind_of(m) == "identifier"@ || t.kind_of(m)
            == "type_identifier"@) && t.start_of(m) <= offset ==> (last_identifier_from(
            &t,
            n,
            offset,
            i,
            best,
        ) matches Some(r) && t.start_of(r) >= t.start_of(m)),
        last_identifier_from(&t, n, offset, i, best) matches Some(r) ==> best == Some(r) || (
        t.kind_of(r) == "identifier"@ || t.kind_of(r) == "type_identifier"@) && t.start_of(r)
            <= offset,
    decreases t.nodes@.len() - n, t.kids(n).len() - i,
{
    if i < t.kids(n).len() {
        assert(t.nodes@[n as int].placed(n as int, t.nodes@.len() as int));
        let k = t.kids(n)[i];
        lemma_last_identifiers(t, k, offset, best, m);
        lemma_last_identifiers_from(
            t,
            n,
            offset,
            i + 1,
            last_identifier(&t, k, offset, best),
            m,
        );
        if t.under_kids(n, i).contains(m) {
            let first = t.under(k);
            let rest = t.under_kids(n, i + 1);
            assert(t.under_kids(n, i) == first + rest);
            let at = choose|at: int|
                0 <= at < t.under_kids(n, i).len() && t.under_kids(n, i)[at] == m;
            if at < first.len() {
                assert(first[at] == m);
            } else {
                assert(rest[at - first.len()] == m);
            }
        }
    } else if t.under_kids(n, i).contains(m) {
        assert(t.under_kids(n, i).len() == 0);
    }
}

// ---- the location at the marker ----------------------------------------------------------------

/// The location at the marker is that of the identifier there, without the marker.
pub proof fn lemma_location_at_marker(ctx: &JavaContextExtractor, n: NodeId)
    requires
        ctx.tree.named_node_at(ctx.offset - SENTINEL@.len(), ctx.offset as int) == Some(n),
        ctx.tree.kind_of(n) == "identifier"@ || ctx.tree.kind_of(n) == "type_identifier"@,
    ensures
        location_at_marker(ctx) matches Some(l) && l.0 == unmarked_location(
            location(ctx, Some(n)).0,
        ) && l.1 == unmarked(location(ctx, Some(n)).1),
{
}

/// What is told of a text with the marker in it is told with the cursor right behind the marker, of
/// the tree of that text; without the marker nothing is told.
pub proof fn lemma_told_behind_marker(text: Seq<char>, r: Option<Located>)
    requires
        told_by_injection(text, r),
    ensures
        find(text, SENTINEL@) is None ==> r is None,
        find(text, SENTINEL@) matches Some(i) ==> exists|ctx: JavaContextExtractor|
            ctx.source@ == text && ctx.offset == i + 8 && tree_matches(
                ctx.tree,
                records_of(text),
                text,
            ) && r == #[trigger] location_at_marker(&ctx),
{
    reveal_strlit("__KIRO__");
    assert(SENTINEL@.len() == 8);
    if let Some(i) = find(text, SENTINEL@) {
        let ctx = choose|ctx: JavaContextExtractor| #[trigger]
            parsed(ctx, text, i + SENTINEL@.len()) && r == location_at_marker(&ctx);
        assert(r == location_at_marker(&ctx));
    }
}

/// A node that is no identifier asks the one above it, and stops below a method and the program.
pub proof fn lemma_identifier_above(t: &SyntaxTree, n: NodeId, p: NodeId)
    requires
        t.kind_of(n) != "identifier"@,
        t.kind_of(n) != "type_identifier"@,
        t.parent_of(n) == Some(p),
        p < n,
    ensures
        t.kind_of(p) == "method_declaration"@ || t.kind_of(p) == "program"@ ==> identifier_above(
            t,
            n,
        ) is None,
        t.kind_of(p) != "method_declaration"@ && t.kind_of(p) != "program"@ ==> identifier_above(t, n)
            == identifier_above(t, p),
{
}

} // verus!
