//! What holds of every text with the marker.
use vstd::prelude::*;

use crate::extractor::{unmarked, without, JavaContextExtractor, SENTINEL};
use crate::injection::{
    bare_new, broken_creation, closers_after, closing, creation_anchor, error_at, injected,
    injected_source, is_created, last_identifier, last_identifier_from, later_identifier, marked,
    mode_after, open_from, terminator, typed_identifier, ScanMode,
};
use crate::syntax::{NodeId, SyntaxTree};
use crate::text::{find, lemma_stands_is_found};

pub mod scans;
pub mod texts;

verus! {

// ---- the marker is there -----------------------------------------------------------------------

proof fn lemma_marked_is_found(
    source: Seq<char>,
    from: int,
    to: int,
    before: Seq<char>,
    after: Seq<char>,
)
    requires
        0 <= from <= source.len(),
        0 <= to <= source.len(),
    ensures
        find(injected(source, from, to, marked(before, after)), SENTINEL@) is Some,
{
    let text = injected(source, from, to, marked(before, after));
    let at = from + before.len();
    assert(text.subrange(at, at + SENTINEL@.len()) =~= SENTINEL@);
    lemma_stands_is_found(text, SENTINEL@, 0, at);
}

proof fn lemma_ancestor_in_tree(t: &SyntaxTree, n: NodeId, kind: Seq<char>)
    requires
        t.has(n),
    ensures
        t.ancestor(n, kind) matches Some(a) ==> t.has(a),
    decreases n,
{
    if let Some(p) = t.parent_of(n) {
        if p < n {
            lemma_ancestor_in_tree(t, p, kind);
        }
    }
}

proof fn lemma_last_identifier_in_tree(t: &SyntaxTree, n: NodeId, offset: int, best: Option<NodeId>)
    requires
        t.has(n),
        best matches Some(b) ==> t.has(b),
    ensures
        last_identifier(t, n, offset, best) matches Some(b) ==> t.has(b),
    decreases t.nodes@.len() - n, t.kids(n).len() + 1,
{
    lemma_last_identifier_from_in_tree(t, n, offset, 0, later_identifier(t, n, offset, best));
}

proof fn lemma_last_identifier_from_in_tree(
    t: &SyntaxTree,
    n: NodeId,
    offset: int,
    i: int,
    best: Option<NodeId>,
)
    requires
        t.has(n),
        best matches Some(b) ==> t.has(b),
    ensures
        last_identifier_from(t, n, offset, i, best) matches Some(b) ==> t.has(b),
    decreases t.nodes@.len() - n, t.kids(n).len() - i,
{
    if 0 <= i < t.kids(n).len() {
        let k = t.kids(n)[i];
        if n < k && t.has(k) {
            lemma_last_identifier_in_tree(t, k, offset, best);
            lemma_last_identifier_from_in_tree(
                t,
                n,
                offset,
                i + 1,
                last_identifier(t, k, offset, best),
            );
        }
    }
}

/// The text that is parsed again holds the marker.
pub proof fn lemma_marker_is_found(ctx: &JavaContextExtractor, cursor: Option<NodeId>)
    requires
        ctx.wf(),
        cursor matches Some(n) ==> ctx.tree.has(n),
    ensures
        find(injected_source(ctx, cursor), SENTINEL@) is Some,
{
    let t = &ctx.tree;
    let source = ctx.source@;
    let at = ctx.offset as int;
    let text = injected_source(ctx, cursor);
    lemma_marked_is_found(source, at, at, " "@, "()"@);
    lemma_marked_is_found(source, at, at, ""@, terminator(t, cursor));
    lemma_marked_is_found(source, at, at, "void "@, "() {}"@);
    if !bare_new(ctx) {
        let error = error_at(t, cursor);
        if error is Some && broken_creation(ctx, error->0, cursor) {
            if let Some(id) = creation_anchor(ctx, error->0, cursor) {
                if ctx.text_to_cursor(id).len() > 0 {
                    lemma_ancestor_in_tree(t, cursor->0, "ERROR"@);
                    lemma_last_identifier_in_tree(t, error->0, at, None);
                    assert(t.has(id));
                    lemma_marked_is_found(
                        source,
                        t.start_of(id),
                        t.end_of(id),
                        ctx.text_to_cursor(id),
                        "()"@,
                    );
                }
            }
        } else if let Some(id) = typed_identifier(ctx, cursor) {
            let prefix = ctx.text_to_cursor(id);
            let to = if t.end_of(id) < ctx.offset {
                t.end_of(id)
            } else {
                at
            };
            let call = if is_created(ctx, id) {
                "()"@
            } else {
                ""@
            };
            lemma_marked_is_found(source, t.start_of(id), to, "void "@ + prefix, "() {}"@);
            lemma_marked_is_found(
                source,
                t.start_of(id),
                to,
                prefix,
                call + terminator(t, cursor),
            );
        }
    }
}

// ---- brackets ----------------------------------------------------------------------------------

/// What the scan of a text is in at its end.
pub open spec fn mode_from(s: Seq<char>, i: int, mode: ScanMode) -> ScanMode
    decreases s.len() - i,
{
    if i < 0 || i >= s.len() {
        mode
    } else {
        mode_from(s, i + 1, mode_after(s, i, mode))
    }
}

/// A text that does not end in a string or a comment.
pub open spec fn ends_in_code(s: Seq<char>) -> bool {
    mode_from(s, 0, ScanMode::Code) == ScanMode::Code
}

spec fn all_close(s: Seq<char>) -> bool {
    forall|k: int| 0 <= k < s.len() ==> s[k] == ')' || s[k] == ']' || s[k] == '}'
}

proof fn lemma_open_close(s: Seq<char>, i: int, mode: ScanMode, open: Seq<char>)
    requires
        all_close(open),
    ensures
        all_close(open_from(s, i, mode, open)),
    decreases s.len() - i,
{
    if 0 <= i < s.len() {
        lemma_open_close(s, i + 1, mode_after(s, i, mode), closers_after(s[i], mode, open));
    }
}

proof fn lemma_scan_splits(s: Seq<char>, t: Seq<char>, i: int, mode: ScanMode, open: Seq<char>)
    requires
        0 <= i <= s.len(),
        all_close(t),
    ensures
        open_from(s + t, i, mode, open) == open_from(
            s + t,
            s.len() as int,
            mode_from(s, i, mode),
            open_from(s, i, mode, open),
        ),
    decreases s.len() - i,
{
    if i < s.len() {
        assert((s + t)[i] == s[i]);
        assert(mode_after(s + t, i, mode) == mode_after(s, i, mode));
        lemma_scan_splits(s, t, i + 1, mode_after(s, i, mode), closers_after(s[i], mode, open));
    }
}

proof fn lemma_closers_close(s: Seq<char>, i: int, open: Seq<char>)
    requires
        0 <= i <= s.len(),
        all_close(open),
        s.skip(i) == open.reverse(),
    ensures
        open_from(s, i, ScanMode::Code, open) == Seq::<char>::empty(),
    decreases s.len() - i,
{
    if i < s.len() {
        assert(s.skip(i)[0] == s[i]);
        assert(open.reverse().len() == open.len());
        assert(open.reverse()[0] == open.last());
        let rest = open.drop_last();
        assert forall|k: int| 0 <= k < rest.len() implies s.skip(i + 1)[k] == rest.reverse()[k] by {
            assert(s.skip(i)[k + 1] == s[i + 1 + k]);
            assert(open.reverse()[k + 1] == rest[rest.len() - 1 - k]);
        }
        assert(s.skip(i + 1) =~= rest.reverse());
        lemma_closers_close(s, i + 1, rest);
    } else {
        assert(open.reverse().len() == open.len());
        assert(open =~= Seq::<char>::empty());
    }
}

/// A text that does not end in a string or a comment has no bracket open once its closing brackets
/// are put behind it.
pub proof fn lemma_closing_closes(s: Seq<char>)
    requires
        ends_in_code(s),
    ensures
        closing(s + closing(s)) == Seq::<char>::empty(),
{
    let open = open_from(s, 0, ScanMode::Code, Seq::empty());
    let t = closing(s);
    lemma_open_close(s, 0, ScanMode::Code, Seq::empty());
    assert(all_close(t)) by {
        assert forall|k: int| 0 <= k < t.len() implies t[k] == ')' || t[k] == ']' || t[k] == '}' by {
            assert(t[k] == open[open.len() - 1 - k]);
        }
    }
    lemma_scan_splits(s, t, 0, ScanMode::Code, Seq::empty());
    assert((s + t).skip(s.len() as int) =~= open.reverse());
    lemma_closers_close(s + t, s.len() as int, open);
    assert(Seq::<char>::empty().reverse() =~= Seq::<char>::empty());
}

// ---- taking the marker out ---------------------------------------------------------------------

/// Taking the marker out of a text that was marked once gives the text back.
pub proof fn lemma_unmarked_gives_back(before: Seq<char>, after: Seq<char>)
    requires
        find(marked(before, after), SENTINEL@) == Some(before.len() as int),
        find(after, SENTINEL@) is None,
    ensures
        unmarked(marked(before, after)) == before + after,
{
    reveal_strlit("__KIRO__");
    let s = marked(before, after);
    assert(s.take(before.len() as int) =~= before);
    assert(s.skip((before.len() + SENTINEL@.len()) as int) =~= after);
    assert(without(after, SENTINEL@) == after);
}

/// A text without the marker stays as it is.
pub proof fn lemma_unmarked_keeps(s: Seq<char>)
    requires
        find(s, SENTINEL@) is None,
    ensures
        unmarked(s) == s,
{
}

} // verus!
