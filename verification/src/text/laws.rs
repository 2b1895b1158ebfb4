//! What the operations on texts give.
use vstd::prelude::*;

use crate::text::{
    after_last, find_from, index_from, index_of, is_white, last_index_before, last_index_of,
    lemma_run_end, lemma_run_start, run_end, run_start, split, trim, trim_start, CharClass,
};

verus! {

/// What is found from a place on is the first place that holds the character.
pub proof fn lemma_index_from(s: Seq<char>, c: char, i: int)
    requires
        0 <= i,
    ensures
        match index_from(s, c, i) {
            Some(k) => i <= k < s.len() && s[k] == c && forall|q: int|
                i <= q < k ==> #[trigger] s[q] != c,
            None => forall|q: int| i <= q < s.len() ==> #[trigger] s[q] != c,
        },
    decreases s.len() - i,
{
    if i < s.len() && s[i] != c {
        lemma_index_from(s, c, i + 1);
    }
}

/// What is found before a place is the last place that holds the character.
pub proof fn lemma_last_index_before(s: Seq<char>, c: char, j: int)
    requires
        0 <= j <= s.len(),
    ensures
        match last_index_before(s, c, j) {
            Some(k) => 0 <= k < j && s[k] == c && forall|q: int|
                k < q < j ==> #[trigger] s[q] != c,
            None => forall|q: int| 0 <= q < j ==> #[trigger] s[q] != c,
        },
    decreases j,
{
    if j > 0 && s[j - 1] != c {
        lemma_last_index_before(s, c, j - 1);
    }
}

/// What follows the last place of a character holds it no more, and what stands before it ends
/// with it.
pub proof fn lemma_after_last(head: Seq<char>, tail: Seq<char>, c: char)
    requires
        !tail.contains(c),
        head.len() == 0 || head.last() == c,
    ensures
        after_last(head + tail, c) == tail,
{
    let s = head + tail;
    lemma_last_index_before(s, c, s.len() as int);
    match last_index_of(s, c) {
        Some(k) => {
            if k >= head.len() {
                assert(tail[k - head.len()] == c);
                assert(tail.contains(c));
            } else if k < head.len() - 1 {
                assert(s[head.len() - 1] == c);
            }
            assert(s.skip(k + 1) =~= tail);
        },
        None => {
            if head.len() > 0 {
                assert(s[head.len() - 1] == c);
            }
            assert(s =~= tail);
        },
    }
}

/// A text is found where it stands first, and only where it stands.
pub proof fn lemma_find_from(s: Seq<char>, pat: Seq<char>, i: int)
    requires
        0 <= i,
    ensures
        match find_from(s, pat, i) {
            Some(k) => i <= k <= s.len() - pat.len() && s.subrange(k, k + pat.len()) == pat
                && forall|q: int|
                #![trigger s.subrange(q, q + pat.len())]
                i <= q < k ==> s.subrange(q, q + pat.len()) != pat,
            None => forall|q: int|
                #![trigger s.subrange(q, q + pat.len())]
                i <= q <= s.len() - pat.len() ==> s.subrange(q, q + pat.len()) != pat,
        },
    decreases s.len() - i + 1,
{
    if i + pat.len() <= s.len() && s.subrange(i, i + pat.len()) != pat {
        lemma_find_from(s, pat, i + 1);
    }
}

/// White space around a text goes, and nothing else: what is left neither begins nor ends with
/// white space.
pub proof fn lemma_trim(s: Seq<char>) -> (bounds: (int, int))
    ensures
        0 <= bounds.0 <= bounds.1 <= s.len(),
        trim(s) == s.subrange(bounds.0, bounds.1),
        forall|k: int| 0 <= k < bounds.0 || bounds.1 <= k < s.len() ==> is_white(#[trigger] s[k]),
        trim(s).len() > 0 ==> !is_white(trim(s)[0]) && !is_white(trim(s).last()),
{
    let i = run_end(s, CharClass::White, 0);
    lemma_run_end(s, CharClass::White, 0);
    let rest = trim_start(s);
    let j = run_start(rest, CharClass::White, rest.len() as int);
    lemma_run_start(rest, CharClass::White, rest.len() as int);
    assert(trim(s) =~= s.subrange(i, i + j));
    assert forall|k: int| 0 <= k < i || i + j <= k < s.len() implies is_white(
        #[trigger] s[k],
    ) by {
        if k >= i {
            assert(rest[k - i] == s[k]);
        }
    }
    if j > 0 {
        assert(trim(s)[0] == s[i]);
        assert(trim(s).last() == rest[j - 1]);
    }
    (i, i + j)
}

/// A text with no white space at its ends stays as it is.
pub proof fn lemma_trim_keeps(s: Seq<char>)
    requires
        s.len() > 0 ==> !is_white(s[0]) && !is_white(s.last()),
    ensures
        trim(s) == s,
{
    let b = lemma_trim(s);
    if s.len() > 0 {
        if b.0 > 0 {
            assert(is_white(s[0]));
        }
        if b.1 < s.len() {
            assert(is_white(s[s.len() - 1]));
        }
    }
    assert(s.subrange(b.0, b.1) =~= s);
}

/// The pieces of a text with a character between them.
pub open spec fn joined_with(pieces: Seq<Seq<char>>, c: char) -> Seq<char>
    decreases pieces.len(),
{
    if pieces.len() == 0 {
        Seq::empty()
    } else if pieces.len() == 1 {
        pieces[0]
    } else {
        pieces[0].push(c) + joined_with(pieces.skip(1), c)
    }
}

/// The pieces of a text hold none of the characters that it was split at, and joined again with it
/// they give the text back.
pub proof fn lemma_split(s: Seq<char>, c: char)
    ensures
        split(s, c).len() > 0,
        joined_with(split(s, c), c) == s,
        forall|k: int| 0 <= k < split(s, c).len() ==> !(#[trigger] split(s, c)[k]).contains(c),
    decreases s.len(),
{
    lemma_index_from(s, c, 0);
    match index_of(s, c) {
        Some(i) => {
            let first = s.take(i);
            let rest = split(s.skip(i + 1), c);
            lemma_split(s.skip(i + 1), c);
            let all = split(s, c);
            assert(all == seq![first] + rest);
            assert(all.skip(1) =~= rest);
            assert(all[0] == first);
            assert(first.push(c) + s.skip(i + 1) =~= s);
            assert forall|k: int| 0 <= k < all.len() implies !(#[trigger] all[k]).contains(c) by {
                if k > 0 {
                    assert(all[k] == rest[k - 1]);
                }
            }
        },
        None => {
            assert(split(s, c)[0] == s);
        },
    }
}

// ---- classes of characters ---------------------------------------------------------------------

/// A letter of ASCII.
pub open spec fn is_letter(c: char) -> bool {
    65 <= c as u32 <= 90 || 97 <= c as u32 <= 122
}

/// A digit of ASCII.
pub open spec fn is_digit(c: char) -> bool {
    48 <= c as u32 <= 57
}

/// What words, names, paths, types and receivers are made of, and what ends lines, statements and
/// parts of paths.
pub proof fn lemma_classes(c: char)
    ensures
        CharClass::Word.has(c) <==> is_letter(c) || is_digit(c) || c == '_',
        CharClass::Ident.has(c) <==> is_letter(c) || is_digit(c) || c == '_' || c == '$',
        CharClass::ClassPath.has(c) <==> is_letter(c) || is_digit(c) || c == '_' || c == '$' || c
            == '.',
        CharClass::TypeText.has(c) <==> is_letter(c) || is_digit(c) || c == '_' || c == '$' || c
            == '.' || c == '<' || c == '>' || c == ',' || c == '?' || c == '[' || c == ']' || c
            == '&' || is_white(c),
        CharClass::Receiver.has(c) <==> is_letter(c) || is_digit(c) || c == '_' || c == '.' || c
            == '(' || c == ')' || c == ']',
        CharClass::White.has(c) <==> is_white(c),
        !CharClass::NotNewline.has(c) <==> c == '\n',
        !CharClass::NotStatementEnd.has(c) <==> c == ';' || c == '{' || c == '}',
        !CharClass::NotLineOrStatementEnd.has(c) <==> c == '\n' || c == ';' || c == '{' || c == '}',
        !CharClass::NotDot.has(c) <==> c == '.',
{
}

/// Blanks, tabs and line ends are white space; no letter, digit or sign of ASCII is.
pub proof fn lemma_white(c: char)
    ensures
        c == ' ' || c == '\t' || c == '\n' || c == '\r' ==> is_white(c),
        33 <= c as u32 <= 126 ==> !is_white(c),
{
}

} // verus!
