//! Where an expression begins, where a constructor call begins, and what is neither.
use vstd::prelude::*;

use crate::location::heuristics::{qualifier, trailing_dot};
use crate::location::text;
use crate::location::text::{
    class_name_may_begin, dot_tail, expr_start, is_assignment, last_expr, new_call, new_token_at,
    new_token_from, unless_empty,
};
use crate::text::laws::lemma_trim_keeps;
use crate::text::{all_of, is_ascii_alpha, is_white, is_word, trim_end, CharClass};

use super::{
    is_receiver, is_word_prefix, lemma_flat_begins, lemma_last_line, lemma_run_end_is,
    lemma_run_start_is, lemma_trailing_dots, lemma_trim_end_keeps, lemma_words,
};

verus! {

/// A sign assigns exactly where it is a `=` that neither `=`, `!`, `<` or `>` stands before nor `=`
/// behind.
pub proof fn lemma_assigning_signs(s: Seq<char>, i: int)
    requires
        0 <= i < s.len(),
    ensures
        is_assignment(s, i) <==> {
            &&& s[i] == '='
            &&& i == 0 || s[i - 1] != '=' && s[i - 1] != '!' && s[i - 1] != '<' && s[i - 1] != '>'
            &&& i + 1 == s.len() || s[i + 1] != '='
        },
{
}

/// Read backwards and outside of brackets, an expression begins behind an open bracket, the end of a
/// statement or of a line, an arrow or an assigning sign, and runs on over anything else.
pub proof fn lemma_expression_begins(s: Seq<char>, i: int)
    requires
        0 < i <= s.len(),
    ensures
        s[i - 1] == '(' || s[i - 1] == '{' || s[i - 1] == ';' || s[i - 1] == '\n' ==> expr_start(
            s,
            i,
            0,
            0,
        ) == i,
        s[i - 1] == '>' && i >= 2 && s[i - 2] == '-' ==> expr_start(s, i, 0, 0) == i,
        s[i - 1] == '>' && (i < 2 || s[i - 2] != '-') ==> expr_start(s, i, 0, 0) == expr_start(
            s,
            i - 1,
            0,
            0,
        ),
        s[i - 1] == '=' && (i < 2 || s[i - 2] != '=' && s[i - 2] != '!' && s[i - 2] != '<' && s[i
            - 2] != '>') && (i == s.len() || s[i] != '=') ==> expr_start(s, i, 0, 0) == i,
        s[i - 1] == '=' && (i >= 2 && (s[i - 2] == '=' || s[i - 2] == '!' || s[i - 2] == '<' || s[i
            - 2] == '>') || i < s.len() && s[i] == '=') ==> expr_start(s, i, 0, 0) == expr_start(
            s,
            i - 1,
            0,
            0,
        ),
        is_word(s[i - 1]) || s[i - 1] == '.' || s[i - 1] == '[' || s[i - 1] == ']' || s[i - 1]
            == '+' || s[i - 1] == ',' ==> expr_start(s, i, 0, 0) == expr_start(s, i - 1, 0, 0),
{
}

/// In brackets, the ends of statements and of lines, arrows and assignments do not count.
pub proof fn lemma_expression_in_brackets(s: Seq<char>, i: int, paren: int, brace: int)
    requires
        0 < i <= s.len(),
        0 <= paren,
        0 <= brace,
        paren + brace > 0,
    ensures
        s[i - 1] == ';' || s[i - 1] == '\n' || s[i - 1] == '>' || s[i - 1] == '=' ==> expr_start(
            s,
            i,
            paren,
            brace,
        ) == expr_start(s, i - 1, paren, brace),
        s[i - 1] == ')' ==> expr_start(s, i, paren, brace) == expr_start(
            s,
            i - 1,
            paren + 1,
            brace,
        ),
        s[i - 1] == '}' ==> expr_start(s, i, paren, brace) == expr_start(
            s,
            i - 1,
            paren,
            brace + 1,
        ),
        s[i - 1] == '(' && paren > 0 ==> expr_start(s, i, paren, brace) == expr_start(
            s,
            i - 1,
            paren - 1,
            brace,
        ),
        s[i - 1] == '{' && brace > 0 ==> expr_start(s, i, paren, brace) == expr_start(
            s,
            i - 1,
            paren,
            brace - 1,
        ),
{
}

/// Nothing is no expression.
pub proof fn lemma_no_expression(s: Seq<char>)
    ensures
        unless_empty(s) == if s.len() == 0 {
            None
        } else {
            Some(s)
        },
        trim_end(s).len() > 0 && (trim_end(s).last() == ';' || trim_end(s).last() == '(')
            ==> last_expr(s) is None,
{
    let t = trim_end(s);
    if t.len() > 0 && (t.last() == ';' || t.last() == '(') {
        lemma_expression_begins(t, t.len() as int);
        assert(t.skip(t.len() as int) =~= Seq::<char>::empty());
        crate::text::laws::lemma_trim(Seq::empty());
    }
}

/// A line that has no dot before its last word, or that ends in something else, is no member
/// access.
pub proof fn lemma_no_dot_tail(head: Seq<char>, word: Seq<char>)
    requires
        forall|k: int| 0 <= k < word.len() ==> CharClass::Ident.has(#[trigger] word[k]),
        head.len() == 0 || head.last() != '.' && !CharClass::Ident.has(head.last()),
    ensures
        dot_tail(head + word) is None,
{
    let line = head + word;
    let at = head.len() as int;
    assert forall|k: int| at <= k < line.len() implies CharClass::Ident.has(#[trigger] line[k]) by {
        assert(line[k] == word[k - at]);
    }
    if at > 0 {
        assert(line[at - 1] == head.last());
    }
    lemma_run_start_is(line, CharClass::Ident, line.len() as int, at);
}

/// A word, a dot and a beginning of a word at the end of the last line are a member access there
/// too where comments are not looked for.
pub proof fn lemma_dots_in_errors(head: Seq<char>, receiver: Seq<char>, prefix: Seq<char>)
    requires
        head.len() == 0 || head.last() == '\n',
        is_receiver(receiver),
        is_word_prefix(prefix),
    ensures
        text::trailing_dot(head + receiver + seq!['.'] + prefix) == Some((receiver, prefix)),
{
    let line = receiver + seq!['.'] + prefix;
    let before = head + receiver + seq!['.'] + prefix;
    assert(before =~= head + line);
    let at = receiver.len() + 1;
    assert forall|k: int| 0 <= k < line.len() implies line[k] != '\n' by {
        if k < receiver.len() {
            assert(line[k] == receiver[k]);
        } else if k >= at {
            assert(line[k] == prefix[k - at]);
            lemma_words(prefix[k - at]);
        }
    }
    assert(!line.contains('\n'));
    assert(!is_white(line.last())) by {
        if prefix.len() > 0 {
            assert(line.last() == prefix[prefix.len() - 1]);
            lemma_words(prefix[prefix.len() - 1]);
        } else {
            assert(line.last() == '.');
        }
    }
    assert(before.last() == line.last());
    lemma_trim_end_keeps(before);
    lemma_last_line(head, line);
    assert forall|k: int| at <= k < line.len() implies CharClass::Ident.has(#[trigger] line[k]) by {
        assert(line[k] == prefix[k - at]);
    }
    assert(line[at - 1] == '.');
    lemma_run_start_is(line, CharClass::Ident, line.len() as int, at as int);
    assert(line.skip(at as int) =~= prefix);
    assert(all_of(prefix, CharClass::Word));
    assert(line.take(at - 1) =~= receiver);
    lemma_trim_end_keeps(receiver);
    lemma_flat_begins(receiver, receiver.len() as int);
    assert(receiver.skip(0) =~= receiver);
    lemma_trim_keeps(receiver);
}

// ---- new ---------------------------------------------------------------------------------------

/// The word `new` stands by itself where no letter, digit, `_` or `$` is beside it.
pub proof fn lemma_new_tokens(s: Seq<char>, i: int)
    ensures
        new_token_at(s, i) <==> {
            &&& 0 <= i
            &&& i + 3 <= s.len()
            &&& s[i] == 'n' && s[i + 1] == 'e' && s[i + 2] == 'w'
            &&& i == 0 || !CharClass::Ident.has(s[i - 1])
            &&& i + 3 == s.len() || !CharClass::Ident.has(s[i + 3])
        },
{
    reveal_strlit("new");
    assert("new"@ =~= seq!['n', 'e', 'w']);
    if 0 <= i && i + 3 <= s.len() {
        let w = s.subrange(i, i + 3);
        assert(w[0] == s[i] && w[1] == s[i + 1] && w[2] == s[i + 2]);
        if s[i] == 'n' && s[i + 1] == 'e' && s[i + 2] == 'w' {
            assert(w =~= "new"@);
        }
    }
}

proof fn lemma_new_token_from(s: Seq<char>, i: int, at: int)
    requires
        0 <= i <= at < s.len(),
        new_token_at(s, at),
        forall|k: int| i <= k < at ==> !new_token_at(s, k),
    ensures
        new_token_from(s, i) == Some(at),
    decreases at - i,
{
    if i < at {
        lemma_new_token_from(s, i + 1, at);
    }
}

proof fn lemma_no_new_token(s: Seq<char>, i: int)
    requires
        0 <= i,
        forall|k: int| i <= k < s.len() ==> !new_token_at(s, k),
    ensures
        new_token_from(s, i) is None,
    decreases s.len() - i,
{
    if i < s.len() {
        lemma_no_new_token(s, i + 1);
    }
}

/// The first `new` of a line counts, wherever it stands; what follows it has to be able to begin a
/// class.
pub proof fn lemma_new_in_line(head: Seq<char>, class: Seq<char>, rest: Seq<char>)
    requires
        forall|k: int| 0 <= k < head.len() ==> #[trigger] head[k] != 'n',
        head.len() == 0 || !CharClass::Ident.has(head.last()),
        forall|k: int| 0 <= k < class.len() ==> CharClass::ClassPath.has(#[trigger] class[k]),
        rest.len() == 0 || !CharClass::ClassPath.has(rest[0]),
        class.len() > 0,
    ensures
        is_ascii_alpha(class[0]) || class[0] == '_' || class[0] == '$' ==> new_call(
            head + seq!['n', 'e', 'w', ' '] + class + rest,
        ) == Some((head.len() as int, class)),
        !is_white(class[0]) && !(is_ascii_alpha(class[0]) || class[0] == '_' || class[0] == '$')
            ==> new_call(head + seq!['n', 'e', 'w', ' '] + class + rest) is None,
{
    let s = head + seq!['n', 'e', 'w', ' '] + class + rest;
    let at = head.len() as int;
    assert(s[at] == 'n' && s[at + 1] == 'e' && s[at + 2] == 'w' && s[at + 3] == ' ');
    if at > 0 {
        assert(s[at - 1] == head.last());
    }
    lemma_new_tokens(s, at);
    assert forall|k: int| 0 <= k < at implies !new_token_at(s, k) by {
        lemma_new_tokens(s, k);
        assert(s[k] == head[k]);
    }
    lemma_new_token_from(s, 0, at);
    let after = s.skip(at + 3);
    assert(after =~= seq![' '] + class + rest);
    assert(after[0] == ' ');
    assert(after[1] == class[0]);
    if !is_white(class[0]) {
        lemma_run_end_is(after, CharClass::White, 0, 1);
        let tail = after.skip(1);
        assert(tail =~= class + rest);
        assert(tail[0] == class[0]);
        assert forall|k: int| 0 <= k < class.len() implies CharClass::ClassPath.has(
            #[trigger] tail[k],
        ) by {
            assert(tail[k] == class[k]);
        }
        if rest.len() > 0 {
            assert(tail[class.len() as int] == rest[0]);
        }
        lemma_run_end_is(tail, CharClass::ClassPath, 0, class.len() as int);
        assert(tail.take(class.len() as int) =~= class);
    }
}

/// A line without `new` by itself is no constructor call.
pub proof fn lemma_no_new_in_line(s: Seq<char>)
    requires
        forall|k: int|
            0 <= k && k + 3 <= s.len() && #[trigger] s[k] == 'n' ==> s[k + 1] != 'e' || s[k + 2]
                != 'w' || k > 0 && CharClass::Ident.has(s[k - 1]) || k + 3 < s.len()
                && CharClass::Ident.has(s[k + 3]),
    ensures
        new_call(s) is None,
{
    assert forall|k: int| 0 <= k < s.len() implies !new_token_at(s, k) by {
        lemma_new_tokens(s, k);
    }
    lemma_no_new_token(s, 0);
}

/// A class begins with a letter, `_` or `$`; nothing typed yet is fine too.
pub proof fn lemma_class_beginnings(s: Seq<char>)
    ensures
        class_name_may_begin(s) <==> s.len() == 0 || 'a' <= s[0] <= 'z' || 'A' <= s[0] <= 'Z'
            || s[0] == '_' || s[0] == '$',
{
}

/// What stands before the dot before `new` is the qualifier of the call.
pub proof fn lemma_qualifiers(receiver: Seq<char>)
    requires
        is_receiver(receiver),
    ensures
        qualifier(receiver + seq!['.']) == Some(receiver),
{
    let none = Seq::<char>::empty();
    lemma_trailing_dots(none, receiver, none);
    assert(none + receiver + seq!['.'] + none =~= receiver + seq!['.']);
}

/// A word behind the dot makes it no qualifier.
pub proof fn lemma_no_qualifier(receiver: Seq<char>, prefix: Seq<char>)
    requires
        is_receiver(receiver),
        is_word_prefix(prefix),
        prefix.len() > 0,
    ensures
        qualifier(receiver + seq!['.'] + prefix) is None,
{
    let none = Seq::<char>::empty();
    lemma_trailing_dots(none, receiver, prefix);
    assert(none + receiver + seq!['.'] + prefix =~= receiver + seq!['.'] + prefix);
}

} // verus!
