//! Source-text analysis without a syntax tree.
use vstd::prelude::*;
use vstd::slice::slice_subrange;

use crate::text::{
    all_of, ascii_alpha, ending_run, is_all, is_ascii_alpha, last_run, run_backward, run_start,
    stands_at, take_while, taken_while, to_chars, to_text, trim, trim_end, trim_start, trimmed,
    trimmed_end, trimmed_start, CharClass,
};

verus! {

/// The last line of a text.
pub open spec fn last_line(s: Seq<char>) -> Seq<char> {
    last_run(s, CharClass::NotNewline)
}

/// A text, unless it is empty.
pub open spec fn unless_empty(s: Seq<char>) -> Option<Seq<char>> {
    if s.len() == 0 {
        None
    } else {
        Some(s)
    }
}

pub fn non_empty(s: &[char]) -> (r: Option<String>)
    ensures
        r.deep_view() == unless_empty(s@),
{
    if s.len() == 0 {
        None
    } else {
        Some(to_text(s))
    }
}

/// Whether an assignment sign stands at `i`: a `=` that is no part of `==`, `!=`, `<=` or `>=`.
pub open spec fn is_assignment(s: Seq<char>, i: int) -> bool {
    &&& s[i] == '='
    &&& !(0 < i && (s[i - 1] == '=' || s[i - 1] == '!' || s[i - 1] == '<' || s[i - 1] == '>'))
    &&& !(i + 1 < s.len() && s[i + 1] == '=')
}

/// Where the expression begins that ends at `i`, read backwards, inside `paren` open parentheses
/// and `brace` open braces that were met on the way: after an unmatched bracket, or, outside all
/// brackets, after a statement's end, a newline, a lambda arrow or an assignment.
pub open spec fn expr_start(s: Seq<char>, i: int, paren: int, brace: int) -> int
    decreases i,
{
    if i <= 0 || i > s.len() {
        0
    } else {
        let c = s[i - 1];
        let flat = paren == 0 && brace == 0;
        if c == ')' {
            expr_start(s, i - 1, paren + 1, brace)
        } else if c == '(' {
            if paren > 0 {
                expr_start(s, i - 1, paren - 1, brace)
            } else {
                i
            }
        } else if c == '}' {
            expr_start(s, i - 1, paren, brace + 1)
        } else if c == '{' {
            if brace > 0 {
                expr_start(s, i - 1, paren, brace - 1)
            } else {
                i
            }
        } else if flat && (c == ';' || c == '\n') {
            i
        } else if flat && c == '>' && i >= 2 && s[i - 2] == '-' {
            i
        } else if flat && is_assignment(s, i - 1) {
            i
        } else {
            expr_start(s, i - 1, paren, brace)
        }
    }
}

/// The last expression of a text.
pub open spec fn last_expr(s: Seq<char>) -> Option<Seq<char>> {
    let t = trim_end(s);
    unless_empty(trim(t.skip(expr_start(t, t.len() as int, 0, 0))))
}

fn assignment_at(s: &[char], i: usize) -> (r: bool)
    requires
        i < s@.len(),
    ensures
        r == is_assignment(s@, i as int),
{
    if s[i] != '=' {
        return false;
    }
    if i > 0 && (s[i - 1] == '=' || s[i - 1] == '!' || s[i - 1] == '<' || s[i - 1] == '>') {
        return false;
    }
    let n: usize = s.len();
    !(i + 1 < n && s[i + 1] == '=')
}

/// The last expression of a text, given as characters.
pub fn last_expr_of(text: &[char]) -> (r: Option<String>)
    ensures
        r.deep_view() == last_expr(text@),
{
    let s = trimmed_end(text);
    let end: usize = s.len();
    let mut paren: usize = 0;
    let mut brace: usize = 0;
    let mut i: usize = end;
    while i > 0
        invariant
            i <= end,
            end == s@.len(),
            paren <= end - i,
            brace <= end - i,
            s@ == trim_end(text@),
            expr_start(s@, end as int, 0, 0) == expr_start(
                s@,
                i as int,
                paren as int,
                brace as int,
            ),
        decreases i,
    {
        let c = s[i - 1];
        let flat: bool = paren == 0 && brace == 0;
        let stop: bool = if c == ')' || c == '}' {
            false
        } else if c == '(' {
            paren == 0
        } else if c == '{' {
            brace == 0
        } else {
            flat && (c == ';' || c == '\n' || (c == '>' && i >= 2 && s[i - 2] == '-')
                || assignment_at(s, i - 1))
        };
        if stop {
            let tail = slice_subrange(s, i, end);
            assert(tail@ =~= s@.skip(i as int));
            return non_empty(trimmed(tail));
        }
        if c == ')' {
            paren += 1;
        } else if c == '(' {
            paren -= 1;
        } else if c == '}' {
            brace += 1;
        } else if c == '{' {
            brace -= 1;
        }
        i -= 1;
    }
    assert(s@.skip(0) =~= s@);
    non_empty(trimmed(s))
}

/// Extracts the last complete expression from the end of a text.
///
/// `"class A { void f() { this"` gives `"this"`, `"{ RealMain.getInstance()"` gives
/// `"RealMain.getInstance()"`.
pub fn extract_last_expr_from_text(s: &str) -> (r: Option<String>)
    ensures
        r.deep_view() == last_expr(s@),
{
    let c = to_chars(s);
    last_expr_of(&c)
}

/// A receiver, a dot and the beginning of a member name at the end of a line.
pub open spec fn dot_tail(line: Seq<char>) -> Option<(Seq<char>, Seq<char>)> {
    let i = run_start(line, CharClass::Ident, line.len() as int);
    if i <= 0 || line[i - 1] != '.' || !all_of(line.skip(i), CharClass::Word) {
        None
    } else {
        match last_expr(line.take(i - 1)) {
            Some(receiver) => Some((receiver, line.skip(i))),
            None => None,
        }
    }
}

/// The dot tail of the last line before the cursor.
pub open spec fn trailing_dot(before: Seq<char>) -> Option<(Seq<char>, Seq<char>)> {
    dot_tail(last_line(trim_end(before)))
}

pub fn dot_tail_of(line: &[char]) -> (r: Option<(String, String)>)
    ensures
        r.deep_view() == dot_tail(line@),
{
    let n: usize = line.len();
    let i = run_backward(line, CharClass::Ident, n);
    if i == 0 || line[i - 1] != '.' {
        return None;
    }
    let member = slice_subrange(line, i, n);
    assert(member@ =~= line@.skip(i as int));
    if !is_all(member, CharClass::Word) {
        return None;
    }
    let head = slice_subrange(line, 0, i - 1);
    assert(head@ =~= line@.take(i - 1));
    match last_expr_of(head) {
        Some(receiver) => Some((receiver, to_text(member))),
        None => None,
    }
}

pub fn trailing_dot_of(before: &[char]) -> (r: Option<(String, String)>)
    ensures
        r.deep_view() == trailing_dot(before@),
{
    dot_tail_of(ending_run(trimmed_end(before), CharClass::NotNewline))
}

/// Detects the pattern of a trailing dot in the text before the cursor: the receiver expression
/// and the member prefix.
pub fn detect_trailing_dot_in_text(before_cursor: &str) -> (r: Option<(String, String)>)
    ensures
        r.deep_view() == trailing_dot(before_cursor@),
{
    let c = to_chars(before_cursor);
    trailing_dot_of(&c)
}

/// Whether the word `new` stands at `i` by itself.
pub open spec fn new_token_at(s: Seq<char>, i: int) -> bool {
    &&& 0 <= i
    &&& i + 3 <= s.len()
    &&& s.subrange(i, i + 3) == "new"@
    &&& i == 0 || !CharClass::Ident.has(s[i - 1])
    &&& i + 3 >= s.len() || !CharClass::Ident.has(s[i + 3])
}

/// The first place from `i` on where the word `new` stands by itself.
pub open spec fn new_token_from(s: Seq<char>, i: int) -> Option<int>
    decreases s.len() - i,
{
    if i < 0 || i >= s.len() {
        None
    } else if new_token_at(s, i) {
        Some(i)
    } else {
        new_token_from(s, i + 1)
    }
}

/// Finds the word `new` standing by itself.
pub fn find_new_token_pos(s: &[char]) -> (r: Option<usize>)
    ensures
        crate::text::at(r) == new_token_from(s@, 0),
        r matches Some(i) ==> i + 3 <= s@.len(),
{
    let pat = to_chars("new");
    let n: usize = s.len();
    proof {
        reveal_strlit("new");
    }
    let mut i: usize = 0;
    while i < n
        invariant
            i <= n,
            n == s@.len(),
            pat@ == "new"@,
            pat@.len() == 3,
            new_token_from(s@, 0) == new_token_from(s@, i as int),
        decreases n - i,
    {
        if n - i >= 3 && stands_at(s, &pat, i) && (i == 0 || !CharClass::Ident.test(s[i - 1])) && (n
            - i == 3 || !CharClass::Ident.test(s[i + 3])) {
            return Some(i);
        }
        i += 1;
    }
    None
}

/// Whether the text after `new` may begin a class name: it is empty or begins with a letter, `_`
/// or `$`.
pub open spec fn class_name_may_begin(s: Seq<char>) -> bool {
    s.len() == 0 || is_ascii_alpha(s[0]) || s[0] == '_' || s[0] == '$'
}

/// The beginning of a class name after the first `new` of a line, with the place of that `new`.
pub open spec fn new_call(line: Seq<char>) -> Option<(int, Seq<char>)> {
    match new_token_from(line, 0) {
        Some(i) => {
            let after = trim_start(line.skip(i + 3));
            if class_name_may_begin(after) {
                Some((i, take_while(after, CharClass::ClassPath)))
            } else {
                None
            }
        },
        None => None,
    }
}

pub fn new_call_of(line: &[char]) -> (r: Option<(usize, String)>)
    ensures
        match r {
            Some((i, prefix)) => new_call(line@) == Some((i as int, prefix@)) && i + 3
                <= line@.len(),
            None => new_call(line@) is None,
        },
{
    match find_new_token_pos(line) {
        Some(i) => {
            let n: usize = line.len();
            let tail = slice_subrange(line, i + 3, n);
            assert(tail@ =~= line@.skip(i + 3));
            let after = trimmed_start(tail);
            if after.len() == 0 || ascii_alpha(after[0]) || after[0] == '_' || after[0] == '$' {
                Some((i, to_text(taken_while(after, CharClass::ClassPath))))
            } else {
                None
            }
        },
        None => None,
    }
}

/// The class prefix after `new` on the last line with text.
pub open spec fn new_before_cursor(before: Seq<char>) -> Option<(Seq<char>, Option<Seq<char>>)> {
    match new_call(trim_start(last_line(trim_end(before)))) {
        Some((_, prefix)) => Some((prefix, None)),
        None => None,
    }
}

pub fn new_before_cursor_in(before: &[char]) -> (r: Option<(String, Option<String>)>)
    ensures
        r.deep_view() == new_before_cursor(before@),
{
    let line = trimmed_start(ending_run(trimmed_end(before), CharClass::NotNewline));
    match new_call_of(line) {
        Some((_, prefix)) => Some((prefix, None)),
        None => None,
    }
}

/// Detects `new ClassName` before the cursor: the class prefix, and no hint of an expected type.
pub fn detect_new_keyword_before_cursor(before_cursor: &str) -> (r: Option<
    (String, Option<String>),
>)
    ensures
        r.deep_view() == new_before_cursor(before_cursor@),
{
    let c = to_chars(before_cursor);
    new_before_cursor_in(&c)
}

} // verus!
