//! Rules that read the text round the cursor where the syntax tree is missing or misleading.
use vstd::prelude::*;
use vstd::slice::slice_subrange;

use crate::extractor::{is_java_keyword, is_keyword, strip_sentinel, unmarked, JavaContextExtractor};
use crate::location::text::{dot_tail, dot_tail_of, last_line, new_call, new_call_of};
use crate::location::utils::Located;
use crate::semantic::{CursorLocation, LocationView};
use crate::text::{
    all_of, begins_with, contains_char, ending_run, is_all, is_white, last_run, run_backward, run_end,
    run_forward, run_start, starts_with, strip_prefix, to_chars, to_text, trim, trim_end,
    trim_start, trimmed, trimmed_end, trimmed_start, white, without_prefix, CharClass,
};

pub use crate::location::text::extract_last_expr_from_text;

verus! {

/// A constructor call that is being typed: the class prefix, and the expression that qualifies
/// `new`.
#[derive(Debug, PartialEq, Eq)]
pub struct DetectedConstructorCall {
    pub class_prefix: String,
    pub qualifier_expr: Option<String>,
}

impl DeepView for DetectedConstructorCall {
    type V = (Seq<char>, Option<Seq<char>>);

    open spec fn deep_view(&self) -> (Seq<char>, Option<Seq<char>>) {
        (self.class_prefix@, self.qualifier_expr.deep_view())
    }
}

// ---- line comments -----------------------------------------------------------------------------

/// Where the line comment begins, or the end of the line. At `i` the scan is inside a string or a
/// character literal, or behind a backslash in one, as the flags say.
pub open spec fn comment_start(
    s: Seq<char>,
    i: int,
    in_string: bool,
    in_char: bool,
    escaped: bool,
) -> int
    decreases s.len() - i,
{
    if i < 0 || i >= s.len() {
        s.len() as int
    } else if escaped {
        comment_start(s, i + 1, in_string, in_char, false)
    } else if s[i] == '\\' && (in_string || in_char) {
        comment_start(s, i + 1, in_string, in_char, true)
    } else if s[i] == '"' && !in_char {
        comment_start(s, i + 1, !in_string, in_char, false)
    } else if s[i] == '\'' && !in_string {
        comment_start(s, i + 1, in_string, !in_char, false)
    } else if s[i] == '/' && !in_string && !in_char && i + 1 < s.len() && s[i + 1] == '/' {
        i
    } else {
        comment_start(s, i + 1, in_string, in_char, false)
    }
}

/// A line without its line comment.
pub open spec fn code_part(line: Seq<char>) -> Seq<char> {
    line.take(comment_start(line, 0, false, false, false))
}

pub fn strip_trailing_line_comment(line: &[char]) -> (r: &[char])
    ensures
        r@ == code_part(line@),
{
    let n: usize = line.len();
    let mut i: usize = 0;
    let mut in_string: bool = false;
    let mut in_char: bool = false;
    let mut escaped: bool = false;
    while i < n
        invariant
            i <= n,
            n == line@.len(),
            comment_start(line@, 0, false, false, false) == comment_start(
                line@,
                i as int,
                in_string,
                in_char,
                escaped,
            ),
        decreases n - i,
    {
        let c = line[i];
        if escaped {
            escaped = false;
        } else if c == '\\' && (in_string || in_char) {
            escaped = true;
        } else if c == '"' && !in_char {
            in_string = !in_string;
        } else if c == '\'' && !in_string {
            in_char = !in_char;
        } else if c == '/' && !in_string && !in_char && i + 1 < n && line[i + 1] == '/' {
            return slice_subrange(line, 0, i);
        }
        i += 1;
    }
    slice_subrange(line, 0, n)
}

// ---- dots and `new` ----------------------------------------------------------------------------

/// The dot tail of the last line before the cursor, line comments aside.
pub open spec fn trailing_dot(before: Seq<char>) -> Option<(Seq<char>, Seq<char>)> {
    dot_tail(trim_end(code_part(last_line(trim_end(before)))))
}

pub fn trailing_dot_of(before: &[char]) -> (r: Option<(String, String)>)
    ensures
        r.deep_view() == trailing_dot(before@),
{
    let line = ending_run(trimmed_end(before), CharClass::NotNewline);
    dot_tail_of(trimmed_end(strip_trailing_line_comment(line)))
}

/// Detects the pattern of a trailing dot in the text before the cursor: `<expr>.<prefix>` on the
/// last line, line comments aside.
pub fn detect_trailing_dot_in_text(before_cursor: &str) -> (r: Option<(String, String)>)
    ensures
        r.deep_view() == trailing_dot(before_cursor@),
{
    let c = to_chars(before_cursor);
    trailing_dot_of(&c)
}

/// The expression before the dot that ends a text.
pub open spec fn qualifier(head: Seq<char>) -> Option<Seq<char>> {
    match trailing_dot(head) {
        Some((receiver, member)) => if member.len() == 0 {
            Some(receiver)
        } else {
            None
        },
        None => None,
    }
}

/// The constructor call that is being typed on the current line.
pub open spec fn new_before_cursor(before: Seq<char>) -> Option<(Seq<char>, Option<Seq<char>>)> {
    let line = trim_start(trim_end(last_line(before)));
    match new_call(line) {
        Some((i, prefix)) => Some((prefix, qualifier(line.take(i)))),
        None => None,
    }
}

pub fn new_before_cursor_in(before: &[char]) -> (r: Option<DetectedConstructorCall>)
    ensures
        r.deep_view() == new_before_cursor(before@),
{
    let line = trimmed_start(trimmed_end(ending_run(before, CharClass::NotNewline)));
    match new_call_of(line) {
        Some((i, class_prefix)) => {
            let head = slice_subrange(line, 0, i);
            assert(head@ =~= line@.take(i as int));
            let qualifier_expr: Option<String> = match trailing_dot_of(head) {
                Some((receiver, member)) => if member.as_str().is_empty() {
                    Some(receiver)
                } else {
                    None
                },
                None => None,
            };
            Some(DetectedConstructorCall { class_prefix, qualifier_expr })
        },
        None => None,
    }
}

/// Detects `new ClassName` on the current line before the cursor, with the expression that
/// qualifies `new`.
pub fn detect_new_keyword_before_cursor(before_cursor: &str) -> (r: Option<DetectedConstructorCall>)
    ensures
        r.deep_view() == new_before_cursor(before_cursor@),
{
    let c = to_chars(before_cursor);
    new_before_cursor_in(&c)
}

// ---- imports -----------------------------------------------------------------------------------

/// The statement that is being typed.
pub open spec fn open_statement(before: Seq<char>) -> Seq<char> {
    trim_start(last_run(before, CharClass::NotStatementEnd))
}

pub fn open_statement_of(before: &[char]) -> (r: &[char])
    ensures
        r@ == open_statement(before@),
{
    trimmed_start(ending_run(before, CharClass::NotStatementEnd))
}

/// Whether the text before the cursor looks like an import.
pub open spec fn in_import(before: Seq<char>) -> bool {
    starts_with(open_statement(before), "import"@)
}

pub fn is_import_context(before: &[char]) -> (r: bool)
    ensures
        r == in_import(before@),
{
    begins_with(open_statement_of(before), "import")
}

/// An import with the given prefix; its last part is what is completed.
pub open spec fn at_import(is_static: bool, prefix: Seq<char>) -> Located {
    (
        if is_static {
            LocationView::ImportStatic { prefix }
        } else {
            LocationView::Import { prefix }
        },
        last_run(prefix, CharClass::NotDot),
    )
}

pub fn import_location(is_static: bool, prefix: &[char]) -> (r: (CursorLocation, String))
    ensures
        r.deep_view() == at_import(is_static, prefix@),
{
    let query = to_text(ending_run(prefix, CharClass::NotDot));
    let prefix = to_text(prefix);
    if is_static {
        (CursorLocation::ImportStatic { prefix }, query)
    } else {
        (CursorLocation::Import { prefix }, query)
    }
}

/// What follows the word `import` in the statement that is being typed.
pub open spec fn after_import(before: Seq<char>) -> Seq<char> {
    match strip_prefix(open_statement(before), "import"@) {
        Some(rest) => trim_start(rest),
        None => Seq::empty(),
    }
}

/// The import that the text before the cursor spells.
pub open spec fn import_from_text(before: Seq<char>) -> Located {
    let rest = after_import(before);
    if starts_with(rest, "static "@) {
        at_import(true, unmarked(trim_start(rest.skip(6))))
    } else {
        at_import(false, unmarked(rest))
    }
}

pub fn handle_import_from_text(before: &[char]) -> (r: (CursorLocation, String))
    ensures
        r.deep_view() == import_from_text(before@),
{
    let stmt = open_statement_of(before);
    let n: usize = stmt.len();
    let rest: &[char] = match without_prefix(stmt, "import") {
        Some(tail) => trimmed_start(tail),
        None => slice_subrange(stmt, n, n),
    };
    assert(rest@ =~= after_import(before@));
    if begins_with(rest, "static ") {
        proof {
            reveal_strlit("static ");
        }
        let tail = slice_subrange(rest, 6, rest.len());
        assert(tail@ =~= rest@.skip(6));
        let prefix = strip_sentinel(trimmed_start(tail));
        import_location(true, &prefix)
    } else {
        let prefix = strip_sentinel(rest);
        import_location(false, &prefix)
    }
}

// ---- types before a variable name --------------------------------------------------------------

/// The first identifier-like token.
pub open spec fn first_token(s: Seq<char>) -> Option<Seq<char>> {
    let i = first_ident(s, 0);
    if i >= s.len() {
        None
    } else {
        Some(s.subrange(i, run_end(s, CharClass::Ident, i)))
    }
}

/// The first place from `i` on that holds a character of an identifier, or the end.
pub open spec fn first_ident(s: Seq<char>, i: int) -> int
    decreases s.len() - i,
{
    if 0 <= i < s.len() && !CharClass::Ident.has(s[i]) {
        first_ident(s, i + 1)
    } else {
        i
    }
}

/// Where the text ends when everything behind its last identifier-like token is cut.
pub open spec fn last_ident_end(s: Seq<char>, j: int) -> int
    decreases j,
{
    if 0 < j <= s.len() && !CharClass::Ident.has(s[j - 1]) {
        last_ident_end(s, j - 1)
    } else {
        j
    }
}

/// The last identifier-like token.
pub open spec fn last_token(s: Seq<char>) -> Option<Seq<char>> {
    let j = last_ident_end(s, s.len() as int);
    if j <= 0 {
        None
    } else {
        Some(s.subrange(run_start(s, CharClass::Ident, j), j))
    }
}

pub fn first_identifier_token(s: &[char]) -> (r: Option<&[char]>)
    ensures
        crate::text::slice_view(r) == first_token(s@),
{
    let n: usize = s.len();
    let mut i: usize = 0;
    while i < n && !CharClass::Ident.test(s[i])
        invariant
            i <= n,
            n == s@.len(),
            first_ident(s@, 0) == first_ident(s@, i as int),
        decreases n - i,
    {
        i += 1;
    }
    if i == n {
        return None;
    }
    let e = run_forward(s, CharClass::Ident, i);
    Some(slice_subrange(s, i, e))
}

pub fn last_identifier_token(s: &[char]) -> (r: Option<&[char]>)
    ensures
        crate::text::slice_view(r) == last_token(s@),
{
    let n: usize = s.len();
    let mut j: usize = n;
    while j > 0 && !CharClass::Ident.test(s[j - 1])
        invariant
            j <= n,
            n == s@.len(),
            last_ident_end(s@, n as int) == last_ident_end(s@, j as int),
        decreases j,
    {
        j -= 1;
    }
    if j == 0 {
        return None;
    }
    let i = run_backward(s, CharClass::Ident, j);
    Some(slice_subrange(s, i, j))
}

/// The type that stands alone on the line before the cursor, white space behind it: made of the
/// characters of types, neither beginning nor ending with a keyword.
pub open spec fn type_before_name(before: Seq<char>) -> Option<Seq<char>> {
    let line = trim_end(last_line(before));
    if before.len() == 0 || !is_white(before.last()) || line.len() == 0
        || line.contains(';') || !all_of(line, CharClass::TypeText) {
        None
    } else {
        match (first_token(line), last_token(line)) {
            (Some(first), Some(last)) => if is_keyword(first) || is_keyword(last) {
                None
            } else {
                Some(trim(line))
            },
            _ => None,
        }
    }
}

/// Detects the place of a variable's name from the text alone: a type-like token, then white
/// space.
pub fn detect_variable_name_after_type_text(ctx: &JavaContextExtractor) -> (r: Option<String>)
    requires
        ctx.wf(),
    ensures
        r.deep_view() == type_before_name(ctx.before()),
{
    let before = ctx.text_before();
    let n: usize = before.len();
    if n == 0 || !white(before[n - 1]) {
        return None;
    }
    let line = trimmed_end(ending_run(before, CharClass::NotNewline));
    if line.len() == 0 || contains_char(line, ';') || !is_all(line, CharClass::TypeText) {
        return None;
    }
    match (first_identifier_token(line), last_identifier_token(line)) {
        (Some(first), Some(last)) => if is_java_keyword(first) || is_java_keyword(last) {
            None
        } else {
            Some(to_text(trimmed(line)))
        },
        _ => None,
    }
}

} // verus!
