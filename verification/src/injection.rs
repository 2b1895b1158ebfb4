//! Completing broken code: a marker is put at the cursor, the text is parsed again, and the
//! location is read from the new tree.
pub mod laws;

use vstd::prelude::*;
use vstd::slice::slice_subrange;

use crate::extractor::{strip_sentinel, unmarked, JavaContextExtractor, SENTINEL};
use crate::location::utils::Located;
use crate::location::{determine_location, location};
use crate::parse::parsed;
use crate::semantic::{CursorLocation, LocationView};
use crate::syntax::{KindClass, NodeId, SyntaxTree};
use crate::text::{
    all_of, append, append_str, contains_char, ending_run, ends_with, find, find_text,
    finishes_with, is_all, is_ascii_alpha, is_ascii_digit, is_word, last_index_of, last_run,
    rfind_char, stands_at, take_while, taken_while, to_chars, to_text, trim, trim_end, trim_start,
    trimmed, trimmed_end, trimmed_start, word, CharClass,
};

verus! {

/// Whether Unicode has a character outside of ASCII as a letter or a number.
pub uninterp spec fn is_alphanumeric(c: char) -> bool;

/// Whether a character is a letter or a number.
pub open spec fn letter_or_number(c: char) -> bool {
    if (c as u32) < 0x80 {
        is_ascii_alpha(c) || is_ascii_digit(c)
    } else {
        is_alphanumeric(c)
    }
}

/// `char::is_alphanumeric` tells letters and numbers of Unicode; in ASCII, letters and digits.
pub assume_specification[ char::is_alphanumeric ](c: char) -> (r: bool)
    ensures
        (c as u32) >= 0x80 ==> r == is_alphanumeric(c),
        (c as u32) < 0x80 ==> r == letter_or_number(c),
;

// ---- when to inject ----------------------------------------------------------------------------

/// What decides whether a location is read again from a text with the marker.
#[derive(Clone, Copy, Debug, PartialEq, Eq, Structural)]
pub struct ForceInjectionPredicates {
    pub location_is_type_like: bool,
    pub has_cursor_node: bool,
    pub in_error_context: bool,
    pub in_statement_context: bool,
    pub in_genuine_type_arguments: bool,
    pub dotted_member_tail: bool,
}

pub open spec fn type_like_location(loc: LocationView) -> bool {
    loc is TypeAnnotation || loc is VariableName
}

pub open spec fn in_error_context(t: &SyntaxTree, n: NodeId) -> bool {
    t.kind_of(n) == "ERROR"@ || t.ancestor(n, "ERROR"@) is Some
}

pub open spec fn in_code_context(t: &SyntaxTree, n: NodeId) -> bool {
    t.reaches(n, KindClass::CodeContext, KindClass::DeclarationOrProgram)
}

pub open spec fn in_type_arguments(t: &SyntaxTree, n: NodeId) -> bool {
    t.reaches(n, KindClass::TypeArgumentList, KindClass::MethodClassOrProgram)
}

/// Whether the statement before the cursor ends like a member access: a simple receiver, a dot and
/// a word.
pub open spec fn dotted_tail(before: Seq<char>) -> bool {
    let s = trim(last_run(trim_end(unmarked(before)), CharClass::NotLineOrStatementEnd));
    match last_index_of(s, '.') {
        Some(dot) => {
            let receiver = trim(s.take(dot));
            let member = trim(s.skip(dot + 1));
            &&& receiver.len() > 0
            &&& member.len() > 0
            &&& all_of(member, CharClass::Word)
            &&& all_of(receiver, CharClass::Receiver)
        },
        None => false,
    }
}

pub fn has_dotted_member_like_tail(ctx: &JavaContextExtractor) -> (r: bool)
    requires
        ctx.wf(),
    ensures
        r == dotted_tail(ctx.before()),
{
    let clean = strip_sentinel(ctx.text_before());
    let s = trimmed(ending_run(trimmed_end(&clean), CharClass::NotLineOrStatementEnd));
    let n: usize = s.len();
    match rfind_char(s, '.') {
        Some(dot) => {
            let head = slice_subrange(s, 0, dot);
            let tail = slice_subrange(s, dot + 1, n);
            assert(head@ =~= s@.take(dot as int));
            assert(tail@ =~= s@.skip(dot + 1));
            let receiver = trimmed(head);
            let member = trimmed(tail);
            receiver.len() > 0 && member.len() > 0 && is_all(member, CharClass::Word) && is_all(
                receiver,
                CharClass::Receiver,
            )
        },
        None => false,
    }
}

pub open spec fn predicates(
    ctx: &JavaContextExtractor,
    cursor: Option<NodeId>,
    loc: LocationView,
) -> ForceInjectionPredicates {
    let t = &ctx.tree;
    ForceInjectionPredicates {
        location_is_type_like: type_like_location(loc),
        has_cursor_node: cursor is Some,
        in_error_context: cursor is Some && in_error_context(t, cursor->0),
        in_statement_context: cursor is Some && in_code_context(t, cursor->0),
        in_genuine_type_arguments: cursor is Some && in_type_arguments(t, cursor->0),
        dotted_member_tail: dotted_tail(ctx.before()),
    }
}

pub fn force_injection_predicates(
    ctx: &JavaContextExtractor,
    cursor_node: Option<NodeId>,
    location: &CursorLocation,
) -> (r: ForceInjectionPredicates)
    requires
        ctx.wf(),
        cursor_node matches Some(n) ==> ctx.tree.has(n),
    ensures
        r == predicates(ctx, cursor_node, location.deep_view()),
{
    let t = &ctx.tree;
    let location_is_type_like: bool = match location {
        CursorLocation::TypeAnnotation { .. } => true,
        CursorLocation::VariableName { .. } => true,
        _ => false,
    };
    let (in_error, in_statement, in_arguments): (bool, bool, bool) = match cursor_node {
        Some(n) => (
            t.is_kind(n, "ERROR") || t.ancestor_of_kind(n, "ERROR").is_some(),
            t.is_reaching(n, KindClass::CodeContext, KindClass::DeclarationOrProgram),
            t.is_reaching(n, KindClass::TypeArgumentList, KindClass::MethodClassOrProgram),
        ),
        None => (false, false, false),
    };
    ForceInjectionPredicates {
        location_is_type_like,
        has_cursor_node: cursor_node.is_some(),
        in_error_context: in_error,
        in_statement_context: in_statement,
        in_genuine_type_arguments: in_arguments,
        dotted_member_tail: has_dotted_member_like_tail(ctx),
    }
}

/// Whether the location is read again: it looks like a type among statements or in an error, not
/// in real type arguments, while the text before the cursor looks like a member access.
pub open spec fn forces_injection(p: ForceInjectionPredicates) -> bool {
    &&& p.location_is_type_like
    &&& p.has_cursor_node
    &&& p.in_error_context || p.in_statement_context
    &&& !p.in_genuine_type_arguments
    &&& p.dotted_member_tail
}

pub fn should_force_injection(
    ctx: &JavaContextExtractor,
    cursor_node: Option<NodeId>,
    location: &CursorLocation,
) -> (r: bool)
    requires
        ctx.wf(),
        cursor_node matches Some(n) ==> ctx.tree.has(n),
    ensures
        r == forces_injection(predicates(ctx, cursor_node, location.deep_view())),
{
    let p = force_injection_predicates(ctx, cursor_node, location);
    p.location_is_type_like && p.has_cursor_node && (p.in_error_context || p.in_statement_context)
        && !p.in_genuine_type_arguments && p.dotted_member_tail
}

// ---- brackets that are open --------------------------------------------------------------------

/// What the scan for brackets is in.
#[derive(Clone, Copy, Debug, PartialEq, Eq, Structural)]
pub enum ScanMode {
    Code,
    Text,
    TextEscape,
    Character,
    CharacterEscape,
    LineComment,
    BlockComment,
}

/// What the scan is in behind the character at `i`.
pub open spec fn mode_after(s: Seq<char>, i: int, mode: ScanMode) -> ScanMode {
    let c = s[i];
    match mode {
        ScanMode::Code => if c == '"' {
            ScanMode::Text
        } else if c == '\'' {
            ScanMode::Character
        } else if c == '/' && i + 1 < s.len() && s[i + 1] == '/' {
            ScanMode::LineComment
        } else if c == '/' && i + 1 < s.len() && s[i + 1] == '*' {
            ScanMode::BlockComment
        } else {
            ScanMode::Code
        },
        ScanMode::Text => if c == '\\' {
            ScanMode::TextEscape
        } else if c == '"' || c == '\n' {
            ScanMode::Code
        } else {
            ScanMode::Text
        },
        ScanMode::TextEscape => ScanMode::Text,
        ScanMode::Character => if c == '\\' {
            ScanMode::CharacterEscape
        } else if c == '\'' || c == '\n' {
            ScanMode::Code
        } else {
            ScanMode::Character
        },
        ScanMode::CharacterEscape => ScanMode::Character,
        ScanMode::LineComment => if c == '\n' {
            ScanMode::Code
        } else {
            ScanMode::LineComment
        },
        ScanMode::BlockComment => if c == '/' && i > 0 && s[i - 1] == '*' {
            ScanMode::Code
        } else {
            ScanMode::BlockComment
        },
    }
}

/// The brackets that would close what is open behind the character at `i`, the last to be closed
/// first.
pub open spec fn closers_after(c: char, mode: ScanMode, open: Seq<char>) -> Seq<char> {
    if mode != ScanMode::Code {
        open
    } else if c == '(' {
        open.push(')')
    } else if c == '[' {
        open.push(']')
    } else if c == '{' {
        open.push('}')
    } else if open.len() > 0 && open.last() == c && (c == ')' || c == ']' || c == '}') {
        open.drop_last()
    } else {
        open
    }
}

/// The brackets that would close what is open at the end of the text, from `i` on.
pub open spec fn open_from(s: Seq<char>, i: int, mode: ScanMode, open: Seq<char>) -> Seq<char>
    decreases s.len() - i,
{
    if i < 0 || i >= s.len() {
        open
    } else {
        open_from(s, i + 1, mode_after(s, i, mode), closers_after(s[i], mode, open))
    }
}

/// The brackets that close the text.
pub open spec fn closing(s: Seq<char>) -> Seq<char> {
    open_from(s, 0, ScanMode::Code, Seq::empty()).reverse()
}

fn next_mode(s: &[char], i: usize, mode: ScanMode) -> (r: ScanMode)
    requires
        i < s@.len(),
    ensures
        r == mode_after(s@, i as int, mode),
{
    let n: usize = s.len();
    let c = s[i];
    match mode {
        ScanMode::Code => if c == '"' {
            ScanMode::Text
        } else if c == '\'' {
            ScanMode::Character
        } else if c == '/' && i + 1 < n && s[i + 1] == '/' {
            ScanMode::LineComment
        } else if c == '/' && i + 1 < n && s[i + 1] == '*' {
            ScanMode::BlockComment
        } else {
            ScanMode::Code
        },
        ScanMode::Text => if c == '\\' {
            ScanMode::TextEscape
        } else if c == '"' || c == '\n' {
            ScanMode::Code
        } else {
            ScanMode::Text
        },
        ScanMode::TextEscape => ScanMode::Text,
        ScanMode::Character => if c == '\\' {
            ScanMode::CharacterEscape
        } else if c == '\'' || c == '\n' {
            ScanMode::Code
        } else {
            ScanMode::Character
        },
        ScanMode::CharacterEscape => ScanMode::Character,
        ScanMode::LineComment => if c == '\n' {
            ScanMode::Code
        } else {
            ScanMode::LineComment
        },
        ScanMode::BlockComment => if c == '/' && i > 0 && s[i - 1] == '*' {
            ScanMode::Code
        } else {
            ScanMode::BlockComment
        },
    }
}

/// The brackets that close what a text leaves open. Brackets in strings and comments do not count.
pub fn close_open_brackets(s: &[char]) -> (r: Vec<char>)
    ensures
        r@ == closing(s@),
{
    let n: usize = s.len();
    let mut open: Vec<char> = Vec::new();
    let mut mode: ScanMode = ScanMode::Code;
    let mut i: usize = 0;
    while i < n
        invariant
            i <= n,
            n == s@.len(),
            open_from(s@, 0, ScanMode::Code, Seq::empty()) == open_from(
                s@,
                i as int,
                mode,
                open@,
            ),
        decreases n - i,
    {
        let c = s[i];
        if mode == ScanMode::Code {
            let depth: usize = open.len();
            if c == '(' {
                open.push(')');
            } else if c == '[' {
                open.push(']');
            } else if c == '{' {
                open.push('}');
            } else if depth > 0 && open[depth - 1] == c && (c == ')' || c == ']' || c == '}') {
                let ghost before = open@;
                open.pop();
                assert(open@ =~= before.drop_last());
            }
        }
        mode = next_mode(s, i, mode);
        i += 1;
    }
    let mut out: Vec<char> = Vec::new();
    let mut k: usize = open.len();
    while k > 0
        invariant
            k <= open@.len(),
            out@ == open@.skip(k as int).reverse(),
        decreases k,
    {
        let ghost before = out@;
        out.push(open[k - 1]);
        assert(out@ =~= open@.skip(k - 1).reverse());
        k -= 1;
    }
    assert(open@.skip(0) =~= open@);
    out
}

// ---- putting the marker in ---------------------------------------------------------------------

/// The text with the span replaced, before its open brackets are closed.
pub open spec fn replaced(source: Seq<char>, from: int, to: int, marker: Seq<char>) -> Seq<char> {
    source.take(from) + marker + source.skip(to)
}

/// The text with the span replaced and its open brackets closed.
pub open spec fn injected(source: Seq<char>, from: int, to: int, marker: Seq<char>) -> Seq<char> {
    replaced(source, from, to, marker) + closing(replaced(source, from, to, marker))
}

fn inject_at(ctx: &JavaContextExtractor, from: usize, to: usize, marker: &[char]) -> (r: Vec<char>)
    requires
        from <= ctx.source@.len(),
        to <= ctx.source@.len(),
    ensures
        r@ == injected(ctx.source@, from as int, to as int, marker@),
{
    let n: usize = ctx.source.len();
    let source = ctx.source.as_slice();
    let mut out: Vec<char> = Vec::new();
    let head = slice_subrange(source, 0, from);
    let tail = slice_subrange(source, to, n);
    assert(head@ =~= ctx.source@.take(from as int));
    assert(tail@ =~= ctx.source@.skip(to as int));
    append(&mut out, head);
    append(&mut out, marker);
    append(&mut out, tail);
    assert(out@ =~= replaced(ctx.source@, from as int, to as int, marker@));
    let close = close_open_brackets(&out);
    append(&mut out, &close);
    out
}

/// The marker between two texts.
pub open spec fn marked(before: Seq<char>, after: Seq<char>) -> Seq<char> {
    before + SENTINEL@ + after
}

fn mark(before: &[char], after: &str) -> (r: Vec<char>)
    ensures
        r@ == marked(before@, after@),
{
    let mut out: Vec<char> = Vec::new();
    append(&mut out, before);
    append_str(&mut out, SENTINEL);
    append_str(&mut out, after);
    assert(out@ =~= marked(before@, after@));
    out
}

/// A call of the marker as a constructor, at the cursor.
pub open spec fn new_at_cursor(ctx: &JavaContextExtractor) -> Seq<char> {
    injected(ctx.source@, ctx.offset as int, ctx.offset as int, marked(" "@, "()"@))
}

fn inject_new_at_cursor(ctx: &JavaContextExtractor) -> (r: Vec<char>)
    requires
        ctx.wf(),
    ensures
        r@ == new_at_cursor(ctx),
{
    let blank = to_chars(" ");
    let m = mark(&blank, "()");
    inject_at(ctx, ctx.offset, ctx.offset, &m)
}

/// Whether the word `new` stands at `i`, no letter, digit or `_` beside it.
pub open spec fn new_word_at(s: Seq<char>, i: int) -> bool {
    &&& 0 <= i
    &&& i + 3 <= s.len()
    &&& s.subrange(i, i + 3) == "new"@
    &&& i == 0 || !is_word(s[i - 1])
    &&& i + 3 == s.len() || !is_word(s[i + 3])
}

/// Whether the text holds the word `new`.
pub open spec fn has_new_word(s: Seq<char>) -> bool {
    exists|i: int| #[trigger] new_word_at(s, i)
}

pub fn contains_new_token(s: &[char]) -> (r: bool)
    ensures
        r == has_new_word(s@),
{
    let pat = to_chars("new");
    proof {
        reveal_strlit("new");
    }
    let n: usize = s.len();
    let mut i: usize = 0;
    while i < n
        invariant
            i <= n,
            n == s@.len(),
            pat@ == "new"@,
            pat@.len() == 3,
            forall|k: int| k < i ==> !#[trigger] new_word_at(s@, k),
        decreases n - i,
    {
        if n - i >= 3 && stands_at(s, &pat, i) && (i == 0 || !word(s[i - 1])) && (n - i == 3
            || !word(s[i + 3])) {
            assert(new_word_at(s@, i as int));
            return true;
        }
        i += 1;
    }
    false
}

/// Whether the cursor, right behind `new`, is the place of a class name that is still to be typed:
/// the next token is on another line or begins no name.
pub open spec fn bare_new(ctx: &JavaContextExtractor) -> bool {
    let after = ctx.source@.skip(ctx.offset as int);
    let gap = take_while(after, CharClass::White);
    let rest = trim_start(after);
    &&& ends_with(trim_end(ctx.before()), "new"@)
    &&& {
        ||| gap.contains('\n')
        ||| gap.contains('\r')
        ||| !(rest.len() > 0 && (letter_or_number(rest[0]) || rest[0] == '_'))
    }
}

fn is_bare_new(ctx: &JavaContextExtractor) -> (r: bool)
    requires
        ctx.wf(),
    ensures
        r == bare_new(ctx),
{
    if !finishes_with(trimmed_end(ctx.text_before()), "new") {
        return false;
    }
    let n: usize = ctx.source.len();
    let after = slice_subrange(ctx.source.as_slice(), ctx.offset, n);
    assert(after@ =~= ctx.source@.skip(ctx.offset as int));
    let gap = taken_while(after, CharClass::White);
    if contains_char(gap, '\n') || contains_char(gap, '\r') {
        return true;
    }
    let rest = trimmed_start(after);
    !(rest.len() > 0 && (rest[0].is_alphanumeric() || rest[0] == '_'))
}

/// The error at or above the cursor's node.
pub open spec fn error_at(t: &SyntaxTree, cursor: Option<NodeId>) -> Option<NodeId> {
    match cursor {
        Some(n) => if t.kind_of(n) == "ERROR"@ {
            Some(n)
        } else {
            t.ancestor(n, "ERROR"@)
        },
        None => None,
    }
}

fn find_error_at(t: &SyntaxTree, cursor: Option<NodeId>) -> (r: Option<NodeId>)
    requires
        t.linked(),
        cursor matches Some(n) ==> t.has(n),
    ensures
        r == error_at(t, cursor),
        r matches Some(n) ==> t.has(n),
{
    match cursor {
        Some(n) => if t.is_kind(n, "ERROR") {
            Some(n)
        } else {
            t.ancestor_of_kind(n, "ERROR")
        },
        None => None,
    }
}

/// Whether the node is an identifier that begins before the cursor.
pub open spec fn begun_identifier(ctx: &JavaContextExtractor, n: NodeId) -> bool {
    KindClass::Identifier.has(ctx.tree.kind_of(n)) && ctx.tree.start_of(n) < ctx.offset
}

fn is_begun_identifier(ctx: &JavaContextExtractor, n: NodeId) -> (r: bool)
    requires
        ctx.tree.has(n),
    ensures
        r == begun_identifier(ctx, n),
{
    ctx.tree.is_in(n, KindClass::Identifier) && ctx.tree.start(n) < ctx.offset
}

/// Whether `new` stands in the error before the cursor.
pub open spec fn new_in_error(ctx: &JavaContextExtractor, error: NodeId) -> bool {
    has_new_word(ctx.text_to_cursor(error))
}

pub fn error_has_new_before_cursor(ctx: &JavaContextExtractor, error: NodeId) -> (r: bool)
    requires
        ctx.wf(),
        ctx.tree.has(error),
    ensures
        r == new_in_error(ctx, error),
{
    contains_new_token(crate::extractor::cursor_truncated_text(ctx, error))
}

/// Whether the error is a constructor call that the parser could not finish.
pub open spec fn broken_creation(
    ctx: &JavaContextExtractor,
    error: NodeId,
    cursor: Option<NodeId>,
) -> bool {
    let t = &ctx.tree;
    &&& t.first_kind(t.kids(error), "new"@) is Some
    &&& {
        ||| cursor is Some && t.reaches(
            cursor->0,
            KindClass::Creation,
            KindClass::MethodClassOrProgram,
        )
        ||| new_in_error(ctx, error)
    }
}

pub fn is_cursor_in_constructor_context(t: &SyntaxTree, cursor: Option<NodeId>) -> (r: bool)
    requires
        t.linked(),
        cursor matches Some(n) ==> t.has(n),
    ensures
        r == (cursor is Some && t.reaches(
            cursor->0,
            KindClass::Creation,
            KindClass::MethodClassOrProgram,
        )),
{
    match cursor {
        Some(n) => t.is_reaching(n, KindClass::Creation, KindClass::MethodClassOrProgram),
        None => false,
    }
}

/// The later of `best` and `n`, `n` only where it is an identifier that starts by `offset`.
pub open spec fn later_identifier(
    t: &SyntaxTree,
    n: NodeId,
    offset: int,
    best: Option<NodeId>,
) -> Option<NodeId> {
    if KindClass::Identifier.has(t.kind_of(n)) && t.start_of(n) <= offset {
        match best {
            Some(b) => if t.start_of(n) > t.start_of(b) {
                Some(n)
            } else {
                best
            },
            None => Some(n),
        }
    } else {
        best
    }
}

/// The last identifier at or below `n` that starts by `offset`, against `best`.
pub open spec fn last_identifier(
    t: &SyntaxTree,
    n: NodeId,
    offset: int,
    best: Option<NodeId>,
) -> Option<NodeId>
    decreases t.nodes@.len() - n, t.kids(n).len() + 1,
{
    last_identifier_from(t, n, offset, 0, later_identifier(t, n, offset, best))
}

/// The same, over the children of `n` from place `i` on.
pub open spec fn last_identifier_from(
    t: &SyntaxTree,
    n: NodeId,
    offset: int,
    i: int,
    best: Option<NodeId>,
) -> Option<NodeId>
    decreases t.nodes@.len() - n, t.kids(n).len() - i,
{
    if i < 0 || i >= t.kids(n).len() {
        best
    } else {
        let k = t.kids(n)[i];
        if n < k && t.has(k) {
            last_identifier_from(t, n, offset, i + 1, last_identifier(t, k, offset, best))
        } else {
            best
        }
    }
}

fn visit_identifiers(t: &SyntaxTree, n: NodeId, offset: usize, best: Option<NodeId>) -> (r: Option<
    NodeId,
>)
    requires
        t.has(n),
        t.linked(),
        best matches Some(b) ==> t.has(b),
    ensures
        r == last_identifier(t, n, offset as int, best),
        r matches Some(b) ==> t.has(b),
    decreases t.nodes@.len() - n,
{
    let mut found: Option<NodeId> = best;
    if t.is_in(n, KindClass::Identifier) && t.start(n) <= offset {
        found = match best {
            Some(b) => if t.start(n) > t.start(b) {
                Some(n)
            } else {
                best
            },
            None => Some(n),
        };
    }
    let kids = t.children(n);
    let mut i: usize = 0;
    while i < kids.len()
        invariant
            i <= kids@.len(),
            kids@ == t.kids(n),
            t.has(n),
            t.linked(),
            found matches Some(b) ==> t.has(b),
            last_identifier(t, n, offset as int, best) == last_identifier_from(
                t,
                n,
                offset as int,
                i as int,
                found,
            ),
        decreases kids@.len() - i,
    {
        found = visit_identifiers(t, kids[i], offset, found);
        i += 1;
    }
    found
}

/// The last identifier in an error that starts by the offset.
pub fn find_identifier_in_error_before_offset(t: &SyntaxTree, error: NodeId, offset: usize) -> (r:
    Option<NodeId>)
    requires
        t.has(error),
        t.linked(),
    ensures
        r == last_identifier(t, error, offset as int, None),
        r matches Some(b) ==> t.has(b),
{
    visit_identifiers(t, error, offset, None)
}

/// The class name that is being typed in an unfinished constructor call: the identifier at the
/// cursor, or the last one of the error.
pub open spec fn creation_anchor(
    ctx: &JavaContextExtractor,
    error: NodeId,
    cursor: Option<NodeId>,
) -> Option<NodeId> {
    let t = &ctx.tree;
    if cursor is Some && begun_identifier(ctx, cursor->0) && t.descends(cursor->0, error) {
        cursor
    } else {
        last_identifier(t, error, ctx.offset as int, None)
    }
}

/// The text with the marker in an unfinished constructor call.
pub open spec fn injected_creation(
    ctx: &JavaContextExtractor,
    error: NodeId,
    cursor: Option<NodeId>,
) -> Seq<char> {
    let t = &ctx.tree;
    match creation_anchor(ctx, error, cursor) {
        Some(id) => if ctx.text_to_cursor(id).len() > 0 {
            injected(
                ctx.source@,
                t.start_of(id),
                t.end_of(id),
                marked(ctx.text_to_cursor(id), "()"@),
            )
        } else {
            new_at_cursor(ctx)
        },
        None => new_at_cursor(ctx),
    }
}

fn inject_creation(ctx: &JavaContextExtractor, error: NodeId, cursor: Option<NodeId>) -> (r: Vec<
    char,
>)
    requires
        ctx.wf(),
        ctx.tree.has(error),
        cursor matches Some(n) ==> ctx.tree.has(n),
    ensures
        r@ == injected_creation(ctx, error, cursor),
{
    let t = &ctx.tree;
    let local: bool = match cursor {
        Some(n) => is_begun_identifier(ctx, n) && t.is_descendant_of(n, error),
        None => false,
    };
    let anchor: Option<NodeId> = if local {
        cursor
    } else {
        find_identifier_in_error_before_offset(t, error, ctx.offset)
    };
    if let Some(id) = anchor {
        let prefix = crate::extractor::cursor_truncated_text(ctx, id);
        if prefix.len() > 0 {
            let m = mark(prefix, "()");
            return inject_at(ctx, t.start(id), t.end(id), &m);
        }
    }
    inject_new_at_cursor(ctx)
}

/// The last child, from the end of `ids` before place `j`, that ends by the offset, extras aside.
pub open spec fn last_token_before(t: &SyntaxTree, ids: Seq<NodeId>, offset: int, j: int) -> Option<
    NodeId,
>
    decreases j,
{
    if j <= 0 || j > ids.len() {
        None
    } else if !t.node(ids[j - 1]).extra && t.end_of(ids[j - 1]) <= offset {
        Some(ids[j - 1])
    } else {
        last_token_before(t, ids, offset, j - 1)
    }
}

/// Whether the last child of the error before the cursor is a dot.
pub open spec fn dot_before_cursor(t: &SyntaxTree, error: NodeId, offset: int) -> bool {
    match last_token_before(t, t.kids(error), offset, t.kids(error).len() as int) {
        Some(k) => t.kind_of(k) == "."@,
        None => false,
    }
}

pub fn error_has_trailing_dot(t: &SyntaxTree, error: NodeId, offset: usize) -> (r: bool)
    requires
        t.has(error),
        t.linked(),
    ensures
        r == dot_before_cursor(t, error, offset as int),
{
    let ids = t.children(error);
    let mut j: usize = ids.len();
    while j > 0
        invariant
            j <= ids@.len(),
            ids@ == t.kids(error),
            t.has(error),
            t.linked(),
            last_token_before(t, ids@, offset as int, ids@.len() as int) == last_token_before(
                t,
                ids@,
                offset as int,
                j as int,
            ),
        decreases j,
    {
        let k = ids[j - 1];
        if !t.nodes[k].extra && t.end(k) <= offset {
            return t.is_kind(k, ".");
        }
        j -= 1;
    }
    false
}

/// Whether a statement with the marker at the cursor needs a semicolon.
pub open spec fn needs_semicolon(t: &SyntaxTree, cursor: Option<NodeId>) -> bool {
    match cursor {
        Some(n) => !t.reaches(n, KindClass::InsideBrackets, KindClass::Container),
        None => true,
    }
}

pub fn requires_semicolon(t: &SyntaxTree, cursor: Option<NodeId>) -> (r: bool)
    requires
        t.linked(),
        cursor matches Some(n) ==> t.has(n),
    ensures
        r == needs_semicolon(t, cursor),
{
    match cursor {
        Some(n) => !t.is_reaching(n, KindClass::InsideBrackets, KindClass::Container),
        None => true,
    }
}

/// What ends the statement with the marker.
pub open spec fn terminator(t: &SyntaxTree, cursor: Option<NodeId>) -> Seq<char> {
    if needs_semicolon(t, cursor) {
        ";"@
    } else {
        ""@
    }
}

fn terminator_of(t: &SyntaxTree, cursor: Option<NodeId>) -> (r: &'static str)
    requires
        t.linked(),
        cursor matches Some(n) ==> t.has(n),
    ensures
        r@ == terminator(t, cursor),
{
    if requires_semicolon(t, cursor) {
        ";"
    } else {
        ""
    }
}

/// Whether the cursor is at a member of a class body: only identifiers and errors lie between its
/// node and the body.
pub open spec fn at_class_member(t: &SyntaxTree, cursor: Option<NodeId>) -> bool {
    cursor is Some && t.reaches(cursor->0, KindClass::TypeBody, KindClass::NeitherNameNorError)
}

pub fn is_cursor_in_class_member_position(t: &SyntaxTree, cursor: Option<NodeId>) -> (r: bool)
    requires
        t.linked(),
        cursor matches Some(n) ==> t.has(n),
    ensures
        r == at_class_member(t, cursor),
{
    match cursor {
        Some(n) => t.is_reaching(n, KindClass::TypeBody, KindClass::NeitherNameNorError),
        None => false,
    }
}

/// The identifier that is being typed at the cursor.
pub open spec fn typed_identifier(ctx: &JavaContextExtractor, cursor: Option<NodeId>) -> Option<
    NodeId,
> {
    if cursor is Some && begun_identifier(ctx, cursor->0) && ctx.text_to_cursor(cursor->0).len()
        > 0 {
        cursor
    } else {
        None
    }
}

/// Whether the identifier is the class name of a constructor call.
pub open spec fn is_created(ctx: &JavaContextExtractor, id: NodeId) -> bool {
    ||| ctx.tree.reaches(id, KindClass::Creation, KindClass::MethodClassOrBlock)
    ||| has_new_word(ctx.piece(0, ctx.tree.start_of(id)))
}

fn is_created_name(ctx: &JavaContextExtractor, id: NodeId) -> (r: bool)
    requires
        ctx.wf(),
        ctx.tree.has(id),
    ensures
        r == is_created(ctx, id),
{
    ctx.tree.is_reaching(id, KindClass::Creation, KindClass::MethodClassOrBlock)
        || contains_new_token(ctx.byte_slice(0, ctx.tree.start(id)))
}

/// The text with the marker where nothing is being typed: a member in a class body, else a
/// statement or an expression.
pub open spec fn injected_blank(ctx: &JavaContextExtractor, cursor: Option<NodeId>) -> Seq<char> {
    injected(
        ctx.source@,
        ctx.offset as int,
        ctx.offset as int,
        if at_class_member(&ctx.tree, cursor) {
            marked("void "@, "() {}"@)
        } else {
            marked(""@, terminator(&ctx.tree, cursor))
        },
    )
}

fn inject_blank(ctx: &JavaContextExtractor, cursor: Option<NodeId>) -> (r: Vec<char>)
    requires
        ctx.wf(),
        cursor matches Some(n) ==> ctx.tree.has(n),
    ensures
        r@ == injected_blank(ctx, cursor),
{
    if is_cursor_in_class_member_position(&ctx.tree, cursor) {
        let head = to_chars("void ");
        let m = mark(&head, "() {}");
        inject_at(ctx, ctx.offset, ctx.offset, &m)
    } else {
        let head = to_chars("");
        let m = mark(&head, terminator_of(&ctx.tree, cursor));
        inject_at(ctx, ctx.offset, ctx.offset, &m)
    }
}

/// The text with the marker at the cursor in the identifier that is being typed. What the
/// identifier holds behind the cursor stays behind the marker.
pub open spec fn injected_identifier(
    ctx: &JavaContextExtractor,
    id: NodeId,
    cursor: Option<NodeId>,
) -> Seq<char> {
    let t = &ctx.tree;
    let prefix = ctx.text_to_cursor(id);
    let to = if t.end_of(id) < ctx.offset {
        t.end_of(id)
    } else {
        ctx.offset as int
    };
    injected(
        ctx.source@,
        t.start_of(id),
        to,
        if at_class_member(t, cursor) {
            marked("void "@ + prefix, "() {}"@)
        } else {
            marked(
                prefix,
                (if is_created(ctx, id) {
                    "()"@
                } else {
                    ""@
                }) + terminator(t, cursor),
            )
        },
    )
}

fn inject_identifier(ctx: &JavaContextExtractor, id: NodeId, cursor: Option<NodeId>) -> (r: Vec<
    char,
>)
    requires
        ctx.wf(),
        ctx.tree.has(id),
        cursor matches Some(n) ==> ctx.tree.has(n),
    ensures
        r@ == injected_identifier(ctx, id, cursor),
{
    let t = &ctx.tree;
    let prefix = crate::extractor::cursor_truncated_text(ctx, id);
    let to: usize = if t.end(id) < ctx.offset {
        t.end(id)
    } else {
        ctx.offset
    };
    if is_cursor_in_class_member_position(t, cursor) {
        let mut head = to_chars("void ");
        append(&mut head, prefix);
        let m = mark(&head, "() {}");
        inject_at(ctx, t.start(id), to, &m)
    } else {
        let mut m = mark(
            prefix,
            if is_created_name(ctx, id) {
                "()"
            } else {
                ""
            },
        );
        append_str(&mut m, terminator_of(t, cursor));
        assert(m@ =~= marked(
            prefix@,
            (if is_created(ctx, id) {
                "()"@
            } else {
                ""@
            }) + terminator(t, cursor),
        ));
        inject_at(ctx, t.start(id), to, &m)
    }
}

/// The text with the marker at the cursor outside broken constructor calls and dots.
pub open spec fn injected_plain(ctx: &JavaContextExtractor, cursor: Option<NodeId>) -> Seq<char> {
    match typed_identifier(ctx, cursor) {
        Some(id) => injected_identifier(ctx, id, cursor),
        None => injected_blank(ctx, cursor),
    }
}

/// The text with the marker at the cursor.
pub open spec fn injected_source(ctx: &JavaContextExtractor, cursor: Option<NodeId>) -> Seq<char> {
    let t = &ctx.tree;
    if bare_new(ctx) {
        new_at_cursor(ctx)
    } else {
        match error_at(t, cursor) {
            Some(error) => if broken_creation(ctx, error, cursor) {
                injected_creation(ctx, error, cursor)
            } else if dot_before_cursor(t, error, ctx.offset as int) {
                injected(
                    ctx.source@,
                    ctx.offset as int,
                    ctx.offset as int,
                    marked(""@, terminator(t, cursor)),
                )
            } else {
                injected_plain(ctx, cursor)
            },
            None => injected_plain(ctx, cursor),
        }
    }
}

fn inject(ctx: &JavaContextExtractor, cursor: Option<NodeId>) -> (r: Vec<char>)
    requires
        ctx.wf(),
        cursor matches Some(n) ==> ctx.tree.has(n),
    ensures
        r@ == injected_source(ctx, cursor),
{
    let t = &ctx.tree;
    if is_bare_new(ctx) {
        return inject_new_at_cursor(ctx);
    }
    if let Some(error) = find_error_at(t, cursor) {
        if t.first_of_kind(t.children(error), "new").is_some() && (is_cursor_in_constructor_context(
            t,
            cursor,
        ) || error_has_new_before_cursor(ctx, error)) {
            return inject_creation(ctx, error, cursor);
        }
        if error_has_trailing_dot(t, error, ctx.offset) {
            let head = to_chars("");
            let m = mark(&head, terminator_of(t, cursor));
            return inject_at(ctx, ctx.offset, ctx.offset, &m);
        }
    }
    if let Some(n) = cursor {
        if is_begun_identifier(ctx, n) && crate::extractor::cursor_truncated_text(ctx, n).len()
            > 0 {
            return inject_identifier(ctx, n, cursor);
        }
    }
    inject_blank(ctx, cursor)
}

/// Puts the marker at the cursor, in place of the token there or beside it, and closes the brackets
/// that are open.
pub fn build_injected_source(
    extractor: &JavaContextExtractor,
    cursor_node: Option<NodeId>,
) -> (r: String)
    requires
        extractor.wf(),
        cursor_node matches Some(n) ==> extractor.tree.has(n),
    ensures
        r@ == injected_source(extractor, cursor_node),
{
    let chars = inject(extractor, cursor_node);
    to_text(&chars)
}

// ---- reading the location again ----------------------------------------------------------------

pub open spec fn unmarked_option(s: Option<Seq<char>>) -> Option<Seq<char>> {
    match s {
        Some(t) => Some(unmarked(t)),
        None => None,
    }
}

/// The location without the marker in its texts.
pub open spec fn unmarked_location(loc: LocationView) -> LocationView {
    match loc {
        LocationView::MemberAccess {
            receiver_semantic_type,
            receiver_type,
            member_prefix,
            receiver_expr,
            arguments,
        } => LocationView::MemberAccess {
            receiver_semantic_type,
            receiver_type,
            member_prefix: unmarked(member_prefix),
            receiver_expr: unmarked(receiver_expr),
            arguments: unmarked_option(arguments),
        },
        LocationView::StaticAccess { class_internal_name, member_prefix } =>
            LocationView::StaticAccess {
                class_internal_name,
                member_prefix: unmarked(member_prefix),
            },
        LocationView::ConstructorCall {
            class_prefix,
            expected_type,
            qualifier_expr,
            qualifier_owner_internal,
        } => LocationView::ConstructorCall {
            class_prefix: unmarked(class_prefix),
            expected_type: unmarked_option(expected_type),
            qualifier_expr: unmarked_option(qualifier_expr),
            qualifier_owner_internal,
        },
        LocationView::Expression { prefix } => LocationView::Expression {
            prefix: unmarked(prefix),
        },
        LocationView::MethodArgument { prefix } => LocationView::MethodArgument {
            prefix: unmarked(prefix),
        },
        LocationView::TypeAnnotation { prefix } => LocationView::TypeAnnotation {
            prefix: unmarked(prefix),
        },
        LocationView::VariableName { type_text } => LocationView::VariableName {
            type_text: unmarked(type_text),
        },
        LocationView::StringLiteral { prefix } => LocationView::StringLiteral {
            prefix: unmarked(prefix),
        },
        LocationView::StatementLabel { kind, prefix } => LocationView::StatementLabel {
            kind,
            prefix: unmarked(prefix),
        },
        LocationView::Annotation { prefix, target_element_type } => LocationView::Annotation {
            prefix: unmarked(prefix),
            target_element_type,
        },
        LocationView::Import { prefix } => LocationView::Import { prefix: unmarked(prefix) },
        LocationView::ImportStatic { prefix } => LocationView::ImportStatic {
            prefix: unmarked(prefix),
        },
        LocationView::MethodReference { qualifier_expr, member_prefix, is_constructor } =>
            LocationView::MethodReference {
                qualifier_expr: unmarked(qualifier_expr),
                member_prefix: unmarked(member_prefix),
                is_constructor,
            },
        LocationView::Unknown => LocationView::Unknown,
    }
}

fn strip(s: &String) -> (r: String)
    ensures
        r@ == unmarked(s@),
{
    let chars = to_chars(s.as_str());
    let clean = strip_sentinel(&chars);
    to_text(&clean)
}

fn strip_option(s: &Option<String>) -> (r: Option<String>)
    ensures
        r.deep_view() == unmarked_option(s.deep_view()),
{
    match s {
        Some(t) => Some(strip(t)),
        None => None,
    }
}

/// Takes the marker out of the texts of a location.
pub fn strip_sentinel_from_location(loc: CursorLocation) -> (r: CursorLocation)
    ensures
        r.deep_view() == unmarked_location(loc.deep_view()),
{
    match loc {
        CursorLocation::MemberAccess {
            receiver_semantic_type,
            receiver_type,
            member_prefix,
            receiver_expr,
            arguments,
        } => CursorLocation::MemberAccess {
            receiver_semantic_type,
            receiver_type,
            member_prefix: strip(&member_prefix),
            receiver_expr: strip(&receiver_expr),
            arguments: strip_option(&arguments),
        },
        CursorLocation::StaticAccess { class_internal_name, member_prefix } =>
            CursorLocation::StaticAccess {
                class_internal_name,
                member_prefix: strip(&member_prefix),
            },
        CursorLocation::ConstructorCall {
            class_prefix,
            expected_type,
            qualifier_expr,
            qualifier_owner_internal,
        } => CursorLocation::ConstructorCall {
            class_prefix: strip(&class_prefix),
            expected_type: strip_option(&expected_type),
            qualifier_expr: strip_option(&qualifier_expr),
            qualifier_owner_internal,
        },
        CursorLocation::Expression { prefix } => CursorLocation::Expression {
            prefix: strip(&prefix),
        },
        CursorLocation::MethodArgument { prefix } => CursorLocation::MethodArgument {
            prefix: strip(&prefix),
        },
        CursorLocation::TypeAnnotation { prefix } => CursorLocation::TypeAnnotation {
            prefix: strip(&prefix),
        },
        CursorLocation::VariableName { type_text } => CursorLocation::VariableName {
            type_text: strip(&type_text),
        },
        CursorLocation::StringLiteral { prefix } => CursorLocation::StringLiteral {
            prefix: strip(&prefix),
        },
        CursorLocation::StatementLabel { kind, prefix } => CursorLocation::StatementLabel {
            kind,
            prefix: strip(&prefix),
        },
        CursorLocation::Annotation { prefix, target_element_type } => CursorLocation::Annotation {
            prefix: strip(&prefix),
            target_element_type,
        },
        CursorLocation::Import { prefix } => CursorLocation::Import { prefix: strip(&prefix) },
        CursorLocation::ImportStatic { prefix } => CursorLocation::ImportStatic {
            prefix: strip(&prefix),
        },
        CursorLocation::MethodReference { qualifier_expr, member_prefix, is_constructor } =>
            CursorLocation::MethodReference {
                qualifier_expr: strip(&qualifier_expr),
                member_prefix: strip(&member_prefix),
                is_constructor,
            },
        CursorLocation::Unknown => CursorLocation::Unknown,
    }
}

/// The identifier at or above `n`, below the method or the program.
pub open spec fn identifier_above(t: &SyntaxTree, n: NodeId) -> Option<NodeId>
    decreases n,
{
    if KindClass::Identifier.has(t.kind_of(n)) {
        Some(n)
    } else {
        match t.parent_of(n) {
            Some(p) => if p >= n || KindClass::MethodOrProgram.has(t.kind_of(p)) {
                None
            } else {
                identifier_above(t, p)
            },
            None => None,
        }
    }
}

fn find_identifier_above(t: &SyntaxTree, n: NodeId) -> (r: Option<NodeId>)
    requires
        t.has(n),
        t.linked(),
    ensures
        r == identifier_above(t, n),
        r matches Some(k) ==> t.has(k),
{
    let mut cur: NodeId = n;
    loop
        invariant
            cur <= n,
            t.has(n),
            t.linked(),
            identifier_above(t, n) == identifier_above(t, cur),
        decreases cur,
    {
        if t.is_in(cur, KindClass::Identifier) {
            return Some(cur);
        }
        match t.parent(cur) {
            Some(p) => {
                if t.is_in(p, KindClass::MethodOrProgram) {
                    return None;
                }
                cur = p;
            },
            None => {
                return None;
            },
        }
    }
}

/// The location at the marker that ends at the cursor of `ctx`, the marker taken out.
pub open spec fn location_at_marker(ctx: &JavaContextExtractor) -> Option<Located> {
    let t = &ctx.tree;
    match t.named_node_at(ctx.offset - SENTINEL@.len(), ctx.offset as int) {
        Some(n) => match identifier_above(t, n) {
            Some(id) => {
                let l = location(ctx, Some(id));
                Some((unmarked_location(l.0), unmarked(l.1)))
            },
            None => None,
        },
        None => None,
    }
}

/// Tells the location at the marker that ends at the cursor.
pub fn determine_at_marker(ctx: &JavaContextExtractor, trigger_char: Option<char>) -> (r: Option<
    (CursorLocation, String),
>)
    requires
        ctx.wf(),
        SENTINEL@.len() <= ctx.offset,
    ensures
        r.deep_view() == location_at_marker(ctx),
{
    proof {
        reveal_strlit("__KIRO__");
    }
    let t = &ctx.tree;
    match t.named_descendant_for_range(ctx.offset - 8, ctx.offset) {
        Some(n) => match find_identifier_above(t, n) {
            Some(id) => {
                let (loc, query) = determine_location(ctx, Some(id), trigger_char);
                Some((strip_sentinel_from_location(loc), strip(&query)))
            },
            None => None,
        },
        None => None,
    }
}

/// Whether the result is what the text, parsed with the cursor at `end`, tells of the location at
/// the marker that ends there.
pub open spec fn told_at(text: Seq<char>, end: int, r: Option<Located>) -> bool {
    exists|ctx: JavaContextExtractor| #[trigger]
        parsed(ctx, text, end) && r == location_at_marker(&ctx)
}

/// Whether the result is what the text with the marker, parsed again, tells of the location.
pub open spec fn told_by_injection(text: Seq<char>, r: Option<Located>) -> bool {
    match find(text, SENTINEL@) {
        Some(i) => told_at(text, i + SENTINEL@.len(), r),
        None => r is None,
    }
}

/// Puts the marker at the cursor, parses the text again, and tells the location from the new tree.
pub fn inject_and_determine(
    ctx: &JavaContextExtractor,
    cursor_node: Option<NodeId>,
    trigger_char: Option<char>,
) -> (r: Option<(CursorLocation, String)>)
    requires
        ctx.wf(),
        cursor_node matches Some(n) ==> ctx.tree.has(n),
    ensures
        told_by_injection(injected_source(ctx, cursor_node), r.deep_view()),
{
    let chars = inject(ctx, cursor_node);
    proof {
        reveal_strlit("__KIRO__");
    }
    match find_text(&chars, SENTINEL) {
        Some(i) => {
            let n: usize = chars.len();
            let text = to_text(&chars);
            let again = JavaContextExtractor::at_position(text.as_str(), i + 8);
            let r = determine_at_marker(&again, trigger_char);
            assert(parsed(again, chars@, i + 8));
            assert(told_at(chars@, i + 8, r.deep_view()));
            r
        },
        None => None,
    }
}

} // verus!
