//! Text as sequences of characters.
//!
//! Positions are counted in characters. Slices of characters stand for pieces
//! of the source; their views are what the contracts speak of.
use vstd::prelude::*;
use vstd::slice::slice_subrange;

pub mod laws;

verus! {

/// `String::push` appends one character.
pub assume_specification[ std::string::String::push ](s: &mut std::string::String, c: char)
    ensures
        final(s)@ == old(s)@.push(c),
;

/// The equality of `str` compares the texts.
#[verifier::external_body]
pub(crate) fn str_eq(a: &str, b: &str) -> (r: bool)
    ensures
        r == (a@ == b@),
{
    a == b
}

/// The characters of a string, in order.
pub fn to_chars(s: &str) -> (r: Vec<char>)
    ensures
        r@ == s@,
{
    let mut out: Vec<char> = Vec::new();
    for c in it: s.chars()
        invariant
            out@ == it.seq().take(it.index() as int),
            it.seq() == s@,
    {
        out.push(c);
    }
    out
}

/// The string made of the given characters.
pub fn to_text(s: &[char]) -> (r: String)
    ensures
        r@ == s@,
{
    let mut out: String = String::new();
    let mut i: usize = 0;
    while i < s.len()
        invariant
            i <= s.len(),
            out@ == s@.take(i as int),
        decreases s.len() - i,
    {
        out.push(s[i]);
        i += 1;
    }
    out
}

/// A class of characters.
#[derive(Clone, Copy, Debug, PartialEq, Eq, Structural)]
pub enum CharClass {
    /// Unicode white space.
    White,
    /// ASCII letters, digits and `_`.
    Word,
    /// ASCII letters, digits, `_` and `$`.
    Ident,
    /// What a qualified class name is made of: `Ident` and `.`.
    ClassPath,
    /// What the text of a type is made of.
    TypeText,
    /// What a simple receiver expression is made of: `Word`, `.`, brackets.
    Receiver,
    /// Anything but a newline.
    NotNewline,
    /// Anything but `;`, `{` and `}`.
    NotStatementEnd,
    /// Anything but a newline, `;`, `{` and `}`.
    NotLineOrStatementEnd,
    /// Anything but `.`.
    NotDot,
}

/// The white space of Unicode (its `White_Space` property).
pub open spec fn is_white(c: char) -> bool {
    ||| 0x09 <= c as u32 <= 0x0d
    ||| c as u32 == 0x20
    ||| c as u32 == 0x85
    ||| c as u32 == 0xa0
    ||| c as u32 == 0x1680
    ||| 0x2000 <= c as u32 <= 0x200a
    ||| c as u32 == 0x2028
    ||| c as u32 == 0x2029
    ||| c as u32 == 0x202f
    ||| c as u32 == 0x205f
    ||| c as u32 == 0x3000
}

pub open spec fn is_ascii_alpha(c: char) -> bool {
    'a' <= c <= 'z' || 'A' <= c <= 'Z'
}

pub open spec fn is_ascii_digit(c: char) -> bool {
    '0' <= c <= '9'
}

pub open spec fn is_word(c: char) -> bool {
    is_ascii_alpha(c) || is_ascii_digit(c) || c == '_'
}

pub open spec fn is_ident(c: char) -> bool {
    is_word(c) || c == '$'
}

pub fn white(c: char) -> (r: bool)
    ensures
        r == is_white(c),
{
    let u: u32 = c as u32;
    (0x09 <= u && u <= 0x0d) || u == 0x20 || u == 0x85 || u == 0xa0 || u == 0x1680 || (0x2000 <= u
        && u <= 0x200a) || u == 0x2028 || u == 0x2029 || u == 0x202f || u == 0x205f || u == 0x3000
}

pub fn ascii_alpha(c: char) -> (r: bool)
    ensures
        r == is_ascii_alpha(c),
{
    ('a' <= c && c <= 'z') || ('A' <= c && c <= 'Z')
}

pub fn word(c: char) -> (r: bool)
    ensures
        r == is_word(c),
{
    ascii_alpha(c) || ('0' <= c && c <= '9') || c == '_'
}

impl CharClass {
    pub open spec fn has(self, c: char) -> bool {
        match self {
            CharClass::White => is_white(c),
            CharClass::Word => is_word(c),
            CharClass::Ident => is_ident(c),
            CharClass::ClassPath => is_ident(c) || c == '.',
            CharClass::TypeText => is_ident(c) || c == '.' || c == '<' || c == '>' || c == ','
                || c == '?' || c == '[' || c == ']' || c == '&' || is_white(c),
            CharClass::Receiver => is_word(c) || c == '.' || c == ')' || c == ']' || c == '(',
            CharClass::NotNewline => c != '\n',
            CharClass::NotStatementEnd => c != ';' && c != '{' && c != '}',
            CharClass::NotLineOrStatementEnd => c != '\n' && c != ';' && c != '{' && c != '}',
            CharClass::NotDot => c != '.',
        }
    }

    /// Whether the character belongs to the class.
    pub fn test(self, c: char) -> (r: bool)
        ensures
            r == self.has(c),
    {
        match self {
            CharClass::White => white(c),
            CharClass::Word => word(c),
            CharClass::Ident => word(c) || c == '$',
            CharClass::ClassPath => word(c) || c == '$' || c == '.',
            CharClass::TypeText => word(c) || c == '$' || c == '.' || c == '<' || c == '>' || c
                == ',' || c == '?' || c == '[' || c == ']' || c == '&' || white(c),
            CharClass::Receiver => word(c) || c == '.' || c == ')' || c == ']' || c == '(',
            CharClass::NotNewline => c != '\n',
            CharClass::NotStatementEnd => c != ';' && c != '{' && c != '}',
            CharClass::NotLineOrStatementEnd => c != '\n' && c != ';' && c != '{' && c != '}',
            CharClass::NotDot => c != '.',
        }
    }
}

// ---- runs of one class -------------------------------------------------------------------------

/// Where the run of characters of class `cls` that begins at `i` ends.
pub open spec fn run_end(s: Seq<char>, cls: CharClass, i: int) -> int
    decreases s.len() - i,
{
    if 0 <= i < s.len() && cls.has(s[i]) {
        run_end(s, cls, i + 1)
    } else {
        i
    }
}

/// Where the run of characters of class `cls` that ends at `j` begins.
pub open spec fn run_start(s: Seq<char>, cls: CharClass, j: int) -> int
    decreases j,
{
    if 0 < j <= s.len() && cls.has(s[j - 1]) {
        run_start(s, cls, j - 1)
    } else {
        j
    }
}

/// A run stays inside the text, is made of its class, and cannot be longer.
pub proof fn lemma_run_end(s: Seq<char>, cls: CharClass, i: int)
    requires
        0 <= i <= s.len(),
    ensures
        i <= run_end(s, cls, i) <= s.len(),
        forall|k: int| i <= k < run_end(s, cls, i) ==> cls.has(#[trigger] s[k]),
        run_end(s, cls, i) < s.len() ==> !cls.has(s[run_end(s, cls, i)]),
    decreases s.len() - i,
{
    if i < s.len() && cls.has(s[i]) {
        lemma_run_end(s, cls, i + 1);
    }
}

/// A run that is read backwards stays inside the text, is made of its class, and cannot be longer.
pub proof fn lemma_run_start(s: Seq<char>, cls: CharClass, j: int)
    requires
        0 <= j <= s.len(),
    ensures
        0 <= run_start(s, cls, j) <= j,
        forall|k: int| run_start(s, cls, j) <= k < j ==> cls.has(#[trigger] s[k]),
        run_start(s, cls, j) > 0 ==> !cls.has(s[run_start(s, cls, j) - 1]),
    decreases j,
{
    if j > 0 && cls.has(s[j - 1]) {
        lemma_run_start(s, cls, j - 1);
    }
}

pub fn run_forward(s: &[char], cls: CharClass, from: usize) -> (r: usize)
    requires
        from <= s@.len(),
    ensures
        from <= r <= s@.len(),
        r == run_end(s@, cls, from as int),
{
    let mut i: usize = from;
    while i < s.len() && cls.test(s[i])
        invariant
            from <= i <= s@.len(),
            run_end(s@, cls, from as int) == run_end(s@, cls, i as int),
        decreases s@.len() - i,
    {
        i += 1;
    }
    i
}

pub fn run_backward(s: &[char], cls: CharClass, to: usize) -> (r: usize)
    requires
        to <= s@.len(),
    ensures
        r <= to,
        r == run_start(s@, cls, to as int),
{
    let mut i: usize = to;
    while i > 0 && cls.test(s[i - 1])
        invariant
            i <= to <= s@.len(),
            run_start(s@, cls, to as int) == run_start(s@, cls, i as int),
        decreases i,
    {
        i -= 1;
    }
    i
}

/// Whether every character is of the class.
pub open spec fn all_of(s: Seq<char>, cls: CharClass) -> bool {
    forall|i: int| 0 <= i < s.len() ==> cls.has(#[trigger] s[i])
}

/// Whether some character is of the class.
pub open spec fn any_of(s: Seq<char>, cls: CharClass) -> bool {
    exists|i: int| 0 <= i < s.len() && cls.has(#[trigger] s[i])
}

pub fn is_all(s: &[char], cls: CharClass) -> (r: bool)
    ensures
        r == all_of(s@, cls),
{
    let e = run_forward(s, cls, 0);
    proof {
        lemma_run_end(s@, cls, 0);
    }
    e == s.len()
}

pub fn has_any(s: &[char], cls: CharClass) -> (r: bool)
    ensures
        r == any_of(s@, cls),
{
    let mut i: usize = 0;
    while i < s.len()
        invariant
            i <= s@.len(),
            forall|k: int| 0 <= k < i ==> !cls.has(#[trigger] s@[k]),
        decreases s@.len() - i,
    {
        if cls.test(s[i]) {
            return true;
        }
        i += 1;
    }
    false
}

// ---- trimming ----------------------------------------------------------------------------------

/// The text without leading white space.
pub open spec fn trim_start(s: Seq<char>) -> Seq<char> {
    s.skip(run_end(s, CharClass::White, 0))
}

/// The text without trailing white space.
pub open spec fn trim_end(s: Seq<char>) -> Seq<char> {
    s.take(run_start(s, CharClass::White, s.len() as int))
}

/// The text without white space at either end.
pub open spec fn trim(s: Seq<char>) -> Seq<char> {
    trim_end(trim_start(s))
}

/// The longest prefix that is made of the class.
pub open spec fn take_while(s: Seq<char>, cls: CharClass) -> Seq<char> {
    s.take(run_end(s, cls, 0))
}

/// The longest suffix that is made of the class.
pub open spec fn last_run(s: Seq<char>, cls: CharClass) -> Seq<char> {
    s.skip(run_start(s, cls, s.len() as int))
}

pub fn trimmed_start(s: &[char]) -> (r: &[char])
    ensures
        r@ == trim_start(s@),
{
    let i = run_forward(s, CharClass::White, 0);
    slice_subrange(s, i, s.len())
}

pub fn trimmed_end(s: &[char]) -> (r: &[char])
    ensures
        r@ == trim_end(s@),
{
    let i = run_backward(s, CharClass::White, s.len());
    slice_subrange(s, 0, i)
}

pub fn trimmed(s: &[char]) -> (r: &[char])
    ensures
        r@ == trim(s@),
{
    trimmed_end(trimmed_start(s))
}

pub fn taken_while(s: &[char], cls: CharClass) -> (r: &[char])
    ensures
        r@ == take_while(s@, cls),
{
    let i = run_forward(s, cls, 0);
    slice_subrange(s, 0, i)
}

pub fn ending_run(s: &[char], cls: CharClass) -> (r: &[char])
    ensures
        r@ == last_run(s@, cls),
{
    let i = run_backward(s, cls, s.len());
    slice_subrange(s, i, s.len())
}

// ---- searching ---------------------------------------------------------------------------------

/// The first position at or after `i` that holds `c`.
pub open spec fn index_from(s: Seq<char>, c: char, i: int) -> Option<int>
    decreases s.len() - i,
{
    if i < 0 || i >= s.len() {
        None
    } else if s[i] == c {
        Some(i)
    } else {
        index_from(s, c, i + 1)
    }
}

/// The first position that holds `c`.
pub open spec fn index_of(s: Seq<char>, c: char) -> Option<int> {
    index_from(s, c, 0)
}

/// The last position before `j` that holds `c`.
pub open spec fn last_index_before(s: Seq<char>, c: char, j: int) -> Option<int>
    decreases j,
{
    if j <= 0 || j > s.len() {
        None
    } else if s[j - 1] == c {
        Some(j - 1)
    } else {
        last_index_before(s, c, j - 1)
    }
}

/// The last position that holds `c`.
pub open spec fn last_index_of(s: Seq<char>, c: char) -> Option<int> {
    last_index_before(s, c, s.len() as int)
}

/// `position` as a mathematical integer.
pub open spec fn at(position: Option<usize>) -> Option<int> {
    match position {
        Some(i) => Some(i as int),
        None => None,
    }
}

pub fn find_char(s: &[char], c: char) -> (r: Option<usize>)
    ensures
        at(r) == index_of(s@, c),
        r matches Some(i) ==> i < s@.len() && s@[i as int] == c,
{
    let mut i: usize = 0;
    while i < s.len()
        invariant
            i <= s@.len(),
            index_of(s@, c) == index_from(s@, c, i as int),
        decreases s@.len() - i,
    {
        if s[i] == c {
            return Some(i);
        }
        i += 1;
    }
    None
}

pub fn rfind_char(s: &[char], c: char) -> (r: Option<usize>)
    ensures
        at(r) == last_index_of(s@, c),
        r matches Some(i) ==> i < s@.len() && s@[i as int] == c,
{
    let mut j: usize = s.len();
    while j > 0
        invariant
            j <= s@.len(),
            last_index_of(s@, c) == last_index_before(s@, c, j as int),
        decreases j,
    {
        if s[j - 1] == c {
            return Some(j - 1);
        }
        j -= 1;
    }
    None
}

pub fn contains_char(s: &[char], c: char) -> (r: bool)
    ensures
        r == s@.contains(c),
{
    let mut i: usize = 0;
    while i < s.len()
        invariant
            i <= s@.len(),
            forall|k: int| 0 <= k < i ==> s@[k] != c,
        decreases s@.len() - i,
    {
        if s[i] == c {
            return true;
        }
        i += 1;
    }
    false
}

/// The first position at or after `i` where `pat` stands.
pub open spec fn find_from(s: Seq<char>, pat: Seq<char>, i: int) -> Option<int>
    decreases s.len() - i + 1,
{
    if i < 0 || i + pat.len() > s.len() {
        None
    } else if s.subrange(i, i + pat.len()) == pat {
        Some(i)
    } else {
        find_from(s, pat, i + 1)
    }
}

/// The first position where `pat` stands.
pub open spec fn find(s: Seq<char>, pat: Seq<char>) -> Option<int> {
    find_from(s, pat, 0)
}

/// A text that stands somewhere is found, there or before.
pub proof fn lemma_stands_is_found(s: Seq<char>, pat: Seq<char>, i: int, at: int)
    requires
        0 <= i <= at,
        at + pat.len() <= s.len(),
        s.subrange(at, at + pat.len()) == pat,
    ensures
        find_from(s, pat, i) matches Some(k) && i <= k <= at,
    decreases at - i,
{
    if i < at {
        if s.subrange(i, i + pat.len()) != pat {
            lemma_stands_is_found(s, pat, i + 1, at);
        }
    }
}

pub open spec fn starts_with(s: Seq<char>, pat: Seq<char>) -> bool {
    pat.len() <= s.len() && s.take(pat.len() as int) == pat
}

pub open spec fn ends_with(s: Seq<char>, pat: Seq<char>) -> bool {
    pat.len() <= s.len() && s.skip(s.len() - pat.len()) == pat
}

/// Whether `pat` stands in `s` at position `i`.
pub fn stands_at(s: &[char], pat: &[char], i: usize) -> (r: bool)
    requires
        i + pat@.len() <= s@.len(),
    ensures
        r == (s@.subrange(i as int, i + pat@.len()) == pat@),
{
    let n: usize = s.len();
    let mut k: usize = 0;
    while k < pat.len()
        invariant
            k <= pat@.len(),
            i + pat@.len() <= s@.len(),
            n == s@.len(),
            forall|m: int| 0 <= m < k ==> s@[i + m] == pat@[m],
        decreases pat@.len() - k,
    {
        if s[i + k] != pat[k] {
            assert(s@.subrange(i as int, i + pat@.len())[k as int] != pat@[k as int]);
            return false;
        }
        k += 1;
    }
    assert(s@.subrange(i as int, i + pat@.len()) =~= pat@);
    true
}

pub fn find_text(s: &[char], pat: &str) -> (r: Option<usize>)
    ensures
        at(r) == find(s@, pat@),
        r matches Some(i) ==> i + pat@.len() <= s@.len(),
{
    let p = to_chars(pat);
    let mut i: usize = 0;
    if p.len() > s.len() {
        return None;
    }
    let last: usize = s.len() - p.len();
    while i <= last
        invariant
            p@ == pat@,
            last == s@.len() - p@.len(),
            i <= last + 1,
            find(s@, pat@) == find_from(s@, pat@, i as int),
        decreases last + 1 - i,
    {
        if stands_at(s, &p, i) {
            return Some(i);
        }
        if i == last {
            assert(find_from(s@, pat@, i + 1) is None);
            return None;
        }
        i += 1;
    }
    None
}

pub fn begins_with(s: &[char], pat: &str) -> (r: bool)
    ensures
        r == starts_with(s@, pat@),
{
    let p = to_chars(pat);
    p.len() <= s.len() && stands_at(s, &p, 0)
}

pub fn finishes_with(s: &[char], pat: &str) -> (r: bool)
    ensures
        r == ends_with(s@, pat@),
{
    let p = to_chars(pat);
    p.len() <= s.len() && stands_at(s, &p, s.len() - p.len())
}

/// Whether the characters spell the given word.
pub fn spells(s: &[char], w: &str) -> (r: bool)
    ensures
        r == (s@ == w@),
{
    let p = to_chars(w);
    if p.len() != s.len() {
        return false;
    }
    let r = stands_at(s, &p, 0);
    assert(s@.subrange(0, s@.len() as int) =~= s@);
    r
}

/// What follows `pat` in a text that begins with it.
pub open spec fn strip_prefix(s: Seq<char>, pat: Seq<char>) -> Option<Seq<char>> {
    if starts_with(s, pat) {
        Some(s.skip(pat.len() as int))
    } else {
        None
    }
}

/// What precedes `pat` in a text that ends with it.
pub open spec fn strip_suffix(s: Seq<char>, pat: Seq<char>) -> Option<Seq<char>> {
    if ends_with(s, pat) {
        Some(s.take(s.len() - pat.len()))
    } else {
        None
    }
}

pub open spec fn slice_view(s: Option<&[char]>) -> Option<Seq<char>> {
    match s {
        Some(t) => Some(t@),
        None => None,
    }
}

pub fn without_prefix<'a>(s: &'a [char], pat: &str) -> (r: Option<&'a [char]>)
    ensures
        slice_view(r) == strip_prefix(s@, pat@),
{
    let n: usize = to_chars(pat).len();
    if begins_with(s, pat) {
        Some(slice_subrange(s, n, s.len()))
    } else {
        None
    }
}

pub fn without_suffix<'a>(s: &'a [char], pat: &str) -> (r: Option<&'a [char]>)
    ensures
        slice_view(r) == strip_suffix(s@, pat@),
{
    let n: usize = to_chars(pat).len();
    if finishes_with(s, pat) {
        Some(slice_subrange(s, 0, s.len() - n))
    } else {
        None
    }
}

/// Joins two pieces of text.
pub fn append(out: &mut Vec<char>, s: &[char])
    ensures
        final(out)@ == old(out)@ + s@,
{
    let mut i: usize = 0;
    while i < s.len()
        invariant
            i <= s@.len(),
            out@ == old(out)@ + s@.take(i as int),
        decreases s@.len() - i,
    {
        out.push(s[i]);
        i += 1;
    }
    assert(s@.take(s@.len() as int) =~= s@);
}

/// Joins a piece of text and a fixed word.
pub fn append_str(out: &mut Vec<char>, s: &str)
    ensures
        final(out)@ == old(out)@ + s@,
{
    let c = to_chars(s);
    append(out, &c);
}

/// The pieces of a text between the places of a character.
pub open spec fn split(s: Seq<char>, c: char) -> Seq<Seq<char>>
    decreases s.len(),
{
    match index_of(s, c) {
        Some(i) => if 0 <= i < s.len() {
            seq![s.take(i)] + split(s.skip(i + 1), c)
        } else {
            seq![s]
        },
        None => seq![s],
    }
}

/// Splits a text at every place of a character.
pub fn split_at_char(s: &[char], c: char) -> (r: Vec<Vec<char>>)
    ensures
        r.deep_view() == split(s@, c),
        r@.len() > 0,
{
    let mut out: Vec<Vec<char>> = Vec::new();
    let mut rest: &[char] = s;
    loop
        invariant
            out.deep_view() + split(rest@, c) =~= split(s@, c),
        decreases rest@.len(),
    {
        let ghost done = out.deep_view();
        match find_char(rest, c) {
            Some(i) => {
                let n: usize = rest.len();
                let piece = slice_to_vec(slice_subrange(rest, 0, i));
                assert(piece@ =~= rest@.take(i as int));
                out.push(piece);
                assert(piece.deep_view() =~= piece@);
                assert(out.deep_view() =~= done.push(piece@));
                let tail = slice_subrange(rest, i + 1, n);
                assert(tail@ =~= rest@.skip(i + 1));
                assert(split(rest@, c) =~= seq![piece@] + split(tail@, c));
                rest = tail;
            },
            None => {
                let piece = slice_to_vec(rest);
                out.push(piece);
                assert(piece.deep_view() =~= piece@);
                assert(out.deep_view() =~= done.push(piece@));
                assert(split(rest@, c) =~= seq![rest@]);
                return out;
            },
        }
    }
}

/// A copy of some characters.
pub fn slice_to_vec(s: &[char]) -> (r: Vec<char>)
    ensures
        r@ == s@,
{
    let mut out: Vec<char> = Vec::new();
    append(&mut out, s);
    assert(out@ =~= s@);
    out
}

/// What follows the last place of a character; the whole text if the character is not in it.
pub open spec fn after_last(s: Seq<char>, c: char) -> Seq<char> {
    match last_index_of(s, c) {
        Some(i) => s.skip(i + 1),
        None => s,
    }
}

/// What follows the last place of a character.
pub fn behind_last(s: &[char], c: char) -> (r: &[char])
    ensures
        r@ == after_last(s@, c),
{
    match rfind_char(s, c) {
        Some(i) => {
            let n: usize = s.len();
            let tail = slice_subrange(s, i + 1, n);
            assert(tail@ =~= s@.skip(i + 1));
            tail
        },
        None => s,
    }
}

} // verus!
