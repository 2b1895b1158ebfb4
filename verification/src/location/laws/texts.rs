//! What the text before the cursor tells where the syntax tree does not.
use vstd::prelude::*;

use crate::extractor::{is_keyword, unmarked, SENTINEL};
use crate::location::heuristics::{
    code_part, comment_start, first_token, import_from_text, in_import, last_token,
    new_before_cursor, trailing_dot, type_before_name,
};
use crate::location::text::{expr_start, last_expr, last_line, new_token_at};
use crate::semantic::LocationView;
use crate::text::laws::lemma_trim_keeps;
use crate::text::{
    all_of, find, is_white, is_word, run_end, run_start, starts_with, trim_end, trim_start,
    CharClass,
};

use super::is_last_piece;

pub mod lines;

verus! {

// ---- lines -------------------------------------------------------------------------------------

proof fn lemma_run_start_is(s: Seq<char>, cls: CharClass, j: int, at: int)
    requires
        0 <= at <= j <= s.len(),
        forall|i: int| at <= i < j ==> cls.has(#[trigger] s[i]),
        at > 0 ==> !cls.has(s[at - 1]),
    ensures
        run_start(s, cls, j) == at,
    decreases j - at,
{
    if j > at {
        lemma_run_start_is(s, cls, j - 1, at);
    }
}

proof fn lemma_run_end_is(s: Seq<char>, cls: CharClass, i: int, at: int)
    requires
        0 <= i <= at <= s.len(),
        forall|k: int| i <= k < at ==> cls.has(#[trigger] s[k]),
        at < s.len() ==> !cls.has(s[at]),
    ensures
        run_end(s, cls, i) == at,
    decreases at - i,
{
    if i < at {
        lemma_run_end_is(s, cls, i + 1, at);
    }
}

/// The last line is what follows the last line's end.
pub proof fn lemma_last_line(head: Seq<char>, line: Seq<char>)
    requires
        head.len() == 0 || head.last() == '\n',
        !line.contains('\n'),
    ensures
        last_line(head + line) == line,
{
    let s = head + line;
    assert forall|i: int| head.len() <= i < s.len() implies CharClass::NotNewline.has(
        #[trigger] s[i],
    ) by {
        assert(line.contains(line[i - head.len()]));
    }
    lemma_run_start_is(s, CharClass::NotNewline, s.len() as int, head.len() as int);
    assert(s.skip(head.len() as int) =~= line);
}

proof fn lemma_trim_end_keeps(s: Seq<char>)
    requires
        s.len() == 0 || !is_white(s.last()),
    ensures
        trim_end(s) == s,
{
    lemma_run_start_is(s, CharClass::White, s.len() as int, s.len() as int);
    assert(s.take(s.len() as int) =~= s);
}

proof fn lemma_trim_start_keeps(s: Seq<char>)
    requires
        s.len() == 0 || !is_white(s[0]),
    ensures
        trim_start(s) == s,
{
    lemma_run_end_is(s, CharClass::White, 0, 0);
    assert(s.skip(0) =~= s);
}

/// A line without quotes and slashes has no comment.
pub proof fn lemma_no_comment(s: Seq<char>, i: int)
    requires
        0 <= i <= s.len(),
        forall|k: int| 0 <= k < s.len() ==> s[k] != '"' && s[k] != '\'' && s[k] != '/',
    ensures
        comment_start(s, i, false, false, false) == s.len(),
    decreases s.len() - i,
{
    if i < s.len() {
        lemma_no_comment(s, i + 1);
    }
}

/// What follows two slashes outside of quotes is a comment and does not count.
pub proof fn lemma_comment_does_not_count(code: Seq<char>, rest: Seq<char>, i: int)
    requires
        0 <= i <= code.len(),
        forall|k: int| 0 <= k < code.len() ==> code[k] != '"' && code[k] != '\'' && code[k] != '/',
    ensures
        comment_start(code + seq!['/', '/'] + rest, i, false, false, false) == code.len(),
        i == 0 ==> code_part(code + seq!['/', '/'] + rest) == code,
    decreases code.len() - i,
{
    let s = code + seq!['/', '/'] + rest;
    if i < code.len() {
        assert(s[i] == code[i]);
        lemma_comment_does_not_count(code, rest, i + 1);
    } else {
        assert(s[i] == '/' && s[i + 1] == '/');
    }
    assert(s.take(code.len() as int) =~= code);
}

// ---- dots --------------------------------------------------------------------------------------

/// A text in which no expression begins: without brackets, statement ends, assignments and arrows.
pub open spec fn is_flat(s: Seq<char>) -> bool {
    forall|k: int|
        0 <= k < s.len() ==> s[k] != '(' && s[k] != ')' && s[k] != '{' && s[k] != '}' && s[k] != ';'
            && s[k] != '\n' && s[k] != '>' && s[k] != '='
}

proof fn lemma_flat_begins(s: Seq<char>, i: int)
    requires
        0 <= i <= s.len(),
        is_flat(s),
    ensures
        expr_start(s, i, 0, 0) == 0,
    decreases i,
{
    if i > 0 {
        lemma_flat_begins(s, i - 1);
    }
}

/// What can stand before a dot, as one word: a name, a path, an array access.
pub open spec fn is_receiver(s: Seq<char>) -> bool {
    &&& s.len() > 0
    &&& is_flat(s)
    &&& !is_white(s[0]) && !is_white(s.last())
    &&& forall|k: int| 0 <= k < s.len() ==> s[k] != '"' && s[k] != '\'' && s[k] != '/'
}

/// What can be typed of the name of a member.
pub open spec fn is_word_prefix(s: Seq<char>) -> bool {
    forall|k: int| 0 <= k < s.len() ==> is_word(#[trigger] s[k])
}

proof fn lemma_words(c: char)
    requires
        is_word(c),
    ensures
        !is_white(c),
        c != '\n' && c != '"' && c != '\'' && c != '/' && c != '.',
{
}

/// A word, a dot and a beginning of a word at the end of the last line are a member of what stands
/// before the dot that is being typed.
pub proof fn lemma_trailing_dots(head: Seq<char>, receiver: Seq<char>, prefix: Seq<char>)
    requires
        head.len() == 0 || head.last() == '\n',
        is_receiver(receiver),
        is_word_prefix(prefix),
    ensures
        trailing_dot(head + receiver + seq!['.'] + prefix) == Some((receiver, prefix)),
{
    let line = receiver + seq!['.'] + prefix;
    let before = head + receiver + seq!['.'] + prefix;
    assert(before =~= head + line);
    let at = receiver.len() + 1;
    assert forall|k: int| 0 <= k < line.len() implies line[k] != '\n' && line[k] != '"' && line[k]
        != '\'' && line[k] != '/' by {
        if k < receiver.len() {
            assert(line[k] == receiver[k]);
        } else if k >= at {
            assert(line[k] == prefix[k - at]);
            lemma_words(prefix[k - at]);
        }
    }
    assert(!line.contains('\n'));
    assert(!is_white(line.last())) by {
        if prefix.len() > 0 {
            assert(line.last() == prefix[prefix.len() - 1]);
            lemma_words(prefix[prefix.len() - 1]);
        } else {
            assert(line.last() == '.');
        }
    }
    assert(before.last() == line.last());
    lemma_trim_end_keeps(before);
    lemma_last_line(head, line);
    lemma_no_comment(line, 0);
    assert(line.take(line.len() as int) =~= line);
    lemma_trim_end_keeps(line);
    assert forall|k: int| at <= k < line.len() implies CharClass::Ident.has(#[trigger] line[k]) by {
        assert(line[k] == prefix[k - at]);
    }
    assert(line[at - 1] == '.');
    lemma_run_start_is(line, CharClass::Ident, line.len() as int, at as int);
    assert(line.skip(at as int) =~= prefix);
    assert(all_of(prefix, CharClass::Word));
    assert(line.take(at - 1) =~= receiver);
    lemma_trim_end_keeps(receiver);
    lemma_flat_begins(receiver, receiver.len() as int);
    assert(receiver.skip(0) =~= receiver);
    lemma_trim_keeps(receiver);
}

/// The expression that ends a text begins behind the last bracket that is open, statement's end or
/// assignment.
pub proof fn lemma_last_expressions(head: Seq<char>, expr: Seq<char>)
    requires
        is_receiver(expr),
        head.len() > 0,
        head.last() == '(' || head.last() == '{' || head.last() == ';' || head.last() == '\n',
    ensures
        last_expr(head + expr) == Some(expr),
{
    let s = head + expr;
    assert(s.last() == expr.last());
    lemma_trim_end_keeps(s);
    lemma_expr_start_is(s, head.len() as int, s.len() as int);
    assert(s.skip(head.len() as int) =~= expr);
    lemma_trim_keeps(expr);
}

proof fn lemma_expr_start_is(s: Seq<char>, at: int, i: int)
    requires
        0 < at <= i <= s.len(),
        s[at - 1] == '(' || s[at - 1] == '{' || s[at - 1] == ';' || s[at - 1] == '\n',
        forall|k: int|
            at <= k < s.len() ==> s[k] != '(' && s[k] != ')' && s[k] != '{' && s[k] != '}' && s[k]
                != ';' && s[k] != '\n' && s[k] != '>' && s[k] != '=',
    ensures
        expr_start(s, i, 0, 0) == at,
    decreases i - at,
{
    if i > at {
        lemma_expr_start_is(s, at, i - 1);
    }
}

/// Brackets that are closed belong to the expression.
pub proof fn lemma_calls_belong(s: Seq<char>, i: int, name: int)
    requires
        0 < name < i <= s.len(),
        s[i - 1] == ')',
        s[name] == '(',
        forall|k: int| name < k < i - 1 ==> s[k] != '(' && s[k] != ')' && s[k] != '{' && s[k] != '}',
    ensures
        expr_start(s, i, 0, 0) == expr_start(s, name, 0, 0),
{
    lemma_inside_brackets(s, i - 1, name);
}

proof fn lemma_inside_brackets(s: Seq<char>, i: int, name: int)
    requires
        0 < name < i <= s.len(),
        s[name] == '(',
        forall|k: int| name < k < i ==> s[k] != '(' && s[k] != ')' && s[k] != '{' && s[k] != '}',
    ensures
        expr_start(s, i, 1, 0) == expr_start(s, name, 0, 0),
    decreases i - name,
{
    if i > name + 1 {
        lemma_inside_brackets(s, i - 1, name);
    }
}

// ---- new ---------------------------------------------------------------------------------------

/// `new` and a beginning of a class at the end of a line are a constructor call that is being typed.
pub proof fn lemma_new_lines(head: Seq<char>, class: Seq<char>)
    requires
        head.len() == 0 || head.last() == '\n',
        class.len() > 0,
        forall|k: int| 0 <= k < class.len() ==> CharClass::ClassPath.has(#[trigger] class[k]),
        crate::text::is_ascii_alpha(class[0]) || class[0] == '_' || class[0] == '$',
    ensures
        new_before_cursor(head + seq!['n', 'e', 'w', ' '] + class) == Some(
            (class, None::<Seq<char>>),
        ),
{
    let line = seq!['n', 'e', 'w', ' '] + class;
    let before = head + seq!['n', 'e', 'w', ' '] + class;
    assert(before =~= head + line);
    assert forall|k: int| 0 <= k < line.len() implies line[k] != '\n' by {
        if k >= 4 {
            assert(line[k] == class[k - 4]);
            assert(CharClass::ClassPath.has(class[k - 4]));
        }
    }
    assert(!line.contains('\n'));
    lemma_last_line(head, line);
    assert(line.last() == class[class.len() - 1]);
    assert(CharClass::ClassPath.has(class[class.len() - 1]));
    lemma_trim_end_keeps(line);
    lemma_trim_start_keeps(line);
    reveal_strlit("new");
    assert("new"@ =~= seq!['n', 'e', 'w']);
    assert(line.subrange(0, 3) =~= "new"@);
    assert(line[3] == ' ');
    assert(new_token_at(line, 0));
    let after = line.skip(3);
    assert(after =~= seq![' '] + class);
    assert(after[1] == class[0]);
    lemma_run_end_is(after, CharClass::White, 0, 1);
    assert(after.skip(1) =~= class);
    lemma_run_end_is(class, CharClass::ClassPath, 0, class.len() as int);
    assert(class.take(class.len() as int) =~= class);
    let nothing = line.take(0);
    assert(nothing.len() == 0);
    assert(trim_end(nothing) =~= nothing) by {
        lemma_trim_end_keeps(nothing);
    }
    lemma_last_line(nothing, nothing);
    assert(nothing + nothing =~= nothing);
    lemma_no_comment(nothing, 0);
    assert(code_part(nothing) =~= nothing);
    assert(run_start(nothing, CharClass::Ident, 0) == 0);
    assert(trailing_dot(nothing) is None);
}

// ---- imports -----------------------------------------------------------------------------------

/// `import` and a name at the end of a statement are an import of what the name begins, dots and
/// all.
#[verifier::spinoff_prover]
#[verifier::rlimit(30)]
pub proof fn lemma_import_lines(head: Seq<char>, name: Seq<char>)
    requires
        head.len() == 0 || head.last() == ';' || head.last() == '}',
        forall|k: int|
            0 <= k < name.len() ==> CharClass::ClassPath.has(#[trigger] name[k]),
        find(name, SENTINEL@) is None,
    ensures
        ({
            let before = head + seq!['i', 'm', 'p', 'o', 'r', 't', ' '] + name;
            &&& in_import(before)
            &&& import_from_text(before).0 == LocationView::Import { prefix: name }
            &&& is_last_piece(import_from_text(before).1, name)
        }),
{
    let stmt = seq!['i', 'm', 'p', 'o', 'r', 't', ' '] + name;
    let before = head + seq!['i', 'm', 'p', 'o', 'r', 't', ' '] + name;
    assert(before =~= head + stmt);
    assert forall|k: int| head.len() <= k < before.len() implies CharClass::NotStatementEnd.has(
        #[trigger] before[k],
    ) by {
        let i = k - head.len();
        assert(before[k] == stmt[i]);
        if i >= 7 {
            assert(stmt[i] == name[i - 7]);
        }
    }
    lemma_run_start_is(
        before,
        CharClass::NotStatementEnd,
        before.len() as int,
        head.len() as int,
    );
    assert(before.skip(head.len() as int) =~= stmt);
    lemma_trim_start_keeps(stmt);
    reveal_strlit("import");
    reveal_strlit("static ");
    assert("import"@ =~= seq!['i', 'm', 'p', 'o', 'r', 't']);
    assert(stmt.take(6) =~= "import"@);
    let rest = stmt.skip(6);
    assert(rest =~= seq![' '] + name);
    if name.len() > 0 {
        assert(rest[1] == name[0]);
        assert(CharClass::ClassPath.has(name[0]));
    }
    lemma_run_end_is(rest, CharClass::White, 0, 1);
    assert(rest.skip(1) =~= name);
    if starts_with(name, "static "@) {
        assert("static "@[6] == ' ');
        assert(name.take(7)[6] == name[6]);
        assert(CharClass::ClassPath.has(name[6]));
    }
    assert(unmarked(name) == name);
    super::lemma_last_piece(name);
}

// ---- types before names ------------------------------------------------------------------------

/// A single name of a type that is no keyword, alone on its line with white space behind it, awaits
/// the name of a variable.
pub proof fn lemma_type_lines(head: Seq<char>, ty: Seq<char>, gap: Seq<char>)
    requires
        head.len() == 0 || head.last() == '\n',
        ty.len() > 0,
        forall|k: int| 0 <= k < ty.len() ==> CharClass::Ident.has(#[trigger] ty[k]),
        !is_keyword(ty),
        gap == seq![' '] || gap == seq!['\t'],
    ensures
        type_before_name(head + ty + gap) == Some(ty),
        type_before_name(head + ty) is None,
{
    let line = ty + gap;
    let before = head + ty + gap;
    assert(before =~= head + line);
    assert(CharClass::Ident.has(ty[0]));
    assert(CharClass::Ident.has(ty[ty.len() - 1]));
    assert forall|k: int| 0 <= k < line.len() implies line[k] != '\n' by {
        if k < ty.len() {
            assert(line[k] == ty[k]);
            assert(CharClass::Ident.has(ty[k]));
        }
    }
    assert(!line.contains('\n'));
    lemma_last_line(head, line);
    assert(line[ty.len() - 1] == ty[ty.len() - 1]);
    assert forall|k: int| ty.len() <= k < line.len() implies CharClass::White.has(
        #[trigger] line[k],
    ) by {
        assert(line[k] == gap[k - ty.len()]);
    }
    lemma_run_start_is(line, CharClass::White, line.len() as int, ty.len() as int);
    assert(line.take(ty.len() as int) =~= ty);
    assert(before.last() == gap[0]);
    assert(!ty.contains(';')) by {
        if ty.contains(';') {
            let k = choose|k: int| 0 <= k < ty.len() && ty[k] == ';';
            assert(CharClass::Ident.has(ty[k]));
        }
    }
    assert(all_of(ty, CharClass::TypeText)) by {
        assert forall|k: int| 0 <= k < ty.len() implies CharClass::TypeText.has(
            #[trigger] ty[k],
        ) by {
            assert(CharClass::Ident.has(ty[k]));
        }
    }
    lemma_run_end_is(ty, CharClass::Ident, 0, ty.len() as int);
    lemma_run_start_is(ty, CharClass::Ident, ty.len() as int, 0);
    assert(ty.subrange(0, ty.len() as int) =~= ty);
    assert(first_token(ty) == Some(ty));
    assert(last_token(ty) == Some(ty));
    lemma_trim_keeps(ty);
    let short = head + ty;
    assert(short.last() == ty[ty.len() - 1]);
}

} // verus!
