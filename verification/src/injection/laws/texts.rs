//! What the text with the marker keeps of the text, and when it is asked.
use vstd::prelude::*;

use crate::extractor::{unmarked, JavaContextExtractor, SENTINEL};
use crate::injection::{
    at_class_member, bare_new, broken_creation, closing, closers_after, dot_before_cursor,
    dotted_tail, error_at, forces_injection, injected_source, is_created, open_from, predicates,
    terminator, typed_identifier, unmarked_location, ScanMode,
};
use crate::semantic::LocationView;
use crate::syntax::{KindClass, NodeId};
use crate::text::laws::{lemma_last_index_before, lemma_trim_keeps};
use crate::text::{
    all_of, find, is_white, is_word, last_index_of, last_run, lemma_run_start, run_start, trim,
    trim_end, CharClass,
};

verus! {

/// The text up to the cursor, something put in, the text behind the cursor, and brackets that close
/// what is open.
pub open spec fn is_put_in(ctx: &JavaContextExtractor, put: Seq<char>, text: Seq<char>) -> bool {
    text == ctx.source@.take(ctx.offset as int) + put + ctx.source@.skip(ctx.offset as int)
        + closing(ctx.source@.take(ctx.offset as int) + put + ctx.source@.skip(ctx.offset as int))
}

/// What ends a statement with the marker: a semicolon, unless the cursor is in brackets.
pub open spec fn ending(ctx: &JavaContextExtractor, cursor: Option<NodeId>) -> Seq<char> {
    match cursor {
        Some(n) => if ctx.tree.reaches(n, KindClass::InsideBrackets, KindClass::Container) {
            Seq::empty()
        } else {
            seq![';']
        },
        None => seq![';'],
    }
}

proof fn lemma_ending(ctx: &JavaContextExtractor, cursor: Option<NodeId>)
    ensures
        terminator(&ctx.tree, cursor) == ending(ctx, cursor),
{
    reveal_strlit(";");
    reveal_strlit("");
    assert(";"@ =~= seq![';']);
    assert(""@ =~= Seq::<char>::empty());
}

proof fn lemma_small_texts()
    ensures
        " "@ == seq![' '],
        "()"@ == seq!['(', ')'],
        ""@ == Seq::<char>::empty(),
        "void "@ == seq!['v', 'o', 'i', 'd', ' '],
        "() {}"@ == seq!['(', ')', ' ', '{', '}'],
{
    reveal_strlit(" ");
    reveal_strlit("()");
    reveal_strlit("");
    reveal_strlit("void ");
    reveal_strlit("() {}");
    assert(" "@ =~= seq![' ']);
    assert("()"@ =~= seq!['(', ')']);
    assert(""@ =~= Seq::<char>::empty());
    assert("void "@ =~= seq!['v', 'o', 'i', 'd', ' ']);
    assert("() {}"@ =~= seq!['(', ')', ' ', '{', '}']);
}

/// Right behind `new` the marker is put in as the class of a constructor call.
pub proof fn lemma_put_in_behind_new(ctx: &JavaContextExtractor, cursor: Option<NodeId>)
    requires
        bare_new(ctx),
    ensures
        is_put_in(
            ctx,
            seq![' '] + SENTINEL@ + seq!['(', ')'],
            injected_source(ctx, cursor),
        ),
{
    lemma_small_texts();
}

/// Where nothing is being typed, the marker is put in at the cursor: as a statement or an
/// expression, in the body of a class as a method.
pub proof fn lemma_put_in_blank(ctx: &JavaContextExtractor, cursor: Option<NodeId>)
    requires
        !bare_new(ctx),
        error_at(&ctx.tree, cursor) is None,
        typed_identifier(ctx, cursor) is None,
    ensures
        is_put_in(
            ctx,
            if at_class_member(&ctx.tree, cursor) {
                seq!['v', 'o', 'i', 'd', ' '] + SENTINEL@ + seq!['(', ')', ' ', '{', '}']
            } else {
                SENTINEL@ + ending(ctx, cursor)
            },
            injected_source(ctx, cursor),
        ),
{
    lemma_small_texts();
    lemma_ending(ctx, cursor);
    assert(Seq::<char>::empty() + SENTINEL@ =~= SENTINEL@);
}

/// Behind a dot in an error, the marker is put in at the cursor.
pub proof fn lemma_put_in_behind_dot(
    ctx: &JavaContextExtractor,
    cursor: Option<NodeId>,
    error: NodeId,
)
    requires
        !bare_new(ctx),
        error_at(&ctx.tree, cursor) == Some(error),
        !broken_creation(ctx, error, cursor),
        dot_before_cursor(&ctx.tree, error, ctx.offset as int),
    ensures
        is_put_in(ctx, SENTINEL@ + ending(ctx, cursor), injected_source(ctx, cursor)),
{
    lemma_small_texts();
    lemma_ending(ctx, cursor);
    assert(Seq::<char>::empty() + SENTINEL@ =~= SENTINEL@);
}

/// In an identifier that is being typed, the marker is put in at the cursor: what is typed stays
/// before it, what the identifier holds behind the cursor stays behind it; the class of a
/// constructor call gets its brackets.
pub proof fn lemma_put_in_identifier(ctx: &JavaContextExtractor, n: NodeId)
    requires
        ctx.wf(),
        ctx.tree.has(n),
        !bare_new(ctx),
        error_at(&ctx.tree, Some(n)) is None,
        typed_identifier(ctx, Some(n)) == Some(n),
        ctx.tree.end_of(n) >= ctx.offset,
        !at_class_member(&ctx.tree, Some(n)),
    ensures
        is_put_in(
            ctx,
            SENTINEL@ + (if is_created(ctx, n) {
                seq!['(', ')']
            } else {
                Seq::empty()
            }) + ending(ctx, Some(n)),
            injected_source(ctx, Some(n)),
        ),
{
    lemma_small_texts();
    lemma_ending(ctx, Some(n));
    let t = &ctx.tree;
    assert(t.nodes@[n as int].start <= t.nodes@[n as int].end <= ctx.source@.len());
    let start = t.start_of(n);
    let at = ctx.offset as int;
    let prefix = ctx.text_to_cursor(n);
    let tail = (if is_created(ctx, n) {
        seq!['(', ')']
    } else {
        Seq::empty()
    }) + ending(ctx, Some(n));
    let put = SENTINEL@ + (if is_created(ctx, n) {
        seq!['(', ')']
    } else {
        Seq::empty()
    }) + ending(ctx, Some(n));
    assert(put =~= SENTINEL@ + tail);
    let old_way = ctx.source@.take(start) + (prefix + SENTINEL@ + tail) + ctx.source@.skip(at);
    let new_way = ctx.source@.take(at) + put + ctx.source@.skip(at);
    assert(ctx.source@.take(start) + prefix =~= ctx.source@.take(at));
    assert(old_way =~= new_way);
}

// ---- closing brackets --------------------------------------------------------------------------

/// A text without brackets, quotes and slashes needs no bracket to be closed.
pub proof fn lemma_nothing_open(s: Seq<char>, i: int)
    requires
        0 <= i <= s.len(),
        forall|k: int|
            0 <= k < s.len() ==> s[k] != '(' && s[k] != '[' && s[k] != '{' && s[k] != '"' && s[k]
                != '\'' && s[k] != '/',
    ensures
        open_from(s, i, ScanMode::Code, Seq::empty()) == Seq::<char>::empty(),
        i == 0 ==> closing(s) == Seq::<char>::empty(),
    decreases s.len() - i,
{
    if i < s.len() {
        lemma_nothing_open(s, i + 1);
    }
    assert(Seq::<char>::empty().reverse() =~= Seq::<char>::empty());
}

/// Each opening bracket is closed by its own kind.
pub proof fn lemma_brackets(open: Seq<char>)
    ensures
        closers_after('(', ScanMode::Code, open) == open.push(')'),
        closers_after('[', ScanMode::Code, open) == open.push(']'),
        closers_after('{', ScanMode::Code, open) == open.push('}'),
        closers_after(')', ScanMode::Code, open.push(')')) == open,
        closers_after(']', ScanMode::Code, open.push(']')) == open,
        closers_after('}', ScanMode::Code, open.push('}')) == open,
{
    assert(open.push(')').drop_last() =~= open);
    assert(open.push(']').drop_last() =~= open);
    assert(open.push('}').drop_last() =~= open);
}

/// Brackets in strings, characters and comments do not count.
pub proof fn lemma_brackets_in_texts(c: char, mode: ScanMode, open: Seq<char>)
    requires
        mode != ScanMode::Code,
    ensures
        closers_after(c, mode, open) == open,
{
}

// ---- when the location is read again -----------------------------------------------------------

/// The location is read again exactly where it looks like a type or a variable's name, the cursor
/// is in an error or among statements and not in type arguments, and the text before it ends like a
/// member access.
pub proof fn lemma_when_read_again(
    ctx: &JavaContextExtractor,
    cursor: Option<NodeId>,
    loc: LocationView,
)
    ensures
        forces_injection(predicates(ctx, cursor, loc)) <==> {
            &&& loc is TypeAnnotation || loc is VariableName
            &&& cursor matches Some(n) && (ctx.tree.kind_of(n) == "ERROR"@ || ctx.tree.ancestor(
                n,
                "ERROR"@,
            ) is Some || ctx.tree.reaches(
                n,
                KindClass::CodeContext,
                KindClass::DeclarationOrProgram,
            )) && !ctx.tree.reaches(
                n,
                KindClass::TypeArgumentList,
                KindClass::MethodClassOrProgram,
            )
            &&& dotted_tail(ctx.before())
        },
{
}

/// A character that ends neither a line nor a statement and is no white space.
pub open spec fn is_inner(c: char) -> bool {
    c != '\n' && c != ';' && c != '{' && c != '}' && !is_white(c)
}

proof fn lemma_statement_tail(head: Seq<char>, s: Seq<char>)
    requires
        head.len() == 0 || head.last() == ';' || head.last() == '{' || head.last() == '}'
            || head.last() == '\n',
        s.len() > 0,
        forall|k: int| 0 <= k < s.len() ==> is_inner(#[trigger] s[k]),
    ensures
        last_run(trim_end(head + s), CharClass::NotLineOrStatementEnd) == s,
{
    let before = head + s;
    assert(before.last() == s[s.len() - 1]);
    lemma_run_start(before, CharClass::White, before.len() as int);
    assert(trim_end(before) =~= before);
    lemma_run_start(before, CharClass::NotLineOrStatementEnd, before.len() as int);
    let i = run_start(before, CharClass::NotLineOrStatementEnd, before.len() as int);
    if i < head.len() {
        assert(CharClass::NotLineOrStatementEnd.has(before[head.len() - 1]));
    }
    if i > head.len() {
        assert(before[i - 1] == s[i - 1 - head.len()]);
    }
    assert(before.skip(i) =~= s);
}

proof fn lemma_parts_of_tail(receiver: Seq<char>, member: Seq<char>)
    requires
        receiver.len() > 0,
        forall|k: int| 0 <= k < receiver.len() ==> is_inner(#[trigger] receiver[k]),
        member.len() > 0,
        forall|k: int| 0 <= k < member.len() ==> is_word(#[trigger] member[k]),
    ensures
        ({
            let s = receiver + seq!['.'] + member;
            &&& trim(s) == s
            &&& last_index_of(s, '.') == Some(receiver.len() as int)
            &&& trim(s.take(receiver.len() as int)) == receiver
            &&& trim(s.skip(receiver.len() as int + 1)) == member
        }),
{
    let s = receiver + seq!['.'] + member;
    let at = receiver.len() as int;
    assert(is_inner(receiver[0]) && is_inner(receiver[at - 1]));
    assert(is_word(member[0]) && is_word(member[member.len() - 1]));
    assert(s[0] == receiver[0] && s.last() == member[member.len() - 1]);
    lemma_trim_keeps(s);
    lemma_last_index_before(s, '.', s.len() as int);
    assert(s[at] == '.');
    let dot = last_index_of(s, '.')->0;
    if dot > at {
        assert(s[dot] == member[dot - at - 1]);
        assert(is_word(member[dot - at - 1]));
    }
    assert(s.take(at) =~= receiver);
    assert(s.skip(at + 1) =~= member);
    lemma_trim_keeps(receiver);
    lemma_trim_keeps(member);
}

/// A simple receiver, a dot and a word at the end of a statement are a member access.
pub proof fn lemma_dotted_tails(head: Seq<char>, receiver: Seq<char>, member: Seq<char>)
    requires
        head.len() == 0 || head.last() == ';' || head.last() == '{' || head.last() == '}'
            || head.last() == '\n',
        receiver.len() > 0,
        forall|k: int|
            0 <= k < receiver.len() ==> CharClass::Receiver.has(#[trigger] receiver[k]),
        member.len() > 0,
        forall|k: int| 0 <= k < member.len() ==> is_word(#[trigger] member[k]),
        find(head + (receiver + seq!['.'] + member), SENTINEL@) is None,
    ensures
        dotted_tail(head + (receiver + seq!['.'] + member)),
{
    let s = receiver + seq!['.'] + member;
    let before = head + s;
    assert(unmarked(before) == before);
    assert forall|k: int| 0 <= k < receiver.len() implies is_inner(#[trigger] receiver[k]) by {
        assert(CharClass::Receiver.has(receiver[k]));
    }
    assert forall|k: int| 0 <= k < s.len() implies is_inner(#[trigger] s[k]) by {
        if k < receiver.len() {
            assert(s[k] == receiver[k]);
        } else if k > receiver.len() {
            assert(s[k] == member[k - receiver.len() - 1]);
            assert(is_word(member[k - receiver.len() - 1]));
        }
    }
    lemma_statement_tail(head, s);
    lemma_parts_of_tail(receiver, member);
    assert(all_of(member, CharClass::Word));
    assert(all_of(receiver, CharClass::Receiver));
}

// ---- the marker goes ---------------------------------------------------------------------------

/// The text without the marker.
pub open spec fn is_free(s: Seq<char>) -> bool {
    find(s, SENTINEL@) is None
}

pub open spec fn is_free_option(s: Option<Seq<char>>) -> bool {
    s matches Some(t) ==> is_free(t)
}

/// No text of the location holds the marker.
pub open spec fn is_free_location(loc: LocationView) -> bool {
    match loc {
        LocationView::MemberAccess { member_prefix, receiver_expr, arguments, .. } => is_free(
            member_prefix,
        ) && is_free(receiver_expr) && is_free_option(arguments),
        LocationView::StaticAccess { member_prefix, .. } => is_free(member_prefix),
        LocationView::ConstructorCall { class_prefix, expected_type, qualifier_expr, .. } =>
            is_free(class_prefix) && is_free_option(expected_type) && is_free_option(
                qualifier_expr,
            ),
        LocationView::Expression { prefix } => is_free(prefix),
        LocationView::MethodArgument { prefix } => is_free(prefix),
        LocationView::TypeAnnotation { prefix } => is_free(prefix),
        LocationView::VariableName { type_text } => is_free(type_text),
        LocationView::StringLiteral { prefix } => is_free(prefix),
        LocationView::StatementLabel { prefix, .. } => is_free(prefix),
        LocationView::Annotation { prefix, .. } => is_free(prefix),
        LocationView::Import { prefix } => is_free(prefix),
        LocationView::ImportStatic { prefix } => is_free(prefix),
        LocationView::MethodReference { qualifier_expr, member_prefix, .. } => is_free(
            qualifier_expr,
        ) && is_free(member_prefix),
        LocationView::Unknown => true,
    }
}

/// A location without the marker in its texts stays as it is.
pub proof fn lemma_free_locations_stay(loc: LocationView)
    requires
        is_free_location(loc),
    ensures
        unmarked_location(loc) == loc,
{
}

/// Taking the marker out changes the texts of a location and nothing else.
pub proof fn lemma_members_are_unmarked(
    before: Seq<char>,
    receiver: Seq<char>,
    arguments: Option<Seq<char>>,
)
    requires
        is_free(receiver),
        is_free_option(arguments),
    ensures
        unmarked_location(
            LocationView::MemberAccess {
                receiver_semantic_type: None,
                receiver_type: None,
                member_prefix: before,
                receiver_expr: receiver,
                arguments,
            },
        ) == (LocationView::MemberAccess {
            receiver_semantic_type: None,
            receiver_type: None,
            member_prefix: unmarked(before),
            receiver_expr: receiver,
            arguments,
        }),
        unmarked_location(LocationView::Expression { prefix: before })
            == (LocationView::Expression { prefix: unmarked(before) }),
        unmarked_location(LocationView::MethodArgument { prefix: before })
            == (LocationView::MethodArgument { prefix: unmarked(before) }),
        unmarked_location(LocationView::TypeAnnotation { prefix: before })
            == (LocationView::TypeAnnotation { prefix: unmarked(before) }),
{
}

} // verus!
