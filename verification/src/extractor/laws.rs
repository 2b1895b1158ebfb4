//! The words and the marker that texts are read by.
use vstd::prelude::*;

use crate::extractor::{generic_base, is_keyword, JavaContextExtractor};
use crate::syntax::laws::spans::lemma_node_at_place;
use crate::text::laws::lemma_index_from;
use crate::text::{index_of, trim};

verus! {

/// The reserved words of the language, all of them and no others.
pub proof fn lemma_keywords(s: Seq<char>)
    ensures
        is_keyword(s) <==> {
            ||| s == "abstract"@
            ||| s == "assert"@
            ||| s == "boolean"@
            ||| s == "break"@
            ||| s == "byte"@
            ||| s == "case"@
            ||| s == "catch"@
            ||| s == "char"@
            ||| s == "class"@
            ||| s == "const"@
            ||| s == "continue"@
            ||| s == "default"@
            ||| s == "do"@
            ||| s == "double"@
            ||| s == "else"@
            ||| s == "enum"@
            ||| s == "extends"@
            ||| s == "final"@
            ||| s == "finally"@
            ||| s == "float"@
            ||| s == "for"@
            ||| s == "goto"@
            ||| s == "if"@
            ||| s == "implements"@
            ||| s == "import"@
            ||| s == "instanceof"@
            ||| s == "int"@
            ||| s == "interface"@
            ||| s == "long"@
            ||| s == "native"@
            ||| s == "new"@
            ||| s == "package"@
            ||| s == "private"@
            ||| s == "protected"@
            ||| s == "public"@
            ||| s == "return"@
            ||| s == "short"@
            ||| s == "static"@
            ||| s == "strictfp"@
            ||| s == "super"@
            ||| s == "switch"@
            ||| s == "synchronized"@
            ||| s == "this"@
            ||| s == "throw"@
            ||| s == "throws"@
            ||| s == "transient"@
            ||| s == "try"@
            ||| s == "void"@
            ||| s == "volatile"@
            ||| s == "while"@
        },
{
}

/// What stands before the type arguments of a type, without white space around.
pub proof fn lemma_generic_bases(base: Seq<char>, args: Seq<char>)
    requires
        !base.contains('<'),
        args.len() == 0 || args[0] == '<',
    ensures
        generic_base(base + args) == trim(base),
{
    let s = base + args;
    lemma_index_from(s, '<', 0);
    match index_of(s, '<') {
        Some(i) => {
            if i < base.len() {
                assert(base.contains(s[i]));
            }
            if args.len() > 0 {
                assert(s[base.len() as int] == '<');
            }
            assert(s.take(i) =~= base);
        },
        None => {
            if args.len() > 0 {
                assert(s[base.len() as int] == '<');
            }
            assert(s =~= base);
        },
    }
}

/// The text of a node is the source from where it begins to where it ends; up to the cursor, it
/// ends there at the latest.
pub proof fn lemma_texts(ctx: JavaContextExtractor, n: usize)
    requires
        ctx.wf(),
        ctx.tree.has(n),
    ensures
        ctx.text_of(n) == ctx.source@.subrange(ctx.tree.start_of(n), ctx.tree.end_of(n)),
        ctx.tree.end_of(n) <= ctx.offset ==> ctx.text_to_cursor(n) == ctx.text_of(n),
        ctx.tree.start_of(n) <= ctx.offset <= ctx.tree.end_of(n) ==> ctx.text_to_cursor(n)
            == ctx.source@.subrange(ctx.tree.start_of(n), ctx.offset as int),
        ctx.offset < ctx.tree.start_of(n) ==> ctx.text_to_cursor(n).len() == 0,
        ctx.before() == ctx.source@.take(ctx.offset as int),
{
    assert(ctx.tree.nodes@[n as int].start <= ctx.tree.nodes@[n as int].end <= ctx.source@.len());
    assert(ctx.before() =~= ctx.source@.take(ctx.offset as int));
}

/// The node at the cursor holds the character before the cursor, and is named unless it is the root;
/// at the beginning of the text it holds the beginning.
pub proof fn lemma_cursor_node(ctx: JavaContextExtractor)
    requires
        ctx.tree.nodes@.len() > 0,
        ctx.tree.start_of(0) == 0,
        ctx.offset <= ctx.tree.end_of(0),
    ensures
        ctx.cursor_node() matches Some(n) && ctx.tree.start_of(n) <= ctx.offset <= ctx.tree.end_of(n)
            && (ctx.offset > 0 ==> ctx.tree.start_of(n) < ctx.offset) && (ctx.tree.node(n).named || n
            == 0),
{
    let from = if ctx.offset > 0 {
        ctx.offset - 1
    } else {
        0
    };
    lemma_node_at_place(ctx.tree, from, ctx.offset as int);
}

} // verus!
