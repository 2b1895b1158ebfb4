//! The text under analysis, its syntax tree and the cursor, with what the analyses share.
use vstd::prelude::*;
use vstd::slice::slice_subrange;

use crate::syntax::{KindClass, NodeId, SyntaxTree};
use crate::text::{append, find, find_text, index_of, spells, trim, trimmed};

pub mod laws;

verus! {

/// The identifier that marks the cursor in a text that is parsed again.
pub const SENTINEL: &'static str = "__KIRO__";

/// A Java text, its syntax tree, and a cursor in it, which is counted in characters.
#[derive(Debug)]
pub struct JavaContextExtractor {
    pub source: Vec<char>,
    pub offset: usize,
    pub tree: SyntaxTree,
}

impl JavaContextExtractor {
    pub open spec fn len(&self) -> int {
        self.source@.len() as int
    }

    /// The cursor and every node lie inside the text, and the tree is linked.
    pub open spec fn wf(&self) -> bool {
        &&& self.offset <= self.source@.len()
        &&& self.tree.linked()
        &&& self.tree.spans(self.source@.len() as int)
    }

    /// The text between two positions, empty where they are out of order or out of range.
    pub open spec fn piece(&self, from: int, to: int) -> Seq<char> {
        if 0 <= from <= to <= self.source@.len() {
            self.source@.subrange(from, to)
        } else {
            Seq::empty()
        }
    }

    /// The text of a node.
    pub open spec fn text_of(&self, n: NodeId) -> Seq<char> {
        self.piece(self.tree.start_of(n), self.tree.end_of(n))
    }

    /// The text before the cursor.
    pub open spec fn before(&self) -> Seq<char> {
        self.piece(0, self.offset as int)
    }

    /// The text of a node up to the cursor.
    pub open spec fn text_to_cursor(&self, n: NodeId) -> Seq<char> {
        self.piece(
            self.tree.start_of(n),
            if self.tree.end_of(n) < self.offset {
                self.tree.end_of(n)
            } else {
                self.offset as int
            },
        )
    }

    pub fn byte_slice(&self, from: usize, to: usize) -> (r: &[char])
        ensures
            r@ == self.piece(from as int, to as int),
    {
        if from <= to && to <= self.source.len() {
            slice_subrange(self.source.as_slice(), from, to)
        } else {
            slice_subrange(self.source.as_slice(), 0, 0)
        }
    }

    pub fn node_text(&self, n: NodeId) -> (r: &[char])
        requires
            self.tree.has(n),
        ensures
            r@ == self.text_of(n),
    {
        self.byte_slice(self.tree.start(n), self.tree.end(n))
    }

    pub fn text_before(&self) -> (r: &[char])
        ensures
            r@ == self.before(),
    {
        self.byte_slice(0, self.offset)
    }
}

impl JavaContextExtractor {
    /// The node at the cursor: the smallest named node that holds the character before it.
    pub open spec fn cursor_node(&self) -> Option<NodeId> {
        self.tree.named_node_at(
            if self.offset > 0 {
                self.offset - 1
            } else {
                0
            },
            self.offset as int,
        )
    }

    pub fn find_cursor_node(&self) -> (r: Option<NodeId>)
        requires
            self.wf(),
        ensures
            r == self.cursor_node(),
            r matches Some(n) ==> self.tree.has(n),
    {
        let from: usize = if self.offset > 0 {
            self.offset - 1
        } else {
            0
        };
        self.tree.named_descendant_for_range(from, self.offset)
    }
}

/// The text of a node up to the cursor.
pub fn cursor_truncated_text(ctx: &JavaContextExtractor, n: NodeId) -> (r: &[char])
    requires
        ctx.tree.has(n),
    ensures
        r@ == ctx.text_to_cursor(n),
{
    let end = ctx.tree.end(n);
    let cut: usize = if end < ctx.offset {
        end
    } else {
        ctx.offset
    };
    ctx.byte_slice(ctx.tree.start(n), cut)
}

// ---- the sentinel ------------------------------------------------------------------------------

/// The text with every occurrence of `pat` taken out, from left to right.
pub open spec fn without(s: Seq<char>, pat: Seq<char>) -> Seq<char>
    decreases s.len(),
{
    match find(s, pat) {
        Some(i) => if 0 <= i && 0 < pat.len() && i + pat.len() <= s.len() {
            s.take(i) + without(s.skip(i + pat.len()), pat)
        } else {
            s
        },
        None => s,
    }
}

/// The text without the sentinel.
pub open spec fn unmarked(s: Seq<char>) -> Seq<char> {
    without(s, SENTINEL@)
}

/// Takes the sentinel out of a text.
pub fn strip_sentinel(s: &[char]) -> (r: Vec<char>)
    ensures
        r@ == unmarked(s@),
{
    let mut out: Vec<char> = Vec::new();
    let mut rest: &[char] = s;
    proof {
        reveal_strlit("__KIRO__");
    }
    loop
        invariant
            SENTINEL@.len() == 8,
            unmarked(s@) == out@ + unmarked(rest@),
        decreases rest@.len(),
    {
        match find_text(rest, SENTINEL) {
            Some(i) => {
                append(&mut out, slice_subrange(rest, 0, i));
                let n: usize = rest.len();
                let next = slice_subrange(rest, i + 8, n);
                assert(rest@.skip(i + 8) =~= next@);
                assert(rest@.take(i as int) =~= rest@.subrange(0, i as int));
                rest = next;
            },
            None => {
                append(&mut out, rest);
                return out;
            },
        }
    }
}

// ---- keywords ----------------------------------------------------------------------------------

/// The reserved words of Java.
pub open spec fn is_keyword(s: Seq<char>) -> bool {
    ||| s == "abstract"@
    ||| s == "assert"@
    ||| s == "boolean"@
    ||| s == "break"@
    ||| s == "byte"@
    ||| s == "case"@
    ||| s == "catch"@
    ||| s == "char"@
    ||| s == "class"@
    ||| s == "const"@
    ||| s == "continue"@
    ||| s == "default"@
    ||| s == "do"@
    ||| s == "double"@
    ||| s == "else"@
    ||| s == "enum"@
    ||| s == "extends"@
    ||| s == "final"@
    ||| s == "finally"@
    ||| s == "float"@
    ||| s == "for"@
    ||| s == "goto"@
    ||| s == "if"@
    ||| s == "implements"@
    ||| s == "import"@
    ||| s == "instanceof"@
    ||| s == "int"@
    ||| s == "interface"@
    ||| s == "long"@
    ||| s == "native"@
    ||| s == "new"@
    ||| s == "package"@
    ||| s == "private"@
    ||| s == "protected"@
    ||| s == "public"@
    ||| s == "return"@
    ||| s == "short"@
    ||| s == "static"@
    ||| s == "strictfp"@
    ||| s == "super"@
    ||| s == "switch"@
    ||| s == "synchronized"@
    ||| s == "this"@
    ||| s == "throw"@
    ||| s == "throws"@
    ||| s == "transient"@
    ||| s == "try"@
    ||| s == "void"@
    ||| s == "volatile"@
    ||| s == "while"@
}

pub fn is_java_keyword(s: &[char]) -> (r: bool)
    ensures
        r == is_keyword(s@),
{
    spells(s, "abstract") || spells(s, "assert") || spells(s, "boolean") || spells(s, "break")
        || spells(s, "byte") || spells(s, "case") || spells(s, "catch") || spells(s, "char")
        || spells(s, "class") || spells(s, "const") || spells(s, "continue") || spells(s, "default")
        || spells(s, "do") || spells(s, "double") || spells(s, "else") || spells(s, "enum")
        || spells(s, "extends") || spells(s, "final") || spells(s, "finally") || spells(s, "float")
        || spells(s, "for") || spells(s, "goto") || spells(s, "if") || spells(s, "implements")
        || spells(s, "import") || spells(s, "instanceof") || spells(s, "int") || spells(
        s,
        "interface",
    ) || spells(s, "long") || spells(s, "native") || spells(s, "new") || spells(s, "package")
        || spells(s, "private") || spells(s, "protected") || spells(s, "public") || spells(
        s,
        "return",
    ) || spells(s, "short") || spells(s, "static") || spells(s, "strictfp") || spells(s, "super")
        || spells(s, "switch") || spells(s, "synchronized") || spells(s, "this") || spells(
        s,
        "throw",
    ) || spells(s, "throws") || spells(s, "transient") || spells(s, "try") || spells(s, "void")
        || spells(s, "volatile") || spells(s, "while")
}

// ---- small questions about nodes ---------------------------------------------------------------

/// The nearest string literal at or above `n`.
pub open spec fn string_ancestor(t: &SyntaxTree, n: NodeId) -> Option<NodeId> {
    if KindClass::StringLike.has(t.kind_of(n)) {
        Some(n)
    } else {
        t.ancestor_in(n, KindClass::StringLike)
    }
}

pub fn find_string_ancestor(t: &SyntaxTree, n: NodeId) -> (r: Option<NodeId>)
    requires
        t.has(n),
        t.linked(),
    ensures
        r == string_ancestor(t, n),
        r matches Some(a) ==> t.has(a),
{
    if t.is_in(n, KindClass::StringLike) {
        Some(n)
    } else {
        t.ancestor_of_class(n, KindClass::StringLike)
    }
}

/// Whether `id` is the type of the declaration: its first named child that is no modifier.
pub open spec fn type_position(t: &SyntaxTree, id: NodeId, decl: NodeId) -> bool {
    t.first_other(t.named_kids(decl), "modifiers"@) == Some(id)
}

pub fn is_in_type_position(t: &SyntaxTree, id: NodeId, decl: NodeId) -> (r: bool)
    requires
        t.has(decl),
        t.linked(),
    ensures
        r == type_position(t, id, decl),
{
    match t.first_not_of_kind(t.named_children(decl), "modifiers") {
        Some(k) => k == id,
        None => false,
    }
}

/// Whether `id` is the name of a declarator of the declaration, from place `i` on.
pub open spec fn name_position_from(
    t: &SyntaxTree,
    id: NodeId,
    kids: Seq<NodeId>,
    i: int,
) -> bool
    decreases kids.len() - i,
{
    if i < 0 || i >= kids.len() {
        false
    } else {
        ||| t.kind_of(kids[i]) == "variable_declarator"@ && t.field_of(kids[i], "name"@) == Some(id)
        ||| name_position_from(t, id, kids, i + 1)
    }
}

/// Whether `id` is the name of a declarator of the declaration.
pub open spec fn name_position(t: &SyntaxTree, id: NodeId, decl: NodeId) -> bool {
    name_position_from(t, id, t.named_kids(decl), 0)
}

pub fn is_in_name_position(t: &SyntaxTree, id: NodeId, decl: NodeId) -> (r: bool)
    requires
        t.has(decl),
        t.linked(),
    ensures
        r == name_position(t, id, decl),
{
    let kids = t.named_children(decl);
    let mut i: usize = 0;
    while i < kids.len()
        invariant
            i <= kids@.len(),
            kids@ == t.named_kids(decl),
            t.has(decl),
            t.linked(),
            name_position(t, id, decl) == name_position_from(t, id, kids@, i as int),
        decreases kids@.len() - i,
    {
        let k = kids[i];
        if t.is_kind(k, "variable_declarator") {
            if let Some(name) = t.child_by_field(k, "name") {
                if name == id {
                    return true;
                }
            }
        }
        i += 1;
    }
    false
}

/// The base of a generic type: what precedes its type arguments.
pub open spec fn generic_base(s: Seq<char>) -> Seq<char> {
    match index_of(s, '<') {
        Some(i) => trim(s.take(i)),
        None => trim(s),
    }
}

pub fn normalize_top_level_generic_base(s: &[char]) -> (r: &[char])
    ensures
        r@ == generic_base(s@),
{
    match crate::text::find_char(s, '<') {
        Some(i) => {
            let head = slice_subrange(s, 0, i);
            assert(head@ =~= s@.take(i as int));
            trimmed(head)
        },
        None => trimmed(s),
    }
}

} // verus!
