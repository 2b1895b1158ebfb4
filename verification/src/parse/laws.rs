//! How bytes and characters, and the reported nodes and the tree, belong together.
use vstd::prelude::*;

use crate::parse::{
    byte_len, kids_before, node_matches, parent_at, parent_before, position_from, position_of,
    records_of, tree_matches, tree_of, utf8_len, NodeRecord,
};
use crate::syntax::laws::{fits_together, no_orphans};
use crate::syntax::{NodeId, SyntaxTree};

verus! {

proof fn lemma_bytes_grow(s: Seq<char>, i: int, k: int)
    requires
        0 <= i <= k <= s.len(),
    ensures
        byte_len(s, i) + (k - i) <= byte_len(s, k),
    decreases k - i,
{
    if i < k {
        lemma_bytes_grow(s, i, k - 1);
    }
}

proof fn lemma_position_from(s: Seq<char>, k: int, i: int)
    requires
        0 <= i <= k <= s.len(),
    ensures
        position_from(s, byte_len(s, k), i) == k,
    decreases k - i,
{
    if i < k {
        lemma_bytes_grow(s, i, k);
        lemma_position_from(s, k, i + 1);
    }
}

/// The position that as many bytes stand before as the first characters take is right behind those
/// characters.
pub proof fn lemma_positions(s: Seq<char>, k: int)
    requires
        0 <= k <= s.len(),
    ensures
        position_of(s, byte_len(s, k)) == k,
{
    lemma_position_from(s, k, 0);
}

/// In ASCII, bytes and characters are the same.
pub proof fn lemma_ascii_positions(s: Seq<char>, k: int)
    requires
        0 <= k <= s.len(),
        forall|i: int| 0 <= i < s.len() ==> (#[trigger] s[i] as u32) < 128,
    ensures
        byte_len(s, k) == k,
        position_of(s, k) == k,
    decreases k,
{
    if k > 0 {
        lemma_ascii_positions(s, k - 1);
        assert((s[k - 1] as u32) < 128);
    }
    lemma_positions(s, k);
}

/// The parent of a node is the nearest node before it that is less deep.
pub proof fn lemma_parents(records: Seq<NodeRecord>, i: int, j: int)
    requires
        0 <= j <= i < records.len() <= usize::MAX,
    ensures
        match parent_before(records, i, j) {
            Some(p) => p < j && records[p as int].depth < records[i].depth && forall|q: int|
                p < q < j ==> (#[trigger] records[q]).depth >= records[i].depth,
            None => forall|q: int| 0 <= q < j ==> (#[trigger] records[q]).depth >= records[i].depth,
        },
    decreases j,
{
    if j > 0 && records[j - 1].depth >= records[i].depth {
        lemma_parents(records, i, j - 1);
    }
}

proof fn lemma_kids_before(records: Seq<NodeRecord>, n: NodeId, named: bool, j: int, k: NodeId)
    requires
        0 <= j <= records.len() <= usize::MAX,
    ensures
        kids_before(records, n, named, j).contains(k) <==> k < j && parent_at(records, k as int)
            == Some(n) && (!named || records[k as int].named),
        forall|a: int, b: int|
            0 <= a < b < kids_before(records, n, named, j).len() ==> kids_before(
                records,
                n,
                named,
                j,
            )[a] < kids_before(records, n, named, j)[b],
        forall|a: int|
            0 <= a < kids_before(records, n, named, j).len() ==> (#[trigger] kids_before(
                records,
                n,
                named,
                j,
            )[a]) < j,
    decreases j,
{
    if j > 0 {
        lemma_kids_before(records, n, named, j - 1, k);
        let shorter = kids_before(records, n, named, j - 1);
        let kids = kids_before(records, n, named, j);
        if parent_at(records, j - 1) == Some(n) && (!named || records[j - 1].named) {
            assert(kids == shorter.push((j - 1) as usize));
            if shorter.contains(k) {
                let at = choose|at: int| 0 <= at < shorter.len() && shorter[at] == k;
                assert(kids[at] == k);
            }
            if k == j - 1 {
                assert(kids[shorter.len() as int] == k);
            }
            if kids.contains(k) {
                let at = choose|at: int| 0 <= at < kids.len() && kids[at] == k;
                if at < shorter.len() {
                    assert(shorter[at] == k);
                }
            }
        }
    }
}

/// The children of a node are exactly the nodes that it is the parent of, in their order; the named
/// children are those of them that are named.
pub proof fn lemma_children(records: Seq<NodeRecord>, n: NodeId, named: bool, k: NodeId)
    requires
        records.len() <= usize::MAX,
    ensures
        ({
            let kids = kids_before(records, n, named, records.len() as int);
            &&& kids.contains(k) <==> k < records.len() && parent_at(records, k as int) == Some(n)
                && (!named || records[k as int].named)
            &&& forall|a: int, b: int| 0 <= a < b < kids.len() ==> kids[a] < kids[b]
        }),
{
    lemma_kids_before(records, n, named, records.len() as int, k);
}

/// In the tree of a text every child has its parent as its parent, and every node is a child of
/// its parent.
pub proof fn lemma_trees_fit_together(
    tree: SyntaxTree,
    records: Seq<NodeRecord>,
    source: Seq<char>,
)
    requires
        tree_matches(tree, records, source),
        records.len() <= usize::MAX,
    ensures
        fits_together(tree),
        no_orphans(tree),
{
    assert forall|n: NodeId, i: int|
        tree.has(n) && 0 <= i < tree.kids(n).len() implies tree.parent_of(
        #[trigger] tree.kids(n)[i],
    ) == Some(n) by {
        assert(node_matches(tree.nodes@[n as int], records, source, n as int));
        let k = tree.kids(n)[i];
        lemma_children(records, n, false, k);
        assert(tree.kids(n).contains(k));
        assert(node_matches(tree.nodes@[k as int], records, source, k as int));
    }
    assert forall|m: NodeId|
        #![trigger tree.parent_of(m)]
        tree.has(m) implies (tree.parent_of(m) matches Some(p) ==> tree.kids(p).contains(m)) by {
        assert(node_matches(tree.nodes@[m as int], records, source, m as int));
        if let Some(p) = tree.parent_of(m) {
            lemma_parents(records, m as int, m as int);
            assert(node_matches(tree.nodes@[p as int], records, source, p as int));
            lemma_children(records, p, false, m);
        }
    }
}

/// A character takes one byte in ASCII, two up to U+07FF, three up to U+FFFF and four above.
pub proof fn lemma_bytes_of_character(c: char)
    ensures
        (c as u32) <= 0x7f ==> utf8_len(c) == 1,
        0x7f < (c as u32) <= 0x7ff ==> utf8_len(c) == 2,
        0x7ff < (c as u32) <= 0xffff ==> utf8_len(c) == 3,
        0xffff < (c as u32) ==> utf8_len(c) == 4,
{
}

/// The bytes of a text are those of its characters.
pub proof fn lemma_bytes_of_text(s: Seq<char>, c: char)
    ensures
        byte_len(s.push(c), s.len() as int + 1) == byte_len(s, s.len() as int) + utf8_len(c),
        byte_len(s, 0) == 0,
{
    lemma_bytes_of_beginning(s, c, s.len() as int);
}

proof fn lemma_bytes_of_beginning(s: Seq<char>, c: char, k: int)
    requires
        0 <= k <= s.len(),
    ensures
        byte_len(s.push(c), k) == byte_len(s, k),
    decreases k,
{
    if k > 0 {
        lemma_bytes_of_beginning(s, c, k - 1);
    }
}

/// A node of the tree is what the parser reported: its kind, its bytes, its field and what else is
/// told of it.
pub proof fn lemma_nodes_as_reported(
    tree: SyntaxTree,
    records: Seq<NodeRecord>,
    source: Seq<char>,
    i: int,
)
    requires
        tree_matches(tree, records, source),
        0 <= i < records.len(),
    ensures
        tree.nodes@.len() == records.len(),
        tree.nodes@[i].kind@ == records[i].kind,
        tree.nodes@[i].start_byte == records[i].start_byte,
        tree.nodes@[i].end_byte == records[i].end_byte,
        tree.nodes@[i].named == records[i].named,
        tree.nodes@[i].extra == records[i].extra,
        tree.nodes@[i].missing == records[i].missing,
        tree.nodes@[i].field is Some <==> records[i].field is Some,
        records[i].field matches Some(f) ==> (tree.nodes@[i].field matches Some(g) && g@ == f),
{
    assert(node_matches(tree.nodes@[i], records, source, i));
}

/// A node that the parser reported over whole characters starts and ends at them.
pub proof fn lemma_nodes_at_their_characters(
    tree: SyntaxTree,
    records: Seq<NodeRecord>,
    source: Seq<char>,
    i: int,
    a: int,
    b: int,
)
    requires
        tree_matches(tree, records, source),
        0 <= i < records.len(),
        0 <= a <= b <= source.len(),
        records[i].start_byte == byte_len(source, a),
        records[i].end_byte == byte_len(source, b),
    ensures
        tree.nodes@[i].start == a,
        tree.nodes@[i].end == b,
{
    assert(node_matches(tree.nodes@[i], records, source, i));
    lemma_positions(source, a);
    lemma_positions(source, b);
    lemma_bytes_grow(source, a, b);
}

/// The nodes that are told of a text are those of its tree.
pub proof fn lemma_told_nodes(tree: SyntaxTree, source: Seq<char>, i: int)
    requires
        tree_matches(tree, records_of(source), source),
        0 <= i < tree.nodes@.len(),
    ensures
        tree_of(source).len() == tree.nodes@.len(),
        tree_of(source)[i].kind == tree.nodes@[i].kind@,
        tree_of(source)[i].start == tree.nodes@[i].start,
        tree_of(source)[i].end == tree.nodes@[i].end,
        tree_of(source)[i].start_byte == tree.nodes@[i].start_byte,
        tree_of(source)[i].end_byte == tree.nodes@[i].end_byte,
        tree_of(source)[i].named == tree.nodes@[i].named,
        tree_of(source)[i].extra == tree.nodes@[i].extra,
        tree_of(source)[i].missing == tree.nodes@[i].missing,
        tree_of(source)[i].parent == tree.nodes@[i].parent,
        tree_of(source)[i].kids == tree.nodes@[i].children@,
        tree_of(source)[i].named_kids == tree.nodes@[i].named_children@,
{
    assert(node_matches(tree.nodes@[i], records_of(source), source, i));
}

} // verus!
