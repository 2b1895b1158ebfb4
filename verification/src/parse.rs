//! From Java text to a syntax tree, through the tree-sitter parser.
use vstd::prelude::*;

use crate::extractor::JavaContextExtractor;
use crate::syntax::{NodeId, NodeView, SyntaxNode, SyntaxTree};
use crate::text::to_chars;

pub mod laws;

verus! {

/// The tree that `tree_sitter::Parser::parse` returns.
#[verifier::external_type_specification]
#[verifier::external_body]
pub struct ExTree(tree_sitter::Tree);

/// One node as the parser reports it. Spans are counted in bytes.
pub struct RawNode {
    pub kind: String,
    pub start_byte: usize,
    pub end_byte: usize,
    pub depth: u32,
    pub named: bool,
    pub extra: bool,
    pub missing: bool,
    pub field: Option<String>,
}

/// A reported node with its texts as character sequences.
pub struct NodeRecord {
    pub kind: Seq<char>,
    pub start_byte: usize,
    pub end_byte: usize,
    pub depth: u32,
    pub named: bool,
    pub extra: bool,
    pub missing: bool,
    pub field: Option<Seq<char>>,
}

impl DeepView for RawNode {
    type V = NodeRecord;

    open spec fn deep_view(&self) -> NodeRecord {
        NodeRecord {
            kind: self.kind@,
            start_byte: self.start_byte,
            end_byte: self.end_byte,
            depth: self.depth,
            named: self.named,
            extra: self.extra,
            missing: self.missing,
            field: self.field.deep_view(),
        }
    }
}

/// The nodes of a tree in the order in which a cursor that starts at the root numbers them:
/// every node before its children, children from left to right.
pub uninterp spec fn tree_nodes(tree: tree_sitter::Tree) -> Seq<NodeRecord>;

/// The nodes of the tree that the Java grammar gives for a text, if it gives one.
pub uninterp spec fn java_nodes(source: Seq<char>) -> Option<Seq<NodeRecord>>;

/// `tree_sitter::Parser::parse` with the language `tree_sitter_java::LANGUAGE` and no old tree.
///
/// The tree depends on the text alone: no timeout and no cancellation is set. There is none if the
/// grammar's version does not fit the parser.
#[verifier::external_body]
fn parse_java(source: &str) -> (r: Option<tree_sitter::Tree>)
    ensures
        match r {
            Some(tree) => java_nodes(source@) == Some(tree_nodes(tree)),
            None => java_nodes(source@) is None,
        },
{
    let mut parser = tree_sitter::Parser::new();
    parser.set_language(&tree_sitter_java::LANGUAGE.into()).ok()?;
    parser.parse(source, None)
}

/// `tree_sitter::Node::descendant_count` of the root: how many nodes the tree has.
#[verifier::external_body]
fn node_count(tree: &tree_sitter::Tree) -> (r: usize)
    ensures
        r == tree_nodes(*tree).len(),
{
    tree.root_node().descendant_count()
}

/// `tree_sitter::TreeCursor::goto_descendant` from the root: the node of the given number, with
/// its kind, span, depth, flags and field name.
#[verifier::external_body]
fn read_node(tree: &tree_sitter::Tree, i: usize) -> (r: RawNode)
    requires
        i < tree_nodes(*tree).len(),
    ensures
        r.deep_view() == tree_nodes(*tree)[i as int],
{
    let mut c = tree.walk();
    c.goto_descendant(i);
    let n = c.node();
    RawNode {
        kind: n.kind().to_string(),
        start_byte: n.start_byte(),
        end_byte: n.end_byte(),
        depth: c.depth(),
        named: n.is_named(),
        extra: n.is_extra(),
        missing: n.is_missing(),
        field: c.field_name().map(str::to_string),
    }
}

/// The nodes of the tree of a Java text; none where there is no tree.
pub open spec fn records_of(source: Seq<char>) -> Seq<NodeRecord> {
    match java_nodes(source) {
        Some(nodes) => nodes,
        None => Seq::empty(),
    }
}

fn read_nodes(source: &str) -> (r: Vec<RawNode>)
    ensures
        r.deep_view() == records_of(source@),
{
    let mut out: Vec<RawNode> = Vec::new();
    match parse_java(source) {
        Some(tree) => {
            let n: usize = node_count(&tree);
            let mut i: usize = 0;
            while i < n
                invariant
                    i <= n,
                    n == tree_nodes(tree).len(),
                    out.deep_view() == tree_nodes(tree).take(i as int),
                decreases n - i,
            {
                let ghost before = out.deep_view();
                out.push(read_node(&tree, i));
                assert(out.deep_view() =~= before.push(tree_nodes(tree)[i as int]));
                assert(tree_nodes(tree).take(i + 1) =~= tree_nodes(tree).take(i as int).push(
                    tree_nodes(tree)[i as int],
                ));
                i += 1;
            }
            assert(tree_nodes(tree).take(n as int) =~= tree_nodes(tree));
        },
        None => {
            assert(out.deep_view() =~= Seq::<NodeRecord>::empty());
        },
    }
    out
}

// ---- bytes and characters ----------------------------------------------------------------------

/// How many bytes the character takes in UTF-8.
pub open spec fn utf8_len(c: char) -> int {
    if (c as u32) < 0x80 {
        1
    } else if (c as u32) < 0x800 {
        2
    } else if (c as u32) < 0x10000 {
        3
    } else {
        4
    }
}

pub(crate) fn byte_count(c: char) -> (r: usize)
    ensures
        r == utf8_len(c),
{
    let u: u32 = c as u32;
    if u < 0x80 {
        1
    } else if u < 0x800 {
        2
    } else if u < 0x10000 {
        3
    } else {
        4
    }
}

/// How many bytes the first `k` characters take.
pub open spec fn byte_len(s: Seq<char>, k: int) -> int
    decreases k,
{
    if k <= 0 || k > s.len() {
        0
    } else {
        byte_len(s, k - 1) + utf8_len(s[k - 1])
    }
}

/// The first position from `i` on with at least `byte` bytes before it, or the end of the text.
pub open spec fn position_from(s: Seq<char>, byte: int, i: int) -> int
    decreases s.len() - i,
{
    if i < 0 || i >= s.len() || byte_len(s, i) >= byte {
        i
    } else {
        position_from(s, byte, i + 1)
    }
}

/// The position, counted in characters, of a position counted in bytes.
pub open spec fn position_of(s: Seq<char>, byte: int) -> int {
    position_from(s, byte, 0)
}

proof fn lemma_byte_len_grows(s: Seq<char>, i: int, j: int)
    requires
        0 <= i <= j <= s.len(),
    ensures
        byte_len(s, i) <= byte_len(s, j),
        i < j ==> byte_len(s, i) < byte_len(s, j),
    decreases j - i,
{
    if i < j {
        lemma_byte_len_grows(s, i, j - 1);
    }
}

/// A byte of the character before `k` has the position `k`.
proof fn lemma_position(s: Seq<char>, byte: int, i: int, k: int)
    requires
        0 <= i <= k <= s.len(),
        byte <= byte_len(s, k),
        k > 0 ==> byte_len(s, k - 1) < byte,
    ensures
        position_from(s, byte, i) == k,
    decreases k - i,
{
    if i < k {
        lemma_byte_len_grows(s, i, k - 1);
        lemma_position(s, byte, i + 1, k);
    }
}

/// Beyond the text, the position is its end.
proof fn lemma_position_beyond(s: Seq<char>, byte: int, i: int)
    requires
        0 <= i <= s.len(),
        byte_len(s, s.len() as int) < byte,
    ensures
        position_from(s, byte, i) == s.len(),
    decreases s.len() - i,
{
    if i < s.len() {
        lemma_byte_len_grows(s, i, s.len() as int);
        lemma_position_beyond(s, byte, i + 1);
    }
}

/// Positions grow with bytes, and stay inside the text.
proof fn lemma_position_grows(s: Seq<char>, a: int, b: int, i: int)
    requires
        0 <= i <= s.len(),
        a <= b,
    ensures
        i <= position_from(s, a, i) <= position_from(s, b, i) <= s.len(),
    decreases s.len() - i,
{
    if i < s.len() {
        lemma_position_grows(s, a, b, i + 1);
    }
}

/// The position of every byte of the text, and of its end.
fn position_table(s: &Vec<char>) -> (r: Vec<usize>)
    ensures
        r@.len() == byte_len(s@, s@.len() as int) + 1,
        forall|b: int| 0 <= b < r@.len() ==> #[trigger] r@[b] == position_of(s@, b),
{
    let mut out: Vec<usize> = Vec::new();
    out.push(0);
    let size: usize = s.len();
    let mut k: usize = 0;
    while k < size
        invariant
            k <= size,
            size == s@.len(),
            out@.len() == byte_len(s@, k as int) + 1,
            forall|b: int| 0 <= b < out@.len() ==> #[trigger] out@[b] == position_of(s@, b),
        decreases s@.len() - k,
    {
        let n: usize = byte_count(s[k]);
        let mut j: usize = 0;
        while j < n
            invariant
                j <= n,
                k < size,
                size == s@.len(),
                n == utf8_len(s@[k as int]),
                out@.len() == byte_len(s@, k as int) + 1 + j,
                forall|b: int| 0 <= b < out@.len() ==> #[trigger] out@[b] == position_of(s@, b),
            decreases n - j,
        {
            proof {
                lemma_position(s@, out@.len() as int, 0, k + 1);
            }
            out.push(k + 1);
            j += 1;
        }
        k += 1;
    }
    out
}

fn look_up(table: &Vec<usize>, s: &Vec<char>, byte: usize) -> (r: usize)
    requires
        table@.len() == byte_len(s@, s@.len() as int) + 1,
        forall|b: int| 0 <= b < table@.len() ==> #[trigger] table@[b] == position_of(s@, b),
    ensures
        r == position_of(s@, byte as int),
        r <= s@.len(),
{
    proof {
        lemma_position_grows(s@, byte as int, byte as int, 0);
    }
    if byte < table.len() {
        table[byte]
    } else {
        proof {
            lemma_position_beyond(s@, byte as int, 0);
        }
        s.len()
    }
}

// ---- parents and children ----------------------------------------------------------------------

/// The last node before place `j` that is less deep than node `i`.
pub open spec fn parent_before(records: Seq<NodeRecord>, i: int, j: int) -> Option<NodeId>
    decreases j,
{
    if j <= 0 || j > records.len() {
        None
    } else if records[j - 1].depth < records[i].depth {
        Some((j - 1) as usize)
    } else {
        parent_before(records, i, j - 1)
    }
}

/// The parent of node `i`: the last node before it that is less deep.
pub open spec fn parent_at(records: Seq<NodeRecord>, i: int) -> Option<NodeId> {
    parent_before(records, i, i)
}

/// The children of node `n` among the nodes before place `j`, all of them or the named ones.
pub open spec fn kids_before(records: Seq<NodeRecord>, n: NodeId, named: bool, j: int) -> Seq<NodeId>
    decreases j,
{
    if j <= 0 || j > records.len() {
        Seq::empty()
    } else if parent_at(records, j - 1) == Some(n) && (!named || records[j - 1].named) {
        kids_before(records, n, named, j - 1).push((j - 1) as usize)
    } else {
        kids_before(records, n, named, j - 1)
    }
}

/// Whether a node of the tree is what the parser reported of it.
pub open spec fn node_matches(
    node: SyntaxNode,
    records: Seq<NodeRecord>,
    source: Seq<char>,
    i: int,
) -> bool {
    let record = records[i];
    &&& node.kind@ == record.kind
    &&& node.start == position_of(source, record.start_byte as int)
    &&& node.end == if record.start_byte <= record.end_byte {
        position_of(source, record.end_byte as int)
    } else {
        position_of(source, record.start_byte as int)
    }
    &&& node.start_byte == record.start_byte
    &&& node.end_byte == record.end_byte
    &&& node.named == record.named
    &&& node.extra == record.extra
    &&& node.missing == record.missing
    &&& node.field.deep_view() == record.field
    &&& node.parent == parent_at(records, i)
    &&& node.children@ == kids_before(records, i as usize, false, records.len() as int)
    &&& node.named_children@ == kids_before(records, i as usize, true, records.len() as int)
}

/// Whether a tree is what the parser reported for a text.
pub open spec fn tree_matches(
    tree: SyntaxTree,
    records: Seq<NodeRecord>,
    source: Seq<char>,
) -> bool {
    &&& tree.nodes@.len() == records.len()
    &&& forall|i: int|
        0 <= i < records.len() ==> node_matches(#[trigger] tree.nodes@[i], records, source, i)
}

/// A node of the tree of a text.
pub open spec fn node_view(records: Seq<NodeRecord>, source: Seq<char>, i: int) -> NodeView {
    let record = records[i];
    NodeView {
        kind: record.kind,
        start: position_of(source, record.start_byte as int) as usize,
        end: if record.start_byte <= record.end_byte {
            position_of(source, record.end_byte as int) as usize
        } else {
            position_of(source, record.start_byte as int) as usize
        },
        start_byte: record.start_byte,
        end_byte: record.end_byte,
        named: record.named,
        extra: record.extra,
        missing: record.missing,
        field: record.field,
        parent: parent_at(records, i),
        kids: kids_before(records, i as usize, false, records.len() as int),
        named_kids: kids_before(records, i as usize, true, records.len() as int),
    }
}

/// The nodes of the tree of a text.
pub open spec fn tree_of(source: Seq<char>) -> Seq<NodeView> {
    Seq::new(records_of(source).len(), |i: int| node_view(records_of(source), source, i))
}

/// What a parsed context holds depends on the text alone.
pub proof fn lemma_parsed_tree(ctx: JavaContextExtractor, source: Seq<char>, position: int)
    requires
        parsed(ctx, source, position),
    ensures
        ctx.tree.deep_view() == tree_of(source),
{
    let records = records_of(source);
    assert forall|i: int| 0 <= i < records.len() implies ctx.tree.deep_view()[i] == tree_of(
        source,
    )[i] by {
        assert(node_matches(ctx.tree.nodes@[i], records, source, i));
    }
    assert(ctx.tree.deep_view() =~= tree_of(source));
}

proof fn lemma_parent_before(records: Seq<NodeRecord>, i: int, j: int)
    requires
        0 <= j <= i < records.len(),
        records.len() <= usize::MAX,
    ensures
        parent_before(records, i, j) matches Some(p) ==> p < j,
    decreases j,
{
    if j > 0 && records[j - 1].depth >= records[i].depth {
        lemma_parent_before(records, i, j - 1);
    }
}

/// The nodes between a node and its parent are no candidates for the parent of a node that is no
/// deeper.
proof fn lemma_skip_to_parent(records: Seq<NodeRecord>, i: int, j: int, k: int)
    requires
        0 <= k <= j < i < records.len(),
        records.len() <= usize::MAX,
        records[j].depth >= records[i].depth,
    ensures
        parent_before(records, i, k) == match parent_before(records, j, k) {
            Some(p) => parent_before(records, i, p + 1),
            None => None,
        },
    decreases k,
{
    if k > 0 && records[k - 1].depth >= records[j].depth {
        lemma_skip_to_parent(records, i, j, k - 1);
    }
}

fn find_parents(raw: &Vec<RawNode>) -> (r: Vec<Option<NodeId>>)
    ensures
        r@.len() == raw@.len(),
        forall|i: int| 0 <= i < raw@.len() ==> #[trigger] r@[i] == parent_at(raw.deep_view(), i),
{
    let ghost records = raw.deep_view();
    let size: usize = raw.len();
    let mut out: Vec<Option<NodeId>> = Vec::new();
    let mut i: usize = 0;
    while i < size
        invariant
            i <= size,
            size == raw@.len(),
            records == raw.deep_view(),
            out@.len() == i,
            forall|k: int| 0 <= k < i ==> #[trigger] out@[k] == parent_at(records, k),
        decreases size - i,
    {
        let mut cur: usize = i;
        let mut found: Option<NodeId> = None;
        while cur > 0 && found.is_none()
            invariant
                cur <= i < size,
                size == raw@.len(),
                records == raw.deep_view(),
                out@.len() == i,
                forall|k: int| 0 <= k < i ==> #[trigger] out@[k] == parent_at(records, k),
                found is None ==> parent_at(records, i as int) == parent_before(
                    records,
                    i as int,
                    cur as int,
                ),
                found is Some ==> parent_at(records, i as int) == found,
            decreases
                cur,
                (if found is None {
                    1int
                } else {
                    0int
                }),
        {
            let j: usize = cur - 1;
            assert(records[j as int].depth == raw@[j as int].depth);
            assert(records[i as int].depth == raw@[i as int].depth);
            if raw[j].depth < raw[i].depth {
                found = Some(j);
            } else {
                proof {
                    lemma_skip_to_parent(records, i as int, j as int, j as int);
                    lemma_parent_before(records, j as int, j as int);
                }
                match out[j] {
                    Some(p) => {
                        cur = p + 1;
                    },
                    None => {
                        cur = 0;
                    },
                }
            }
        }
        out.push(found);
        i += 1;
    }
    out
}

/// The named children are the children that are named.
proof fn lemma_named_kids(
    records: Seq<NodeRecord>,
    n: NodeId,
    j: int,
    named: spec_fn(NodeId) -> bool,
)
    requires
        0 <= j <= records.len() <= usize::MAX,
        forall|k: NodeId| k < records.len() ==> #[trigger] named(k) == records[k as int].named,
    ensures
        kids_before(records, n, true, j) == kids_before(records, n, false, j).filter(named),
    decreases j,
{
    reveal(Seq::filter);
    if j > 0 {
        lemma_named_kids(records, n, j - 1, named);
        if parent_at(records, j - 1) == Some(n) {
            let k = (j - 1) as usize;
            let all = kids_before(records, n, false, j - 1);
            assert(all.push(k).drop_last() =~= all);
            assert(named(k) == records[j - 1].named);
        }
    }
}

/// Children come after their parent.
proof fn lemma_kids_in_order(records: Seq<NodeRecord>, n: NodeId, named: bool, j: int)
    requires
        0 <= j <= records.len() <= usize::MAX,
    ensures
        forall|k: int|
            0 <= k < kids_before(records, n, named, j).len() ==> n < (
            #[trigger] kids_before(records, n, named, j)[k]) < j,
    decreases j,
{
    if j > 0 {
        lemma_kids_in_order(records, n, named, j - 1);
        lemma_parent_before(records, j - 1, j - 1);
        let shorter = kids_before(records, n, named, j - 1);
        let kids = kids_before(records, n, named, j);
        assert forall|k: int| 0 <= k < kids.len() implies n < (#[trigger] kids[k]) < j by {
            if k < shorter.len() {
                assert(kids[k] == shorter[k]);
            }
        }
    }
}

/// Lists the children of every node.
fn find_children(raw: &Vec<RawNode>, parents: &Vec<Option<NodeId>>, named: bool) -> (r: Vec<
    Vec<NodeId>,
>)
    requires
        parents@.len() == raw@.len(),
        forall|i: int|
            0 <= i < raw@.len() ==> #[trigger] parents@[i] == parent_at(raw.deep_view(), i),
    ensures
        r@.len() == raw@.len(),
        forall|n: int|
            0 <= n < raw@.len() ==> (#[trigger] r@[n])@ == kids_before(
                raw.deep_view(),
                n as usize,
                named,
                raw@.len() as int,
            ),
{
    let ghost records = raw.deep_view();
    let size: usize = raw.len();
    let mut out: Vec<Vec<NodeId>> = Vec::new();
    let mut i: usize = 0;
    while i < size
        invariant
            i <= size,
            size == raw@.len(),
            out@.len() == i,
            forall|n: int| 0 <= n < i ==> (#[trigger] out@[n])@ == Seq::<NodeId>::empty(),
        decreases size - i,
    {
        out.push(Vec::new());
        i += 1;
    }
    let mut j: usize = 0;
    while j < size
        invariant
            j <= size,
            size == raw@.len(),
            size == parents@.len(),
            records == raw.deep_view(),
            forall|i: int| 0 <= i < raw@.len() ==> #[trigger] parents@[i] == parent_at(records, i),
            out@.len() == size,
            forall|n: int|
                0 <= n < size ==> (#[trigger] out@[n])@ == kids_before(
                    records,
                    n as usize,
                    named,
                    j as int,
                ),
        decreases size - j,
    {
        assert(records[j as int].named == raw@[j as int].named);
        if !named || raw[j].named {
            if let Some(p) = parents[j] {
                proof {
                    lemma_parent_before(records, j as int, j as int);
                }
                out[p].push(j);
            }
        }
        j += 1;
    }
    out
}

fn copy_field(field: &Option<String>) -> (r: Option<String>)
    ensures
        r.deep_view() == field.deep_view(),
{
    match field {
        Some(s) => Some(s.clone()),
        None => None,
    }
}

/// Builds the tree of a text from the nodes that the parser reported.
pub fn build_tree(raw: &Vec<RawNode>, s: &Vec<char>) -> (r: SyntaxTree)
    ensures
        tree_matches(r, raw.deep_view(), s@),
        r.linked(),
        r.spans(s@.len() as int),
{
    let ghost records = raw.deep_view();
    let size: usize = raw.len();
    let table = position_table(s);
    let parents = find_parents(raw);
    let mut all = find_children(raw, &parents, false);
    let mut named = find_children(raw, &parents, true);
    let ghost all_kids = all@;
    let ghost named_kids = named@;
    let mut nodes: Vec<SyntaxNode> = Vec::new();
    let mut i: usize = 0;
    while i < size
        invariant
            i <= size,
            size == raw@.len(),
            records == raw.deep_view(),
            parents@.len() == size,
            all@.len() == size,
            named@.len() == size,
            nodes@.len() == i,
            table@.len() == byte_len(s@, s@.len() as int) + 1,
            forall|b: int| 0 <= b < table@.len() ==> #[trigger] table@[b] == position_of(s@, b),
            forall|k: int| 0 <= k < size ==> #[trigger] parents@[k] == parent_at(records, k),
            forall|k: int|
                i <= k < size ==> (#[trigger] all@[k])@ == kids_before(
                    records,
                    k as usize,
                    false,
                    size as int,
                ),
            forall|k: int|
                i <= k < size ==> (#[trigger] named@[k])@ == kids_before(
                    records,
                    k as usize,
                    true,
                    size as int,
                ),
            forall|k: int|
                0 <= k < i ==> node_matches(#[trigger] nodes@[k], records, s@, k),
            forall|k: int|
                0 <= k < i ==> (#[trigger] nodes@[k]).start <= nodes@[k].end <= s@.len(),
        decreases size - i,
    {
        let one = &raw[i];
        assert(records[i as int] == one.deep_view());
        let last: usize = if one.start_byte <= one.end_byte {
            one.end_byte
        } else {
            one.start_byte
        };
        proof {
            lemma_position_grows(s@, one.start_byte as int, last as int, 0);
        }
        let mut children: Vec<NodeId> = Vec::new();
        std::mem::swap(&mut children, &mut all[i]);
        let mut named_children: Vec<NodeId> = Vec::new();
        std::mem::swap(&mut named_children, &mut named[i]);
        let node = SyntaxNode {
            kind: one.kind.clone(),
            start: look_up(&table, s, one.start_byte),
            end: look_up(&table, s, last),
            start_byte: one.start_byte,
            end_byte: one.end_byte,
            named: one.named,
            extra: one.extra,
            missing: one.missing,
            field: copy_field(&one.field),
            parent: parents[i],
            children,
            named_children,
        };
        assert(node_matches(node, records, s@, i as int));
        nodes.push(node);
        i += 1;
    }
    let tree = SyntaxTree { nodes };
    proof {
        lemma_matching_tree_is_linked(tree, records, s@);
    }
    tree
}

/// A tree that matches what the parser reported is linked.
proof fn lemma_matching_tree_is_linked(
    tree: SyntaxTree,
    records: Seq<NodeRecord>,
    source: Seq<char>,
)
    requires
        tree_matches(tree, records, source),
        records.len() <= usize::MAX,
    ensures
        tree.linked(),
{
    let size = records.len() as int;
    assert forall|n: int| 0 <= n < tree.nodes@.len() implies (#[trigger] tree.nodes@[n]).placed(
        n,
        size,
    ) by {
        assert(node_matches(tree.nodes@[n], records, source, n));
        lemma_parent_before(records, n, n);
        lemma_kids_in_order(records, n as usize, false, size);
        lemma_kids_in_order(records, n as usize, true, size);
    }
    assert forall|n: NodeId| tree.has(n) implies #[trigger] tree.named_kids(n) == tree.kids(
        n,
    ).filter(|k: NodeId| tree.node(k).named) by {
        assert(node_matches(tree.nodes@[n as int], records, source, n as int));
        let named = |k: NodeId| tree.node(k).named;
        assert forall|k: NodeId| k < records.len() implies #[trigger] named(k)
            == records[k as int].named by {
            assert(node_matches(tree.nodes@[k as int], records, source, k as int));
        }
        lemma_named_kids(records, n, size, named);
    }
}

/// Whether the context holds the text, the tree that the parser gives for it, and the cursor at
/// `position`.
pub open spec fn parsed(ctx: JavaContextExtractor, source: Seq<char>, position: int) -> bool {
    &&& ctx.wf()
    &&& ctx.source@ == source
    &&& ctx.offset == position
    &&& tree_matches(ctx.tree, records_of(source), source)
}

impl JavaContextExtractor {
    /// Parses a text; `offset` is the cursor, counted in bytes.
    pub fn new(source: &str, offset: usize) -> (r: JavaContextExtractor)
        ensures
            parsed(r, source@, position_of(source@, offset as int)),
    {
        let chars = to_chars(source);
        let table = position_table(&chars);
        let position = look_up(&table, &chars, offset);
        Self::at_position(source, position)
    }

    /// Parses a text; `position` is the cursor, counted in characters.
    pub fn at_position(source: &str, position: usize) -> (r: JavaContextExtractor)
        requires
            position <= source@.len(),
        ensures
            parsed(r, source@, position as int),
    {
        let chars = to_chars(source);
        let raw = read_nodes(source);
        let tree = build_tree(&raw, &chars);
        JavaContextExtractor { source: chars, offset: position, tree }
    }
}

} // verus!
