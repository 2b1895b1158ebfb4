//! A text and its tree as mathematical values.
use vstd::prelude::*;

use crate::extractor::JavaContextExtractor;
use crate::parse::{lemma_parsed_tree, parsed, tree_of};
use crate::syntax::{NodeId, NodeView};

verus! {

/// A text and the nodes of its tree.
pub struct SourceView {
    pub source: Seq<char>,
    pub nodes: Seq<NodeView>,
}

impl SourceView {
    pub open spec fn has(self, n: NodeId) -> bool {
        n < self.nodes.len()
    }

    pub open spec fn kind(self, n: NodeId) -> Seq<char> {
        self.nodes[n as int].kind
    }

    /// The text of a node.
    pub open spec fn text(self, n: NodeId) -> Seq<char> {
        let from = self.nodes[n as int].start as int;
        let to = self.nodes[n as int].end as int;
        if 0 <= from <= to <= self.source.len() {
            self.source.subrange(from, to)
        } else {
            Seq::empty()
        }
    }

    /// The first of the nodes from the `i`-th on that fills a field of its parent.
    pub open spec fn field_from(self, ids: Seq<NodeId>, name: Seq<char>, i: int) -> Option<NodeId>
        decreases ids.len() - i,
    {
        if i < 0 || i >= ids.len() {
            None
        } else if self.nodes[ids[i] as int].field == Some(name) {
            Some(ids[i])
        } else {
            self.field_from(ids, name, i + 1)
        }
    }

    /// The first child that fills a field of a node.
    pub open spec fn field(self, n: NodeId, name: Seq<char>) -> Option<NodeId> {
        self.field_from(self.nodes[n as int].kids, name, 0)
    }

    pub open spec fn named_kids(self, n: NodeId) -> Seq<NodeId> {
        self.nodes[n as int].named_kids
    }

    /// A named child of a node, by its place.
    pub open spec fn named_kid(self, n: NodeId, i: int) -> Option<NodeId> {
        if 0 <= i < self.named_kids(n).len() {
            Some(self.named_kids(n)[i])
        } else {
            None
        }
    }

    /// The child that fills a field or, without one, a named child by its place.
    pub open spec fn field_or_kid(self, n: NodeId, name: Seq<char>, i: int) -> Option<NodeId> {
        match self.field(n, name) {
            Some(k) => Some(k),
            None => self.named_kid(n, i),
        }
    }
}

/// What a context holds.
pub open spec fn view_of(ctx: JavaContextExtractor) -> SourceView {
    SourceView { source: ctx.source@, nodes: ctx.tree.deep_view() }
}

/// A text with the tree that the parser gives for it.
pub open spec fn parsed_view(source: Seq<char>) -> SourceView {
    SourceView { source, nodes: tree_of(source) }
}

/// A parsed context holds its text and the tree that the parser gives for it.
pub proof fn lemma_parsed_view(ctx: JavaContextExtractor, source: Seq<char>, position: int)
    requires
        parsed(ctx, source, position),
    ensures
        view_of(ctx) == parsed_view(source),
{
    lemma_parsed_tree(ctx, source, position);
}

proof fn lemma_field_from(ctx: JavaContextExtractor, ids: Seq<NodeId>, name: Seq<char>, i: int)
    requires
        ctx.tree.all_in(ids),
    ensures
        ctx.tree.field_from(ids, name, i) == view_of(ctx).field_from(ids, name, i),
    decreases ids.len() - i,
{
    if 0 <= i < ids.len() {
        assert(ctx.tree.has(ids[i]));
        assert(view_of(ctx).nodes[ids[i] as int] == ctx.tree.node(ids[i]).deep_view());
        lemma_field_from(ctx, ids, name, i + 1);
    }
}

/// The child that fills a field of a node.
pub fn field_child(ctx: &JavaContextExtractor, n: NodeId, name: &str) -> (r: Option<NodeId>)
    requires
        ctx.wf(),
        ctx.tree.has(n),
    ensures
        r == view_of(*ctx).field(n, name@),
        r matches Some(k) ==> n < k && ctx.tree.has(k),
{
    proof {
        assert(ctx.tree.nodes@[n as int].placed(n as int, ctx.tree.nodes@.len() as int));
        lemma_field_from(*ctx, ctx.tree.kids(n), name@, 0);
    }
    ctx.tree.child_by_field(n, name)
}

/// A named child of a node, by its place.
pub fn named_child(ctx: &JavaContextExtractor, n: NodeId, i: usize) -> (r: Option<NodeId>)
    requires
        ctx.wf(),
        ctx.tree.has(n),
    ensures
        r == view_of(*ctx).named_kid(n, i as int),
        r matches Some(k) ==> n < k && ctx.tree.has(k),
{
    proof {
        assert(ctx.tree.nodes@[n as int].placed(n as int, ctx.tree.nodes@.len() as int));
    }
    let kids = ctx.tree.named_children(n);
    if i < kids.len() {
        Some(kids[i])
    } else {
        None
    }
}

/// The child that fills a field or, without one, a named child by its place.
pub fn field_or_child(ctx: &JavaContextExtractor, n: NodeId, name: &str, i: usize) -> (r: Option<
    NodeId,
>)
    requires
        ctx.wf(),
        ctx.tree.has(n),
    ensures
        r == view_of(*ctx).field_or_kid(n, name@, i as int),
        r matches Some(k) ==> n < k && ctx.tree.has(k),
{
    match field_child(ctx, n, name) {
        Some(k) => Some(k),
        None => named_child(ctx, n, i),
    }
}

} // verus!
