//! Which node is at a place, and which way up is free.
use vstd::prelude::*;

use crate::syntax::{KindClass, NodeId, SyntaxTree};

verus! {

// ---- the node at a place -----------------------------------------------------------------------

/// The node holds all from one position to another.
pub open spec fn holds(t: SyntaxTree, n: NodeId, from: int, to: int) -> bool {
    t.start_of(n) <= from && to <= t.end_of(n)
}

/// The node lies before a place: it ends before either end of it, or right where it begins and is
/// not empty.
pub open spec fn lies_before(t: SyntaxTree, n: NodeId, from: int, to: int) -> bool {
    t.end_of(n) < to || t.end_of(n) < from || t.end_of(n) == from && t.start_of(n) < t.end_of(n)
}

proof fn lemma_holder_from(t: SyntaxTree, n: NodeId, from: int, to: int, i: int, k: int)
    requires
        0 <= i <= k < t.kids(n).len(),
        forall|q: int| i <= q < k ==> lies_before(t, #[trigger] t.kids(n)[q], from, to),
        !lies_before(t, t.kids(n)[k], from, to),
    ensures
        t.holder_from(n, from, to, i) == if from < t.start_of(t.kids(n)[k]) {
            None
        } else {
            Some(t.kids(n)[k])
        },
    decreases k - i,
{
    if i < k {
        assert(lies_before(t, t.kids(n)[i], from, to));
        lemma_holder_from(t, n, from, to, i + 1, k);
    }
}

proof fn lemma_no_holder_from(t: SyntaxTree, n: NodeId, from: int, to: int, i: int)
    requires
        0 <= i,
        forall|q: int|
            0 <= q < t.kids(n).len() ==> lies_before(t, #[trigger] t.kids(n)[q], from, to),
    ensures
        t.holder_from(n, from, to, i) is None,
    decreases t.kids(n).len() - i,
{
    if i < t.kids(n).len() {
        assert(lies_before(t, t.kids(n)[i], from, to));
        lemma_no_holder_from(t, n, from, to, i + 1);
    }
}

/// The way to the node at a place leads through the first child that does not lie before it, if
/// that begins by the place; without one, it ends.
pub proof fn lemma_way_to_place(
    t: SyntaxTree,
    n: NodeId,
    best: NodeId,
    from: int,
    to: int,
    k: int,
)
    requires
        t.linked(),
        t.has(n),
    ensures
        0 <= k < t.kids(n).len() && (forall|q: int|
            0 <= q < k ==> lies_before(t, #[trigger] t.kids(n)[q], from, to)) && !lies_before(
            t,
            t.kids(n)[k],
            from,
            to,
        ) ==> t.named_holder(n, best, from, to) == if from < t.start_of(t.kids(n)[k]) {
            best
        } else {
            t.named_holder(
                t.kids(n)[k],
                if t.node(t.kids(n)[k]).named {
                    t.kids(n)[k]
                } else {
                    best
                },
                from,
                to,
            )
        },
        (forall|q: int|
            0 <= q < t.kids(n).len() ==> lies_before(t, #[trigger] t.kids(n)[q], from, to))
            ==> t.named_holder(n, best, from, to) == best,
{
    assert(t.nodes@[n as int].placed(n as int, t.nodes@.len() as int));
    if 0 <= k < t.kids(n).len() && (forall|q: int|
        0 <= q < k ==> lies_before(t, #[trigger] t.kids(n)[q], from, to)) && !lies_before(
        t,
        t.kids(n)[k],
        from,
        to,
    ) {
        lemma_holder_from(t, n, from, to, 0, k);
    }
    if forall|q: int|
        0 <= q < t.kids(n).len() ==> lies_before(t, #[trigger] t.kids(n)[q], from, to) {
        lemma_no_holder_from(t, n, from, to, 0);
    }
}

proof fn lemma_holder_holds(t: SyntaxTree, n: NodeId, from: int, to: int, i: int)
    requires
        0 <= i,
        from <= to,
    ensures
        t.holder_from(n, from, to, i) matches Some(k) ==> holds(t, k, from, to),
    decreases t.kids(n).len() - i,
{
    if i < t.kids(n).len() {
        lemma_holder_holds(t, n, from, to, i + 1);
    }
}

proof fn lemma_named_holder_holds(t: SyntaxTree, n: NodeId, best: NodeId, from: int, to: int)
    requires
        from <= to,
        holds(t, best, from, to),
        t.node(best).named || best == 0,
    ensures
        holds(t, t.named_holder(n, best, from, to), from, to),
        t.node(t.named_holder(n, best, from, to)).named || t.named_holder(n, best, from, to) == 0,
    decreases t.nodes@.len() - n,
{
    lemma_holder_holds(t, n, from, to, 0);
    if let Some(k) = t.holder_from(n, from, to, 0) {
        if n < k && t.has(k) {
            lemma_named_holder_holds(
                t,
                k,
                if t.node(k).named {
                    k
                } else {
                    best
                },
                from,
                to,
            );
        }
    }
}

/// The node at a place holds all of the place and is named, unless it is the root; there is one
/// where there is a tree and the place does not end before it begins.
pub proof fn lemma_node_at_place(t: SyntaxTree, from: int, to: int)
    ensures
        t.named_node_at(from, to) is Some <==> t.nodes@.len() > 0 && from <= to,
        holds(t, 0, from, to) ==> (t.named_node_at(from, to) matches Some(n) ==> holds(
            t,
            n,
            from,
            to,
        ) && (t.node(n).named || n == 0)),
{
    if from <= to && holds(t, 0, from, to) {
        lemma_named_holder_holds(t, 0, 0, from, to);
    }
}

// ---- the way up --------------------------------------------------------------------------------

/// A node of the one class is reached, a node of the other stops the way, any other leads on to its
/// parent.
pub proof fn lemma_way_up(t: SyntaxTree, n: NodeId, p: NodeId, yes: KindClass, no: KindClass)
    requires
        t.linked(),
        t.has(n),
    ensures
        yes.has(t.kind_of(n)) ==> t.reaches(n, yes, no),
        !yes.has(t.kind_of(n)) && no.has(t.kind_of(n)) ==> !t.reaches(n, yes, no),
        !yes.has(t.kind_of(n)) && !no.has(t.kind_of(n)) && t.parent_of(n) == Some(p) ==> t.reaches(
            n,
            yes,
            no,
        ) == t.reaches(p, yes, no),
        !yes.has(t.kind_of(n)) && t.parent_of(n) is None ==> !t.reaches(n, yes, no),
{
    assert(t.nodes@[n as int].placed(n as int, t.nodes@.len() as int));
}

/// A node descends from itself and from what its parent descends from, and from nothing else.
pub proof fn lemma_descent(t: SyntaxTree, n: NodeId, p: NodeId, a: NodeId)
    requires
        t.linked(),
        t.has(n),
    ensures
        t.descends(n, n),
        n != a && t.parent_of(n) == Some(p) ==> t.descends(n, a) == t.descends(p, a),
        n != a && t.parent_of(n) is None ==> !t.descends(n, a),
{
    assert(t.nodes@[n as int].placed(n as int, t.nodes@.len() as int));
}

} // verus!
