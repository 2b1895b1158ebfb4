//! What the lookups in a syntax tree find.
use vstd::prelude::*;

use crate::syntax::{KindClass, NodeId, SyntaxTree};

pub mod spans;

verus! {

impl SyntaxTree {
    /// The node at place `i` of a list fills a field of its parent.
    pub open spec fn fills(&self, ids: Seq<NodeId>, i: int, name: Seq<char>) -> bool {
        self.node(ids[i]).field matches Some(f) && f@ == name
    }
}

/// What is found for a field is the first child that fills it, and nothing is found only where no
/// child does.
pub proof fn lemma_field_from(t: SyntaxTree, ids: Seq<NodeId>, name: Seq<char>, i: int)
    requires
        0 <= i,
    ensures
        match t.field_from(ids, name, i) {
            Some(k) => exists|p: int|
                i <= p < ids.len() && ids[p] == k && #[trigger] t.fills(ids, p, name) && forall|q:
                    int| i <= q < p ==> !#[trigger] t.fills(ids, q, name),
            None => forall|q: int| i <= q < ids.len() ==> !#[trigger] t.fills(ids, q, name),
        },
    decreases ids.len() - i,
{
    if i < ids.len() && !t.fills(ids, i, name) {
        lemma_field_from(t, ids, name, i + 1);
        if let Some(k) = t.field_from(ids, name, i + 1) {
            let p = choose|p: int|
                i + 1 <= p < ids.len() && ids[p] == k && #[trigger] t.fills(ids, p, name) && forall|
                    q: int,
                | i + 1 <= q < p ==> !#[trigger] t.fills(ids, q, name);
            assert(t.fills(ids, p, name));
        }
    } else if i < ids.len() {
        assert(t.fills(ids, i, name));
    }
}

/// What is found for a kind is the first node of that kind, and nothing is found only where no
/// node is of that kind.
pub proof fn lemma_first_kind_from(t: SyntaxTree, ids: Seq<NodeId>, kind: Seq<char>, i: int)
    requires
        0 <= i,
    ensures
        match t.first_kind_from(ids, kind, i) {
            Some(k) => exists|p: int|
                i <= p < ids.len() && #[trigger] ids[p] == k && t.kind_of(ids[p]) == kind && forall|
                    q: int,
                | i <= q < p ==> t.kind_of(#[trigger] ids[q]) != kind,
            None => forall|q: int| i <= q < ids.len() ==> t.kind_of(#[trigger] ids[q]) != kind,
        },
    decreases ids.len() - i,
{
    if i < ids.len() && t.kind_of(ids[i]) != kind {
        lemma_first_kind_from(t, ids, kind, i + 1);
    }
}

/// What is found for a group of kinds is the first node of it.
pub proof fn lemma_first_class_from(t: SyntaxTree, ids: Seq<NodeId>, class: KindClass, i: int)
    requires
        0 <= i,
    ensures
        match t.first_class_from(ids, class, i) {
            Some(k) => exists|p: int|
                i <= p < ids.len() && #[trigger] ids[p] == k && class.has(t.kind_of(ids[p]))
                    && forall|q: int| i <= q < p ==> !class.has(t.kind_of(#[trigger] ids[q])),
            None => forall|q: int|
                i <= q < ids.len() ==> !class.has(t.kind_of(#[trigger] ids[q])),
        },
    decreases ids.len() - i,
{
    if i < ids.len() && !class.has(t.kind_of(ids[i])) {
        lemma_first_class_from(t, ids, class, i + 1);
    }
}

/// What is found beside a kind is the first node of another kind.
pub proof fn lemma_first_other_from(t: SyntaxTree, ids: Seq<NodeId>, kind: Seq<char>, i: int)
    requires
        0 <= i,
    ensures
        match t.first_other_from(ids, kind, i) {
            Some(k) => exists|p: int|
                i <= p < ids.len() && #[trigger] ids[p] == k && t.kind_of(ids[p]) != kind && forall|
                    q: int,
                | i <= q < p ==> t.kind_of(#[trigger] ids[q]) == kind,
            None => forall|q: int| i <= q < ids.len() ==> t.kind_of(#[trigger] ids[q]) == kind,
        },
    decreases ids.len() - i,
{
    if i < ids.len() && t.kind_of(ids[i]) == kind {
        lemma_first_other_from(t, ids, kind, i + 1);
    }
}

/// The place of a node in a list is the first at which it stands.
pub proof fn lemma_place_from(ids: Seq<NodeId>, n: NodeId, i: int)
    requires
        0 <= i,
    ensures
        match SyntaxTree::place_from(ids, n, i) {
            Some(p) => i <= p < ids.len() && ids[p] == n && forall|q: int|
                i <= q < p ==> #[trigger] ids[q] != n,
            None => forall|q: int| i <= q < ids.len() ==> #[trigger] ids[q] != n,
        },
    decreases ids.len() - i,
{
    if i < ids.len() && ids[i] != n {
        lemma_place_from(ids, n, i + 1);
    }
}

/// The next sibling stands right behind a node among the children of their parent.
pub proof fn lemma_next_sibling(t: SyntaxTree, n: NodeId, p: NodeId, i: int)
    requires
        t.parent_of(n) == Some(p),
        0 <= i < t.kids(p).len(),
        t.kids(p)[i] == n,
        forall|q: int| 0 <= q < i ==> #[trigger] t.kids(p)[q] != n,
    ensures
        t.next_of(n) == if i + 1 < t.kids(p).len() {
            Some(t.kids(p)[i + 1])
        } else {
            None
        },
{
    lemma_place_from(t.kids(p), n, 0);
}

/// The nearest ancestor of a kind: the parent, if it is of that kind, else that of the parent.
pub proof fn lemma_ancestor_steps(t: SyntaxTree, n: NodeId, kind: Seq<char>)
    requires
        t.has(n),
        t.linked(),
    ensures
        match t.parent_of(n) {
            None => t.ancestor(n, kind) is None,
            Some(p) => t.ancestor(n, kind) == if t.kind_of(p) == kind {
                Some(p)
            } else {
                t.ancestor(p, kind)
            },
        },
        t.ancestor(n, kind) matches Some(a) ==> a < n && t.kind_of(a) == kind && t.descends(n, a),
    decreases n,
{
    assert(t.nodes@[n as int].placed(n as int, t.nodes@.len() as int));
    if let Some(p) = t.parent_of(n) {
        lemma_ancestor_steps(t, p, kind);
        reveal_with_fuel(SyntaxTree::descends, 3);
    }
}

/// The nearest ancestor of a group of kinds: the parent, if it is of the group, else that of the
/// parent.
pub proof fn lemma_ancestor_in_steps(t: SyntaxTree, n: NodeId, class: KindClass)
    requires
        t.has(n),
        t.linked(),
    ensures
        match t.parent_of(n) {
            None => t.ancestor_in(n, class) is None,
            Some(p) => t.ancestor_in(n, class) == if class.has(t.kind_of(p)) {
                Some(p)
            } else {
                t.ancestor_in(p, class)
            },
        },
        t.ancestor_in(n, class) matches Some(a) ==> a < n && class.has(t.kind_of(a)) && t.descends(
            n,
            a,
        ),
    decreases n,
{
    assert(t.nodes@[n as int].placed(n as int, t.nodes@.len() as int));
    if let Some(p) = t.parent_of(n) {
        lemma_ancestor_in_steps(t, p, class);
        reveal_with_fuel(SyntaxTree::descends, 3);
    }
}

/// Every node lies below itself, and what lies below a child lies below its parent.
pub proof fn lemma_under_holds(t: SyntaxTree, n: NodeId, i: int, m: NodeId)
    requires
        t.linked(),
        t.has(n),
        0 <= i < t.kids(n).len(),
        t.under(t.kids(n)[i]).contains(m),
    ensures
        t.under(n).contains(n),
        t.under(n).contains(m),
{
    assert(t.nodes@[n as int].placed(n as int, t.nodes@.len() as int));
    assert(t.under(n)[0] == n);
    lemma_under_kids_hold(t, n, 0, i, m);
    let at = choose|at: int| 0 <= at < t.under_kids(n, 0).len() && t.under_kids(n, 0)[at] == m;
    assert(t.under(n)[at + 1] == m);
}

proof fn lemma_under_kids_hold(t: SyntaxTree, n: NodeId, from: int, i: int, m: NodeId)
    requires
        t.linked(),
        t.has(n),
        0 <= from <= i < t.kids(n).len(),
        t.under(t.kids(n)[i]).contains(m),
    ensures
        t.under_kids(n, from).contains(m),
    decreases i - from,
{
    assert(t.nodes@[n as int].placed(n as int, t.nodes@.len() as int));
    let k = t.kids(n)[from];
    let first = t.under(k);
    let rest = t.under_kids(n, from + 1);
    assert(t.under_kids(n, from) == first + rest);
    if from == i {
        let at = choose|at: int| 0 <= at < first.len() && first[at] == m;
        assert((first + rest)[at] == m);
    } else {
        lemma_under_kids_hold(t, n, from + 1, i, m);
        let at = choose|at: int| 0 <= at < rest.len() && rest[at] == m;
        assert((first + rest)[first.len() + at] == m);
    }
}

/// A tree that fits together: every child has its parent as its parent.
pub open spec fn fits_together(t: SyntaxTree) -> bool {
    forall|n: NodeId, i: int|
        t.has(n) && 0 <= i < t.kids(n).len() ==> t.parent_of(#[trigger] t.kids(n)[i]) == Some(n)
}

/// A tree in which every node is a child of its parent.
pub open spec fn no_orphans(t: SyntaxTree) -> bool {
    forall|m: NodeId|
        #![trigger t.parent_of(m)]
        t.has(m) ==> (t.parent_of(m) matches Some(p) ==> t.kids(p).contains(m))
}

/// All nodes that lie below a node are listed below it.
pub proof fn lemma_below_is_under(t: SyntaxTree, n: NodeId, m: NodeId)
    requires
        t.linked(),
        no_orphans(t),
        t.has(m),
        t.has(n),
        t.descends(m, n),
    ensures
        t.under(n).contains(m),
    decreases m,
{
    if m == n {
        assert(t.under(n)[0] == n);
    } else {
        let p = t.parent_of(m).unwrap();
        assert(t.kids(p).contains(m));
        let i = choose|i: int| 0 <= i < t.kids(p).len() && t.kids(p)[i] == m;
        assert(t.under(m)[0] == m);
        assert(t.under(m).contains(m));
        lemma_below_is_under(t, n, p);
        lemma_under_through(t, n, p, m);
    }
}

/// What is listed below a node that is listed below another is listed below that, too.
proof fn lemma_under_through(t: SyntaxTree, n: NodeId, p: NodeId, m: NodeId)
    requires
        t.linked(),
        t.has(n),
        t.under(n).contains(p),
        t.kids(p).contains(m),
    ensures
        t.under(n).contains(m),
    decreases t.nodes@.len() - n,
{
    assert(t.nodes@[n as int].placed(n as int, t.nodes@.len() as int));
    if p == n {
        let i = choose|i: int| 0 <= i < t.kids(n).len() && t.kids(n)[i] == m;
        assert(t.under(m)[0] == m);
        assert(t.under(m).contains(m));
        lemma_under_holds(t, n, i, m);
    } else {
        let at = choose|at: int| 0 <= at < t.under(n).len() && t.under(n)[at] == p;
        assert(t.under_kids(n, 0)[at - 1] == p);
        let i = lemma_under_kids_from(t, n, 0, p);
        lemma_under_through(t, t.kids(n)[i], p, m);
        lemma_under_holds(t, n, i, m);
    }
}

/// The child that a listed node lies below.
pub proof fn lemma_under_kids_from(t: SyntaxTree, n: NodeId, from: int, p: NodeId) -> (i: int)
    requires
        t.linked(),
        t.has(n),
        0 <= from,
        t.under_kids(n, from).contains(p),
    ensures
        from <= i < t.kids(n).len(),
        t.under(t.kids(n)[i]).contains(p),
    decreases t.kids(n).len() - from,
{
    assert(t.nodes@[n as int].placed(n as int, t.nodes@.len() as int));
    let at = choose|at: int|
        0 <= at < t.under_kids(n, from).len() && t.under_kids(n, from)[at] == p;
    let first = t.under(t.kids(n)[from]);
    let rest = t.under_kids(n, from + 1);
    assert(t.under_kids(n, from) == first + rest);
    if at < first.len() {
        assert(first[at] == p);
        from
    } else {
        assert(rest[at - first.len()] == p);
        lemma_under_kids_from(t, n, from + 1, p)
    }
}

/// What is listed below a node lies below it.
pub proof fn lemma_under_is_below(t: SyntaxTree, n: NodeId, m: NodeId)
    requires
        t.linked(),
        fits_together(t),
        t.has(n),
        t.under(n).contains(m),
    ensures
        t.has(m),
        t.descends(m, n),
    decreases t.nodes@.len() - n,
{
    assert(t.nodes@[n as int].placed(n as int, t.nodes@.len() as int));
    if m != n {
        let at = choose|at: int| 0 <= at < t.under(n).len() && t.under(n)[at] == m;
        assert(t.under_kids(n, 0)[at - 1] == m);
        let i = lemma_under_kids_from(t, n, 0, m);
        let k = t.kids(n)[i];
        lemma_under_is_below(t, k, m);
        assert(t.parent_of(k) == Some(n));
        lemma_descends_further(t, m, k, n);
    }
}

/// What lies below a child lies below its parent.
proof fn lemma_descends_further(t: SyntaxTree, m: NodeId, k: NodeId, n: NodeId)
    requires
        t.linked(),
        t.has(m),
        t.descends(m, k),
        t.parent_of(k) == Some(n),
        n < k,
    ensures
        t.descends(m, n),
    decreases m,
{
    if m == k {
        assert(t.descends(n, n));
    } else {
        let p = t.parent_of(m).unwrap();
        lemma_descends_further(t, p, k, n);
    }
}

} // verus!
