//! Which of several variables with one name can be seen.
use vstd::prelude::*;

use crate::text::str_eq;
use crate::type_facts::{LocalVar, LocalView};

use super::scopes::ScopeRange;

verus! {

/// A local variable with the place of its declaration and the positions from which it is seen.
#[derive(Debug, PartialEq, Eq)]
pub struct RankedLocal {
    pub local: LocalVar,
    pub declaration_start: usize,
    pub visibility_scope: ScopeRange,
}

/// What a [`RankedLocal`] says.
pub struct RankedView {
    pub local: LocalView,
    pub declaration_start: usize,
    pub visibility_scope: ScopeRange,
}

impl DeepView for RankedLocal {
    type V = RankedView;

    open spec fn deep_view(&self) -> RankedView {
        RankedView {
            local: self.local.deep_view(),
            declaration_start: self.declaration_start,
            visibility_scope: self.visibility_scope,
        }
    }
}

/// `a` is nearer than `b`: it is declared later or, at the same place, in a scope that begins
/// later or ends later.
pub open spec fn is_nearer(a: RankedView, b: RankedView) -> bool {
    ||| a.declaration_start > b.declaration_start
    ||| a.declaration_start == b.declaration_start && a.visibility_scope.start
        > b.visibility_scope.start
    ||| a.declaration_start == b.declaration_start && a.visibility_scope.start
        == b.visibility_scope.start && a.visibility_scope.end > b.visibility_scope.end
}

fn nearer(a: &RankedLocal, b: &RankedLocal) -> (r: bool)
    ensures
        r == is_nearer(a.deep_view(), b.deep_view()),
{
    if a.declaration_start != b.declaration_start {
        a.declaration_start > b.declaration_start
    } else if a.visibility_scope.start != b.visibility_scope.start {
        a.visibility_scope.start > b.visibility_scope.start
    } else {
        a.visibility_scope.end > b.visibility_scope.end
    }
}

/// The place of a variable among variables in order: behind those that it is not nearer than.
pub open spec fn place_for(vars: Seq<RankedView>, v: RankedView, j: int) -> int
    decreases j,
{
    if j <= 0 || j > vars.len() || !is_nearer(v, vars[j - 1]) {
        j
    } else {
        place_for(vars, v, j - 1)
    }
}

/// The first `j` variables, the nearest first; variables of one rank keep their order.
pub open spec fn nearest_first(vars: Seq<RankedView>, j: int) -> Seq<RankedView>
    decreases j,
{
    if j <= 0 || j > vars.len() {
        Seq::empty()
    } else {
        let before = nearest_first(vars, j - 1);
        before.insert(place_for(before, vars[j - 1], before.len() as int), vars[j - 1])
    }
}

/// One of the variables has a name.
pub open spec fn has_name(seen: Seq<LocalView>, name: Seq<char>) -> bool {
    exists|i: int| 0 <= i < seen.len() && #[trigger] seen[i].name == name
}

/// The variables seen so far with those from the `i`-th on that have a new name.
pub open spec fn first_of_each(vars: Seq<RankedView>, seen: Seq<LocalView>, i: int) -> Seq<LocalView>
    decreases vars.len() - i,
{
    if i < 0 || i >= vars.len() {
        seen
    } else if has_name(seen, vars[i].local.name) {
        first_of_each(vars, seen, i + 1)
    } else {
        first_of_each(vars, seen.push(vars[i].local), i + 1)
    }
}

/// The variables that can be seen: of those with one name, the nearest.
pub open spec fn visible(vars: Seq<RankedView>) -> Seq<LocalView> {
    first_of_each(nearest_first(vars, vars.len() as int), Seq::empty(), 0)
}

fn name_exists(seen: &Vec<LocalVar>, name: &str) -> (r: bool)
    ensures
        r == has_name(seen.deep_view(), name@),
{
    let ghost all = seen.deep_view();
    let mut i: usize = 0;
    while i < seen.len()
        invariant
            i <= seen.len(),
            all == seen.deep_view(),
            forall|k: int| 0 <= k < i ==> #[trigger] all[k].name != name@,
        decreases seen.len() - i,
    {
        assert(all[i as int].name == seen@[i as int].name@);
        if str_eq(seen[i].name.as_str(), name) {
            return true;
        }
        i += 1;
    }
    false
}

fn turn_round(vars: Vec<RankedLocal>) -> (r: Vec<RankedLocal>)
    ensures
        r@.len() == vars@.len(),
        forall|k: int|
            0 <= k < r@.len() ==> #[trigger] r@[k].deep_view() == vars.deep_view()[vars@.len() - 1
                - k],
{
    let mut rest: Vec<RankedLocal> = vars;
    let ghost all = rest.deep_view();
    let n: usize = rest.len();
    let mut out: Vec<RankedLocal> = Vec::new();
    while rest.len() > 0
        invariant
            rest.len() + out.len() == n,
            n == all.len(),
            forall|k: int| 0 <= k < rest.len() ==> #[trigger] rest@[k].deep_view() == all[k],
            forall|k: int| 0 <= k < out.len() ==> #[trigger] out@[k].deep_view() == all[n - 1 - k],
        decreases rest.len(),
    {
        let v = rest.pop().unwrap();
        out.push(v);
    }
    out
}

fn sort_nearest_first(vars: Vec<RankedLocal>) -> (r: Vec<RankedLocal>)
    ensures
        r.deep_view() == nearest_first(vars.deep_view(), vars@.len() as int),
{
    let ghost all = vars.deep_view();
    let n: usize = vars.len();
    let mut rest = turn_round(vars);
    let mut out: Vec<RankedLocal> = Vec::new();
    assert(out.deep_view() =~= nearest_first(all, 0));
    while rest.len() > 0
        invariant
            out.len() + rest.len() == n,
            n == all.len(),
            forall|k: int| 0 <= k < rest.len() ==> #[trigger] rest@[k].deep_view() == all[n - 1 - k],
            out.deep_view() == nearest_first(all, out.len() as int),
        decreases rest.len(),
    {
        let ghost before = out.deep_view();
        let ghost m = out.len();
        assert(rest@[rest.len() - 1].deep_view() == all[m as int]);
        let v = rest.pop().unwrap();
        let mut p: usize = out.len();
        while p > 0 && nearer(&v, &out[p - 1])
            invariant
                p <= out.len(),
                before == out.deep_view(),
                place_for(before, v.deep_view(), out.len() as int) == place_for(
                    before,
                    v.deep_view(),
                    p as int,
                ),
            decreases p,
        {
            assert(before[p - 1] == out@[p - 1].deep_view());
            p -= 1;
        }
        assert(p > 0 ==> before[p - 1] == out@[p - 1].deep_view());
        let ghost w = v.deep_view();
        out.insert(p, v);
        assert(out.deep_view() =~= before.insert(p as int, w));
    }
    out
}

/// The variables that can be seen: of those with one name, the nearest.
pub fn normalize_visible_locals(vars: Vec<RankedLocal>) -> (r: Vec<LocalVar>)
    ensures
        r.deep_view() == visible(vars.deep_view()),
{
    assert(vars.deep_view().len() == vars@.len());
    let sorted = sort_nearest_first(vars);
    let ghost ranked = sorted.deep_view();
    let n: usize = sorted.len();
    let mut rest = turn_round(sorted);
    let mut out: Vec<LocalVar> = Vec::new();
    let ghost mut i: int = 0;
    assert(out.deep_view() =~= Seq::<LocalView>::empty());
    while rest.len() > 0
        invariant
            i + rest.len() == n,
            0 <= i,
            n == ranked.len(),
            forall|k: int|
                0 <= k < rest.len() ==> #[trigger] rest@[k].deep_view() == ranked[n - 1 - k],
            first_of_each(ranked, out.deep_view(), i) == first_of_each(ranked, Seq::empty(), 0),
        decreases rest.len(),
    {
        let ghost seen = out.deep_view();
        assert(rest@[rest.len() - 1].deep_view() == ranked[i]);
        let v = rest.pop().unwrap();
        if !name_exists(&out, v.local.name.as_str()) {
            let ghost w = v.local.deep_view();
            out.push(v.local);
            assert(out.deep_view() =~= seen.push(w));
        }
        proof {
            i = i + 1;
        }
    }
    out
}

// ---- what can be said of the result ------------------------------------------------------------

/// No two variables have one name.
pub open spec fn distinct(seen: Seq<LocalView>) -> bool {
    forall|i: int, j: int| 0 <= i < j < seen.len() ==> seen[i].name != seen[j].name
}

proof fn lemma_first_of_each(vars: Seq<RankedView>, seen: Seq<LocalView>, i: int)
    requires
        0 <= i <= vars.len(),
        distinct(seen),
    ensures
        distinct(first_of_each(vars, seen, i)),
        seen.is_prefix_of(first_of_each(vars, seen, i)),
        forall|k: int|
            i <= k < vars.len() ==> has_name(
                first_of_each(vars, seen, i),
                (#[trigger] vars[k]).local.name,
            ),
    decreases vars.len() - i,
{
    if i < vars.len() {
        let next = if has_name(seen, vars[i].local.name) {
            seen
        } else {
            seen.push(vars[i].local)
        };
        assert(distinct(next)) by {
            assert forall|a: int, b: int| 0 <= a < b < next.len() implies next[a].name
                != next[b].name by {
                if b == seen.len() {
                    assert(next[a] == seen[a]);
                } else {
                    assert(next[a] == seen[a] && next[b] == seen[b]);
                }
            }
        }
        lemma_first_of_each(vars, next, i + 1);
        let all = first_of_each(vars, seen, i);
        assert(has_name(next, vars[i].local.name)) by {
            if !has_name(seen, vars[i].local.name) {
                assert(next[seen.len() as int].name == vars[i].local.name);
            }
        }
        let w = choose|w: int| 0 <= w < next.len() && #[trigger] next[w].name == vars[i].local.name;
        assert(all[w] == next[w]);
        assert(all[w].name == vars[i].local.name);
    }
}

/// Every name of a declaration can be seen, and can be seen once.
pub proof fn lemma_visible_names(vars: Seq<RankedView>)
    ensures
        distinct(visible(vars)),
        forall|k: int|
            0 <= k < vars.len() ==> has_name(visible(vars), (#[trigger] vars[k]).local.name),
{
    let sorted = nearest_first(vars, vars.len() as int);
    lemma_first_of_each(sorted, Seq::empty(), 0);
    assert forall|k: int| 0 <= k < vars.len() implies has_name(
        visible(vars),
        (#[trigger] vars[k]).local.name,
    ) by {
        lemma_sorted_holds(vars, vars.len() as int, k);
        let p = choose|p: int| 0 <= p < sorted.len() && #[trigger] sorted[p] == vars[k];
        assert(has_name(visible(vars), sorted[p].local.name));
    }
}

proof fn lemma_place_for(vars: Seq<RankedView>, v: RankedView, j: int)
    requires
        0 <= j <= vars.len(),
    ensures
        0 <= place_for(vars, v, j) <= j,
        forall|k: int| place_for(vars, v, j) <= k < j ==> is_nearer(v, #[trigger] vars[k]),
        place_for(vars, v, j) > 0 ==> !is_nearer(v, vars[place_for(vars, v, j) - 1]),
    decreases j,
{
    if j > 0 && is_nearer(v, vars[j - 1]) {
        lemma_place_for(vars, v, j - 1);
    }
}

/// Sorting loses no variable.
proof fn lemma_sorted_holds(vars: Seq<RankedView>, j: int, k: int)
    requires
        0 <= k < j <= vars.len(),
    ensures
        exists|p: int|
            0 <= p < nearest_first(vars, j).len() && #[trigger] nearest_first(vars, j)[p] == vars[k],
    decreases j,
{
    let before = nearest_first(vars, j - 1);
    let at = place_for(before, vars[j - 1], before.len() as int);
    lemma_place_for(before, vars[j - 1], before.len() as int);
    let after = nearest_first(vars, j);
    if k == j - 1 {
        assert(after[at] == vars[k]);
    } else {
        lemma_sorted_holds(vars, j - 1, k);
        let p = choose|p: int| 0 <= p < before.len() && #[trigger] before[p] == vars[k];
        if p < at {
            assert(after[p] == vars[k]);
        } else {
            assert(after[p + 1] == vars[k]);
        }
    }
}

/// The variables stand in order: none is nearer than one before it.
pub open spec fn is_ranked(vars: Seq<RankedView>) -> bool {
    forall|i: int, j: int| 0 <= i < j < vars.len() ==> !is_nearer(#[trigger] vars[j], #[trigger] vars[i])
}

/// Sorting puts the nearest first.
pub proof fn lemma_nearest_first(vars: Seq<RankedView>, j: int)
    requires
        0 <= j <= vars.len(),
    ensures
        is_ranked(nearest_first(vars, j)),
        nearest_first(vars, j).len() == j,
    decreases j,
{
    if j > 0 {
        lemma_nearest_first(vars, j - 1);
        let before = nearest_first(vars, j - 1);
        let v = vars[j - 1];
        let at = place_for(before, v, before.len() as int);
        lemma_place_for(before, v, before.len() as int);
        let after = nearest_first(vars, j);
        assert forall|a: int, b: int| 0 <= a < b < after.len() implies !is_nearer(
            #[trigger] after[b],
            #[trigger] after[a],
        ) by {
            let x = if a < at {
                a
            } else {
                a - 1
            };
            let y = if b < at {
                b
            } else {
                b - 1
            };
            if a == at {
                assert(after[b] == before[b - 1]);
                assert(is_nearer(v, before[b - 1]));
            } else if b == at {
                assert(after[a] == before[a]);
                if a < at - 1 {
                    assert(!is_nearer(before[at - 1], before[a]));
                }
            } else {
                assert(after[a] == before[x]);
                assert(after[b] == before[y]);
            }
        }
    }
}

/// Of the variables with one name, the nearest is seen: none that is nearer has the name of one
/// that can be seen.
pub proof fn lemma_nearest_is_visible(vars: Seq<RankedView>, k: int)
    requires
        0 <= k < vars.len(),
        forall|l: int|
            0 <= l < vars.len() && l != k && (#[trigger] vars[l]).local.name == vars[k].local.name
                ==> is_nearer(vars[k], vars[l]),
    ensures
        visible(vars).contains(vars[k].local),
{
    let n = vars.len() as int;
    let sorted = nearest_first(vars, n);
    lemma_nearest_first(vars, n);
    lemma_sorted_holds(vars, n, k);
    let p = choose|p: int| 0 <= p < sorted.len() && #[trigger] sorted[p] == vars[k];
    assert forall|q: int| 0 <= q < p implies (#[trigger] sorted[q]).local.name
        != vars[k].local.name by {
        lemma_sorted_from(vars, n, q);
        let l = choose|l: int| 0 <= l < n && #[trigger] vars[l] == sorted[q];
        if sorted[q].local.name == vars[k].local.name {
            assert(!is_nearer(sorted[p], sorted[q]));
            assert(l == k);
            lemma_sorted_once(vars, n, q, p, k);
        }
    }
    lemma_first_kept(sorted, Seq::empty(), 0, p);
}

/// Sorting adds no variable.
proof fn lemma_sorted_from(vars: Seq<RankedView>, j: int, q: int)
    requires
        0 <= j <= vars.len(),
        0 <= q < nearest_first(vars, j).len(),
    ensures
        exists|l: int| 0 <= l < j && #[trigger] vars[l] == nearest_first(vars, j)[q],
    decreases j,
{
    if j > 0 {
        let before = nearest_first(vars, j - 1);
        let at = place_for(before, vars[j - 1], before.len() as int);
        lemma_place_for(before, vars[j - 1], before.len() as int);
        let after = nearest_first(vars, j);
        if q == at {
            assert(vars[j - 1] == after[q]);
        } else {
            let x = if q < at {
                q
            } else {
                q - 1
            };
            lemma_sorted_from(vars, j - 1, x);
            let l = choose|l: int| 0 <= l < j - 1 && #[trigger] vars[l] == before[x];
            assert(vars[l] == after[q]);
        }
    }
}

/// A variable that is nearer than every other of its name stands once among the sorted ones.
proof fn lemma_sorted_once(vars: Seq<RankedView>, j: int, q: int, p: int, k: int)
    requires
        0 <= j <= vars.len(),
        0 <= k < vars.len(),
        0 <= q < nearest_first(vars, j).len(),
        0 <= p < nearest_first(vars, j).len(),
        nearest_first(vars, j)[q] == vars[k],
        nearest_first(vars, j)[p] == vars[k],
        forall|l: int|
            0 <= l < vars.len() && l != k && (#[trigger] vars[l]).local.name == vars[k].local.name
                ==> is_nearer(vars[k], vars[l]),
    ensures
        q == p,
    decreases j,
{
    if j > 0 {
        let before = nearest_first(vars, j - 1);
        let v = vars[j - 1];
        let at = place_for(before, v, before.len() as int);
        lemma_place_for(before, v, before.len() as int);
        if q == at && p == at {
        } else if q != at && p != at {
            let x = if q < at {
                q
            } else {
                q - 1
            };
            let y = if p < at {
                p
            } else {
                p - 1
            };
            lemma_sorted_once(vars, j - 1, x, y, k);
        } else {
            assert(v == vars[k]);
            assert(j - 1 == k) by {
                if j - 1 != k {
                    assert(vars[j - 1].local.name == vars[k].local.name);
                }
            }
            let shown = if q == at {
                p
            } else {
                q
            };
            let other = if shown < at {
                shown
            } else {
                shown - 1
            };
            lemma_sorted_from(vars, j - 1, other);
            let l = choose|l: int| 0 <= l < j - 1 && #[trigger] vars[l] == before[other];
            assert(vars[l].local.name == vars[k].local.name);
        }
    }
}

/// A variable whose name none before it has is kept.
proof fn lemma_first_kept(vars: Seq<RankedView>, seen: Seq<LocalView>, i: int, p: int)
    requires
        0 <= i <= p < vars.len(),
        distinct(seen),
        !has_name(seen, vars[p].local.name),
        forall|q: int| i <= q < p ==> (#[trigger] vars[q]).local.name != vars[p].local.name,
    ensures
        first_of_each(vars, seen, i).contains(vars[p].local),
    decreases p - i,
{
    let next = if has_name(seen, vars[i].local.name) {
        seen
    } else {
        seen.push(vars[i].local)
    };
    assert(distinct(next)) by {
        assert forall|a: int, b: int| 0 <= a < b < next.len() implies next[a].name != next[b].name by {
            if b == seen.len() {
                assert(next[a] == seen[a]);
            } else {
                assert(next[a] == seen[a] && next[b] == seen[b]);
            }
        }
    }
    if i == p {
        lemma_first_of_each(vars, next, i + 1);
        let all = first_of_each(vars, seen, i);
        assert(all[seen.len() as int] == next[seen.len() as int]);
        assert(all.contains(vars[p].local));
    } else {
        assert(!has_name(next, vars[p].local.name)) by {
            if has_name(next, vars[p].local.name) {
                let w = choose|w: int|
                    0 <= w < next.len() && #[trigger] next[w].name == vars[p].local.name;
                if w < seen.len() {
                    assert(seen[w].name == vars[p].local.name);
                } else {
                    assert(vars[i].local.name == vars[p].local.name);
                }
            }
        }
        lemma_first_kept(vars, next, i + 1, p);
    }
}

} // verus!
