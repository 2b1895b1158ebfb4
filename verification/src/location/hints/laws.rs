//! What holds of every list of arguments that is split at its commas.
use vstd::prelude::*;

use crate::location::hints::{args_from, commas_from, depth_after, unless_blank};
use crate::text::{
    is_white, lemma_run_end, lemma_run_start, run_end, run_start, trim, trim_start, CharClass,
};

pub mod arrows;
pub mod targets;

verus! {

// ---- scanning ----------------------------------------------------------------------------------

/// How many brackets are open at the end of the text, scanned from `i` on with `depth` open.
spec fn depth_from(s: Seq<char>, i: int, depth: int) -> int
    decreases s.len() - i,
{
    if i < 0 || i >= s.len() {
        depth
    } else {
        depth_from(s, i + 1, depth_after(s, i, depth))
    }
}

/// No arrow lies across the border of two texts.
spec fn apart(q: Seq<char>, t: Seq<char>) -> bool {
    q.len() == 0 || t.len() == 0 || q.last() != '-' || t[0] != '>'
}

proof fn lemma_commas_not_negative(s: Seq<char>, i: int, depth: int)
    ensures
        commas_from(s, i, depth) >= 0,
    decreases s.len() - i,
{
    if 0 <= i < s.len() {
        lemma_commas_not_negative(s, i + 1, depth_after(s, i, depth));
    }
}

/// A scan goes through the first of two texts as if the second were not there.
proof fn lemma_scan_head(q: Seq<char>, t: Seq<char>, i: int, depth: int)
    requires
        0 <= i <= q.len(),
    ensures
        depth_from(q + t, i, depth) == depth_from(q + t, q.len() as int, depth_from(q, i, depth)),
        commas_from(q + t, i, depth) == commas_from(q, i, depth) + commas_from(
            q + t,
            q.len() as int,
            depth_from(q, i, depth),
        ),
    decreases q.len() - i,
{
    if i < q.len() {
        assert((q + t)[i] == q[i]);
        assert(i > 0 ==> (q + t)[i - 1] == q[i - 1]);
        lemma_scan_head(q, t, i + 1, depth_after(q, i, depth));
    }
}

/// A scan goes through the second of two texts as if the first were not there.
proof fn lemma_scan_tail(q: Seq<char>, t: Seq<char>, j: int, depth: int)
    requires
        0 <= j <= t.len(),
        apart(q, t),
    ensures
        depth_from(q + t, q.len() + j, depth) == depth_from(t, j, depth),
        commas_from(q + t, q.len() + j, depth) == commas_from(t, j, depth),
    decreases t.len() - j,
{
    if j < t.len() {
        let k = q.len() + j;
        assert((q + t)[k] == t[j]);
        assert(k > 0 && j > 0 ==> (q + t)[k - 1] == t[j - 1]);
        assert(k > 0 && j == 0 ==> (q + t)[k - 1] == q.last());
        assert(depth_after(q + t, k, depth) == depth_after(t, j, depth));
        lemma_scan_tail(q, t, j + 1, depth_after(t, j, depth));
    }
}

proof fn lemma_scan_white(w: Seq<char>, i: int, depth: int)
    requires
        forall|k: int| 0 <= k < w.len() ==> is_white(#[trigger] w[k]),
    ensures
        depth_from(w, i, depth) == depth,
        commas_from(w, i, depth) == 0,
    decreases w.len() - i,
{
    if 0 <= i < w.len() {
        assert(is_white(w[i]));
        lemma_scan_white(w, i + 1, depth);
    }
}

/// Trimming takes white space off both ends, and what is left has none there.
proof fn lemma_trim(q: Seq<char>) -> (r: (Seq<char>, Seq<char>))
    ensures
        q == r.0 + trim(q) + r.1,
        forall|k: int| 0 <= k < r.0.len() ==> is_white(#[trigger] r.0[k]),
        forall|k: int| 0 <= k < r.1.len() ==> is_white(#[trigger] r.1[k]),
        trim(q).len() > 0 ==> !is_white(trim(q)[0]) && !is_white(trim(q).last()),
{
    let i = run_end(q, CharClass::White, 0);
    lemma_run_end(q, CharClass::White, 0);
    let m = trim_start(q);
    let j = run_start(m, CharClass::White, m.len() as int);
    lemma_run_start(m, CharClass::White, m.len() as int);
    let a = q.take(i);
    let b = m.skip(j);
    assert(q =~= a + trim(q) + b);
    assert forall|k: int| 0 <= k < a.len() implies is_white(#[trigger] a[k]) by {
        assert(CharClass::White.has(q[k]));
    }
    assert forall|k: int| 0 <= k < b.len() implies is_white(#[trigger] b[k]) by {
        assert(CharClass::White.has(m[j + k]));
    }
    (a, b)
}

/// A text without white space at its ends stays as it is.
proof fn lemma_trim_keeps(p: Seq<char>)
    requires
        p.len() > 0 ==> !is_white(p[0]) && !is_white(p.last()),
    ensures
        trim(p) == p,
{
    lemma_run_end(p, CharClass::White, 0);
    assert(run_end(p, CharClass::White, 0) == 0);
    assert(p.skip(0) =~= p);
    lemma_run_start(p, CharClass::White, p.len() as int);
    assert(p.take(p.len() as int) =~= p);
}

/// White space at the ends of a text changes nothing for a scan.
proof fn lemma_scan_trim(q: Seq<char>)
    ensures
        depth_from(trim(q), 0, 0) == depth_from(q, 0, 0),
        commas_from(trim(q), 0, 0) == commas_from(q, 0, 0),
{
    let (a, b) = lemma_trim(q);
    let m = trim(q);
    lemma_scan_white(a, 0, 0);
    lemma_scan_head(a, m, 0, 0);
    assert(apart(a, m)) by {
        if a.len() > 0 {
            assert(is_white(a[a.len() - 1]));
        }
    }
    lemma_scan_tail(a, m, 0, 0);
    let d = depth_from(m, 0, 0);
    lemma_scan_white(b, 0, d);
    lemma_scan_head(a + m, b, 0, 0);
    assert(apart(a + m, b)) by {
        if b.len() > 0 {
            assert(is_white(b[0]));
        }
    }
    lemma_scan_tail(a + m, b, 0, d);
}

proof fn lemma_scan_push(q: Seq<char>, c: char)
    ensures
        depth_from(q.push(c), 0, 0) == depth_after(
            q.push(c),
            q.len() as int,
            depth_from(q, 0, 0),
        ),
        commas_from(q.push(c), 0, 0) == commas_from(q, 0, 0) + (if c == ',' && depth_from(q, 0, 0)
            == 0 {
            1int
        } else {
            0int
        }),
{
    let t = seq![c];
    assert(q.push(c) =~= q + t);
    lemma_scan_head(q, t, 0, 0);
    let d = depth_from(q, 0, 0);
    let n = q.len() as int;
    let next = depth_after(q + t, n, d);
    assert(depth_from(q + t, n + 1, next) == next);
    assert(commas_from(q + t, n + 1, next) == 0);
}

// ---- arguments ---------------------------------------------------------------------------------

/// One argument: not blank, no white space round it, and no comma outside its brackets.
pub open spec fn is_argument(p: Seq<char>) -> bool {
    p.len() > 0 && trim(p) == p && commas_from(p, 0, 0) == 0
}

pub open spec fn all_arguments(args: Seq<Seq<char>>) -> bool {
    forall|k: int| 0 <= k < args.len() ==> is_argument(#[trigger] args[k])
}

/// Every text but the last closes its brackets.
spec fn all_closed(args: Seq<Seq<char>>) -> bool {
    forall|k: int| 0 <= k < args.len() - 1 ==> depth_from(#[trigger] args[k], 0, 0) == 0
}

proof fn lemma_unless_blank(q: Seq<char>)
    requires
        commas_from(q, 0, 0) == 0,
    ensures
        all_arguments(unless_blank(q)),
        unless_blank(q).len() <= 1,
        unless_blank(q).len() == 1 ==> depth_from(unless_blank(q)[0], 0, 0) == depth_from(q, 0, 0),
{
    let _ = lemma_trim(q);
    lemma_scan_trim(q);
    lemma_trim_keeps(trim(q));
}

proof fn lemma_args_from(s: Seq<char>, i: int, depth: int, start: int)
    requires
        0 <= start <= i <= s.len(),
        start > 0 ==> s[start - 1] == ',',
        depth == depth_from(s.subrange(start, i), 0, 0),
        commas_from(s.subrange(start, i), 0, 0) == 0,
    ensures
        all_arguments(args_from(s, i, depth, start)),
        all_closed(args_from(s, i, depth, start)),
    decreases s.len() - i,
{
    let q = s.subrange(start, i);
    if i == s.len() {
        lemma_unless_blank(q);
    } else if s[i] == ',' && depth == 0 {
        lemma_unless_blank(q);
        assert(s.subrange(i + 1, i + 1) =~= Seq::<char>::empty());
        lemma_args_from(s, i + 1, 0, i + 1);
        let first = unless_blank(q);
        let rest = args_from(s, i + 1, 0, i + 1);
        let all = first + rest;
        assert forall|k: int| 0 <= k < all.len() implies is_argument(#[trigger] all[k]) by {
            if k >= first.len() {
                assert(all[k] == rest[k - first.len()]);
            } else {
                assert(all[k] == first[k]);
            }
        }
        assert forall|k: int| 0 <= k < all.len() - 1 implies depth_from(#[trigger] all[k], 0, 0)
            == 0 by {
            if k >= first.len() {
                assert(all[k] == rest[k - first.len()]);
            } else {
                assert(all[k] == first[k]);
            }
        }
    } else {
        let longer = s.subrange(start, i + 1);
        assert(longer =~= q.push(s[i]));
        lemma_scan_push(q, s[i]);
        assert(i > start ==> longer[i - start - 1] == s[i - 1]);
        assert(depth_after(longer, i - start, depth) == depth_after(s, i, depth));
        lemma_args_from(s, i + 1, depth_after(s, i, depth), start);
    }
}

/// What a list of arguments is split into are arguments: none is blank, none has white space round
/// it, none has a comma outside its brackets.
pub proof fn lemma_split_into_arguments(s: Seq<char>)
    ensures
        all_arguments(args_from(s, 0, 0, 0)),
{
    assert(s.subrange(0, 0) =~= Seq::<char>::empty());
    lemma_args_from(s, 0, 0, 0);
}

// ---- joining -----------------------------------------------------------------------------------

/// The texts from the `k`-th on, with commas between them.
pub open spec fn joined(args: Seq<Seq<char>>, k: int) -> Seq<char>
    decreases args.len() - k,
{
    if k < 0 || k >= args.len() {
        Seq::empty()
    } else if k == args.len() - 1 {
        args[k]
    } else {
        args[k] + seq![','] + joined(args, k + 1)
    }
}

/// Splitting goes through an argument without a stop.
proof fn lemma_through_argument(s: Seq<char>, p: Seq<char>, start: int, j: int, depth: int)
    requires
        0 <= start,
        0 <= j <= p.len(),
        start + p.len() <= s.len(),
        p == s.subrange(start, start + p.len()),
        start > 0 ==> s[start - 1] == ',',
        commas_from(p, j, depth) == 0,
    ensures
        args_from(s, start + j, depth, start) == args_from(
            s,
            start + p.len(),
            depth_from(p, j, depth),
            start,
        ),
    decreases p.len() - j,
{
    if j < p.len() {
        assert(s[start + j] == p[j]);
        assert(j > 0 ==> s[start + j - 1] == p[j - 1]);
        assert(depth_after(s, start + j, depth) == depth_after(p, j, depth));
        lemma_commas_not_negative(p, j + 1, depth_after(p, j, depth));
        lemma_through_argument(s, p, start, j + 1, depth_after(p, j, depth));
    }
}

proof fn lemma_split_joined(args: Seq<Seq<char>>, k: int, before: Seq<char>)
    requires
        0 <= k <= args.len(),
        all_arguments(args),
        all_closed(args),
        before.len() > 0 ==> before.last() == ',',
    ensures
        args_from(before + joined(args, k), before.len() as int, 0, before.len() as int)
            == args.skip(k),
    decreases args.len() - k,
{
    let s = before + joined(args, k);
    let start = before.len() as int;
    if k == args.len() {
        assert(s.subrange(start, s.len() as int) =~= Seq::<char>::empty());
        lemma_trim_keeps(Seq::<char>::empty());
        assert(args.skip(k) =~= Seq::<Seq<char>>::empty());
    } else {
        let p = args[k];
        assert(is_argument(p));
        let end = start + p.len();
        assert(s.subrange(start, end) =~= p);
        assert(start > 0 ==> s[start - 1] == before.last());
        lemma_through_argument(s, p, start, 0, 0);
        assert(unless_blank(p) == seq![p]);
        if k == args.len() - 1 {
            assert(s.len() == end);
            assert(args.skip(k) =~= seq![p]);
        } else {
            assert(depth_from(p, 0, 0) == 0);
            assert(s[end] == ',');
            let next = before + p + seq![','];
            assert(s =~= next + joined(args, k + 1));
            lemma_split_joined(args, k + 1, next);
            assert(args.skip(k) =~= seq![p] + args.skip(k + 1));
        }
    }
}

/// Splitting arguments that are joined by commas gives the arguments back.
pub proof fn lemma_split_gives_back(s: Seq<char>)
    ensures
        args_from(joined(args_from(s, 0, 0, 0), 0), 0, 0, 0) == args_from(s, 0, 0, 0),
{
    assert(s.subrange(0, 0) =~= Seq::<char>::empty());
    lemma_args_from(s, 0, 0, 0);
    let args = args_from(s, 0, 0, 0);
    lemma_split_joined(args, 0, Seq::empty());
    assert(Seq::<char>::empty() + joined(args, 0) =~= joined(args, 0));
    assert(args.skip(0) =~= args);
}

} // verus!
