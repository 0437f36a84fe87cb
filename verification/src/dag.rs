//! Cycle detection and cycle removal for discovered causal graphs.
//!
//! The causal discoverer proposes directed edges from correlations; its
//! graph must stay acyclic.  Edges are kept greedily in the order proposed:
//! an edge that would close a cycle with the edges kept so far is dropped.
//!
//! A graph on vertices `0..n` is acyclic exactly when its vertices can be
//! ranked so that every edge goes from a lower to a higher rank.

use vstd::prelude::*;

use crate::history::{last_n, BoundedLog};

verus! {

/// A node of a discovered causal graph.
#[derive(Debug, Clone)]
pub struct CausalNode {
    /// Its index.
    pub id: usize,
    /// Its name.
    pub name: String,
}

/// Every edge joins two of the vertices `0..n`.
pub open spec fn in_range(n: nat, edges: Seq<(usize, usize)>) -> bool {
    forall|i: int| 0 <= i < edges.len() ==> (#[trigger] edges[i]).0 < n && edges[i].1 < n
}

/// `r` ranks the `n` vertices so that every edge rises.
pub open spec fn ranked(n: nat, edges: Seq<(usize, usize)>, r: Seq<int>) -> bool {
    &&& r.len() == n
    &&& forall|i: int| 0 <= i < edges.len() ==> r[(#[trigger] edges[i]).0 as int] < r[edges[i].1 as int]
}

/// The graph has no directed cycle: its vertices can be ranked.
pub open spec fn acyclic(n: nat, edges: Seq<(usize, usize)>) -> bool {
    exists|r: Seq<int>| ranked(n, edges, r)
}

/// Edges into `w` whose source is not yet done.
pub open spec fn open_in(edges: Seq<(usize, usize)>, done: Seq<bool>, w: int) -> nat
    decreases edges.len(),
{
    if edges.len() == 0 {
        0
    } else {
        open_in(edges.drop_last(), done, w) + if edges.last().1 == w && !done[edges.last().0 as int] {
            1nat
        } else {
            0nat
        }
    }
}

/// Edges from `v` to `w`.
pub open spec fn between(edges: Seq<(usize, usize)>, v: int, w: int) -> nat
    decreases edges.len(),
{
    if edges.len() == 0 {
        0
    } else {
        between(edges.drop_last(), v, w) + if edges.last().0 == v && edges.last().1 == w {
            1nat
        } else {
            0nat
        }
    }
}

proof fn lemma_open_in_done(edges: Seq<(usize, usize)>, done: Seq<bool>, v: int, w: int)
    requires
        0 <= v < done.len(),
        !done[v],
        in_range(done.len(), edges),
    ensures
        open_in(edges, done.update(v, true), w) + between(edges, v, w) == open_in(edges, done, w),
    decreases edges.len(),
{
    if edges.len() > 0 {
        let p = edges.drop_last();
        assert forall|i: int| 0 <= i < p.len() implies (#[trigger] p[i]).0 < done.len() && p[i].1 < done.len() by {
            assert(p[i] == edges[i]);
        }
        assert(edges[edges.len() - 1].0 < done.len());
        lemma_open_in_done(p, done, v, w);
    }
}

proof fn lemma_between_prefix(edges: Seq<(usize, usize)>, j: int, v: int, w: int)
    requires
        0 <= j <= edges.len(),
    ensures
        between(edges.take(j), v, w) <= between(edges, v, w),
    decreases edges.len() - j,
{
    if j < edges.len() {
        lemma_between_prefix(edges, j + 1, v, w);
        assert(edges.take(j + 1).drop_last() =~= edges.take(j));
    } else {
        assert(edges.take(j) =~= edges);
    }
}

proof fn lemma_open_in_witness(edges: Seq<(usize, usize)>, done: Seq<bool>, w: int)
    requires
        open_in(edges, done, w) > 0,
    ensures
        exists|i: int| 0 <= i < edges.len() && (#[trigger] edges[i]).1 == w && !done[edges[i].0 as int],
    decreases edges.len(),
{
    let p = edges.drop_last();
    if open_in(p, done, w) > 0 {
        lemma_open_in_witness(p, done, w);
        let i = choose|i: int| 0 <= i < p.len() && (#[trigger] p[i]).1 == w && !done[p[i].0 as int];
        assert(edges[i] == p[i]);
    } else {
        assert(edges[edges.len() - 1].1 == w);
    }
}

proof fn lemma_open_in_zero(edges: Seq<(usize, usize)>, done: Seq<bool>, w: int)
    requires
        open_in(edges, done, w) == 0,
    ensures
        forall|i: int| 0 <= i < edges.len() && (#[trigger] edges[i]).1 == w ==> done[edges[i].0 as int],
    decreases edges.len(),
{
    if edges.len() > 0 {
        let p = edges.drop_last();
        lemma_open_in_zero(p, done, w);
        assert forall|i: int| 0 <= i < edges.len() && (#[trigger] edges[i]).1 == w implies done[edges[i].0 as int] by {
            if i < p.len() {
                assert(edges[i] == p[i]);
            }
        }
    }
}

/// Among the vertices `0..k` not done, one of least rank (if any).
proof fn lemma_least_open(done: Seq<bool>, r: Seq<int>, k: int) -> (m: int)
    requires
        0 <= k <= done.len(),
        done.len() == r.len(),
        exists|u: int| 0 <= u < k && !done[u],
    ensures
        0 <= m < k,
        !done[m],
        forall|u: int| 0 <= u < k && !done[u] ==> r[m] <= r[u],
    decreases k,
{
    if exists|u: int| 0 <= u < k - 1 && !done[u] {
        let m0 = lemma_least_open(done, r, k - 1);
        if !done[k - 1] && r[k - 1] < r[m0] {
            k - 1
        } else {
            m0
        }
    } else {
        k - 1
    }
}

/// When every vertex not done has an edge coming in from a vertex not done,
/// and some vertex is not done, the graph has a cycle.
proof fn lemma_stuck_means_cycle(n: nat, edges: Seq<(usize, usize)>, done: Seq<bool>)
    requires
        done.len() == n,
        in_range(n, edges),
        exists|u: int| 0 <= u < n && !done[u],
        forall|u: int| 0 <= u < n && !done[u] ==> #[trigger] open_in(edges, done, u) > 0,
    ensures
        !acyclic(n, edges),
{
    if acyclic(n, edges) {
        let r = choose|r: Seq<int>| ranked(n, edges, r);
        let m = lemma_least_open(done, r, n as int);
        assert(open_in(edges, done, m) > 0);
        lemma_open_in_witness(edges, done, m);
        let i = choose|i: int| 0 <= i < edges.len() && (#[trigger] edges[i]).1 == m && !done[edges[i].0 as int];
        assert(r[edges[i].0 as int] < r[m]);
        assert(r[m] <= r[edges[i].0 as int]);
    }
}

/// Whether the graph on vertices `0..n` with `edges` has a directed cycle.
pub fn has_cycle(n: usize, edges: &[(usize, usize)]) -> (b: bool)
    requires
        in_range(n as nat, edges@),
    ensures
        b == !acyclic(n as nat, edges@),
{
    let ghost e = edges@;
    let mut done: Vec<bool> = Vec::new();
    let mut rem: Vec<usize> = Vec::new();
    let mut pos: Vec<usize> = Vec::new();
    let mut v: usize = 0;
    while v < n
        invariant
            v <= n,
            done@ == Seq::new(v as nat, |k: int| false),
            pos@.len() == v,
            rem@.len() == v,
            forall|k: int| 0 <= k < v ==> #[trigger] rem@[k] == 0,
        decreases n - v,
    {
        done.push(false);
        rem.push(0);
        pos.push(0);
        v = v + 1;
        assert(done@ =~= Seq::new(v as nat, |k: int| false));
    }
    // count the edges into each vertex
    let mut i: usize = 0;
    while i < edges.len()
        invariant
            i <= e.len(),
            e == edges@,
            in_range(n as nat, e),
            done@ == Seq::new(n as nat, |k: int| false),
            rem@.len() == n,
            forall|w: int| 0 <= w < n ==> #[trigger] rem@[w] == open_in(e.take(i as int), done@, w),
            forall|w: int| 0 <= w < n ==> #[trigger] rem@[w] <= i,
        decreases e.len() - i,
    {
        let (a, b) = edges[i];
        proof {
            assert(e.take(i + 1).drop_last() =~= e.take(i as int));
            assert(e[i as int].1 < n);
        }
        let c = rem[b] + 1;
        rem.set(b, c);
        i = i + 1;
    }
    assert(e.take(e.len() as int) =~= e);
    proof {
        lemma_done_count_none(done@);
    }
    // take vertices with no open edge coming in, one at a time
    let mut count: usize = 0;
    let mut stuck = false;
    while count < n && !stuck
        invariant
            e == edges@,
            in_range(n as nat, e),
            done@.len() == n,
            rem@.len() == n,
            pos@.len() == n,
            count <= n,
            forall|w: int| 0 <= w < n ==> #[trigger] rem@[w] == open_in(e, done@, w),
            forall|w: int| 0 <= w < n && done@[w] ==> #[trigger] pos@[w] < count,
            forall|k: int|
                0 <= k < e.len() && done@[(#[trigger] e[k]).1 as int] ==> done@[e[k].0 as int] && pos@[e[k].0 as int]
                    < pos@[e[k].1 as int],
            done_count(done@) == count,
            stuck ==> exists|u: int| 0 <= u < n && !done@[u],
            stuck ==> forall|u: int| 0 <= u < n && !done@[u] ==> #[trigger] open_in(e, done@, u) > 0,
        decreases n - count + if stuck { 0int } else { 1int },
    {
        let mut found: Option<usize> = None;
        let mut w: usize = 0;
        while w < n
            invariant
                w <= n,
                done@.len() == n,
                rem@.len() == n,
                found matches Some(x) ==> x < n && !done@[x as int] && rem@[x as int] == 0,
                found is None ==> forall|u: int| 0 <= u < w && !done@[u] ==> rem@[u] > 0,
            decreases n - w,
        {
            if found.is_none() && !done[w] && rem[w] == 0 {
                found = Some(w);
            }
            w = w + 1;
        }
        match found {
            None => {
                proof {
                    lemma_done_count_lt(done@);
                }
                stuck = true;
            },
            Some(x) => {
                let ghost d0 = done@;
                proof {
                    lemma_open_in_zero(e, d0, x as int);
                    lemma_done_count_add(d0, x as int);
                }
                done.set(x, true);
                pos.set(x, count);
                let ghost d1 = done@;
                // edges out of x no longer come from an open vertex
                let mut j: usize = 0;
                while j < edges.len()
                    invariant
                        j <= e.len(),
                        e == edges@,
                        in_range(n as nat, e),
                        x < n,
                        rem@.len() == n,
                        d1 == d0.update(x as int, true),
                        !d0[x as int],
                        d0.len() == n,
                        forall|w: int|
                            0 <= w < n ==> #[trigger] rem@[w] + between(e.take(j as int), x as int, w) == open_in(
                                e,
                                d0,
                                w,
                            ),
                    decreases e.len() - j,
                {
                    let (a, b) = edges[j];
                    proof {
                        assert(e.take(j + 1).drop_last() =~= e.take(j as int));
                        assert(e[j as int].1 < n);
                    }
                    if a == x {
                        proof {
                            lemma_open_in_done(e, d0, x as int, b as int);
                            lemma_between_prefix(e, j + 1, x as int, b as int);
                        }
                        let c = rem[b] - 1;
                        rem.set(b, c);
                    }
                    j = j + 1;
                }
                proof {
                    assert(e.take(e.len() as int) =~= e);
                    assert forall|w: int| 0 <= w < n implies #[trigger] rem@[w] == open_in(e, done@, w) by {
                        lemma_open_in_done(e, d0, x as int, w);
                    }
                    assert forall|k: int|
                        0 <= k < e.len() && done@[(#[trigger] e[k]).1 as int] implies done@[e[k].0 as int] && pos@[e[k].0
                            as int] < pos@[e[k].1 as int] by {
                        if e[k].1 as int == x as int {
                            assert(d0[e[k].0 as int]);
                        } else {
                            assert(d0[e[k].1 as int]);
                        }
                    }
                }
                count = count + 1;
            },
        }
    }
    if stuck {
        proof {
            lemma_stuck_means_cycle(n as nat, e, done@);
        }
        true
    } else {
        proof {
            lemma_all_done(done@);
            let r = Seq::new(n as nat, |w: int| pos@[w] as int);
            assert(ranked(n as nat, e, r)) by {
                assert forall|k: int| 0 <= k < e.len() implies r[(#[trigger] e[k]).0 as int] < r[e[k].1 as int] by {
                    assert(done@[e[k].1 as int]);
                }
            }
        }
        false
    }
}

/// Number of vertices done.
pub open spec fn done_count(done: Seq<bool>) -> nat
    decreases done.len(),
{
    if done.len() == 0 {
        0
    } else {
        done_count(done.drop_last()) + if done.last() {
            1nat
        } else {
            0nat
        }
    }
}

proof fn lemma_done_count_add(done: Seq<bool>, x: int)
    requires
        0 <= x < done.len(),
        !done[x],
    ensures
        done_count(done.update(x, true)) == done_count(done) + 1,
    decreases done.len(),
{
    if x < done.len() - 1 {
        assert(done.update(x, true).drop_last() =~= done.drop_last().update(x, true));
        lemma_done_count_add(done.drop_last(), x);
    } else {
        assert(done.update(x, true).drop_last() =~= done.drop_last());
    }
}

proof fn lemma_done_count_none(done: Seq<bool>)
    requires
        forall|u: int| 0 <= u < done.len() ==> !done[u],
    ensures
        done_count(done) == 0,
    decreases done.len(),
{
    if done.len() > 0 {
        lemma_done_count_none(done.drop_last());
    }
}

proof fn lemma_done_count_le(done: Seq<bool>)
    ensures
        done_count(done) <= done.len(),
    decreases done.len(),
{
    if done.len() > 0 {
        lemma_done_count_le(done.drop_last());
    }
}

proof fn lemma_done_count_lt(done: Seq<bool>)
    requires
        done_count(done) < done.len(),
    ensures
        exists|u: int| 0 <= u < done.len() && !done[u],
    decreases done.len(),
{
    let p = done.drop_last();
    if done.last() {
        lemma_done_count_lt(p);
        let u = choose|u: int| 0 <= u < p.len() && !p[u];
        assert(!done[u]);
    } else {
        assert(!done[done.len() - 1]);
    }
}

proof fn lemma_all_done(done: Seq<bool>)
    requires
        done_count(done) == done.len(),
    ensures
        forall|u: int| 0 <= u < done.len() ==> done[u],
    decreases done.len(),
{
    if done.len() > 0 {
        let p = done.drop_last();
        lemma_done_count_le(p);
        lemma_all_done(p);
        assert forall|u: int| 0 <= u < done.len() implies done[u] by {
            if u < p.len() {
                assert(done[u] == p[u]);
            }
        }
    }
}

/// The edges at the given positions.
pub open spec fn chosen(edges: Seq<(usize, usize)>, idx: Seq<usize>) -> Seq<(usize, usize)> {
    idx.map_values(|i: usize| edges[i as int])
}

/// The positions of the edges kept when the first `k` edges are taken in
/// order and each is dropped if it would close a cycle with those kept.
pub open spec fn greedy_keep(n: nat, edges: Seq<(usize, usize)>, k: nat) -> Seq<usize>
    decreases k,
{
    if k == 0 {
        Seq::empty()
    } else {
        let prev = greedy_keep(n, edges, (k - 1) as nat);
        let tried = prev.push((k - 1) as usize);
        if acyclic(n, chosen(edges, tried)) {
            tried
        } else {
            prev
        }
    }
}

/// The positions of the edges kept by greedy cycle removal: each edge in
/// order is kept unless it would close a cycle with the edges kept before
/// it.  The kept edges form an acyclic graph.
pub fn remove_cycles(n: usize, edges: &[(usize, usize)]) -> (kept: Vec<usize>)
    requires
        in_range(n as nat, edges@),
    ensures
        kept@ == greedy_keep(n as nat, edges@, edges@.len()),
        acyclic(n as nat, chosen(edges@, kept@)),
{
    let ghost e = edges@;
    let mut kept: Vec<usize> = Vec::new();
    let mut sel: Vec<(usize, usize)> = Vec::new();
    let mut i: usize = 0;
    proof {
        let r = Seq::new(n as nat, |w: int| 0int);
        assert(chosen(e, Seq::<usize>::empty()) =~= Seq::<(usize, usize)>::empty());
        assert(ranked(n as nat, Seq::<(usize, usize)>::empty(), r));
    }
    while i < edges.len()
        invariant
            i <= e.len(),
            e == edges@,
            in_range(n as nat, e),
            kept@ == greedy_keep(n as nat, e, i as nat),
            sel@ == chosen(e, kept@),
            forall|t: int| 0 <= t < kept@.len() ==> #[trigger] kept@[t] < i,
            acyclic(n as nat, sel@),
        decreases e.len() - i,
    {
        sel.push(edges[i]);
        proof {
            assert(sel@ =~= chosen(e, kept@.push(i)));
            assert forall|t: int| 0 <= t < sel@.len() implies (#[trigger] sel@[t]).0 < n && sel@[t].1 < n by {
                if t < kept@.len() {
                    assert(sel@[t] == e[kept@[t] as int]);
                } else {
                    assert(sel@[t] == e[i as int]);
                }
            }
        }
        if has_cycle(n, sel.as_slice()) {
            sel.pop();
            proof {
                assert(sel@ =~= chosen(e, kept@));
            }
        } else {
            kept.push(i);
        }
        i = i + 1;
    }
    kept
}


/// The pairs `(i, j)` for `i < j < n` in row `i`, in order of `j`.
pub open spec fn row_pairs(i: int, n: int) -> Seq<(usize, usize)> {
    Seq::new((n - i - 1) as nat, |k: int| (i as usize, (i + 1 + k) as usize))
}

/// The pairs `(i, j)` with `i < rows` and `i < j < n`, row by row.
pub open spec fn pairs_upto(n: int, rows: int) -> Seq<(usize, usize)>
    decreases rows,
{
    if rows <= 0 {
        Seq::empty()
    } else {
        pairs_upto(n, rows - 1) + row_pairs(rows - 1, n)
    }
}

/// Every pair `(i, j)` with `i < j < n`, in lexicographic order: the
/// candidate edges between `n` variables.
pub fn upper_pairs(n: usize) -> (r: Vec<(usize, usize)>)
    ensures
        r@ == pairs_upto(n as int, n as int),
        forall|k: int| 0 <= k < r@.len() ==> (#[trigger] r@[k]).0 < r@[k].1 && r@[k].1 < n,
{
    let mut r: Vec<(usize, usize)> = Vec::new();
    let mut i: usize = 0;
    while i < n
        invariant
            i <= n,
            r@ == pairs_upto(n as int, i as int),
            forall|k: int| 0 <= k < r@.len() ==> (#[trigger] r@[k]).0 < r@[k].1 && r@[k].1 < n,
        decreases n - i,
    {
        let ghost base = r@;
        let mut j: usize = i + 1;
        while j < n
            invariant
                i < n,
                i + 1 <= j <= n,
                r@ == base + row_pairs(i as int, n as int).take(j - i - 1),
                forall|k: int| 0 <= k < r@.len() ==> (#[trigger] r@[k]).0 < r@[k].1 && r@[k].1 < n,
            decreases n - j,
        {
            r.push((i, j));
            proof {
                assert(row_pairs(i as int, n as int).take(j - i) =~= row_pairs(i as int, n as int).take(
                    j - i - 1,
                ).push((i, j)));
            }
            j = j + 1;
        }
        assert(row_pairs(i as int, n as int).take(n - i - 1) =~= row_pairs(i as int, n as int));
        i = i + 1;
    }
    r
}

/// Installs the edges proposed for a graph on `n` vertices: greedy cycle
/// removal keeps the edges that close no cycle, and the number kept is
/// recorded in the edge-count history.
pub fn settle_edges(n: usize, proposed: &[(usize, usize)], history: &mut BoundedLog<usize>) -> (kept: Vec<
    usize,
>)
    requires
        in_range(n as nat, proposed@),
        old(history).wf(),
    ensures
        kept@ == greedy_keep(n as nat, proposed@, proposed@.len()),
        acyclic(n as nat, chosen(proposed@, kept@)),
        final(history).wf(),
        final(history).bound() == old(history).bound(),
        final(history).entries() == last_n(old(history).entries().push(kept@.len() as usize), old(history).bound()),
{
    let kept = remove_cycles(n, proposed);
    history.push(kept.len());
    kept
}

/// The edge of pair `p` in the direction `forward` gives: `p` itself, or
/// reversed.
pub open spec fn oriented(p: (usize, usize), forward: bool) -> (usize, usize) {
    if forward {
        p
    } else {
        (p.1, p.0)
    }
}

/// Among the first `k` candidate pairs, the strong ones, each with its pair
/// index and oriented by `forward`, in order.
pub open spec fn proposals(pairs: Seq<(usize, usize)>, strong: Seq<bool>, forward: Seq<bool>, k: int) -> Seq<
    (usize, (usize, usize)),
>
    decreases k,
{
    if k <= 0 {
        Seq::empty()
    } else {
        let prev = proposals(pairs, strong, forward, k - 1);
        if strong[k - 1] {
            prev.push(((k - 1) as usize, oriented(pairs[k - 1], forward[k - 1])))
        } else {
            prev
        }
    }
}

/// The edges of a list of proposals.
pub open spec fn proposal_edges(ps: Seq<(usize, (usize, usize))>) -> Seq<(usize, usize)> {
    ps.map_values(|x: (usize, (usize, usize))| x.1)
}

proof fn lemma_proposals(n: nat, pairs: Seq<(usize, usize)>, strong: Seq<bool>, forward: Seq<bool>, k: int)
    requires
        0 <= k <= pairs.len(),
        pairs.len() <= usize::MAX,
        strong.len() == pairs.len(),
        forward.len() == pairs.len(),
        forall|i: int| 0 <= i < pairs.len() ==> (#[trigger] pairs[i]).0 < pairs[i].1 && pairs[i].1 < n,
    ensures
        ({
            let ps = proposals(pairs, strong, forward, k);
            &&& ps.len() <= k
            &&& forall|i: int|
                0 <= i < ps.len() ==> (#[trigger] ps[i]).0 < k && strong[ps[i].0 as int] && ps[i].1 == oriented(
                    pairs[ps[i].0 as int],
                    forward[ps[i].0 as int],
                )
            &&& forall|i: int, j: int| 0 <= i < j < ps.len() ==> (#[trigger] ps[i]).0 < (#[trigger] ps[j]).0
        }),
    decreases k,
{
    if k > 0 {
        lemma_proposals(n, pairs, strong, forward, k - 1);
        let prev = proposals(pairs, strong, forward, k - 1);
        let ps = proposals(pairs, strong, forward, k);
        assert forall|i: int| 0 <= i < prev.len() implies #[trigger] ps[i] == prev[i] by {}
        assert forall|i: int, j: int| 0 <= i < j < ps.len() implies (#[trigger] ps[i]).0 < (#[trigger] ps[j]).0 by {
            assert(ps[i] == prev[i]);
            if j < prev.len() {
                assert(ps[j] == prev[j]);
            }
        }
    }
}

proof fn lemma_greedy_increasing(n: nat, edges: Seq<(usize, usize)>, k: nat)
    requires
        k <= usize::MAX,
    ensures
        greedy_keep(n, edges, k).len() <= k,
        forall|i: int| 0 <= i < greedy_keep(n, edges, k).len() ==> #[trigger] greedy_keep(n, edges, k)[i] < k,
        forall|i: int, j: int|
            0 <= i < j < greedy_keep(n, edges, k).len() ==> #[trigger] greedy_keep(n, edges, k)[i]
                < #[trigger] greedy_keep(n, edges, k)[j],
    decreases k,
{
    if k > 0 {
        lemma_greedy_increasing(n, edges, (k - 1) as nat);
        let prev = greedy_keep(n, edges, (k - 1) as nat);
        let g = greedy_keep(n, edges, k);
        assert forall|i: int| 0 <= i < prev.len() implies #[trigger] g[i] == prev[i] by {}
        assert forall|i: int, j: int| 0 <= i < j < g.len() implies #[trigger] g[i] < #[trigger] g[j] by {
            assert(g[i] == prev[i]);
            if j < prev.len() {
                assert(g[j] == prev[j]);
            }
        }
    }
}

/// Turns the candidate pairs of `n` variables (those of `upper_pairs`)
/// into a causal graph: the pairs marked `strong` are proposed, each
/// oriented by `forward` (from the pair's first variable when true), then
/// greedy cycle removal keeps the proposals that close no cycle, and the
/// number kept is recorded in `history`.  Each result is (pair index, from,
/// to).
pub fn discover_edges(n: usize, strong: &[bool], forward: &[bool], history: &mut BoundedLog<usize>) -> (r: Vec<
    (usize, usize, usize),
>)
    requires
        strong@.len() == pairs_upto(n as int, n as int).len(),
        forward@.len() == strong@.len(),
        old(history).wf(),
    ensures
        ({
            let ps = proposals(pairs_upto(n as int, n as int), strong@, forward@, strong@.len() as int);
            let es = proposal_edges(ps);
            let kept = greedy_keep(n as nat, es, es.len());
            &&& r@.len() == kept.len()
            &&& forall|t: int|
                0 <= t < r@.len() ==> #[trigger] r@[t] == (
                    ps[kept[t] as int].0,
                    ps[kept[t] as int].1.0,
                    ps[kept[t] as int].1.1,
                )
            &&& acyclic(n as nat, chosen(es, kept))
        }),
        forall|t: int|
            0 <= t < r@.len() ==> (#[trigger] r@[t]).0 < strong@.len() && strong@[r@[t].0 as int] && (
                r@[t].1,
                r@[t].2,
            ) == oriented(pairs_upto(n as int, n as int)[r@[t].0 as int], forward@[r@[t].0 as int]),
        forall|t: int| 0 <= t < r@.len() ==> (#[trigger] r@[t]).1 != r@[t].2 && r@[t].1 < n && r@[t].2 < n,
        forall|s: int, t: int| 0 <= s < t < r@.len() ==> (#[trigger] r@[s]).0 < (#[trigger] r@[t]).0,
        final(history).wf(),
        final(history).bound() == old(history).bound(),
        final(history).entries() == last_n(old(history).entries().push(r@.len() as usize), old(history).bound()),
{
    let pairs = upper_pairs(n);
    let ghost pp = pairs@;
    let mut proposed: Vec<(usize, usize)> = Vec::new();
    let mut idx: Vec<usize> = Vec::new();
    let mut k: usize = 0;
    while k < pairs.len()
        invariant
            k <= pairs@.len(),
            pp == pairs@,
            pp == pairs_upto(n as int, n as int),
            strong@.len() == pp.len(),
            forward@.len() == pp.len(),
            proposed@ == proposal_edges(proposals(pp, strong@, forward@, k as int)),
            idx@ == proposals(pp, strong@, forward@, k as int).map_values(|x: (usize, (usize, usize))| x.0),
        decreases pairs@.len() - k,
    {
        if strong[k] {
            let p = pairs[k];
            let e = if forward[k] {
                p
            } else {
                (p.1, p.0)
            };
            proposed.push(e);
            idx.push(k);
            proof {
                let prev = proposals(pp, strong@, forward@, k as int);
                let nx = proposals(pp, strong@, forward@, k + 1);
                assert(nx == prev.push((k as usize, oriented(pp[k as int], forward@[k as int]))));
                assert(proposed@ =~= proposal_edges(nx));
                assert(idx@ =~= nx.map_values(|x: (usize, (usize, usize))| x.0));
            }
        }
        k = k + 1;
    }
    let ghost ps = proposals(pp, strong@, forward@, pp.len() as int);
    let ghost es = proposed@;
    proof {
        lemma_proposals(n as nat, pp, strong@, forward@, pp.len() as int);
        assert forall|i: int| 0 <= i < es.len() implies (#[trigger] es[i]).0 < n && es[i].1 < n by {
            assert(es[i] == ps[i].1);
            assert(pp[ps[i].0 as int].0 < pp[ps[i].0 as int].1);
        }
    }
    let kept = settle_edges(n, proposed.as_slice(), history);
    proof {
        lemma_greedy_increasing(n as nat, es, es.len());
    }
    let mut r: Vec<(usize, usize, usize)> = Vec::new();
    let mut t: usize = 0;
    while t < kept.len()
        invariant
            t <= kept@.len(),
            kept@ == greedy_keep(n as nat, es, es.len()),
            es == proposed@,
            es == proposal_edges(ps),
            idx@ == ps.map_values(|x: (usize, (usize, usize))| x.0),
            forall|i: int| 0 <= i < kept@.len() ==> #[trigger] kept@[i] < es.len(),
            r@.len() == t,
            forall|u: int|
                0 <= u < t ==> #[trigger] r@[u] == (
                    ps[kept@[u] as int].0,
                    ps[kept@[u] as int].1.0,
                    ps[kept@[u] as int].1.1,
                ),
        decreases kept@.len() - t,
    {
        let q = kept[t];
        let e = proposed[q];
        r.push((idx[q], e.0, e.1));
        t = t + 1;
    }
    proof {
        assert forall|u: int| 0 <= u < r@.len() implies (#[trigger] r@[u]).1 != r@[u].2 && r@[u].1 < n && r@[u].2 < n by {
            let q = kept@[u] as int;
            assert(pp[ps[q].0 as int].0 < pp[ps[q].0 as int].1);
        }
        assert forall|a: int, b: int| 0 <= a < b < r@.len() implies (#[trigger] r@[a]).0 < (#[trigger] r@[b]).0 by {
            assert(kept@[a] < kept@[b]);
        }
    }
    r
}

} // verus!
