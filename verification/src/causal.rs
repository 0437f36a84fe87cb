//! Causal reasoning structure and failure analysis.
//!
//! The causal graph holds named nodes and directed cause -> effect edges; its
//! topological order is computed with Kahn's algorithm.  The failure analyzer
//! tallies failed predictions by kind and suggests a remedy for each kind.

use vstd::prelude::*;
use vstd::string::*;

verus! {

broadcast use vstd::seq_lib::group_seq_properties;

/// A node of the causal graph.
#[derive(Debug, Clone, Copy, PartialEq, Eq, Hash, Structural)]
pub struct NodeId(pub u32);

/// A directed edge `(parent, child)`.
pub type Edge = (NodeId, NodeId);

/// The nodes of a graph: the named nodes, in the order first named, then the
/// children of edges that are not named, in the order of the edges.
pub open spec fn graph_nodes(named: Seq<NodeId>, edges: Seq<Edge>) -> Seq<NodeId>
    decreases edges.len(),
{
    if edges.len() == 0 {
        named
    } else {
        let prev = graph_nodes(named, edges.drop_last());
        if prev.contains(edges.last().1) {
            prev
        } else {
            prev.push(edges.last().1)
        }
    }
}

/// Number of edges `parent -> child` in `edges`.
pub open spec fn edge_count(edges: Seq<Edge>, parent: NodeId, child: NodeId) -> nat
    decreases edges.len(),
{
    if edges.len() == 0 {
        0
    } else {
        edge_count(edges.drop_last(), parent, child) + if edges.last() == (parent, child) {
            1nat
        } else {
            0nat
        }
    }
}

/// Number of edges into `child` whose parent is not in `done`.
pub open spec fn pending_in(edges: Seq<Edge>, child: NodeId, done: Seq<NodeId>) -> nat
    decreases edges.len(),
{
    if edges.len() == 0 {
        0
    } else {
        pending_in(edges.drop_last(), child, done) + if edges.last().1 == child && !done.contains(
            edges.last().0,
        ) {
            1nat
        } else {
            0nat
        }
    }
}

/// `order` lists distinct nodes of the graph; every listed node comes after
/// all of its parents; and every node of the graph that is not listed has a
/// parent that is not listed (so the unlisted nodes are exactly those that
/// lie on, or below, a cycle or an edge from an unknown node).
pub open spec fn is_kahn_order(named: Seq<NodeId>, edges: Seq<Edge>, order: Seq<NodeId>) -> bool {
    &&& order.no_duplicates()
    &&& forall|i: int| 0 <= i < order.len() ==> graph_nodes(named, edges).contains(#[trigger] order[i])
    &&& forall|i: int, e: int|
        #![trigger order[i], edges[e]]
        0 <= i < order.len() && 0 <= e < edges.len() && edges[e].1 == order[i] ==> exists|j: int|
            0 <= j < i && order[j] == edges[e].0
    &&& forall|n: NodeId|
        graph_nodes(named, edges).contains(n) && !order.contains(n) ==> exists|e: int|
            0 <= e < edges.len() && #[trigger] edges[e].1 == n && !order.contains(edges[e].0)
}

/// Every edge goes from a node of lower rank to a node of higher rank.
pub open spec fn climbs(edges: Seq<Edge>, rank: spec_fn(NodeId) -> int) -> bool {
    forall|e: int| #![trigger edges[e]] 0 <= e < edges.len() ==> rank(edges[e].0) < rank(edges[e].1)
}

/// The edges admit a ranking of nodes that every edge climbs: they form no
/// cycle.
pub open spec fn acyclic_edges(edges: Seq<Edge>) -> bool {
    exists|rank: spec_fn(NodeId) -> int| #[trigger] climbs(edges, rank)
}

/// On an acyclic graph whose every edge starts at a node of the graph, a
/// Kahn order lists every node of the graph, each once, and nothing else.
pub proof fn law_topological_order_complete(named: Seq<NodeId>, edges: Seq<Edge>, order: Seq<NodeId>)
    requires
        is_kahn_order(named, edges, order),
        acyclic_edges(edges),
        forall|e: int| 0 <= e < edges.len() ==> graph_nodes(named, edges).contains(#[trigger] edges[e].0),
    ensures
        order.no_duplicates(),
        forall|n: NodeId| graph_nodes(named, edges).contains(n) <==> order.contains(n),
{
    let g = graph_nodes(named, edges);
    let rank = choose|rank: spec_fn(NodeId) -> int| #[trigger] climbs(edges, rank);
    assert forall|n: NodeId| g.contains(n) implies order.contains(n) by {
        if !order.contains(n) {
            let i = choose|i: int| 0 <= i < g.len() && g[i] == n;
            assert(!order.contains(g[i]));
            let m = lemma_least_unlisted(g, order, rank, g.len() as int);
            let e = choose|e: int| 0 <= e < edges.len() && #[trigger] edges[e].1 == g[m] && !order.contains(edges[e].0);
            let p = edges[e].0;
            assert(rank(p) < rank(g[m]));
            assert(g.contains(p));
            let j = choose|j: int| 0 <= j < g.len() && g[j] == p;
            assert(!order.contains(g[j]));
            assert(false);
        }
    }
    assert forall|n: NodeId| order.contains(n) implies g.contains(n) by {
        let i = choose|i: int| 0 <= i < order.len() && order[i] == n;
        assert(g.contains(order[i]));
    }
}

/// Among the first `k` nodes of `s`, an unlisted one of least rank.
proof fn lemma_least_unlisted(s: Seq<NodeId>, order: Seq<NodeId>, rank: spec_fn(NodeId) -> int, k: int) -> (m: int)
    requires
        0 < k <= s.len(),
        exists|i: int| 0 <= i < k && !order.contains(#[trigger] s[i]),
    ensures
        0 <= m < k,
        !order.contains(s[m]),
        forall|j: int| 0 <= j < k && !order.contains(#[trigger] s[j]) ==> rank(s[m]) <= rank(s[j]),
    decreases k,
{
    if exists|i: int| 0 <= i < k - 1 && !order.contains(#[trigger] s[i]) {
        let m0 = lemma_least_unlisted(s, order, rank, k - 1);
        if !order.contains(s[k - 1]) && rank(s[k - 1]) < rank(s[m0]) {
            k - 1
        } else {
            m0
        }
    } else {
        k - 1
    }
}

proof fn lemma_graph_nodes_prefix(named: Seq<NodeId>, edges: Seq<Edge>)
    ensures
        graph_nodes(named, edges).len() >= named.len(),
        forall|i: int| 0 <= i < named.len() ==> graph_nodes(named, edges)[i] == named[i],
        forall|n: NodeId| named.contains(n) ==> graph_nodes(named, edges).contains(n),
        forall|e: int| 0 <= e < edges.len() ==> graph_nodes(named, edges).contains(#[trigger] edges[e].1),
        forall|n: NodeId| graph_nodes(named, edges).contains(n) ==> named.contains(n) || exists|e: int|
            0 <= e < edges.len() && #[trigger] edges[e].1 == n,
    decreases edges.len(),
{
    if edges.len() > 0 {
        let prev = edges.drop_last();
        lemma_graph_nodes_prefix(named, prev);
        let g = graph_nodes(named, edges);
        assert forall|n: NodeId| named.contains(n) implies g.contains(n) by {
            assert(graph_nodes(named, prev).contains(n));
            let k = choose|k: int| 0 <= k < graph_nodes(named, prev).len() && graph_nodes(named, prev)[k] == n;
            assert(g[k] == n);
        }
        assert forall|e: int| 0 <= e < edges.len() implies g.contains(#[trigger] edges[e].1) by {
            if e < prev.len() {
                assert(prev[e] == edges[e]);
                assert(graph_nodes(named, prev).contains(prev[e].1));
                let k = choose|k: int| 0 <= k < graph_nodes(named, prev).len() && graph_nodes(named, prev)[k] == prev[e].1;
                assert(g[k] == edges[e].1);
            } else {
                if !graph_nodes(named, prev).contains(edges.last().1) {
                    assert(g[g.len() - 1] == edges.last().1);
                }
            }
        }
        assert forall|n: NodeId| g.contains(n) implies named.contains(n) || exists|e: int|
            0 <= e < edges.len() && #[trigger] edges[e].1 == n by {
            if graph_nodes(named, prev).contains(n) {
                if !named.contains(n) {
                    let e = choose|e: int| 0 <= e < prev.len() && #[trigger] prev[e].1 == n;
                    assert(edges[e] == prev[e]);
                }
            } else {
                assert(n == edges.last().1);
                assert(edges[edges.len() - 1].1 == n);
            }
        }
    }
}

proof fn lemma_graph_nodes_distinct(named: Seq<NodeId>, edges: Seq<Edge>)
    requires
        named.no_duplicates(),
    ensures
        graph_nodes(named, edges).no_duplicates(),
    decreases edges.len(),
{
    if edges.len() > 0 {
        lemma_graph_nodes_distinct(named, edges.drop_last());
    }
}

proof fn lemma_edge_count_pending(edges: Seq<Edge>, child: NodeId, done: Seq<NodeId>, p: NodeId)
    requires
        !done.contains(p),
    ensures
        pending_in(edges, child, done) == pending_in(edges, child, done.push(p)) + edge_count(
            edges,
            p,
            child,
        ),
    decreases edges.len(),
{
    if edges.len() > 0 {
        lemma_edge_count_pending(edges.drop_last(), child, done, p);
        let e = edges.last();
        assert(done.push(p).contains(e.0) <==> (done.contains(e.0) || e.0 == p)) by {
            if done.push(p).contains(e.0) {
                let k = choose|k: int| 0 <= k < done.push(p).len() && done.push(p)[k] == e.0;
                if k < done.len() {
                    assert(done[k] == e.0);
                }
            }
            if done.contains(e.0) {
                let k = choose|k: int| 0 <= k < done.len() && done[k] == e.0;
                assert(done.push(p)[k] == e.0);
            }
            if e.0 == p {
                assert(done.push(p)[done.len() as int] == e.0);
            }
        }
    }
}

/// `pending_in` is zero exactly when every edge into `child` comes from `done`.
proof fn lemma_pending_zero(edges: Seq<Edge>, child: NodeId, done: Seq<NodeId>)
    ensures
        pending_in(edges, child, done) == 0 <==> forall|e: int|
            0 <= e < edges.len() && #[trigger] edges[e].1 == child ==> done.contains(edges[e].0),
    decreases edges.len(),
{
    if edges.len() > 0 {
        let prev = edges.drop_last();
        lemma_pending_zero(prev, child, done);
        if pending_in(edges, child, done) == 0 {
            assert forall|e: int| 0 <= e < edges.len() && #[trigger] edges[e].1 == child implies done.contains(
                edges[e].0,
            ) by {
                if e < prev.len() {
                    assert(prev[e] == edges[e]);
                }
            }
        } else {
            if pending_in(prev, child, done) > 0 {
                let e = choose|e: int| 0 <= e < prev.len() && #[trigger] prev[e].1 == child && !done.contains(
                    prev[e].0,
                );
                assert(edges[e] == prev[e]);
            } else {
                assert(edges[edges.len() - 1].1 == child);
            }
        }
    }
}

/// The causal graph: named nodes and directed edges.
#[derive(Debug, Clone, Default)]
pub struct CausalGraph {
    names: Vec<(NodeId, String)>,
    edges: Vec<Edge>,
}

impl CausalGraph {
    /// The name table: each named node with its name, in the order in which
    /// the nodes were first named.
    pub closed spec fn names_view(&self) -> Seq<(NodeId, Seq<char>)> {
        self.names@.map_values(|p: (NodeId, String)| (p.0, p.1@))
    }

    /// The named nodes, in the order in which they were first named.
    pub open spec fn named(&self) -> Seq<NodeId> {
        self.names_view().map_values(|p: (NodeId, Seq<char>)| p.0)
    }

    /// The graph's invariant: every node is named at most once.
    pub open spec fn wf(&self) -> bool {
        self.named().no_duplicates()
    }

    /// The edges, in insertion order (an edge added twice appears twice).
    pub closed spec fn edge_seq(&self) -> Seq<Edge> {
        self.edges@
    }

    /// An empty graph.
    pub fn new() -> (g: Self)
        ensures
            g.wf(),
            g.names_view().len() == 0,
            g.edge_seq().len() == 0,
    {
        let g = CausalGraph { names: Vec::new(), edges: Vec::new() };
        assert(g.named() =~= Seq::<NodeId>::empty());
        g
    }

    fn find_name(&self, id: NodeId) -> (r: Option<usize>)
        ensures
            match r {
                Some(k) => k < self.names_view().len() && self.named()[k as int] == id,
                None => !self.named().contains(id),
            },
    {
        let mut i: usize = 0;
        while i < self.names.len()
            invariant
                i <= self.names@.len(),
                forall|j: int| 0 <= j < i ==> self.names@[j].0 != id,
            decreases self.names@.len() - i,
        {
            if self.names[i].0 == id {
                assert(self.named()[i as int] == id);
                return Some(i);
            }
            i = i + 1;
        }
        proof {
            if self.named().contains(id) {
                let k = choose|k: int| 0 <= k < self.named().len() && self.named()[k] == id;
                assert(self.names@[k].0 == id);
            }
        }
        None
    }

    /// Names node `id`; a node named before keeps its place and takes the new
    /// name.
    pub fn add_node(&mut self, id: NodeId, name: &str)
        requires
            old(self).wf(),
        ensures
            final(self).wf(),
            old(self).named().contains(id) ==> final(self).names_view() == old(self).names_view().update(
                old(self).named().index_of(id),
                (id, name@),
            ),
            !old(self).named().contains(id) ==> final(self).names_view() == old(self).names_view().push(
                (id, name@),
            ),
            final(self).edge_seq() == old(self).edge_seq(),
    {
        let ghost old_view = self.names_view();
        match self.find_name(id) {
            Some(k) => {
                proof {
                    let ids = old(self).named();
                    assert(ids.index_of(id) == k as int) by {
                        let t = ids.index_of(id);
                        assert(ids.contains(id)) by { assert(ids[k as int] == id); }
                        assert(ids[t] == id);
                    }
                }
                self.names.set(k, (id, String::from_str(name)));
                assert(self.names_view() =~= old_view.update(k as int, (id, name@)));
                assert(self.named() =~= old(self).named());
            },
            None => {
                self.names.push((id, String::from_str(name)));
                assert(self.names_view() =~= old_view.push((id, name@)));
                assert(self.named() =~= old(self).named().push(id));
            },
        }
    }

    /// Adds the edge `parent -> child`.
    pub fn add_edge(&mut self, parent: NodeId, child: NodeId)
        requires
            old(self).wf(),
        ensures
            final(self).wf(),
            final(self).names_view() == old(self).names_view(),
            final(self).edge_seq() == old(self).edge_seq().push((parent, child)),
    {
        self.edges.push((parent, child));
    }

    /// The name of node `id`, if it is named.
    pub fn name_of(&self, id: NodeId) -> (r: Option<&str>)
        requires
            self.wf(),
        ensures
            r is None <==> !self.named().contains(id),
            r matches Some(s) ==> (id, s@) == self.names_view()[self.named().index_of(id)],
    {
        match self.find_name(id) {
            Some(k) => {
                proof {
                    let ids = self.named();
                    assert(ids.contains(id)) by { assert(ids[k as int] == id); }
                    let t = ids.index_of(id);
                    assert(ids[t] == id);
                }
                Some(self.names[k].1.as_str())
            },
            None => None,
        }
    }

    /// The named nodes, in the order in which they were first named.
    pub fn nodes(&self) -> (v: Vec<NodeId>)
        ensures
            v@ == self.named(),
    {
        let mut v: Vec<NodeId> = Vec::new();
        let mut i: usize = 0;
        while i < self.names.len()
            invariant
                i <= self.names@.len(),
                v@ == self.named().subrange(0, i as int),
            decreases self.names@.len() - i,
        {
            v.push(self.names[i].0);
            i = i + 1;
            assert(v@ =~= self.named().subrange(0, i as int));
        }
        assert(v@ =~= self.named());
        v
    }

    /// All edges `(parent, child)`, in insertion order.
    pub fn edges(&self) -> (v: Vec<Edge>)
        ensures
            v@ == self.edge_seq(),
    {
        let mut v: Vec<Edge> = Vec::new();
        let mut i: usize = 0;
        while i < self.edges.len()
            invariant
                i <= self.edges@.len(),
                v@ == self.edges@.subrange(0, i as int),
            decreases self.edges@.len() - i,
        {
            v.push(self.edges[i]);
            i = i + 1;
            assert(v@ =~= self.edges@.subrange(0, i as int));
        }
        assert(v@ =~= self.edges@);
        v
    }

    /// The nodes of the graph, named ones first, then unnamed children.
    fn all_nodes(&self) -> (v: Vec<NodeId>)
        ensures
            v@ == graph_nodes(self.named(), self.edge_seq()),
    {
        let mut v = self.nodes();
        let mut e: usize = 0;
        while e < self.edges.len()
            invariant
                e <= self.edges@.len(),
                v@ == graph_nodes(self.named(), self.edges@.subrange(0, e as int)),
            decreases self.edges@.len() - e,
        {
            let c = self.edges[e].1;
            let found = contains_node(&v, c);
            if !found {
                v.push(c);
            }
            proof {
                let es = self.edges@.subrange(0, e + 1);
                assert(es.drop_last() =~= self.edges@.subrange(0, e as int));
                assert(es.last() == self.edges@[e as int]);
            }
            e = e + 1;
        }
        assert(self.edges@.subrange(0, self.edges@.len() as int) =~= self.edges@);
        v
    }

    /// The graph's nodes in a topological order, by Kahn's algorithm: a node
    /// is listed once every edge into it comes from a listed node.  Nodes on
    /// or below a cycle, or below an edge from an unknown node, are left out.
    pub fn topological_order(&self) -> (order: Vec<NodeId>)
        requires
            self.wf(),
        ensures
            is_kahn_order(self.named(), self.edge_seq(), order@),
    {
        let ghost named = self.named();
        let ghost edges = self.edges@;
        let nodes = self.all_nodes();
        proof {
            lemma_graph_nodes_distinct(named, edges);
            lemma_graph_nodes_prefix(named, edges);
        }
        let n = nodes.len();
        // in-degree of each node
        let mut indeg: Vec<usize> = Vec::new();
        let mut i: usize = 0;
        while i < n
            invariant
                n == nodes@.len(),
                i <= n,
                indeg@.len() == i,
                forall|k: int| 0 <= k < i ==> indeg@[k] == pending_in(edges, nodes@[k], Seq::empty()),
                edges == self.edges@,
            decreases n - i,
        {
            let c = nodes[i];
            let mut cnt: usize = 0;
            let mut e: usize = 0;
            while e < self.edges.len()
                invariant
                    e <= self.edges@.len(),
                    edges == self.edges@,
                    cnt == pending_in(edges.subrange(0, e as int), c, Seq::empty()),
                    cnt <= e,
                decreases self.edges@.len() - e,
            {
                proof {
                    let es = edges.subrange(0, e + 1);
                    assert(es.drop_last() =~= edges.subrange(0, e as int));
                }
                if self.edges[e].1 == c {
                    cnt = cnt + 1;
                }
                e = e + 1;
            }
            assert(edges.subrange(0, edges.len() as int) =~= edges);
            indeg.push(cnt);
            i = i + 1;
        }
        // nodes with no incoming edge start on the stack
        let mut stack: Vec<usize> = Vec::new();
        let mut order: Vec<NodeId> = Vec::new();
        let mut k: usize = 0;
        while k < n
            invariant
                n == nodes@.len(),
                k <= n,
                indeg@.len() == n,
                order@.len() == 0,
                forall|t: int| 0 <= t < n ==> indeg@[t] == pending_in(edges, nodes@[t], Seq::empty()),
                forall|t: int| 0 <= t < stack@.len() ==> #[trigger] stack@[t] < k,
                forall|t: int| 0 <= t < n ==> (indeg@[t] == 0 && t < k <==> stack@.contains(t as usize)),
                stack@.no_duplicates(),
            decreases n - k,
        {
            let ghost before = stack@;
            if indeg[k] == 0 {
                stack.push(k);
            }
            proof {
                assert forall|t: int| 0 <= t < n implies (indeg@[t] == 0 && t < k + 1 <==> stack@.contains(t as usize)) by {
                    if t != k {
                        if indeg@[k as int] == 0 {
                            lemma_contains_push(before, k, t as usize);
                        }
                    } else {
                        if indeg@[k as int] == 0 {
                            assert(stack@[stack@.len() - 1] == k);
                        } else {
                            if stack@.contains(k) {
                                let j = choose|j: int| 0 <= j < stack@.len() && stack@[j] == k;
                            }
                        }
                    }
                }
            }
            k = k + 1;
        }
        assert(Seq::<NodeId>::empty() =~= order@);
        // main loop
        let ghost mut done_idx: Seq<usize> = Seq::empty();
        assert(stack@ + done_idx =~= stack@);
        while stack.len() > 0
            invariant
                n == nodes@.len(),
                nodes@.no_duplicates(),
                nodes@ == graph_nodes(named, edges),
                edges == self.edges@,
                indeg@.len() == n,
                order@.len() == done_idx.len(),
                forall|t: int| 0 <= t < done_idx.len() ==> #[trigger] done_idx[t] < n,
                forall|t: int| 0 <= t < done_idx.len() ==> order@[t] == nodes@[#[trigger] done_idx[t] as int],
                forall|t: int| 0 <= t < n ==> indeg@[t] == pending_in(edges, nodes@[t], order@),
                forall|t: int| 0 <= t < stack@.len() ==> #[trigger] stack@[t] < n,
                forall|t: int| 0 <= t < n ==> (indeg@[t] == 0 <==> (stack@.contains(t as usize)
                    || done_idx.contains(t as usize))),
                (stack@ + done_idx).no_duplicates(),
                forall|i: int, e: int|
                    #![trigger order@[i], edges[e]]
                    0 <= i < order@.len() && 0 <= e < edges.len() && edges[e].1 == order@[i]
                        ==> exists|j: int| 0 <= j < i && order@[j] == edges[e].0,
            decreases n - order@.len(),
        {
            proof {
                lemma_concat_bound(stack@, done_idx, n);
            }
            let ghost stack_full = stack@;
            let ghost old_done = done_idx;
            let p_idx = stack.pop().unwrap();
            let p = nodes[p_idx];
            let ghost old_order = order@;
            let ghost old_indeg = indeg@;
            proof {
                assert(stack_full == stack@.push(p_idx));
                assert(stack_full.contains(p_idx)) by { assert(stack_full[stack_full.len() - 1] == p_idx); }
                assert(old_indeg[p_idx as int] == 0);
                assert(pending_in(edges, p, old_order) == 0);
                lemma_pending_zero(edges, p, old_order);
                assert(!old_done.contains(p_idx)) by {
                    lemma_concat_last_not_in_tail(stack@, old_done, p_idx);
                }
                assert(!old_order.contains(p)) by {
                    if old_order.contains(p) {
                        let t = choose|t: int| 0 <= t < old_order.len() && old_order[t] == p;
                        assert(nodes@[old_done[t] as int] == nodes@[p_idx as int]);
                        assert(old_done[t] == p_idx);
                    }
                }
            }
            order.push(p);
            proof {
                done_idx = old_done.push(p_idx);
                lemma_move_to_done(stack@, old_done, p_idx);
                assert forall|i: int, e: int|
                    #![trigger order@[i], edges[e]]
                    0 <= i < order@.len() && 0 <= e < edges.len() && edges[e].1 == order@[i]
                        implies exists|j: int| 0 <= j < i && order@[j] == edges[e].0 by {
                    if i < old_order.len() {
                        assert(old_order[i] == order@[i]);
                        let j = choose|j: int| 0 <= j < i && old_order[j] == edges[e].0;
                        assert(order@[j] == edges[e].0);
                    } else {
                        assert(order@[i] == p);
                        assert(old_order.contains(edges[e].0));
                        let j = choose|j: int| 0 <= j < old_order.len() && old_order[j] == edges[e].0;
                        assert(order@[j] == edges[e].0);
                    }
                }
                assert forall|t: int| 0 <= t < n implies old_indeg[t] == pending_in(edges, nodes@[t], order@) + edge_count(edges, p, nodes@[t]) by {
                    lemma_edge_count_pending(edges, nodes@[t], old_order, p);
                    assert(old_order.push(p) == order@);
                }
                assert forall|t: int| 0 <= t < n implies (indeg@[t] == 0 <==> (stack@.contains(t as usize)
                    || done_idx.contains(t as usize))) by {
                    if t as usize != p_idx {
                        lemma_contains_push(stack@, p_idx, t as usize);
                        lemma_contains_push(old_done, p_idx, t as usize);
                    } else {
                        assert(done_idx[done_idx.len() - 1] == p_idx);
                    }
                }
                assert(edges.subrange(0, 0) =~= Seq::<Edge>::empty());
            }
            // release the edges out of p
            let mut e: usize = 0;
            while e < self.edges.len()
                invariant
                    n == nodes@.len(),
                    nodes@.no_duplicates(),
                    nodes@ == graph_nodes(named, edges),
                    edges == self.edges@,
                    e <= edges.len(),
                    p == nodes@[p_idx as int],
                    p_idx < n,
                    indeg@.len() == n,
                    order@.len() == done_idx.len(),
                    forall|t: int| 0 <= t < done_idx.len() ==> #[trigger] done_idx[t] < n,
                    forall|t: int| 0 <= t < n ==> old_indeg[t] == pending_in(edges, nodes@[t], order@)
                        + edge_count(edges, p, nodes@[t]),
                    forall|t: int| 0 <= t < n ==> indeg@[t] + edge_count(edges.subrange(0, e as int), p, nodes@[t]) == old_indeg[t],
                    forall|t: int| 0 <= t < stack@.len() ==> #[trigger] stack@[t] < n,
                    forall|t: int| 0 <= t < n ==> (indeg@[t] == 0 <==> (stack@.contains(t as usize)
                        || done_idx.contains(t as usize))),
                    (stack@ + done_idx).no_duplicates(),
                decreases edges.len() - e,
            {
                let ghost before = indeg@;
                proof {
                    let es = edges.subrange(0, e + 1);
                    assert(es.drop_last() =~= edges.subrange(0, e as int));
                    assert(es.last() == edges[e as int]);
                }
                if self.edges[e].0 == p {
                    let c = self.edges[e].1;
                    proof {
                        lemma_graph_nodes_prefix(named, edges);
                        assert(graph_nodes(named, edges).contains(edges[e as int].1));
                    }
                    let ci = index_of_node(&nodes, c);
                    proof {
                        assert(nodes@[ci as int] == c);
                        assert(edges[e as int] == (p, c));
                        lemma_edge_count_bound(edges, e as int, p, c);
                        assert(before[ci as int] + edge_count(edges.subrange(0, e as int), p, c) == old_indeg[ci as int]);
                        assert(before[ci as int] > 0);
                    }
                    let d = indeg[ci] - 1;
                    indeg.set(ci, d);
                    let ghost stack_before = stack@;
                    if d == 0 {
                        proof {
                            assert(!stack@.contains(ci));
                            assert(!done_idx.contains(ci));
                            lemma_push_distinct(stack@, done_idx, ci);
                        }
                        stack.push(ci);
                    }
                    proof {
                        assert forall|t: int| 0 <= t < n implies indeg@[t] + edge_count(edges.subrange(0, e + 1), p, nodes@[t]) == old_indeg[t] by {
                            if t != ci {
                                assert(nodes@[t] != c);
                            }
                        }
                        assert forall|t: int| 0 <= t < n implies (indeg@[t] == 0 <==> (stack@.contains(t as usize)
                            || done_idx.contains(t as usize))) by {
                            if t != ci {
                                if d == 0 {
                                    lemma_contains_push(stack_before, ci, t as usize);
                                }
                            } else {
                                if d == 0 {
                                    assert(stack@[stack@.len() - 1] == ci);
                                }
                            }
                        }
                    }
                } else {
                    proof {
                        assert forall|t: int| 0 <= t < n implies indeg@[t] + edge_count(edges.subrange(0, e + 1), p, nodes@[t]) == old_indeg[t] by {}
                    }
                }
                e = e + 1;
            }
            proof {
                assert(edges.subrange(0, edges.len() as int) =~= edges);
                assert forall|t: int| 0 <= t < n implies indeg@[t] == pending_in(edges, nodes@[t], order@) by {
                    assert(indeg@[t] + edge_count(edges.subrange(0, edges.len() as int), p, nodes@[t]) == old_indeg[t]);
                }
            }
        }
        proof {
            // completeness: every node left out waits on an unlisted parent
            assert forall|c: NodeId|
                graph_nodes(named, edges).contains(c) && !order@.contains(c) implies exists|e: int|
                    0 <= e < edges.len() && #[trigger] edges[e].1 == c && !order@.contains(edges[e].0) by {
                let t = choose|t: int| 0 <= t < n && nodes@[t] == c;
                if indeg@[t] == 0 {
                    assert(done_idx.contains(t as usize));
                    let s = choose|s: int| 0 <= s < done_idx.len() && done_idx[s] == t as usize;
                    assert(order@[s] == c);
                }
                lemma_pending_zero(edges, c, order@);
            }
            assert forall|i: int| 0 <= i < order@.len() implies graph_nodes(named, edges).contains(#[trigger] order@[i]) by {
                assert(nodes@[done_idx[i] as int] == order@[i]);
                assert(nodes@.contains(order@[i]));
            }
            assert(order@.no_duplicates()) by {
                assert forall|i: int, j: int| 0 <= i < order@.len() && 0 <= j < order@.len() && i != j implies order@[i] != order@[j] by {
                    lemma_concat_tail_distinct(stack@, done_idx);
                    assert(done_idx[i] != done_idx[j]);
                }
            }
        }
        order
    }
}

/// Whether `c` occurs in `v`.
fn contains_node(v: &Vec<NodeId>, c: NodeId) -> (b: bool)
    ensures
        b == v@.contains(c),
{
    let mut k: usize = 0;
    while k < v.len()
        invariant
            k <= v@.len(),
            forall|j: int| 0 <= j < k ==> v@[j] != c,
        decreases v@.len() - k,
    {
        if v[k] == c {
            return true;
        }
        k = k + 1;
    }
    false
}

/// The index of `c` in `v`, which holds it.
fn index_of_node(v: &Vec<NodeId>, c: NodeId) -> (i: usize)
    requires
        v@.contains(c),
    ensures
        i < v@.len(),
        v@[i as int] == c,
{
    let mut k: usize = 0;
    while k < v.len()
        invariant
            k <= v@.len(),
            v@.contains(c),
            forall|j: int| 0 <= j < k ==> v@[j] != c,
        decreases v@.len() - k,
    {
        if v[k] == c {
            return k;
        }
        k = k + 1;
    }
    proof {
        let j = choose|j: int| 0 <= j < v@.len() && v@[j] == c;
    }
    0
}

proof fn lemma_concat_bound(stack: Seq<usize>, done: Seq<usize>, n: usize)
    requires
        (stack + done).no_duplicates(),
        forall|t: int| 0 <= t < stack.len() ==> #[trigger] stack[t] < n,
        forall|t: int| 0 <= t < done.len() ==> #[trigger] done[t] < n,
    ensures
        stack.len() + done.len() <= n,
{
    let s = stack + done;
    assert forall|t: int| 0 <= t < s.len() implies s[t] < n by {
        if t < stack.len() {
            assert(s[t] == stack[t]);
        } else {
            assert(s[t] == done[t - stack.len()]);
        }
    }
    lemma_distinct_indices_bound(s, n);
}

proof fn lemma_concat_last_not_in_tail(stack: Seq<usize>, done: Seq<usize>, x: usize)
    requires
        (stack.push(x) + done).no_duplicates(),
    ensures
        !done.contains(x),
{
    let s = stack.push(x) + done;
    if done.contains(x) {
        let t = choose|t: int| 0 <= t < done.len() && done[t] == x;
        assert(s[stack.len() as int] == x);
        assert(s[stack.len() + 1 + t] == x);
    }
}

proof fn lemma_move_to_done(stack: Seq<usize>, done: Seq<usize>, x: usize)
    requires
        (stack.push(x) + done).no_duplicates(),
    ensures
        (stack + done.push(x)).no_duplicates(),
{
    let a = stack.push(x) + done;
    let b = stack + done.push(x);
    let sl = stack.len() as int;
    let dl = done.len() as int;
    // position of each element of b in a
    assert forall|i: int, j: int| 0 <= i < b.len() && 0 <= j < b.len() && i != j implies b[i] != b[j] by {
        let ai = if i < sl { i } else if i < sl + dl { i + 1 } else { sl };
        let aj = if j < sl { j } else if j < sl + dl { j + 1 } else { sl };
        assert(a[ai] == b[i]);
        assert(a[aj] == b[j]);
    }
}

proof fn lemma_concat_tail_distinct(stack: Seq<usize>, done: Seq<usize>)
    requires
        (stack + done).no_duplicates(),
    ensures
        done.no_duplicates(),
{
    let s = stack + done;
    assert forall|i: int, j: int| 0 <= i < done.len() && 0 <= j < done.len() && i != j implies done[i] != done[j] by {
        assert(s[stack.len() + i] == done[i]);
        assert(s[stack.len() + j] == done[j]);
    }
}

proof fn lemma_contains_push(s: Seq<usize>, x: usize, y: usize)
    requires
        y != x,
    ensures
        s.push(x).contains(y) <==> s.contains(y),
{
    if s.push(x).contains(y) {
        let k = choose|k: int| 0 <= k < s.push(x).len() && s.push(x)[k] == y;
        assert(s[k] == y);
    }
    if s.contains(y) {
        let k = choose|k: int| 0 <= k < s.len() && s[k] == y;
        assert(s.push(x)[k] == y);
    }
}

proof fn lemma_push_distinct(stack: Seq<usize>, done: Seq<usize>, x: usize)
    requires
        (stack + done).no_duplicates(),
        !stack.contains(x),
        !done.contains(x),
    ensures
        (stack.push(x) + done).no_duplicates(),
{
    let a = stack + done;
    let b = stack.push(x) + done;
    assert forall|i: int, j: int| 0 <= i < b.len() && 0 <= j < b.len() && i != j implies b[i] != b[j] by {
        let sl = stack.len() as int;
        if i == sl {
            if j < sl {
                assert(stack[j] == b[j]);
            } else {
                assert(done[j - sl - 1] == b[j]);
            }
        } else if j == sl {
            if i < sl {
                assert(stack[i] == b[i]);
            } else {
                assert(done[i - sl - 1] == b[i]);
            }
        } else {
            let ai = if i < sl { i } else { i - 1 };
            let aj = if j < sl { j } else { j - 1 };
            assert(a[ai] == b[i]);
            assert(a[aj] == b[j]);
        }
    }
}

proof fn lemma_edge_count_bound(edges: Seq<Edge>, e: int, p: NodeId, c: NodeId)
    requires
        0 <= e < edges.len(),
    ensures
        edge_count(edges.subrange(0, e + 1), p, c) <= edge_count(edges, p, c),
    decreases edges.len() - e,
{
    if e + 1 < edges.len() {
        lemma_edge_count_bound(edges, e + 1, p, c);
        let es = edges.subrange(0, e + 2);
        assert(es.drop_last() =~= edges.subrange(0, e + 1));
    } else {
        assert(edges.subrange(0, e + 1) =~= edges);
    }
}

proof fn lemma_distinct_indices_bound(s: Seq<usize>, n: usize)
    requires
        s.no_duplicates(),
        forall|t: int| 0 <= t < s.len() ==> s[t] < n,
    ensures
        s.len() <= n,
{
    let st = s.to_set();
    let f = |i: int| i as usize;
    let range = vstd::set_lib::set_int_range(0, n as int);
    let y = range.map(f);
    vstd::set_lib::lemma_int_range(0, n as int);
    vstd::set_lib::lemma_map_size_bound(range, y, f);
    assert forall|x: usize| st.contains(x) implies y.contains(x) by {
        let k = choose|k: int| 0 <= k < s.len() && s[k] == x;
        assert(range.contains(x as int));
        assert(f(x as int) == x);
    }
    s.unique_seq_to_set();
    vstd::set_lib::lemma_len_subset(st, y);
}

/// Cause of a failed prediction.
#[derive(Debug, Clone, Copy, PartialEq, Eq, Hash, Structural)]
pub enum FailureKind {
    /// Noisy observation.
    SensorNoise,
    /// The structural causal model is wrong.
    WrongModel,
    /// An intervention did not cut the incoming edges.
    MissedIntervention,
    /// Too few samples.
    SparseData,
    /// An outside disturbance.
    ExternalDisturbance,
    /// Not seen before.
    Unknown,
}

/// The position of a kind in declaration order.
pub open spec fn kind_index(k: FailureKind) -> int {
    match k {
        FailureKind::SensorNoise => 0,
        FailureKind::WrongModel => 1,
        FailureKind::MissedIntervention => 2,
        FailureKind::SparseData => 3,
        FailureKind::ExternalDisturbance => 4,
        FailureKind::Unknown => 5,
    }
}

/// The kind at position `i` in declaration order.
pub open spec fn kind_at(i: int) -> FailureKind {
    if i == 0 {
        FailureKind::SensorNoise
    } else if i == 1 {
        FailureKind::WrongModel
    } else if i == 2 {
        FailureKind::MissedIntervention
    } else if i == 3 {
        FailureKind::SparseData
    } else if i == 4 {
        FailureKind::ExternalDisturbance
    } else {
        FailureKind::Unknown
    }
}

/// The machine name of a failure kind.
pub open spec fn kind_label(k: FailureKind) -> Seq<char> {
    match k {
        FailureKind::SensorNoise => "sensor_noise"@,
        FailureKind::WrongModel => "wrong_model"@,
        FailureKind::MissedIntervention => "missed_intervention"@,
        FailureKind::SparseData => "sparse_data"@,
        FailureKind::ExternalDisturbance => "external_disturbance"@,
        FailureKind::Unknown => "unknown"@,
    }
}

/// The remedy suggested for a failure kind.
pub open spec fn kind_suggestion(k: FailureKind) -> Seq<char> {
    match k {
        FailureKind::SensorNoise => "考虑加卡尔曼滤波或多传感器平均"@,
        FailureKind::WrongModel => "更新 SCM 边的权重或添加新的因果边"@,
        FailureKind::MissedIntervention => "检查 do-calculus 是否切断了 X 的所有入边"@,
        FailureKind::SparseData => "采集更多样本,优先覆盖边缘情况"@,
        FailureKind::ExternalDisturbance => "识别并加入干扰变量(混淆因子)"@,
        FailureKind::Unknown => "人工检查并归类"@,
    }
}

impl FailureKind {
    /// The machine name of the kind.
    pub fn as_str(&self) -> (s: &'static str)
        ensures
            s@ == kind_label(*self),
    {
        match self {
            FailureKind::SensorNoise => "sensor_noise",
            FailureKind::WrongModel => "wrong_model",
            FailureKind::MissedIntervention => "missed_intervention",
            FailureKind::SparseData => "sparse_data",
            FailureKind::ExternalDisturbance => "external_disturbance",
            FailureKind::Unknown => "unknown",
        }
    }

    fn index(&self) -> (i: usize)
        ensures
            i == kind_index(*self),
    {
        match self {
            FailureKind::SensorNoise => 0,
            FailureKind::WrongModel => 1,
            FailureKind::MissedIntervention => 2,
            FailureKind::SparseData => 3,
            FailureKind::ExternalDisturbance => 4,
            FailureKind::Unknown => 5,
        }
    }
}

/// One reported failure.
#[derive(Debug, Clone)]
pub struct FailureRecord {
    pub tick: u64,
    pub context: String,
    pub kind: FailureKind,
    /// The suggested remedy.
    pub suggestion: String,
    /// How many failures of this kind had been reported, this one included.
    pub count: u32,
}

/// Number of records of kind `k`.
pub open spec fn kind_count(records: Seq<FailureRecord>, k: FailureKind) -> nat
    decreases records.len(),
{
    if records.len() == 0 {
        0
    } else {
        kind_count(records.drop_last(), k) + if records.last().kind == k {
            1nat
        } else {
            0nat
        }
    }
}

/// `k` has the largest count, and no kind before it in declaration order has
/// as large a count.
pub open spec fn first_most_common(records: Seq<FailureRecord>, k: FailureKind) -> bool {
    &&& forall|j: int| 0 <= j < 6 ==> kind_count(records, #[trigger] kind_at(j)) <= kind_count(records, k)
    &&& forall|j: int| 0 <= j < kind_index(k) ==> kind_count(records, #[trigger] kind_at(j)) < kind_count(records, k)
}

proof fn lemma_kind_count_bound(records: Seq<FailureRecord>, k: FailureKind)
    ensures
        kind_count(records, k) <= records.len(),
    decreases records.len(),
{
    if records.len() > 0 {
        lemma_kind_count_bound(records.drop_last(), k);
    }
}

proof fn lemma_kind_count_total(records: Seq<FailureRecord>)
    ensures
        kind_count(records, FailureKind::SensorNoise) + kind_count(records, FailureKind::WrongModel)
            + kind_count(records, FailureKind::MissedIntervention) + kind_count(records, FailureKind::SparseData)
            + kind_count(records, FailureKind::ExternalDisturbance) + kind_count(records, FailureKind::Unknown)
            == records.len(),
    decreases records.len(),
{
    if records.len() > 0 {
        lemma_kind_count_total(records.drop_last());
    }
}

/// Tallies failed predictions by kind.
#[derive(Debug)]
pub struct FailureAnalyzer {
    records: Vec<FailureRecord>,
    counts: Vec<u32>,
}

impl FailureAnalyzer {
    /// The reported failures, oldest first.
    pub closed spec fn reports(&self) -> Seq<FailureRecord> {
        self.records@
    }

    /// The analyzer's invariant: the per-kind tallies match the records.
    pub closed spec fn wf(&self) -> bool {
        &&& self.counts@.len() == 6
        &&& forall|i: int| 0 <= i < 6 ==> self.counts@[i] == kind_count(self.records@, #[trigger] kind_at(i))
        &&& self.records@.len() <= u32::MAX
    }

    /// An analyzer with no reports.
    pub fn new() -> (a: Self)
        ensures
            a.wf(),
            a.reports().len() == 0,
    {
        let mut counts: Vec<u32> = Vec::new();
        let mut i: usize = 0;
        while i < 6
            invariant
                i <= 6,
                counts@.len() == i,
                forall|j: int| 0 <= j < i ==> counts@[j] == 0,
            decreases 6 - i,
        {
            counts.push(0);
            i = i + 1;
        }
        FailureAnalyzer { records: Vec::new(), counts }
    }

    /// Records a failure of kind `kind`.
    pub fn report(&mut self, tick: u64, context: String, kind: FailureKind, suggestion: String)
        requires
            old(self).wf(),
            old(self).reports().len() < u32::MAX,
        ensures
            final(self).wf(),
            final(self).reports() == old(self).reports().push(
                FailureRecord {
                    tick,
                    context,
                    kind,
                    suggestion,
                    count: (kind_count(old(self).reports(), kind) + 1) as u32,
                },
            ),
    {
        let ki = kind.index();
        proof {
            assert(kind_at(ki as int) == kind);
            lemma_kind_count_bound(self.records@, kind);
        }
        let c = self.counts[ki] + 1;
        self.counts.set(ki, c);
        let rec = FailureRecord { tick, context, kind, suggestion, count: c };
        let ghost old_records = self.records@;
        self.records.push(rec);
        proof {
            assert(self.records@.drop_last() =~= old_records);
            assert forall|i: int| 0 <= i < 6 implies self.counts@[i] == kind_count(self.records@, #[trigger] kind_at(i)) by {
                if i != ki as int {
                    assert(kind_at(i) != kind);
                }
            }
        }
    }

    /// The suggested remedy for a failure kind.
    pub fn suggest(kind: FailureKind) -> (s: String)
        ensures
            s@ == kind_suggestion(kind),
    {
        let t = match kind {
            FailureKind::SensorNoise => "考虑加卡尔曼滤波或多传感器平均",
            FailureKind::WrongModel => "更新 SCM 边的权重或添加新的因果边",
            FailureKind::MissedIntervention => "检查 do-calculus 是否切断了 X 的所有入边",
            FailureKind::SparseData => "采集更多样本,优先覆盖边缘情况",
            FailureKind::ExternalDisturbance => "识别并加入干扰变量(混淆因子)",
            FailureKind::Unknown => "人工检查并归类",
        };
        String::from_str(t)
    }

    /// All reported failures, oldest first.
    pub fn records(&self) -> (r: &[FailureRecord])
        ensures
            r@ == self.reports(),
    {
        self.records.as_slice()
    }

    /// Number of failures reported so far.
    pub fn total_failures(&self) -> (n: u32)
        requires
            self.wf(),
        ensures
            n == self.reports().len(),
    {
        self.records.len() as u32
    }

    /// Number of failures of kind `kind` reported so far.
    pub fn count_of(&self, kind: FailureKind) -> (n: u32)
        requires
            self.wf(),
        ensures
            n == kind_count(self.reports(), kind),
    {
        let ki = kind.index();
        proof {
            assert(kind_at(ki as int) == kind);
        }
        self.counts[ki]
    }

    /// The most frequent failure kind (the first in declaration order among
    /// equally frequent ones), or `None` when nothing was reported.
    pub fn most_common_kind(&self) -> (r: Option<FailureKind>)
        requires
            self.wf(),
        ensures
            r is None <==> self.reports().len() == 0,
            r matches Some(k) ==> first_most_common(self.reports(), k),
    {
        proof {
            lemma_kind_count_total(self.records@);
            assert(kind_at(0) == FailureKind::SensorNoise);
            assert(kind_at(1) == FailureKind::WrongModel);
            assert(kind_at(2) == FailureKind::MissedIntervention);
            assert(kind_at(3) == FailureKind::SparseData);
            assert(kind_at(4) == FailureKind::ExternalDisturbance);
            assert(kind_at(5) == FailureKind::Unknown);
        }
        if self.records.len() == 0 {
            return None;
        }
        let mut best: usize = 0;
        let mut i: usize = 1;
        while i < 6
            invariant
                self.wf(),
                1 <= i <= 6,
                best < i,
                forall|j: int| 0 <= j < i ==> self.counts@[j] <= self.counts@[best as int],
                forall|j: int| 0 <= j < best ==> self.counts@[j] < self.counts@[best as int],
            decreases 6 - i,
        {
            if self.counts[i] > self.counts[best] {
                best = i;
            }
            i = i + 1;
        }
        let k = if best == 0 {
            FailureKind::SensorNoise
        } else if best == 1 {
            FailureKind::WrongModel
        } else if best == 2 {
            FailureKind::MissedIntervention
        } else if best == 3 {
            FailureKind::SparseData
        } else if best == 4 {
            FailureKind::ExternalDisturbance
        } else {
            FailureKind::Unknown
        };
        proof {
            assert(kind_at(best as int) == k);
            assert(kind_index(k) == best as int);
            assert forall|j: int| 0 <= j < 6 implies kind_count(self.records@, #[trigger] kind_at(j)) <= kind_count(self.records@, k) by {
                assert(self.counts@[j] == kind_count(self.records@, kind_at(j)));
            }
            assert forall|j: int| 0 <= j < kind_index(k) implies kind_count(self.records@, #[trigger] kind_at(j)) < kind_count(self.records@, k) by {
                assert(self.counts@[j] == kind_count(self.records@, kind_at(j)));
            }
        }
        Some(k)
    }
}

} // verus!
