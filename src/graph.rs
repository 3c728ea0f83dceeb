//! The account-interaction graph: a directed multigraph held in a petgraph
//! `Graph`, one node per distinct account id (first seen, first numbered) and
//! one edge per transaction.
use vstd::prelude::*;
use petgraph::graph::{EdgeIndex, Graph, NodeIndex};
use petgraph::Directed;
use rand::rngs::StdRng;
use crate::record::Transaction;
use vstd::set_lib::{lemma_int_range, lemma_subset_equality, set_int_range};

verus! {

/// petgraph's adjacency-list graph, opaque here: its contents are read
/// through `graph_nodes` and `graph_edges`.
#[verifier::external_type_specification]
#[verifier::external_body]
#[verifier::reject_recursive_types(N)]
#[verifier::reject_recursive_types(E)]
#[verifier::reject_recursive_types(Ty)]
#[verifier::reject_recursive_types(Ix)]
pub struct ExGraph<N, E, Ty, Ix>(Graph<N, E, Ty, Ix>);

/// petgraph's marker for directed edges.
#[verifier::external_type_specification]
#[verifier::external_body]
pub struct ExDirected(Directed);

/// rand's seedable generator, the entropy source of node sampling.
#[verifier::external_type_specification]
#[verifier::external_body]
pub struct ExStdRng(StdRng);

/// The node weights of a graph, by node index.
pub uninterp spec fn graph_nodes(g: Graph<String, u128>) -> Seq<Seq<char>>;

/// The edges of a graph, by edge index: (source, target, weight).
pub uninterp spec fn graph_edges(g: Graph<String, u128>) -> Seq<(int, int, u128)>;

/// Largest node or edge count that petgraph's default `u32` index can number.
pub open spec fn index_capacity() -> int {
    0xffff_ffff
}

/// Relies on petgraph's `Graph::new`: a graph with no nodes and no edges.
#[verifier::external_body]
fn graph_new() -> (g: Graph<String, u128>)
    ensures
        graph_nodes(g) == Seq::<Seq<char>>::empty(),
        graph_edges(g) == Seq::<(int, int, u128)>::empty(),
{
    Graph::new()
}

/// Relies on petgraph's `Graph::add_node`: appends a node and returns its
/// index, the former node count; it panics once the `u32` index is used up.
#[verifier::external_body]
fn graph_add_node(g: &mut Graph<String, u128>, name: String) -> (i: usize)
    requires
        graph_nodes(*old(g)).len() < index_capacity(),
    ensures
        i == graph_nodes(*old(g)).len(),
        graph_nodes(*final(g)) == graph_nodes(*old(g)).push(name@),
        graph_edges(*final(g)) == graph_edges(*old(g)),
{
    g.add_node(name).index()
}

/// Relies on petgraph's `Graph::add_edge`: appends an edge, parallel edges
/// included; it panics on a missing node or once the `u32` index is used up.
#[verifier::external_body]
fn graph_add_edge(g: &mut Graph<String, u128>, a: usize, b: usize, w: u128)
    requires
        a < graph_nodes(*old(g)).len(),
        b < graph_nodes(*old(g)).len(),
        graph_edges(*old(g)).len() < index_capacity(),
    ensures
        graph_nodes(*final(g)) == graph_nodes(*old(g)),
        graph_edges(*final(g)) == graph_edges(*old(g)).push((a as int, b as int, w)),
{
    g.add_edge(NodeIndex::new(a), NodeIndex::new(b), w);
}

/// Relies on petgraph's `Graph::node_count`.
#[verifier::external_body]
fn graph_node_count(g: &Graph<String, u128>) -> (r: usize)
    ensures
        r == graph_nodes(*g).len(),
{
    g.node_count()
}

/// Relies on petgraph's `Graph::edge_count`.
#[verifier::external_body]
fn graph_edge_count(g: &Graph<String, u128>) -> (r: usize)
    ensures
        r == graph_edges(*g).len(),
{
    g.edge_count()
}

/// Relies on petgraph's `Index<NodeIndex>` for `Graph`: the name stored at a
/// node. The index is narrowed to `u32`, so it must name an existing node.
#[verifier::external_body]
fn graph_node_weight(g: &Graph<String, u128>, i: usize) -> (r: &String)
    requires
        i < graph_nodes(*g).len(),
    ensures
        r@ == graph_nodes(*g)[i as int],
{
    &g[NodeIndex::new(i)]
}

/// Relies on petgraph's `Graph::edge_endpoints`: source and target of an
/// existing edge. The index is narrowed to `u32`, so it must name one.
#[verifier::external_body]
fn graph_edge_endpoints(g: &Graph<String, u128>, e: usize) -> (r: Option<(usize, usize)>)
    requires
        e < graph_edges(*g).len(),
    ensures
        r is Some,
        r matches Some(p) ==> p.0 as int == graph_edges(*g)[e as int].0,
        r matches Some(p) ==> p.1 as int == graph_edges(*g)[e as int].1,
{
    g.edge_endpoints(EdgeIndex::new(e)).map(|(a, b)| (a.index(), b.index()))
}

/// Relies on petgraph's `Index<EdgeIndex>` for `Graph`: the weight of an
/// existing edge. The index is narrowed to `u32`, so it must name one.
#[verifier::external_body]
fn graph_edge_weight(g: &Graph<String, u128>, e: usize) -> (r: u128)
    requires
        e < graph_edges(*g).len(),
    ensures
        r == graph_edges(*g)[e as int].2,
{
    g[EdgeIndex::new(e)]
}

/// Relies on rand's `seq::index::sample`: exactly `amount` distinct indices
/// below `length`, in random order; it panics when `amount > length`.
#[verifier::external_body]
fn sample_indices(rng: &mut StdRng, length: usize, amount: usize) -> (r: Vec<usize>)
    requires
        amount <= length,
    ensures
        r@.len() == amount,
        forall|i: int| 0 <= i < r@.len() ==> r@[i] < length,
        r@.no_duplicates(),
{
    rand::seq::index::sample(rng, length, amount).into_vec()
}

/// Account ids in the order a record stream names them: for each record its
/// sender, then its receiver.
pub open spec fn id_stream(recs: Seq<Transaction>) -> Seq<Seq<char>>
    decreases recs.len(),
{
    if recs.len() == 0 {
        Seq::empty()
    } else {
        let last = recs.last();
        id_stream(recs.drop_last()).push(last.name_orig@).push(last.name_dest@)
    }
}

/// The distinct entries of `ids`, in order of first appearance.
pub open spec fn first_seen(ids: Seq<Seq<char>>) -> Seq<Seq<char>>
    decreases ids.len(),
{
    if ids.len() == 0 {
        Seq::empty()
    } else {
        let t = first_seen(ids.drop_last());
        if t.contains(ids.last()) {
            t
        } else {
            t.push(ids.last())
        }
    }
}

/// The weight of a transaction's edge: the amount, doubled for fraud.
pub open spec fn spec_edge_weight(rec: Transaction) -> int {
    if rec.is_fraud == 1 {
        2 * rec.amount
    } else {
        rec.amount as int
    }
}

pub fn edge_weight(rec: &Transaction) -> (w: u128)
    ensures
        w as int == spec_edge_weight(*rec),
{
    if rec.is_fraud == 1 {
        2 * (rec.amount as u128)
    } else {
        rec.amount as u128
    }
}

/// The (target, weight) pairs of the edges that leave `node`, in edge order.
pub open spec fn out_list(edges: Seq<(int, int, u128)>, node: int) -> Seq<(int, u128)>
    decreases edges.len(),
{
    if edges.len() == 0 {
        Seq::empty()
    } else {
        let e = edges.last();
        let rest = out_list(edges.drop_last(), node);
        if e.0 == node {
            rest.push((e.1, e.2))
        } else {
            rest
        }
    }
}

/// A directed multigraph of accounts, one edge per transaction.
pub struct TransactionGraph {
    graph: Graph<String, u128>,
}

impl TransactionGraph {
    /// Node names, by node index.
    pub closed spec fn nodes(&self) -> Seq<Seq<char>> {
        graph_nodes(self.graph)
    }

    /// Edges, by edge index: (source, target, weight).
    pub closed spec fn edges(&self) -> Seq<(int, int, u128)> {
        graph_edges(self.graph)
    }

    /// Every account id names one node, and every edge joins two nodes.
    pub open spec fn wf(&self) -> bool {
        &&& self.nodes().no_duplicates()
        &&& forall|e: int|
            #![trigger self.edges()[e]]
            0 <= e < self.edges().len() ==> 0 <= self.edges()[e].0 < self.nodes().len() && 0
                <= self.edges()[e].1 < self.nodes().len()
    }

    /// The graph that `recs` produce: nodes are the account ids in order of
    /// first appearance, and edge `i` runs from the sender's node to the
    /// receiver's node of record `i`, weighted by the fraud-doubling rule.
    pub open spec fn built_from(&self, recs: Seq<Transaction>) -> bool {
        &&& self.wf()
        &&& self.nodes() == first_seen(id_stream(recs))
        &&& self.edges().len() == recs.len()
        &&& forall|i: int|
            #![trigger self.edges()[i]]
            0 <= i < recs.len() ==> {
                &&& self.nodes()[self.edges()[i].0] == recs[i].name_orig@
                &&& self.nodes()[self.edges()[i].1] == recs[i].name_dest@
                &&& self.edges()[i].2 as int == spec_edge_weight(recs[i])
            }
    }

    /// The index of the node named `name`, if there is one.
    fn find_node(&self, name: &String) -> (r: Option<usize>)
        ensures
            r is None <==> !self.nodes().contains(name@),
            r matches Some(i) ==> i < self.nodes().len() && self.nodes()[i as int] == name@,
    {
        let n = graph_node_count(&self.graph);
        let mut i: usize = 0;
        while i < n
            invariant
                n == self.nodes().len(),
                i <= n,
                forall|j: int| 0 <= j < i ==> self.nodes()[j] != name@,
            decreases n - i,
        {
            if *graph_node_weight(&self.graph, i) == *name {
                return Some(i);
            }
            i = i + 1;
        }
        None
    }

    /// The node named `name`, created at the end when it is not there yet.
    fn resolve_node(&mut self, name: &String) -> (r: usize)
        requires
            old(self).wf(),
            old(self).nodes().len() < index_capacity(),
        ensures
            final(self).wf(),
            final(self).edges() == old(self).edges(),
            final(self).nodes() == if old(self).nodes().contains(name@) {
                old(self).nodes()
            } else {
                old(self).nodes().push(name@)
            },
            r < final(self).nodes().len(),
            final(self).nodes()[r as int] == name@,
    {
        match self.find_node(name) {
            Some(i) => i,
            None => {
                let i = graph_add_node(&mut self.graph, name.clone());
                assert(forall|j: int| 0 <= j < i ==> self.nodes()[j] == old(self).nodes()[j]);
                assert(self.nodes().no_duplicates()) by {
                    assert forall|x: int, y: int|
                        0 <= x < self.nodes().len() && 0 <= y < self.nodes().len() && x != y
                        implies self.nodes()[x] != self.nodes()[y] by {
                        if x == i || y == i {
                            assert(!old(self).nodes().contains(name@));
                        }
                    }
                }
                assert forall|e: int| 0 <= e < self.edges().len() implies
                    0 <= #[trigger] self.edges()[e].0 < self.nodes().len()
                    && 0 <= self.edges()[e].1 < self.nodes().len() by {
                    assert(self.edges()[e] == old(self).edges()[e]);
                }
                i
            },
        }
    }

    /// Builds the graph of a record stream: one node per distinct account
    /// id, one edge per record, parallel edges kept.
    pub fn build_graph(records: &Vec<Transaction>) -> (g: TransactionGraph)
        requires
            2 * records@.len() < index_capacity(),
        ensures
            g.built_from(records@),
    {
        let mut g = TransactionGraph { graph: graph_new() };
        let ghost recs = records@;
        let mut k: usize = 0;
        while k < records.len()
            invariant
                recs == records@,
                2 * recs.len() < index_capacity(),
                k <= recs.len(),
                g.built_from(recs.take(k as int)),
                g.nodes().len() <= 2 * k,
            decreases recs.len() - k,
        {
            let rec = &records[k];
            let ghost before = g;
            let a = g.resolve_node(&rec.name_orig);
            let ghost mid = g;
            let b = g.resolve_node(&rec.name_dest);
            let w = edge_weight(rec);
            graph_add_edge(&mut g.graph, a, b, w);
            proof {
                let next = recs.take(k + 1);
                assert(next.drop_last() =~= recs.take(k as int));
                assert(id_stream(next).drop_last().drop_last() =~= id_stream(recs.take(k as int)));
                assert(id_stream(next).drop_last() =~= id_stream(recs.take(k as int)).push(rec.name_orig@));
                assert(forall|j: int| 0 <= j < before.nodes().len() ==> g.nodes()[j] == before.nodes()[j]);
                let prev = id_stream(recs.take(k as int));
                let whole = id_stream(next);
                let y = whole.drop_last();
                assert(y.drop_last() =~= prev);
                assert(y.last() == rec.name_orig@);
                assert(whole.last() == rec.name_dest@);
                assert(first_seen(y) == mid.nodes());
                assert(g.nodes() == first_seen(whole));
                assert(g.wf()) by {
                    assert forall|e: int| 0 <= e < g.edges().len() implies
                        0 <= #[trigger] g.edges()[e].0 < g.nodes().len()
                        && 0 <= g.edges()[e].1 < g.nodes().len() by {
                        if e < k {
                            assert(g.edges()[e] == before.edges()[e]);
                        }
                    }
                }
                assert forall|i: int| 0 <= i < next.len() implies {
                    &&& g.nodes()[g.edges()[i].0] == next[i].name_orig@
                    &&& g.nodes()[g.edges()[i].1] == next[i].name_dest@
                    &&& g.edges()[i].2 as int == spec_edge_weight(next[i])
                } by {
                    if i < k {
                        assert(g.edges()[i] == before.edges()[i]);
                        assert(next[i] == recs.take(k as int)[i]);
                    }
                }
            }
            k = k + 1;
        }
        assert(recs.take(recs.len() as int) =~= recs);
        g
    }

    pub fn node_count(&self) -> (r: usize)
        ensures
            r == self.nodes().len(),
    {
        graph_node_count(&self.graph)
    }

    pub fn edge_count(&self) -> (r: usize)
        ensures
            r == self.edges().len(),
    {
        graph_edge_count(&self.graph)
    }

    /// The account id of a node.
    pub fn node_name(&self, i: usize) -> (r: Option<String>)
        ensures
            r is Some <==> i < self.nodes().len(),
            r matches Some(s) ==> s@ == self.nodes()[i as int],
    {
        if i < graph_node_count(&self.graph) {
            Some(graph_node_weight(&self.graph, i).clone())
        } else {
            None
        }
    }

    /// The (target, weight) pair of every edge that leaves `node`, one per
    /// transaction, in the order the transactions came.
    pub fn out_edges(&self, node: usize) -> (r: Vec<(usize, u128)>)
        ensures
            r@.len() == out_list(self.edges(), node as int).len(),
            forall|j: int|
                #![trigger r@[j]]
                0 <= j < r@.len() ==> r@[j].0 as int == out_list(self.edges(), node as int)[j].0
                    && r@[j].1 == out_list(self.edges(), node as int)[j].1,
    {
        let m = graph_edge_count(&self.graph);
        let mut out: Vec<(usize, u128)> = Vec::new();
        let mut e: usize = 0;
        while e < m
            invariant
                m == self.edges().len(),
                e <= m,
                out@.len() == out_list(self.edges().take(e as int), node as int).len(),
                forall|j: int|
                    #![trigger out@[j]]
                    0 <= j < out@.len() ==> out@[j].0 as int == out_list(
                        self.edges().take(e as int),
                        node as int,
                    )[j].0 && out@[j].1 == out_list(self.edges().take(e as int), node as int)[j].1,
            decreases m - e,
        {
            let ghost before = out@;
            assert(self.edges().take(e + 1).drop_last() =~= self.edges().take(e as int));
            let ends = graph_edge_endpoints(&self.graph, e);
            let w = graph_edge_weight(&self.graph, e);
            match ends {
                Some((a, b)) => {
                    if a == node {
                        out.push((b, w));
                        assert(forall|j: int| 0 <= j < before.len() ==> out@[j] == before[j]);
                    }
                },
                None => {},
            }
            e = e + 1;
        }
        assert(self.edges().take(m as int) =~= self.edges());
        out
    }

    /// Draws up to `k` distinct node indices at random, without replacement;
    /// all nodes when there are no more than `k`.
    pub fn sample_nodes(&self, k: usize, rng: &mut StdRng) -> (r: Vec<usize>)
        ensures
            r@.len() == if k < self.nodes().len() { k as int } else { self.nodes().len() as int },
            forall|i: int| 0 <= i < r@.len() ==> r@[i] < self.nodes().len(),
            r@.no_duplicates(),
    {
        let n = graph_node_count(&self.graph);
        let amount = if k < n { k } else { n };
        sample_indices(rng, n, amount)
    }
}

/// A draw of as many nodes as the graph holds names every node exactly once.
pub proof fn lemma_full_sample_covers_all(g: TransactionGraph, picks: Seq<usize>)
    requires
        picks.len() == g.nodes().len(),
        forall|i: int| 0 <= i < picks.len() ==> picks[i] < g.nodes().len(),
        picks.no_duplicates(),
    ensures
        forall|v: int| 0 <= v < g.nodes().len() ==> #[trigger] picks.contains(v as usize),
{
    let n = g.nodes().len() as int;
    let as_ints = picks.map_values(|x: usize| x as int);
    let s = as_ints.to_set();
    assert(as_ints.no_duplicates()) by {
        assert forall|i: int, j: int| 0 <= i < as_ints.len() && 0 <= j < as_ints.len() && i != j
            implies as_ints[i] != as_ints[j] by {
            assert(picks[i] != picks[j]);
        }
    }
    as_ints.unique_seq_to_set();
    lemma_int_range(0, n);
    assert(s.subset_of(set_int_range(0, n)));
    lemma_subset_equality(s, set_int_range(0, n));
    assert forall|v: int| 0 <= v < n implies #[trigger] picks.contains(v as usize) by {
        assert(set_int_range(0, n).contains(v));
        assert(s.contains(v));
        let i = choose|i: int| 0 <= i < as_ints.len() && as_ints[i] == v;
        assert(picks[i] == v as usize);
    }
}

/// Resolving an account id in a built graph is stable: wherever two records
/// name the same account, as sender or receiver, their edges meet the same
/// node.
pub proof fn lemma_same_account_same_node(g: TransactionGraph, recs: Seq<Transaction>, i: int, j: int)
    requires
        g.built_from(recs),
        0 <= i < recs.len(),
        0 <= j < recs.len(),
    ensures
        recs[i].name_orig@ == recs[j].name_orig@ ==> g.edges()[i].0 == g.edges()[j].0,
        recs[i].name_orig@ == recs[j].name_dest@ ==> g.edges()[i].0 == g.edges()[j].1,
        recs[i].name_dest@ == recs[j].name_dest@ ==> g.edges()[i].1 == g.edges()[j].1,
{
    let _a = g.edges()[i];
    let _b = g.edges()[j];
}

/// In a built graph the edge of a positive-amount transaction weighs twice
/// its amount exactly when it is marked fraudulent, and its amount otherwise.
pub proof fn lemma_fraud_weight(g: TransactionGraph, recs: Seq<Transaction>, i: int)
    requires
        g.built_from(recs),
        0 <= i < recs.len(),
    ensures
        recs[i].is_fraud == 1 ==> g.edges()[i].2 as int == 2 * recs[i].amount,
        recs[i].is_fraud != 1 ==> g.edges()[i].2 as int == recs[i].amount,
        recs[i].amount > 0 ==> (g.edges()[i].2 as int == 2 * recs[i].amount <==> recs[i].is_fraud
            == 1),
{
    let _e = g.edges()[i];
}

} // verus!
