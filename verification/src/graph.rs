//! The dependency graph: one node per version record, one edge per resolved
//! non-development dependency, kept acyclic by construction.
//!
//! The graph itself is daggy's `Dag`; its contents are modelled by the node
//! count and the sequence of edges in insertion order, each edge a pair of
//! node numbers.

use vstd::prelude::*;

verus! {

/// Whether the edge `x -> y` is present.
pub open spec fn edge_in(edges: Seq<(int, int)>, x: int, y: int) -> bool {
    edges.contains((x, y))
}

/// Whether `p` is a walk along present edges.
pub open spec fn is_chain(edges: Seq<(int, int)>, p: Seq<int>) -> bool {
    forall|i: int| 0 <= i < p.len() - 1 ==> edge_in(edges, #[trigger] p[i], p[i + 1])
}

/// Whether some walk leads from `x` to `y` (trivially true for `x == y`).
pub open spec fn reaches(edges: Seq<(int, int)>, x: int, y: int) -> bool {
    exists|p: Seq<int>| p.len() >= 1 && p[0] == x && p[p.len() - 1] == y && is_chain(edges, p)
}

/// Whether the edges close a cycle: some edge `x -> y` whose target walks
/// back to its source.  This covers self-loops, since `y` reaches `y`.
pub open spec fn has_cycle(edges: Seq<(int, int)>) -> bool {
    exists|x: int, y: int| edge_in(edges, x, y) && reaches(edges, y, x)
}

/// Every node reaches itself, by the one-node walk.
pub proof fn lemma_reaches_self(edges: Seq<(int, int)>, x: int)
    ensures
        reaches(edges, x, x),
{
    let p = seq![x];
    assert(p.len() >= 1 && p[0] == x && p[p.len() - 1] == x && is_chain(edges, p));
}

/// A present edge is a walk of one step.
pub proof fn lemma_reaches_step(edges: Seq<(int, int)>, x: int, y: int)
    requires
        edge_in(edges, x, y),
    ensures
        reaches(edges, x, y),
{
    let p = seq![x, y];
    assert(p.len() >= 1 && p[0] == x && p[p.len() - 1] == y && is_chain(edges, p));
}

/// Walks compose: a walk `x` to `y` followed by one `y` to `z` gives one
/// from `x` to `z`.
pub proof fn lemma_reaches_trans(edges: Seq<(int, int)>, x: int, y: int, z: int)
    requires
        reaches(edges, x, y),
        reaches(edges, y, z),
    ensures
        reaches(edges, x, z),
{
    let p = choose|p: Seq<int>|
        p.len() >= 1 && p[0] == x && p[p.len() - 1] == y && is_chain(edges, p);
    let q = choose|q: Seq<int>|
        q.len() >= 1 && q[0] == y && q[q.len() - 1] == z && is_chain(edges, q);
    let w = p + q.subrange(1, q.len() as int);
    assert(w.len() == p.len() + q.len() - 1);
    assert(w[0] == x);
    assert(w[w.len() - 1] == z);
    assert forall|i: int| 0 <= i < w.len() - 1 implies edge_in(edges, #[trigger] w[i], w[i + 1]) by {
        if i < p.len() - 1 {
            assert(w[i] == p[i] && w[i + 1] == p[i + 1]);
        } else if i == p.len() - 1 {
            if q.len() >= 2 {
                assert(w[i] == p[p.len() - 1]);
                assert(w[i + 1] == q[1]);
                assert(edge_in(edges, q[0], q[1]));
            }
        } else {
            let j = i - p.len() + 1;
            assert(w[i] == q[j] && w[i + 1] == q[j + 1]);
            assert(edge_in(edges, q[j], q[j + 1]));
        }
    }
    assert(reaches(edges, x, z));
}

/// Walks survive any growth of the edge collection.
pub proof fn lemma_reaches_mono(small: Seq<(int, int)>, large: Seq<(int, int)>, x: int, y: int)
    requires
        forall|k: int| 0 <= k < small.len() ==> large.contains(#[trigger] small[k]),
        reaches(small, x, y),
    ensures
        reaches(large, x, y),
{
    let p = choose|p: Seq<int>|
        p.len() >= 1 && p[0] == x && p[p.len() - 1] == y && is_chain(small, p);
    assert forall|i: int| 0 <= i < p.len() - 1 implies edge_in(large, #[trigger] p[i], p[i + 1]) by {
        assert(edge_in(small, p[i], p[i + 1]));
        let k = choose|k: int| 0 <= k < small.len() && small[k] == (p[i], p[i + 1]);
        assert(large.contains(small[k]));
    }
    assert(p.len() >= 1 && p[0] == x && p[p.len() - 1] == y && is_chain(large, p));
}

/// A walk that uses one extra edge `a -> b` either avoids it, or can be cut
/// at it: then the walk's source reaches `a` and `b` reaches its target
/// without the extra edge.
proof fn lemma_chain_push_inv(
    edges: Seq<(int, int)>,
    a: int,
    b: int,
    p: Seq<int>,
)
    requires
        p.len() >= 1,
        is_chain(edges.push((a, b)), p),
    ensures
        reaches(edges, p[0], p[p.len() - 1]) || (reaches(edges, p[0], a) && reaches(
            edges,
            b,
            p[p.len() - 1],
        )),
    decreases p.len(),
{
    let x = p[0];
    let y = p[p.len() - 1];
    if p.len() == 1 {
        lemma_reaches_self(edges, x);
    } else {
        let rest = p.subrange(1, p.len() as int);
        assert(is_chain(edges.push((a, b)), rest)) by {
            assert forall|i: int| 0 <= i < rest.len() - 1 implies edge_in(
                edges.push((a, b)),
                #[trigger] rest[i],
                rest[i + 1],
            ) by {
                assert(rest[i] == p[i + 1] && rest[i + 1] == p[i + 2]);
                assert(edge_in(edges.push((a, b)), p[i + 1], p[i + 2]));
            }
        }
        lemma_chain_push_inv(edges, a, b, rest);
        assert(edge_in(edges.push((a, b)), p[0], p[1]));
        let step = (p[0], p[1]);
        let k = choose|k: int|
            0 <= k < edges.push((a, b)).len() && edges.push((a, b))[k] == step;
        if k < edges.len() {
            assert(edges[k] == step);
            assert(edge_in(edges, p[0], p[1]));
            lemma_reaches_step(edges, p[0], p[1]);
            if reaches(edges, rest[0], rest[rest.len() - 1]) {
                lemma_reaches_trans(edges, p[0], p[1], y);
            } else {
                lemma_reaches_trans(edges, p[0], p[1], a);
            }
        } else {
            assert(step == (a, b));
            assert(p[1] == b);
            lemma_reaches_self(edges, a);
            if reaches(edges, rest[0], rest[rest.len() - 1]) {
            } else {
                assert(reaches(edges, b, y));
            }
        }
    }
}

/// Adding the edge `a -> b` to an acyclic edge collection keeps it acyclic,
/// provided `b` did not already reach `a`.
pub proof fn lemma_acyclic_push(edges: Seq<(int, int)>, a: int, b: int)
    requires
        !has_cycle(edges),
        !reaches(edges, b, a),
    ensures
        !has_cycle(edges.push((a, b))),
{
    let grown = edges.push((a, b));
    assert forall|x: int, y: int| !(edge_in(grown, x, y) && reaches(grown, y, x)) by {
        if edge_in(grown, x, y) && reaches(grown, y, x) {
            let p = choose|p: Seq<int>|
                p.len() >= 1 && p[0] == y && p[p.len() - 1] == x && is_chain(grown, p);
            lemma_chain_push_inv(edges, a, b, p);
            let k = choose|k: int| 0 <= k < grown.len() && grown[k] == (x, y);
            if k < edges.len() {
                assert(edge_in(edges, x, y));
                lemma_reaches_step(edges, x, y);
                if reaches(edges, y, x) {
                    assert(has_cycle(edges));
                } else {
                    assert(reaches(edges, y, a) && reaches(edges, b, x));
                    lemma_reaches_trans(edges, b, x, y);
                    lemma_reaches_trans(edges, b, y, a);
                    assert(false);
                }
            } else {
                assert((x, y) == (a, b));
                assert(p[0] == b && p[p.len() - 1] == a);
                if reaches(edges, b, a) {
                    assert(false);
                } else {
                    assert(reaches(edges, b, a) && reaches(edges, b, a));
                    assert(false);
                }
            }
        }
    }
    assert(!has_cycle(grown));
}

/// The directed acyclic graph itself.  It holds daggy's `Dag`, whose
/// contents Verus sees only through `dag_node_count` and `dag_edges`.
#[verifier::external_body]
pub struct DepDag {
    inner: daggy::Dag<(), ()>,
}

/// The number of nodes the graph holds.
pub uninterp spec fn dag_node_count(d: DepDag) -> nat;

/// The edges the graph holds, in insertion order, each as the pair of its
/// source and target node numbers.  Parallel edges appear once per insertion.
pub uninterp spec fn dag_edges(d: DepDag) -> Seq<(int, int)>;

/// Relies on `daggy::Dag::new`: a fresh graph holds no node and no edge.
#[verifier::external_body]
pub fn dag_new() -> (d: DepDag)
    ensures
        dag_node_count(d) == 0,
        dag_edges(d) == Seq::<(int, int)>::empty(),
{
    DepDag { inner: daggy::Dag::new() }
}

/// Relies on `daggy::Dag::add_node` (petgraph's `add_node`): nodes are
/// numbered compactly from zero in insertion order, so the new node gets the
/// old node count as its number.  Stays below the index type's capacity,
/// where `add_node` would panic.
#[verifier::external_body]
pub fn dag_add_node(d: &mut DepDag) -> (ix: usize)
    requires
        dag_node_count(*old(d)) < 0xFFFF_FFFF,
    ensures
        ix == dag_node_count(*old(d)),
        dag_node_count(*final(d)) == dag_node_count(*old(d)) + 1,
        dag_edges(*final(d)) == dag_edges(*old(d)),
{
    d.inner.add_node(()).index()
}

/// Relies on `daggy::Dag::add_edge`: the edge `a -> b` is added unless a walk
/// already leads from `b` to `a` (a self-loop included), in which case the
/// graph is left as it was and `WouldCycle` is reported.  The walk test is
/// exact only on an acyclic graph, which daggy guarantees of itself and the
/// caller re-establishes below.  Node numbers out of range, or an edge count
/// at the index type's capacity, would make `add_edge` panic and are ruled
/// out here.
#[verifier::external_body]
pub fn dag_add_edge(d: &mut DepDag, a: usize, b: usize) -> (r: bool)
    requires
        a < dag_node_count(*old(d)),
        b < dag_node_count(*old(d)),
        dag_edges(*old(d)).len() < 0xFFFF_FFFF,
        !has_cycle(dag_edges(*old(d))),
    ensures
        dag_node_count(*final(d)) == dag_node_count(*old(d)),
        r == !reaches(dag_edges(*old(d)), b as int, a as int),
        r ==> dag_edges(*final(d)) == dag_edges(*old(d)).push((a as int, b as int)),
        !r ==> dag_edges(*final(d)) == dag_edges(*old(d)),
{
    match d.inner.add_edge(daggy::NodeIndex::new(a), daggy::NodeIndex::new(b), ()) {
        Ok(_) => true,
        Err(_) => false,
    }
}

/// Relies on `daggy::Dag::node_count`.
#[verifier::external_body]
pub fn dag_count_nodes(d: &DepDag) -> (n: usize)
    ensures
        n == dag_node_count(*d),
{
    d.inner.node_count()
}

/// Relies on `daggy::Dag::edge_count`.
#[verifier::external_body]
pub fn dag_count_edges(d: &DepDag) -> (n: usize)
    ensures
        n == dag_edges(*d).len(),
{
    d.inner.edge_count()
}

} // verus!
