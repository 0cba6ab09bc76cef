//! The graph builder: one node per version record of the index, then one
//! edge per resolvable non-development dependency, aborting on a cycle.

use vstd::prelude::*;
use crate::record::Version;
use crate::record::is_dev;
use crate::record::version_view;
use crate::index::PackageIndex;
use crate::index::index_wf;
use crate::index::resolve_spec;
use crate::index::resolve_ids;
use crate::index::lemma_resolve_first;
use crate::graph::DepDag;
use crate::graph::dag_new;
use crate::graph::dag_add_node;
use crate::graph::dag_add_edge;
use crate::graph::dag_count_nodes;
use crate::graph::dag_node_count;
use crate::graph::dag_edges;
use crate::graph::edge_in;
use crate::graph::has_cycle;
use crate::graph::reaches;
use crate::graph::lemma_reaches_mono;
use crate::graph::lemma_acyclic_push;

verus! {

/// How many version records stand in packages before package `pi`: the
/// number of the first node allocated for package `pi`.
pub open spec fn records_before(idx: PackageIndex, pi: int) -> int
    decreases pi,
    when 0 <= pi <= idx.packages@.len()
{
    if pi <= 0 {
        0
    } else {
        records_before(idx, pi - 1) + idx.packages@[pi - 1].versions@.len()
    }
}

/// The total number of version records in the index: the node count of its
/// graph.
pub open spec fn total_records(idx: PackageIndex) -> int {
    records_before(idx, idx.packages@.len() as int)
}

/// The node number of the record at package `pi`, position `vi`: records are
/// numbered in storage order, package by package.
pub open spec fn node_of(idx: PackageIndex, pi: int, vi: int) -> int {
    records_before(idx, pi) + vi
}

/// `records_before` grows with the position.
pub proof fn lemma_records_before_le(idx: PackageIndex, i: int, j: int)
    requires
        0 <= i <= j <= idx.packages@.len(),
    ensures
        records_before(idx, i) <= records_before(idx, j),
    decreases j - i,
{
    if i < j {
        lemma_records_before_le(idx, i, j - 1);
    }
}

/// Every in-range position's node number lies below the total record count.
pub proof fn lemma_node_of_in_range(idx: PackageIndex, pi: int, vi: int)
    requires
        0 <= pi < idx.packages@.len(),
        0 <= vi < idx.packages@[pi].versions@.len(),
    ensures
        0 <= node_of(idx, pi, vi) < total_records(idx),
{
    lemma_records_before_le(idx, 0, pi);
    assert(records_before(idx, pi + 1) == records_before(idx, pi)
        + idx.packages@[pi].versions@.len());
    lemma_records_before_le(idx, pi + 1, idx.packages@.len() as int);
}

/// Law: the numbering of records as graph nodes is injective; together with
/// the uniqueness of identities, each `(name, version)` identity owns
/// exactly one node.
pub proof fn lemma_node_of_injective(idx: PackageIndex, pi: int, vi: int, pj: int, vj: int)
    requires
        0 <= pi < idx.packages@.len(),
        0 <= vi < idx.packages@[pi].versions@.len(),
        0 <= pj < idx.packages@.len(),
        0 <= vj < idx.packages@[pj].versions@.len(),
        node_of(idx, pi, vi) == node_of(idx, pj, vj),
    ensures
        pi == pj,
        vi == vj,
{
    if pi < pj {
        assert(records_before(idx, pi + 1) == records_before(idx, pi)
            + idx.packages@[pi].versions@.len());
        lemma_records_before_le(idx, pi + 1, pj);
    } else if pj < pi {
        assert(records_before(idx, pj + 1) == records_before(idx, pj)
            + idx.packages@[pj].versions@.len());
        lemma_records_before_le(idx, pj + 1, pi);
    }
}

/// How many dependency declarations stand before position `vi` within
/// package `pi`.
pub open spec fn pkg_deps_before(idx: PackageIndex, pi: int, vi: int) -> int
    decreases vi,
    when 0 <= pi < idx.packages@.len() && 0 <= vi <= idx.packages@[pi].versions@.len()
{
    if vi <= 0 {
        0
    } else {
        pkg_deps_before(idx, pi, vi - 1) + idx.packages@[pi].versions@[vi - 1].deps@.len()
    }
}

/// How many dependency declarations stand in packages before package `pi`.
pub open spec fn deps_before(idx: PackageIndex, pi: int) -> int
    decreases pi,
    when 0 <= pi <= idx.packages@.len()
{
    if pi <= 0 {
        0
    } else {
        deps_before(idx, pi - 1) + pkg_deps_before(idx, pi - 1, idx.packages@[pi
            - 1].versions@.len() as int)
    }
}

/// The total number of dependency declarations in the index.
pub open spec fn total_deps(idx: PackageIndex) -> int {
    deps_before(idx, idx.packages@.len() as int)
}

/// `pkg_deps_before` grows with the position.
pub proof fn lemma_pkg_deps_before_le(idx: PackageIndex, pi: int, i: int, j: int)
    requires
        0 <= pi < idx.packages@.len(),
        0 <= i <= j <= idx.packages@[pi].versions@.len(),
    ensures
        pkg_deps_before(idx, pi, i) <= pkg_deps_before(idx, pi, j),
    decreases j - i,
{
    if i < j {
        lemma_pkg_deps_before_le(idx, pi, i, j - 1);
    }
}

/// `deps_before` grows with the position.
pub proof fn lemma_deps_before_le(idx: PackageIndex, i: int, j: int)
    requires
        0 <= i <= j <= idx.packages@.len(),
    ensures
        deps_before(idx, i) <= deps_before(idx, j),
    decreases j - i,
{
    if i < j {
        lemma_deps_before_le(idx, i, j - 1);
        lemma_pkg_deps_before_le(idx, j - 1, 0, idx.packages@[j - 1].versions@.len() as int);
    }
}

/// The running dependency position lies between zero and the total.
pub proof fn lemma_dep_pos_bound(idx: PackageIndex, pi: int, vi: int, di: int)
    requires
        0 <= pi < idx.packages@.len(),
        0 <= vi < idx.packages@[pi].versions@.len(),
        0 <= di <= idx.packages@[pi].versions@[vi].deps@.len(),
    ensures
        0 <= deps_before(idx, pi) + pkg_deps_before(idx, pi, vi) + di <= total_deps(idx),
{
    lemma_deps_before_le(idx, 0, pi);
    lemma_pkg_deps_before_le(idx, pi, 0, vi);
    assert(pkg_deps_before(idx, pi, vi + 1) == pkg_deps_before(idx, pi, vi)
        + idx.packages@[pi].versions@[vi].deps@.len());
    lemma_pkg_deps_before_le(idx, pi, vi + 1, idx.packages@[pi].versions@.len() as int);
    assert(deps_before(idx, pi + 1) == deps_before(idx, pi) + pkg_deps_before(
        idx,
        pi,
        idx.packages@[pi].versions@.len() as int,
    ));
    lemma_deps_before_le(idx, pi + 1, idx.packages@.len() as int);
}

/// The edge, if any, that the dependency at `(pi, vi, di)` contributes: none
/// for a development dependency or an unresolved one, else the single edge
/// from the declaring record's node to the chosen record's node.
pub open spec fn dep_edge(idx: PackageIndex, pi: int, vi: int, di: int) -> Seq<(int, int)> {
    let d = idx.packages@[pi].versions@[vi].deps@[di];
    if is_dev(d) {
        Seq::empty()
    } else {
        match resolve_spec(d, idx) {
            Some(t) => seq![(node_of(idx, pi, vi), node_of(idx, t.0, t.1))],
            None => Seq::empty(),
        }
    }
}

/// Law: a development dependency declaration contributes no edge.
pub proof fn lemma_dev_dep_no_edge(idx: PackageIndex, pi: int, vi: int, di: int)
    requires
        0 <= pi < idx.packages@.len(),
        0 <= vi < idx.packages@[pi].versions@.len(),
        0 <= di < idx.packages@[pi].versions@[vi].deps@.len(),
        is_dev(idx.packages@[pi].versions@[vi].deps@[di]),
    ensures
        dep_edge(idx, pi, vi, di) == Seq::<(int, int)>::empty(),
{
}

/// The edges contributed by record `(pi, vi)`'s dependencies from `di` on.
pub open spec fn rec_edges_from(idx: PackageIndex, pi: int, vi: int, di: int) -> Seq<(int, int)>
    decreases idx.packages@[pi].versions@[vi].deps@.len() - di,
    when 0 <= pi < idx.packages@.len() && 0 <= vi < idx.packages@[pi].versions@.len() && 0 <= di
        <= idx.packages@[pi].versions@[vi].deps@.len()
{
    if di >= idx.packages@[pi].versions@[vi].deps@.len() {
        Seq::empty()
    } else {
        dep_edge(idx, pi, vi, di) + rec_edges_from(idx, pi, vi, di + 1)
    }
}

/// The edges contributed by package `pi`'s records from `vi` on.
pub open spec fn pkg_edges_from(idx: PackageIndex, pi: int, vi: int) -> Seq<(int, int)>
    decreases idx.packages@[pi].versions@.len() - vi,
    when 0 <= pi < idx.packages@.len() && 0 <= vi <= idx.packages@[pi].versions@.len()
{
    if vi >= idx.packages@[pi].versions@.len() {
        Seq::empty()
    } else {
        rec_edges_from(idx, pi, vi, 0) + pkg_edges_from(idx, pi, vi + 1)
    }
}

/// The edges contributed by the packages from `pi` on.
pub open spec fn idx_edges_from(idx: PackageIndex, pi: int) -> Seq<(int, int)>
    decreases idx.packages@.len() - pi,
    when 0 <= pi <= idx.packages@.len()
{
    if pi >= idx.packages@.len() {
        Seq::empty()
    } else {
        pkg_edges_from(idx, pi, 0) + idx_edges_from(idx, pi + 1)
    }
}

/// Every edge the whole index calls for, in construction order.
pub open spec fn intended_edges(idx: PackageIndex) -> Seq<(int, int)> {
    idx_edges_from(idx, 0)
}

/// The mathematical content of one unresolved-dependency diagnostic.
pub struct UnresolvedView {
    pub from_name: Seq<char>,
    pub from_version: (int, int, int, Seq<char>, Seq<char>),
    pub dep_name: Seq<char>,
    pub dep_req: Seq<char>,
}

/// One unresolved-dependency diagnostic: which record declared the
/// dependency, and the dependency's name and raw requirement.
pub struct UnresolvedDiag {
    pub from_name: String,
    pub from_version: Version,
    pub dep_name: String,
    pub dep_req: String,
}

/// The mathematical value of a diagnostic.
pub open spec fn diag_view(u: UnresolvedDiag) -> UnresolvedView {
    UnresolvedView {
        from_name: u.from_name@,
        from_version: version_view(u.from_version),
        dep_name: u.dep_name@,
        dep_req: u.dep_req@,
    }
}

/// The mathematical values of a sequence of diagnostics.
pub open spec fn diag_views(s: Seq<UnresolvedDiag>) -> Seq<UnresolvedView> {
    s.map_values(|u: UnresolvedDiag| diag_view(u))
}

/// The diagnostic, if any, that the dependency at `(pi, vi, di)` calls for:
/// one entry exactly when it is non-development and unresolved.
pub open spec fn dep_unres(idx: PackageIndex, pi: int, vi: int, di: int) -> Seq<UnresolvedView> {
    let v = idx.packages@[pi].versions@[vi];
    let d = v.deps@[di];
    if !is_dev(d) && resolve_spec(d, idx) is None {
        seq![
            UnresolvedView {
                from_name: v.name@,
                from_version: version_view(v.version),
                dep_name: d.name@,
                dep_req: d.req@,
            },
        ]
    } else {
        Seq::empty()
    }
}


/// Law: a development dependency declaration calls for no unresolved
/// diagnostic either: it is filtered out before the resolver runs.
pub proof fn lemma_dev_dep_no_diagnostic(idx: PackageIndex, pi: int, vi: int, di: int)
    requires
        0 <= pi < idx.packages@.len(),
        0 <= vi < idx.packages@[pi].versions@.len(),
        0 <= di < idx.packages@[pi].versions@[vi].deps@.len(),
        is_dev(idx.packages@[pi].versions@[vi].deps@[di]),
    ensures
        dep_unres(idx, pi, vi, di) == Seq::<UnresolvedView>::empty(),
{
}

/// Law: a non-development dependency that does not resolve calls for no
/// edge and for exactly one diagnostic, carrying the declaring record's
/// name and version and the dependency's name and raw requirement.
pub proof fn lemma_unresolved_dep(idx: PackageIndex, pi: int, vi: int, di: int)
    requires
        0 <= pi < idx.packages@.len(),
        0 <= vi < idx.packages@[pi].versions@.len(),
        0 <= di < idx.packages@[pi].versions@[vi].deps@.len(),
        !is_dev(idx.packages@[pi].versions@[vi].deps@[di]),
        resolve_spec(idx.packages@[pi].versions@[vi].deps@[di], idx) is None,
    ensures
        dep_edge(idx, pi, vi, di) == Seq::<(int, int)>::empty(),
        dep_unres(idx, pi, vi, di) == seq![
            UnresolvedView {
                from_name: idx.packages@[pi].versions@[vi].name@,
                from_version: version_view(idx.packages@[pi].versions@[vi].version),
                dep_name: idx.packages@[pi].versions@[vi].deps@[di].name@,
                dep_req: idx.packages@[pi].versions@[vi].deps@[di].req@,
            },
        ],
{
}

/// The diagnostics called for by record `(pi, vi)`'s dependencies from `di`
/// on.
pub open spec fn rec_unres_from(idx: PackageIndex, pi: int, vi: int, di: int) -> Seq<
    UnresolvedView,
>
    decreases idx.packages@[pi].versions@[vi].deps@.len() - di,
    when 0 <= pi < idx.packages@.len() && 0 <= vi < idx.packages@[pi].versions@.len() && 0 <= di
        <= idx.packages@[pi].versions@[vi].deps@.len()
{
    if di >= idx.packages@[pi].versions@[vi].deps@.len() {
        Seq::empty()
    } else {
        dep_unres(idx, pi, vi, di) + rec_unres_from(idx, pi, vi, di + 1)
    }
}

/// The diagnostics called for by package `pi`'s records from `vi` on.
pub open spec fn pkg_unres_from(idx: PackageIndex, pi: int, vi: int) -> Seq<UnresolvedView>
    decreases idx.packages@[pi].versions@.len() - vi,
    when 0 <= pi < idx.packages@.len() && 0 <= vi <= idx.packages@[pi].versions@.len()
{
    if vi >= idx.packages@[pi].versions@.len() {
        Seq::empty()
    } else {
        rec_unres_from(idx, pi, vi, 0) + pkg_unres_from(idx, pi, vi + 1)
    }
}

/// The diagnostics called for by the packages from `pi` on.
pub open spec fn idx_unres_from(idx: PackageIndex, pi: int) -> Seq<UnresolvedView>
    decreases idx.packages@.len() - pi,
    when 0 <= pi <= idx.packages@.len()
{
    if pi >= idx.packages@.len() {
        Seq::empty()
    } else {
        pkg_unres_from(idx, pi, 0) + idx_unres_from(idx, pi + 1)
    }
}

/// Every unresolved-dependency diagnostic the whole index calls for, in
/// construction order.
pub open spec fn intended_unres(idx: PackageIndex) -> Seq<UnresolvedView> {
    idx_unres_from(idx, 0)
}

/// A fatal fault of graph construction: the edge from the named declaring
/// record to the named chosen record would have closed a cycle.
#[derive(Debug)]
pub enum GraphError {
    Cycle {
        from_name: String,
        from_version: Version,
        dep_name: String,
        dep_req: String,
        to_name: String,
        to_version: Version,
    },
}

/// The finished graph: the acyclic node-and-edge structure, plus every
/// unresolved-dependency diagnostic gathered on the way.
pub struct DependencyGraph {
    pub dag: DepDag,
    pub unresolved: Vec<UnresolvedDiag>,
}


/// Whether the named declaration and target describe a real cycle-closing
/// edge of the index: some non-development dependency declaration carries
/// these names, resolves to a record with the named target identity, and the
/// target's node walks back to the declaring record's node along the edges
/// the index calls for.
pub open spec fn names_cycle_edge(
    idx: PackageIndex,
    from_name: Seq<char>,
    from_version: (int, int, int, Seq<char>, Seq<char>),
    dep_name: Seq<char>,
    dep_req: Seq<char>,
    to_name: Seq<char>,
    to_version: (int, int, int, Seq<char>, Seq<char>),
) -> bool {
    exists|pi: int, vi: int, di: int, pj: int, wj: int|
        #![trigger resolve_spec(idx.packages@[pi].versions@[vi].deps@[di], idx), node_of(idx, pj, wj)]
        {
            &&& 0 <= pi < idx.packages@.len()
            &&& 0 <= vi < idx.packages@[pi].versions@.len()
            &&& 0 <= di < idx.packages@[pi].versions@[vi].deps@.len()
            &&& !is_dev(idx.packages@[pi].versions@[vi].deps@[di])
            &&& resolve_spec(idx.packages@[pi].versions@[vi].deps@[di], idx) == Some((pj, wj))
            &&& from_name == idx.packages@[pi].versions@[vi].name@
            &&& from_version == version_view(idx.packages@[pi].versions@[vi].version)
            &&& dep_name == idx.packages@[pi].versions@[vi].deps@[di].name@
            &&& dep_req == idx.packages@[pi].versions@[vi].deps@[di].req@
            &&& to_name == idx.packages@[pj].versions@[wj].name@
            &&& to_version == version_view(idx.packages@[pj].versions@[wj].version)
            &&& reaches(intended_edges(idx), node_of(idx, pj, wj), node_of(idx, pi, vi))
        }
}

/// Builds the dependency graph of the index: one node per version record in
/// storage order, then, in storage order, one edge per non-development
/// dependency that the resolver can satisfy, gathering a diagnostic for each
/// one it cannot.  Construction fails exactly when the edges the index calls
/// for close a cycle, and then reports the offending edge in full.
pub fn build_graph(index: &PackageIndex) -> (r: Result<DependencyGraph, GraphError>)
    requires
        index_wf(*index),
        total_records(*index) < 0xFFFF_FFFF,
        total_deps(*index) < 0xFFFF_FFFF,
    ensures
        match r {
            Ok(g) => {
                &&& dag_node_count(g.dag) == total_records(*index)
                &&& dag_edges(g.dag) == intended_edges(*index)
                &&& !has_cycle(intended_edges(*index))
                &&& diag_views(g.unresolved@) == intended_unres(*index)
            },
            Err(e) => {
                &&& has_cycle(intended_edges(*index))
                &&& match e {
                    GraphError::Cycle {
                        from_name,
                        from_version,
                        dep_name,
                        dep_req,
                        to_name,
                        to_version,
                    } => names_cycle_edge(
                        *index,
                        from_name@,
                        version_view(from_version),
                        dep_name@,
                        dep_req@,
                        to_name@,
                        version_view(to_version),
                    ),
                }
            },
        },
{
    let n = index.packages.len();
    let mut dag = dag_new();
    let mut offsets: Vec<usize> = Vec::new();
    let mut pi: usize = 0;
    while pi < n
        invariant
            n == index.packages@.len(),
            0 <= pi <= n,
            index_wf(*index),
            total_records(*index) < 0xFFFF_FFFF,
            offsets@.len() == pi,
            forall|k: int| 0 <= k < pi ==> offsets@[k] == records_before(*index, k),
            dag_node_count(dag) == records_before(*index, pi as int),
            dag_edges(dag) == Seq::<(int, int)>::empty(),
        decreases n - pi,
    {
        proof {
            lemma_records_before_le(*index, 0, pi as int);
            lemma_records_before_le(*index, pi as int, n as int);
        }
        let base = dag_count_nodes(&dag);
        offsets.push(base);
        let m = index.packages[pi].versions.len();
        let mut vi: usize = 0;
        while vi < m
            invariant
                n == index.packages@.len(),
                0 <= pi < n,
                index_wf(*index),
                total_records(*index) < 0xFFFF_FFFF,
                m == index.packages@[pi as int].versions@.len(),
                0 <= vi <= m,
                dag_node_count(dag) == records_before(*index, pi as int) + vi,
                dag_edges(dag) == Seq::<(int, int)>::empty(),
            decreases m - vi,
        {
            proof {
                lemma_node_of_in_range(*index, pi as int, vi as int);
            }
            let _ix = dag_add_node(&mut dag);
            vi = vi + 1;
        }
        pi = pi + 1;
    }
    let ghost iedges = intended_edges(*index);
    let ghost iunres = intended_unres(*index);
    let mut unresolved: Vec<UnresolvedDiag> = Vec::new();
    proof {
        assert(dag_node_count(dag) == total_records(*index));
        assert(iedges =~= dag_edges(dag) + idx_edges_from(*index, 0));
        assert(iunres =~= diag_views(unresolved@) + idx_unres_from(*index, 0));
        assert(!has_cycle(dag_edges(dag))) by {
            if has_cycle(dag_edges(dag)) {
                let (x, y): (int, int) = choose|x: int, y: int|
                    edge_in(dag_edges(dag), x, y) && reaches(dag_edges(dag), y, x);
                assert(dag_edges(dag).contains((x, y)));
            }
        }
    }
    let mut pi: usize = 0;
    while pi < n
        invariant
            n == index.packages@.len(),
            0 <= pi <= n,
            index_wf(*index),
            total_records(*index) < 0xFFFF_FFFF,
            total_deps(*index) < 0xFFFF_FFFF,
            offsets@.len() == n,
            forall|k: int| 0 <= k < n ==> offsets@[k] == records_before(*index, k),
            dag_node_count(dag) == total_records(*index),
            !has_cycle(dag_edges(dag)),
            dag_edges(dag).len() <= deps_before(*index, pi as int),
            iedges == intended_edges(*index),
            iunres == intended_unres(*index),
            iedges == dag_edges(dag) + idx_edges_from(*index, pi as int),
            iunres == diag_views(unresolved@) + idx_unres_from(*index, pi as int),
        decreases n - pi,
    {
        let m = index.packages[pi].versions.len();
        let mut vi: usize = 0;
        proof {
            assert(iedges =~= dag_edges(dag) + pkg_edges_from(*index, pi as int, 0)
                + idx_edges_from(*index, pi as int + 1));
            assert(iunres =~= diag_views(unresolved@) + pkg_unres_from(*index, pi as int, 0)
                + idx_unres_from(*index, pi as int + 1));
        }
        while vi < m
            invariant
                n == index.packages@.len(),
                0 <= pi < n,
                index_wf(*index),
                total_records(*index) < 0xFFFF_FFFF,
                total_deps(*index) < 0xFFFF_FFFF,
                m == index.packages@[pi as int].versions@.len(),
                0 <= vi <= m,
                offsets@.len() == n,
                forall|k: int| 0 <= k < n ==> offsets@[k] == records_before(*index, k),
                dag_node_count(dag) == total_records(*index),
                !has_cycle(dag_edges(dag)),
                dag_edges(dag).len() <= deps_before(*index, pi as int) + pkg_deps_before(
                    *index,
                    pi as int,
                    vi as int,
                ),
                iedges == intended_edges(*index),
                iunres == intended_unres(*index),
                iedges == dag_edges(dag) + pkg_edges_from(*index, pi as int, vi as int)
                    + idx_edges_from(*index, pi as int + 1),
                iunres == diag_views(unresolved@) + pkg_unres_from(*index, pi as int, vi as int)
                    + idx_unres_from(*index, pi as int + 1),
            decreases m - vi,
        {
            proof {
                lemma_node_of_in_range(*index, pi as int, vi as int);
            }
            let a = offsets[pi] + vi;
            assert(a == node_of(*index, pi as int, vi as int));
            let dcount = index.packages[pi].versions[vi].deps.len();
            let mut di: usize = 0;
            proof {
                assert(iedges =~= dag_edges(dag) + rec_edges_from(*index, pi as int, vi as int, 0)
                    + pkg_edges_from(*index, pi as int, vi as int + 1) + idx_edges_from(
                    *index,
                    pi as int + 1,
                ));
                assert(iunres =~= diag_views(unresolved@) + rec_unres_from(
                    *index,
                    pi as int,
                    vi as int,
                    0,
                ) + pkg_unres_from(*index, pi as int, vi as int + 1) + idx_unres_from(
                    *index,
                    pi as int + 1,
                ));
            }
            while di < dcount
                invariant
                    n == index.packages@.len(),
                    0 <= pi < n,
                    index_wf(*index),
                    total_records(*index) < 0xFFFF_FFFF,
                    total_deps(*index) < 0xFFFF_FFFF,
                    m == index.packages@[pi as int].versions@.len(),
                    0 <= vi < m,
                    dcount == index.packages@[pi as int].versions@[vi as int].deps@.len(),
                    0 <= di <= dcount,
                    offsets@.len() == n,
                    forall|k: int| 0 <= k < n ==> offsets@[k] == records_before(*index, k),
                    a == node_of(*index, pi as int, vi as int),
                    a < total_records(*index),
                    dag_node_count(dag) == total_records(*index),
                    !has_cycle(dag_edges(dag)),
                    dag_edges(dag).len() <= deps_before(*index, pi as int) + pkg_deps_before(
                        *index,
                        pi as int,
                        vi as int,
                    ) + di,
                    iedges == intended_edges(*index),
                    iunres == intended_unres(*index),
                    iedges == dag_edges(dag) + rec_edges_from(*index, pi as int, vi as int, di as int)
                        + pkg_edges_from(*index, pi as int, vi as int + 1) + idx_edges_from(
                        *index,
                        pi as int + 1,
                    ),
                    iunres == diag_views(unresolved@) + rec_unres_from(
                        *index,
                        pi as int,
                        vi as int,
                        di as int,
                    ) + pkg_unres_from(*index, pi as int, vi as int + 1) + idx_unres_from(
                        *index,
                        pi as int + 1,
                    ),
                decreases dcount - di,
            {
                let ghost gpi = pi as int;
                let ghost gvi = vi as int;
                let ghost gdi = di as int;
                proof {
                    lemma_dep_pos_bound(*index, gpi, gvi, gdi);
                    assert(rec_edges_from(*index, gpi, gvi, gdi) == dep_edge(*index, gpi, gvi, gdi)
                        + rec_edges_from(*index, gpi, gvi, gdi + 1));
                    assert(rec_unres_from(*index, gpi, gvi, gdi) == dep_unres(*index, gpi, gvi, gdi)
                        + rec_unres_from(*index, gpi, gvi, gdi + 1));
                }
                let d = &index.packages[pi].versions[vi].deps[di];
                assert(*d == index.packages@[gpi].versions@[gvi].deps@[gdi]);
                if d.is_dev_dep() {
                    proof {
                        assert(dep_edge(*index, gpi, gvi, gdi) =~= Seq::<(int, int)>::empty());
                        assert(dep_unres(*index, gpi, gvi, gdi) =~= Seq::<UnresolvedView>::empty());
                        assert(iedges =~= dag_edges(dag) + rec_edges_from(*index, gpi, gvi, gdi + 1)
                            + pkg_edges_from(*index, gpi, gvi + 1) + idx_edges_from(*index, gpi + 1));
                        assert(iunres =~= diag_views(unresolved@) + rec_unres_from(
                            *index,
                            gpi,
                            gvi,
                            gdi + 1,
                        ) + pkg_unres_from(*index, gpi, gvi + 1) + idx_unres_from(*index, gpi + 1));
                    }
                } else {
                    match resolve_ids(d, index) {
                        Some(target) => {
                            let (pj, wj) = target;
                            proof {
                                lemma_resolve_first(*d, *index, pj as int, wj as int);
                                lemma_node_of_in_range(*index, pj as int, wj as int);
                            }
                            let b = offsets[pj] + wj;
                            assert(b == node_of(*index, pj as int, wj as int));
                            let ghost before = dag_edges(dag);
                            proof {
                                assert(dep_edge(*index, gpi, gvi, gdi) == seq![
                                    (a as int, b as int),
                                ]);
                            }
                            let ok = dag_add_edge(&mut dag, a, b);
                            if ok {
                                proof {
                                    lemma_acyclic_push(before, a as int, b as int);
                                    assert(iedges =~= dag_edges(dag) + rec_edges_from(
                                        *index,
                                        gpi,
                                        gvi,
                                        gdi + 1,
                                    ) + pkg_edges_from(*index, gpi, gvi + 1) + idx_edges_from(
                                        *index,
                                        gpi + 1,
                                    ));
                                    assert(dep_unres(*index, gpi, gvi, gdi) =~= Seq::<
                                        UnresolvedView,
                                    >::empty());
                                    assert(iunres =~= diag_views(unresolved@) + rec_unres_from(
                                        *index,
                                        gpi,
                                        gvi,
                                        gdi + 1,
                                    ) + pkg_unres_from(*index, gpi, gvi + 1) + idx_unres_from(
                                        *index,
                                        gpi + 1,
                                    ));
                                }
                            } else {
                                proof {
                                    assert(iedges[before.len() as int] == (a as int, b as int));
                                    assert(0 <= before.len() < iedges.len());
                                    assert(iedges.contains((a as int, b as int)));
                                    assert forall|k: int| 0 <= k < before.len() implies iedges.contains(
                                        #[trigger] before[k],
                                    ) by {
                                        assert(iedges[k] == before[k]);
                                    }
                                    lemma_reaches_mono(before, iedges, b as int, a as int);
                                    assert(edge_in(iedges, a as int, b as int) && reaches(
                                        iedges,
                                        b as int,
                                        a as int,
                                    ));
                                    assert(has_cycle(iedges));
                                    let pjg: int = pj as int;
                                    let wjg: int = wj as int;
                                    assert(resolve_spec(
                                        index.packages@[gpi].versions@[gvi].deps@[gdi],
                                        *index,
                                    ) == Some((pjg, wjg)));
                                    assert(reaches(
                                        intended_edges(*index),
                                        node_of(*index, pjg, wjg),
                                        node_of(*index, gpi, gvi),
                                    ));
                                    assert(names_cycle_edge(
                                        *index,
                                        index.packages@[gpi].versions@[gvi].name@,
                                        version_view(index.packages@[gpi].versions@[gvi].version),
                                        index.packages@[gpi].versions@[gvi].deps@[gdi].name@,
                                        index.packages@[gpi].versions@[gvi].deps@[gdi].req@,
                                        index.packages@[pjg].versions@[wjg].name@,
                                        version_view(index.packages@[pjg].versions@[wjg].version),
                                    ));
                                }
                                let v = &index.packages[pi].versions[vi];
                                let w = &index.packages[pj].versions[wj];
                                return Err(GraphError::Cycle {
                                    from_name: v.name.clone(),
                                    from_version: v.version.duplicate(),
                                    dep_name: d.name.clone(),
                                    dep_req: d.req.clone(),
                                    to_name: w.name.clone(),
                                    to_version: w.version.duplicate(),
                                });
                            }
                        },
                        None => {
                            let ghost old_unres = unresolved@;
                            let v = &index.packages[pi].versions[vi];
                            let diag = UnresolvedDiag {
                                from_name: v.name.clone(),
                                from_version: v.version.duplicate(),
                                dep_name: d.name.clone(),
                                dep_req: d.req.clone(),
                            };
                            proof {
                                assert(dep_unres(*index, gpi, gvi, gdi) == seq![diag_view(diag)]);
                            }
                            unresolved.push(diag);
                            proof {
                                assert(diag_views(unresolved@) =~= diag_views(old_unres).push(
                                    diag_view(unresolved@[unresolved@.len() - 1]),
                                ));
                                assert(dep_edge(*index, gpi, gvi, gdi) =~= Seq::<(int, int)>::empty());
                                assert(iedges =~= dag_edges(dag) + rec_edges_from(
                                    *index,
                                    gpi,
                                    gvi,
                                    gdi + 1,
                                ) + pkg_edges_from(*index, gpi, gvi + 1) + idx_edges_from(
                                    *index,
                                    gpi + 1,
                                ));
                                assert(iunres =~= diag_views(unresolved@) + rec_unres_from(
                                    *index,
                                    gpi,
                                    gvi,
                                    gdi + 1,
                                ) + pkg_unres_from(*index, gpi, gvi + 1) + idx_unres_from(
                                    *index,
                                    gpi + 1,
                                ));
                            }
                        },
                    }
                }
                di = di + 1;
            }
            proof {
                assert(rec_edges_from(*index, pi as int, vi as int, dcount as int) =~= Seq::<
                    (int, int),
                >::empty());
                assert(rec_unres_from(*index, pi as int, vi as int, dcount as int) =~= Seq::<
                    UnresolvedView,
                >::empty());
                assert(iedges =~= dag_edges(dag) + pkg_edges_from(*index, pi as int, vi as int + 1)
                    + idx_edges_from(*index, pi as int + 1));
                assert(iunres =~= diag_views(unresolved@) + pkg_unres_from(
                    *index,
                    pi as int,
                    vi as int + 1,
                ) + idx_unres_from(*index, pi as int + 1));
                assert(pkg_deps_before(*index, pi as int, vi as int + 1) == pkg_deps_before(
                    *index,
                    pi as int,
                    vi as int,
                ) + dcount);
            }
            vi = vi + 1;
        }
        proof {
            assert(pkg_edges_from(*index, pi as int, m as int) =~= Seq::<(int, int)>::empty());
            assert(pkg_unres_from(*index, pi as int, m as int) =~= Seq::<UnresolvedView>::empty());
            assert(iedges =~= dag_edges(dag) + idx_edges_from(*index, pi as int + 1));
            assert(iunres =~= diag_views(unresolved@) + idx_unres_from(*index, pi as int + 1));
            assert(deps_before(*index, pi as int + 1) == deps_before(*index, pi as int)
                + pkg_deps_before(*index, pi as int, m as int));
        }
        pi = pi + 1;
    }
    proof {
        assert(idx_edges_from(*index, n as int) =~= Seq::<(int, int)>::empty());
        assert(idx_unres_from(*index, n as int) =~= Seq::<UnresolvedView>::empty());
        assert(iedges =~= dag_edges(dag));
        assert(iunres =~= diag_views(unresolved@));
    }
    Ok(DependencyGraph { dag, unresolved })
}

/// Counts the version records of the index, refusing an index too large for
/// the graph's node numbering.
pub fn count_records(index: &PackageIndex) -> (r: Option<usize>)
    ensures
        match r {
            Some(c) => c == total_records(*index) && total_records(*index) < 0xFFFF_FFFF,
            None => total_records(*index) >= 0xFFFF_FFFF,
        },
{
    let n = index.packages.len();
    let mut acc: usize = 0;
    let mut pi: usize = 0;
    while pi < n
        invariant
            n == index.packages@.len(),
            0 <= pi <= n,
            acc == records_before(*index, pi as int),
            acc < 0xFFFF_FFFF,
        decreases n - pi,
    {
        let m = index.packages[pi].versions.len();
        if m >= 0xFFFF_FFFF - acc {
            proof {
                lemma_records_before_le(*index, pi as int + 1, n as int);
            }
            return None;
        }
        acc = acc + m;
        pi = pi + 1;
    }
    Some(acc)
}

/// Counts the dependency declarations of the index, refusing an index too
/// large for the graph's edge capacity.
pub fn count_deps(index: &PackageIndex) -> (r: Option<usize>)
    ensures
        match r {
            Some(c) => c == total_deps(*index) && total_deps(*index) < 0xFFFF_FFFF,
            None => total_deps(*index) >= 0xFFFF_FFFF,
        },
{
    let n = index.packages.len();
    let mut acc: usize = 0;
    let mut pi: usize = 0;
    while pi < n
        invariant
            n == index.packages@.len(),
            0 <= pi <= n,
            acc == deps_before(*index, pi as int),
            acc < 0xFFFF_FFFF,
        decreases n - pi,
    {
        let m = index.packages[pi].versions.len();
        let mut vi: usize = 0;
        while vi < m
            invariant
                n == index.packages@.len(),
                0 <= pi < n,
                m == index.packages@[pi as int].versions@.len(),
                0 <= vi <= m,
                acc == deps_before(*index, pi as int) + pkg_deps_before(*index, pi as int, vi as int),
                acc < 0xFFFF_FFFF,
            decreases m - vi,
        {
            let dcount = index.packages[pi].versions[vi].deps.len();
            if dcount >= 0xFFFF_FFFF - acc {
                proof {
                    lemma_pkg_deps_before_le(*index, pi as int, vi as int + 1, m as int);
                    lemma_deps_before_le(*index, pi as int + 1, n as int);
                }
                return None;
            }
            acc = acc + dcount;
            vi = vi + 1;
        }
        pi = pi + 1;
    }
    Some(acc)
}

} // verus!
