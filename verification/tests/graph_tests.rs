use registry_dag::builder::{GraphError, build_graph, count_deps, count_records};
use registry_dag::graph::{dag_count_edges, dag_count_nodes};
use registry_dag::index::build_index;
use registry_dag::record::{Dependency, Package, Version, VersionRecord};

fn ver(major: u64, minor: u64, patch: u64) -> Version {
    Version { major, minor, patch, pre: String::new(), build: String::new() }
}

fn dep(name: &str, req: &str, kind: Option<&str>) -> Dependency {
    Dependency {
        name: name.to_string(),
        req: req.to_string(),
        features: vec![],
        optional: false,
        default_features: true,
        target: None,
        kind: kind.map(|s| s.to_string()),
    }
}

fn rec(name: &str, version: Version, deps: Vec<Dependency>) -> VersionRecord {
    VersionRecord {
        name: name.to_string(),
        version,
        deps,
        cksum: String::new(),
        features: vec![],
        yanked: false,
    }
}

fn pkg(name: &str, versions: Vec<VersionRecord>) -> Package {
    Package { name: name.to_string(), versions }
}

#[test]
fn one_edge_for_a_resolved_dependency() {
    // Package a with versions [2.0.0, 1.0.0] newest-first; a@2.0.0 depends
    // on b with ^1.0; b has 1.5.0.  One edge a@2.0.0 -> b@1.5.0.
    let idx = build_index(vec![
        pkg(
            "a",
            vec![rec("a", ver(2, 0, 0), vec![dep("b", "^1.0", None)]), rec("a", ver(1, 0, 0), vec![])],
        ),
        pkg("b", vec![rec("b", ver(1, 5, 0), vec![])]),
    ])
    .unwrap();
    assert_eq!(count_records(&idx), Some(3));
    assert_eq!(count_deps(&idx), Some(1));
    let g = build_graph(&idx).unwrap();
    assert_eq!(dag_count_nodes(&g.dag), 3);
    assert_eq!(dag_count_edges(&g.dag), 1);
    assert!(g.unresolved.is_empty());
}

#[test]
fn unresolved_dependency_is_reported_and_skipped() {
    // a@1.0.0 depends on c, absent from the index.
    let idx = build_index(vec![pkg(
        "a",
        vec![rec("a", ver(1, 0, 0), vec![dep("c", "^1.0", None)])],
    )])
    .unwrap();
    let g = build_graph(&idx).unwrap();
    assert_eq!(dag_count_nodes(&g.dag), 1);
    assert_eq!(dag_count_edges(&g.dag), 0);
    assert_eq!(g.unresolved.len(), 1);
    assert_eq!(g.unresolved[0].from_name, "a");
    assert!(g.unresolved[0].from_version.eq_version(&ver(1, 0, 0)));
    assert_eq!(g.unresolved[0].dep_name, "c");
    assert_eq!(g.unresolved[0].dep_req, "^1.0");
}

#[test]
fn dev_dependencies_add_no_edge_and_no_diagnostic() {
    // a@1.0.0 has a dev dependency on b, which is absent: dev dependencies
    // are filtered before resolution, so nothing is reported either.
    let idx = build_index(vec![pkg(
        "a",
        vec![rec("a", ver(1, 0, 0), vec![dep("b", "^1.0", Some("dev"))])],
    )])
    .unwrap();
    let g = build_graph(&idx).unwrap();
    assert_eq!(dag_count_edges(&g.dag), 0);
    assert!(g.unresolved.is_empty());

    // The same with b present: still no edge.
    let idx2 = build_index(vec![
        pkg("a", vec![rec("a", ver(1, 0, 0), vec![dep("b", "^1.0", Some("dev"))])]),
        pkg("b", vec![rec("b", ver(1, 0, 0), vec![])]),
    ])
    .unwrap();
    let g2 = build_graph(&idx2).unwrap();
    assert_eq!(dag_count_edges(&g2.dag), 0);
    assert!(g2.unresolved.is_empty());
}

#[test]
fn self_dependency_closes_a_cycle() {
    // a@1.0.0 depends on a with ^1.0, which resolves to itself.
    let idx = build_index(vec![pkg(
        "a",
        vec![rec("a", ver(1, 0, 0), vec![dep("a", "^1.0", None)])],
    )])
    .unwrap();
    match build_graph(&idx) {
        Err(GraphError::Cycle { from_name, dep_name, to_name, .. }) => {
            assert_eq!(from_name, "a");
            assert_eq!(dep_name, "a");
            assert_eq!(to_name, "a");
        },
        Ok(_) => panic!("expected a cycle error"),
    }
}

#[test]
fn mutual_dependencies_close_a_cycle() {
    let idx = build_index(vec![
        pkg("a", vec![rec("a", ver(1, 0, 0), vec![dep("b", "^1.0", None)])]),
        pkg("b", vec![rec("b", ver(1, 0, 0), vec![dep("a", "^1.0", None)])]),
    ])
    .unwrap();
    match build_graph(&idx) {
        Err(GraphError::Cycle { from_name, dep_name, dep_req, to_name, .. }) => {
            assert_eq!(from_name, "b");
            assert_eq!(dep_name, "a");
            assert_eq!(dep_req, "^1.0");
            assert_eq!(to_name, "a");
        },
        Ok(_) => panic!("expected a cycle error"),
    }
}

#[test]
fn acyclic_chain_builds_in_full() {
    // a -> b -> c, two edges, no diagnostics.
    let idx = build_index(vec![
        pkg("a", vec![rec("a", ver(1, 0, 0), vec![dep("b", "^1.0", None)])]),
        pkg("b", vec![rec("b", ver(1, 0, 0), vec![dep("c", "^1.0", None)])]),
        pkg("c", vec![rec("c", ver(1, 0, 0), vec![])]),
    ])
    .unwrap();
    let g = build_graph(&idx).unwrap();
    assert_eq!(dag_count_nodes(&g.dag), 3);
    assert_eq!(dag_count_edges(&g.dag), 2);
    assert!(g.unresolved.is_empty());
}

#[test]
fn a_version_may_depend_on_an_older_version_of_its_own_package() {
    // a@2.0.0 depending on a@^1.0 resolves to a@1.0.0: a different node, no
    // cycle.
    let idx = build_index(vec![pkg(
        "a",
        vec![rec("a", ver(2, 0, 0), vec![dep("a", "^1.0", None)]), rec("a", ver(1, 0, 0), vec![])],
    )])
    .unwrap();
    let g = build_graph(&idx).unwrap();
    assert_eq!(dag_count_nodes(&g.dag), 2);
    assert_eq!(dag_count_edges(&g.dag), 1);
}
