use registry_dag::index::{IntegrityError, build_index, req_admits, resolve};
use registry_dag::record::{Dependency, Package, Version, VersionRecord};

fn ver(major: u64, minor: u64, patch: u64) -> Version {
    Version { major, minor, patch, pre: String::new(), build: String::new() }
}

fn rec(name: &str, version: Version) -> VersionRecord {
    VersionRecord {
        name: name.to_string(),
        version,
        deps: vec![],
        cksum: String::new(),
        features: vec![],
        yanked: false,
    }
}

fn pkg(name: &str, versions: Vec<VersionRecord>) -> Package {
    Package { name: name.to_string(), versions }
}

fn dep(name: &str, req: &str) -> Dependency {
    Dependency {
        name: name.to_string(),
        req: req.to_string(),
        features: vec![],
        optional: false,
        default_features: true,
        target: None,
        kind: None,
    }
}

#[test]
fn requirement_admission_follows_semver() {
    assert!(req_admits("^1.0", &ver(1, 5, 0)));
    assert!(!req_admits("^1.0", &ver(2, 0, 0)));
    assert!(req_admits(">=1.0, <2.0", &ver(1, 9, 9)));
    assert!(!req_admits(">=1.0, <2.0", &ver(2, 0, 0)));
    assert!(req_admits("*", &ver(0, 1, 0)));
    assert!(!req_admits("this is not a requirement", &ver(1, 0, 0)));
}

#[test]
fn prerelease_versions_are_excluded_from_plain_ranges() {
    let mut alpha = ver(1, 0, 0);
    alpha.pre = "alpha".to_string();
    assert!(!req_admits("^1.0", &alpha));
    assert!(req_admits("^1.0.0-alpha", &alpha));
}

#[test]
fn resolve_picks_first_match_in_newest_first_order() {
    let idx = build_index(vec![pkg("a", vec![rec("a", ver(2, 0, 0)), rec("a", ver(1, 0, 0))])])
        .unwrap();
    let w = resolve(&dep("a", "^1.0"), &idx).unwrap();
    assert!(w.version.eq_version(&ver(1, 0, 0)));
    let w2 = resolve(&dep("a", ">=1.0"), &idx).unwrap();
    assert!(w2.version.eq_version(&ver(2, 0, 0)));
}

#[test]
fn resolve_of_absent_package_is_none() {
    let idx = build_index(vec![pkg("a", vec![rec("a", ver(1, 0, 0))])]).unwrap();
    assert!(resolve(&dep("c", "^1.0"), &idx).is_none());
}

#[test]
fn resolve_without_admitted_version_is_none() {
    let idx = build_index(vec![pkg("a", vec![rec("a", ver(1, 0, 0))])]).unwrap();
    assert!(resolve(&dep("a", "^3.0"), &idx).is_none());
}

#[test]
fn duplicate_package_name_is_an_integrity_error() {
    let r = build_index(vec![
        pkg("x", vec![rec("x", ver(1, 0, 0))]),
        pkg("x", vec![rec("x", ver(2, 0, 0))]),
    ]);
    match r {
        Err(IntegrityError::DuplicatePackage { name }) => assert_eq!(name, "x"),
        _ => panic!("expected a duplicate-package error"),
    }
}

#[test]
fn duplicate_version_identity_is_an_integrity_error() {
    let r = build_index(vec![pkg("x", vec![rec("x", ver(1, 0, 0)), rec("x", ver(1, 0, 0))])]);
    match r {
        Err(IntegrityError::DuplicateVersion { name, version }) => {
            assert_eq!(name, "x");
            assert!(version.eq_version(&ver(1, 0, 0)));
        },
        _ => panic!("expected a duplicate-version error"),
    }
}

#[test]
fn clean_index_is_accepted() {
    let idx = build_index(vec![
        pkg("a", vec![rec("a", ver(1, 0, 0))]),
        pkg("b", vec![rec("b", ver(1, 0, 0))]),
    ])
    .unwrap();
    assert_eq!(idx.packages.len(), 2);
    assert_eq!(idx.packages[0].name, "a");
    assert_eq!(idx.packages[1].name, "b");
}
