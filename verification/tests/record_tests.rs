use registry_dag::record::{Dependency, Package, Version, VersionRecord, package_from_records};

fn ver(major: u64, minor: u64, patch: u64) -> Version {
    Version { major, minor, patch, pre: String::new(), build: String::new() }
}

fn rec(name: &str, version: Version) -> VersionRecord {
    VersionRecord {
        name: name.to_string(),
        version,
        deps: vec![],
        cksum: String::new(),
        features: vec![],
        yanked: false,
    }
}

fn dep(name: &str, req: &str, kind: Option<&str>) -> Dependency {
    Dependency {
        name: name.to_string(),
        req: req.to_string(),
        features: vec![],
        optional: false,
        default_features: true,
        target: None,
        kind: kind.map(|s| s.to_string()),
    }
}

#[test]
fn version_equality_is_structural() {
    assert!(ver(1, 2, 3).eq_version(&ver(1, 2, 3)));
    assert!(!ver(1, 2, 3).eq_version(&ver(1, 2, 4)));
    let mut with_pre = ver(1, 0, 0);
    with_pre.pre = "alpha".to_string();
    assert!(!with_pre.eq_version(&ver(1, 0, 0)));
    let mut with_build = ver(1, 0, 0);
    with_build.build = "b5".to_string();
    assert!(!with_build.eq_version(&ver(1, 0, 0)));
}

#[test]
fn dev_kind_detection() {
    assert!(dep("a", "^1.0", Some("dev")).is_dev_dep());
    assert!(!dep("a", "^1.0", Some("build")).is_dev_dep());
    assert!(!dep("a", "^1.0", Some("normal")).is_dev_dep());
    assert!(!dep("a", "^1.0", None).is_dev_dep());
}

#[test]
fn package_versions_are_reversed_newest_first() {
    // On-disk order: oldest first, newest appended last.
    let records = vec![rec("a", ver(1, 0, 0)), rec("a", ver(1, 5, 0)), rec("a", ver(2, 0, 0))];
    let p: Package = package_from_records(records).unwrap();
    assert_eq!(p.name, "a");
    assert_eq!(p.versions.len(), 3);
    assert!(p.versions[0].version.eq_version(&ver(2, 0, 0)));
    assert!(p.versions[1].version.eq_version(&ver(1, 5, 0)));
    assert!(p.versions[2].version.eq_version(&ver(1, 0, 0)));
}

#[test]
fn package_name_comes_from_latest_record() {
    let records = vec![rec("a", ver(1, 0, 0)), rec("a", ver(2, 0, 0))];
    let p = package_from_records(records).unwrap();
    assert_eq!(p.name, "a");
}

#[test]
fn package_from_no_records_is_refused() {
    assert!(package_from_records(vec![]).is_none());
}

#[test]
fn package_with_disagreeing_names_is_refused() {
    let records = vec![rec("a", ver(1, 0, 0)), rec("b", ver(2, 0, 0))];
    assert!(package_from_records(records).is_none());
}

#[test]
fn package_wf_check() {
    let good = Package { name: "a".to_string(), versions: vec![rec("a", ver(1, 0, 0))] };
    assert!(good.is_wf());
    let empty = Package { name: "a".to_string(), versions: vec![] };
    assert!(!empty.is_wf());
    let mixed = Package {
        name: "a".to_string(),
        versions: vec![rec("a", ver(1, 0, 0)), rec("b", ver(2, 0, 0))],
    };
    assert!(!mixed.is_wf());
}

#[test]
fn rendering_matches_the_display_form() {
    assert_eq!(ver(1, 2, 3).render(), "1.2.3");
    let mut v = ver(10, 0, 7);
    v.pre = "alpha.1".to_string();
    v.build = "b5".to_string();
    assert_eq!(v.render(), "10.0.7-alpha.1+b5");
    assert_eq!(dep("b", "^1.0", None).render(), "b ^1.0");
    assert_eq!(rec("a", ver(2, 0, 0)).render(), "a 2.0.0");
}
