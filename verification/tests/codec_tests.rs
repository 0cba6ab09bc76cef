use registry_dag::codec::{Token, decode_index, encode_index};
use registry_dag::index::PackageIndex;
use registry_dag::record::{Dependency, Package, Version, VersionRecord};

fn sample_index() -> PackageIndex {
    let dep_full = Dependency {
        name: "b".to_string(),
        req: "^1.0".to_string(),
        features: vec!["extra".to_string(), "more".to_string()],
        optional: true,
        default_features: false,
        target: Some("cfg(windows)".to_string()),
        kind: Some("build".to_string()),
    };
    let dep_plain = Dependency {
        name: "c".to_string(),
        req: ">=0.2, <0.4".to_string(),
        features: vec![],
        optional: false,
        default_features: true,
        target: None,
        kind: None,
    };
    let rec_new = VersionRecord {
        name: "a".to_string(),
        version: Version {
            major: 2,
            minor: 1,
            patch: 0,
            pre: "alpha.1".to_string(),
            build: "b7".to_string(),
        },
        deps: vec![dep_full, dep_plain],
        cksum: "feedbeef".to_string(),
        features: vec![
            ("default".to_string(), vec!["std".to_string()]),
            ("full".to_string(), vec!["default".to_string(), "extra".to_string()]),
        ],
        yanked: false,
    };
    let rec_old = VersionRecord {
        name: "a".to_string(),
        version: Version {
            major: 1,
            minor: 0,
            patch: 0,
            pre: String::new(),
            build: String::new(),
        },
        deps: vec![],
        cksum: "c0ffee".to_string(),
        features: vec![],
        yanked: true,
    };
    let rec_b = VersionRecord {
        name: "b".to_string(),
        version: Version {
            major: 1,
            minor: 5,
            patch: 0,
            pre: String::new(),
            build: String::new(),
        },
        deps: vec![],
        cksum: String::new(),
        features: vec![],
        yanked: false,
    };
    PackageIndex {
        packages: vec![
            Package { name: "a".to_string(), versions: vec![rec_new, rec_old] },
            Package { name: "b".to_string(), versions: vec![rec_b] },
        ],
    }
}

fn assert_version_eq(a: &Version, b: &Version) {
    assert_eq!(a.major, b.major);
    assert_eq!(a.minor, b.minor);
    assert_eq!(a.patch, b.patch);
    assert_eq!(a.pre, b.pre);
    assert_eq!(a.build, b.build);
}

fn assert_dep_eq(a: &Dependency, b: &Dependency) {
    assert_eq!(a.name, b.name);
    assert_eq!(a.req, b.req);
    assert_eq!(a.features, b.features);
    assert_eq!(a.optional, b.optional);
    assert_eq!(a.default_features, b.default_features);
    assert_eq!(a.target, b.target);
    assert_eq!(a.kind, b.kind);
}

fn assert_record_eq(a: &VersionRecord, b: &VersionRecord) {
    assert_eq!(a.name, b.name);
    assert_version_eq(&a.version, &b.version);
    assert_eq!(a.deps.len(), b.deps.len());
    for (x, y) in a.deps.iter().zip(b.deps.iter()) {
        assert_dep_eq(x, y);
    }
    assert_eq!(a.cksum, b.cksum);
    assert_eq!(a.features, b.features);
    assert_eq!(a.yanked, b.yanked);
}

#[test]
fn round_trip_preserves_every_field() {
    let idx = sample_index();
    let toks = encode_index(&idx);
    let back = decode_index(&toks).unwrap();
    assert_eq!(back.packages.len(), idx.packages.len());
    for (p, q) in back.packages.iter().zip(idx.packages.iter()) {
        assert_eq!(p.name, q.name);
        assert_eq!(p.versions.len(), q.versions.len());
        for (x, y) in p.versions.iter().zip(q.versions.iter()) {
            assert_record_eq(x, y);
        }
    }
}

#[test]
fn round_trip_of_the_empty_index() {
    let idx = PackageIndex { packages: vec![] };
    let toks = encode_index(&idx);
    let back = decode_index(&toks).unwrap();
    assert!(back.packages.is_empty());
}

#[test]
fn garbage_stream_is_refused() {
    assert!(decode_index(&vec![Token::Flag(true)]).is_none());
    assert!(decode_index(&vec![]).is_none());
}

#[test]
fn truncated_stream_is_refused() {
    let mut toks = encode_index(&sample_index());
    toks.pop();
    assert!(decode_index(&toks).is_none());
}

#[test]
fn trailing_tokens_are_refused() {
    let mut toks = encode_index(&sample_index());
    toks.push(Token::End);
    assert!(decode_index(&toks).is_none());
}
