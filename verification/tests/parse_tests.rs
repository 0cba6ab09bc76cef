use registry_dag::parse::{parse_package, parse_version_line, version_parse};

fn line(name: &str, vers: &str, deps_json: &str) -> String {
    format!(
        "{{\"name\":\"{}\",\"vers\":\"{}\",\"deps\":[{}],\"cksum\":\"c0ffee\",\"features\":{{}},\"yanked\":false}}",
        name, vers, deps_json
    )
}

#[test]
fn parses_one_full_record() {
    let text = line(
        "foo",
        "1.2.3",
        "{\"name\":\"bar\",\"req\":\"^1.0\",\"features\":[\"extra\"],\"optional\":false,\"default_features\":true,\"target\":null,\"kind\":\"normal\"}",
    )
    .replace("\"cksum\":\"c0ffee\"", "\"cksum\":\"abc123\"")
    .replace("\"features\":{}", "\"features\":{\"default\":[\"std\",\"extra\"]}")
    .replace("\"yanked\":false", "\"yanked\":true");
    let rec = parse_version_line(&text).unwrap();
    assert_eq!(rec.name, "foo");
    assert_eq!(rec.version.major, 1);
    assert_eq!(rec.version.minor, 2);
    assert_eq!(rec.version.patch, 3);
    assert_eq!(rec.version.pre, "");
    assert_eq!(rec.version.build, "");
    assert_eq!(rec.deps.len(), 1);
    assert_eq!(rec.deps[0].name, "bar");
    assert_eq!(rec.deps[0].req, "^1.0");
    assert_eq!(rec.deps[0].features, vec!["extra".to_string()]);
    assert!(!rec.deps[0].optional);
    assert!(rec.deps[0].default_features);
    assert_eq!(rec.deps[0].target, None);
    assert_eq!(rec.deps[0].kind, Some("normal".to_string()));
    assert_eq!(rec.cksum, "abc123");
    assert_eq!(rec.features.len(), 1);
    assert_eq!(rec.features[0].0, "default");
    assert_eq!(rec.features[0].1, vec!["std".to_string(), "extra".to_string()]);
    assert!(rec.yanked);
}

#[test]
fn version_text_with_pre_and_build() {
    let v = version_parse("1.0.0-alpha.1+build5").unwrap();
    assert_eq!(v.major, 1);
    assert_eq!(v.minor, 0);
    assert_eq!(v.patch, 0);
    assert_eq!(v.pre, "alpha.1");
    assert_eq!(v.build, "build5");
    assert!(version_parse("not a version").is_none());
}

#[test]
fn record_with_bad_version_text_is_refused() {
    let text = line("foo", "one.two.three", "");
    assert!(parse_version_line(&text).is_err());
}

#[test]
fn record_with_missing_field_is_refused() {
    // No "cksum" field.
    let text = "{\"name\":\"foo\",\"vers\":\"1.0.0\",\"deps\":[],\"features\":{},\"yanked\":false}";
    assert!(parse_version_line(text).is_err());
}

#[test]
fn package_file_parses_newest_first() {
    let lines = vec![line("a", "1.0.0", ""), line("a", "1.5.0", ""), line("a", "2.0.0", "")];
    let p = parse_package("re/gi/a", &lines).unwrap();
    assert_eq!(p.name, "a");
    assert_eq!(p.versions.len(), 3);
    assert_eq!(p.versions[0].version.major, 2);
    assert_eq!(p.versions[1].version.minor, 5);
    assert_eq!(p.versions[2].version.major, 1);
}

#[test]
fn malformed_line_names_file_and_line() {
    let bad = "{ this is not structured data".to_string();
    let lines = vec![line("a", "1.0.0", ""), bad.clone()];
    let e = parse_package("re/gi/a", &lines).unwrap_err();
    assert_eq!(e.path, "re/gi/a");
    assert_eq!(e.line, bad);
    assert!(!e.message.is_empty());
}

#[test]
fn empty_package_file_is_an_error() {
    let e = parse_package("re/gi/a", &vec![]).unwrap_err();
    assert_eq!(e.path, "re/gi/a");
}

#[test]
fn disagreeing_names_in_one_file_are_an_error() {
    let lines = vec![line("a", "1.0.0", ""), line("b", "2.0.0", "")];
    assert!(parse_package("re/gi/a", &lines).is_err());
}

#[test]
fn dependency_with_absent_target_and_kind() {
    let text = line(
        "foo",
        "1.0.0",
        "{\"name\":\"bar\",\"req\":\"*\",\"features\":[],\"optional\":true,\"default_features\":false}",
    );
    let rec = parse_version_line(&text).unwrap();
    assert_eq!(rec.deps[0].target, None);
    assert_eq!(rec.deps[0].kind, None);
    assert!(rec.deps[0].optional);
    assert!(!rec.deps[0].default_features);
}
