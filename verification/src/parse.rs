//! The version-record parser: one JSON object per line of a package-metadata
//! file, read through serde_json, assembled into a `Package`.
//!
//! Each serde_json call's result is a function of its arguments alone and
//! carries a name; the extraction logic is verified against spec-level
//! mirrors written over those names, so the whole per-line parse has an
//! exact contract: `spec_line_record` says for every line whether it parses
//! and to which record.

use vstd::prelude::*;
use crate::record::DepModel;
use crate::record::Dependency;
use crate::record::Package;
use crate::record::RecordModel;
use crate::record::Version;
use crate::record::VersionRecord;
use crate::record::dep_model;
use crate::record::package_from_records;
use crate::record::pkg_wf;
use crate::record::record_model;

verus! {

#[verifier::external_type_specification]
#[verifier::external_body]
pub struct ExValue(serde_json::Value);

/// What parsing a line of JSON text returns: a function of the text alone.
pub uninterp spec fn json_parse_spec(s: Seq<char>) -> Option<serde_json::Value>;

/// Relies on `serde_json::from_str`: parses one line of JSON text into a
/// JSON value, a function of the text alone; an `Err` carries serde_json's
/// own message.
#[verifier::external_body]
fn json_parse(s: &str) -> (r: Result<serde_json::Value, String>)
    ensures
        match r {
            Ok(v) => json_parse_spec(s@) == Some(v),
            Err(_) => json_parse_spec(s@) is None,
        },
{
    match serde_json::from_str::<serde_json::Value>(s) {
        Ok(v) => Ok(v),
        Err(e) => Err(e.to_string()),
    }
}

/// What looking up a field of a JSON value returns: a function of the value
/// and the field name alone.
pub uninterp spec fn json_field_spec(v: serde_json::Value, key: Seq<char>) -> Option<
    serde_json::Value,
>;

/// Relies on `serde_json::Value::get`: the named field of a JSON object,
/// when the value is an object and the field is present.
#[verifier::external_body]
fn json_field<'a>(v: &'a serde_json::Value, key: &str) -> (r: Option<&'a serde_json::Value>)
    ensures
        match r {
            Some(x) => json_field_spec(*v, key@) == Some(*x),
            None => json_field_spec(*v, key@) is None,
        },
{
    v.get(key)
}

/// What reading a JSON value as text returns: a function of the value alone.
pub uninterp spec fn json_string_spec(v: serde_json::Value) -> Option<String>;

/// Relies on `serde_json::Value::as_str`: the text of a JSON string value.
#[verifier::external_body]
fn json_string(v: &serde_json::Value) -> (r: Option<String>)
    ensures
        r == json_string_spec(*v),
{
    v.as_str().map(|s| s.to_owned())
}

/// What reading a JSON value as a boolean returns: a function of the value
/// alone.
pub uninterp spec fn json_bool_spec(v: serde_json::Value) -> Option<bool>;

/// Relies on `serde_json::Value::as_bool`: the value of a JSON boolean.
#[verifier::external_body]
fn json_bool(v: &serde_json::Value) -> (r: Option<bool>)
    ensures
        r == json_bool_spec(*v),
{
    v.as_bool()
}

/// What reading a JSON value as an array returns: its elements, a function
/// of the value alone.
pub uninterp spec fn json_array_spec(v: serde_json::Value) -> Option<Seq<serde_json::Value>>;

/// Relies on `serde_json::Value::as_array`: the elements of a JSON array.
#[verifier::external_body]
fn json_array<'a>(v: &'a serde_json::Value) -> (r: Option<&'a Vec<serde_json::Value>>)
    ensures
        match r {
            Some(a) => json_array_spec(*v) == Some(a@),
            None => json_array_spec(*v) is None,
        },
{
    v.as_array()
}

/// Whether a JSON value is null: a function of the value alone.
pub uninterp spec fn json_is_null_spec(v: serde_json::Value) -> bool;

/// Relies on `serde_json::Value::is_null`: whether the value is JSON null.
#[verifier::external_body]
fn json_is_null(v: &serde_json::Value) -> (r: bool)
    ensures
        r == json_is_null_spec(*v),
{
    v.is_null()
}

/// What reading a JSON value as an object returns: its fields as (name,
/// value) pairs in the object's stored order, a function of the value alone.
pub uninterp spec fn json_entries_spec(v: serde_json::Value) -> Option<
    Seq<(String, serde_json::Value)>,
>;

/// Relies on `serde_json::Value::as_object`: the fields of a JSON object as
/// (name, value) pairs, in the object's stored order.
#[verifier::external_body]
fn json_object_entries(v: &serde_json::Value) -> (r: Option<Vec<(String, serde_json::Value)>>)
    ensures
        match r {
            Some(es) => json_entries_spec(*v) == Some(es@),
            None => json_entries_spec(*v) is None,
        },
{
    v.as_object().map(|m| m.iter().map(|(k, x)| (k.clone(), x.clone())).collect())
}

/// What parsing a semantic-version text returns: a function of the text
/// alone.
pub uninterp spec fn version_parse_spec(s: Seq<char>) -> Option<Version>;

/// Relies on `semver::Version::parse`: whether the text is a valid semantic
/// version, and its major, minor, patch, pre-release and build components,
/// depend on the text alone.
#[verifier::external_body]
pub fn version_parse(s: &str) -> (r: Option<Version>)
    ensures
        r == version_parse_spec(s@),
{
    match semver::Version::parse(s) {
        Ok(v) => {
            let (pre, build) = (v.pre.as_str().to_owned(), v.build.as_str().to_owned());
            Some(Version { major: v.major, minor: v.minor, patch: v.patch, pre, build })
        },
        Err(_) => None,
    }
}

/// What a required string field of a JSON object reads as.
pub open spec fn spec_req_string(v: serde_json::Value, key: Seq<char>) -> Option<String> {
    match json_field_spec(v, key) {
        Some(x) => json_string_spec(x),
        None => None,
    }
}

/// What a string-or-null field of a JSON object reads as: an absent or null
/// field reads as `Ok(None)`, a non-string non-null one fails.
pub open spec fn spec_opt_string(v: serde_json::Value, key: Seq<char>) -> Result<
    Option<String>,
    (),
> {
    match json_field_spec(v, key) {
        Some(x) => {
            if json_is_null_spec(x) {
                Ok(None)
            } else {
                match json_string_spec(x) {
                    Some(s) => Ok(Some(s)),
                    None => Err(()),
                }
            }
        },
        None => Ok(None),
    }
}

/// What the elements of a JSON array from position `i` on read as, when
/// every one is a string.
pub open spec fn spec_texts_from(arr: Seq<serde_json::Value>, i: int) -> Option<Seq<String>>
    decreases arr.len() - i,
    when 0 <= i <= arr.len()
{
    if i >= arr.len() {
        Some(Seq::empty())
    } else {
        match json_string_spec(arr[i]) {
            Some(s) => match spec_texts_from(arr, i + 1) {
                Some(rest) => Some(seq![s] + rest),
                None => None,
            },
            None => None,
        }
    }
}

/// What one dependency declaration reads as.
pub open spec fn spec_dep_of(v: serde_json::Value) -> Option<DepModel> {
    match spec_req_string(v, "name"@) {
        Some(name) => match spec_req_string(v, "req"@) {
            Some(req) => match json_field_spec(v, "features"@) {
                Some(fx) => match json_array_spec(fx) {
                    Some(fa) => match spec_texts_from(fa, 0) {
                        Some(features) => match spec_req_bool(v, "optional"@) {
                            Some(optional) => match spec_req_bool(v, "default_features"@) {
                                Some(default_features) => match spec_opt_string(v, "target"@) {
                                    Ok(target) => match spec_opt_string(v, "kind"@) {
                                        Ok(kind) => Some(
                                            DepModel {
                                                name,
                                                req,
                                                features,
                                                optional,
                                                default_features,
                                                target,
                                                kind,
                                            },
                                        ),
                                        Err(_) => None,
                                    },
                                    Err(_) => None,
                                },
                                None => None,
                            },
                            None => None,
                        },
                        None => None,
                    },
                    None => None,
                },
                None => None,
            },
            None => None,
        },
        None => None,
    }
}

/// What a required boolean field of a JSON object reads as.
pub open spec fn spec_req_bool(v: serde_json::Value, key: Seq<char>) -> Option<bool> {
    match json_field_spec(v, key) {
        Some(x) => json_bool_spec(x),
        None => None,
    }
}

/// What the elements of a JSON array from position `i` on read as, when
/// every one is a dependency declaration.
pub open spec fn spec_deps_from(arr: Seq<serde_json::Value>, i: int) -> Option<Seq<DepModel>>
    decreases arr.len() - i,
    when 0 <= i <= arr.len()
{
    if i >= arr.len() {
        Some(Seq::empty())
    } else {
        match spec_dep_of(arr[i]) {
            Some(d) => match spec_deps_from(arr, i + 1) {
                Some(rest) => Some(seq![d] + rest),
                None => None,
            },
            None => None,
        }
    }
}

/// What the entries of a JSON object from position `i` on read as, when
/// every value is an array of strings.
pub open spec fn spec_feats_from(es: Seq<(String, serde_json::Value)>, i: int) -> Option<
    Seq<(String, Seq<String>)>,
>
    decreases es.len() - i,
    when 0 <= i <= es.len()
{
    if i >= es.len() {
        Some(Seq::empty())
    } else {
        match json_array_spec(es[i].1) {
            Some(a) => match spec_texts_from(a, 0) {
                Some(ts) => match spec_feats_from(es, i + 1) {
                    Some(rest) => Some(seq![(es[i].0, ts)] + rest),
                    None => None,
                },
                None => None,
            },
            None => None,
        }
    }
}

/// What one whole version record reads as from a parsed JSON value.
pub open spec fn spec_record_of(v: serde_json::Value) -> Option<RecordModel> {
    match spec_req_string(v, "name"@) {
        Some(name) => match spec_req_string(v, "vers"@) {
            Some(vt) => match version_parse_spec(vt@) {
                Some(version) => match json_field_spec(v, "deps"@) {
                    Some(dx) => match json_array_spec(dx) {
                        Some(da) => match spec_deps_from(da, 0) {
                            Some(deps) => match spec_req_string(v, "cksum"@) {
                                Some(cksum) => match json_field_spec(v, "features"@) {
                                    Some(fx) => match json_entries_spec(fx) {
                                        Some(fe) => match spec_feats_from(fe, 0) {
                                            Some(features) => match spec_req_bool(v, "yanked"@) {
                                                Some(yanked) => Some(
                                                    RecordModel {
                                                        name,
                                                        version,
                                                        deps,
                                                        cksum,
                                                        features,
                                                        yanked,
                                                    },
                                                ),
                                                None => None,
                                            },
                                            None => None,
                                        },
                                        None => None,
                                    },
                                    None => None,
                                },
                                None => None,
                            },
                            None => None,
                        },
                        None => None,
                    },
                    None => None,
                },
                None => None,
            },
            None => None,
        },
        None => None,
    }
}

/// What one line of a package-metadata file reads as: `Some` exactly when
/// the line is valid JSON and a well-shaped version record.
pub open spec fn spec_line_record(s: Seq<char>) -> Option<RecordModel> {
    match json_parse_spec(s) {
        Some(v) => spec_record_of(v),
        None => None,
    }
}

/// The package name a parseable line declares (empty for an unparseable
/// line).
pub open spec fn line_record_name(s: Seq<char>) -> Seq<char> {
    match spec_line_record(s) {
        Some(m) => m.name@,
        None => Seq::empty(),
    }
}

/// Reads a required string field of a JSON object.
fn required_string(v: &serde_json::Value, key: &str) -> (r: Option<String>)
    ensures
        r == spec_req_string(*v, key@),
{
    match json_field(v, key) {
        Some(x) => json_string(x),
        None => None,
    }
}

/// Reads a required boolean field of a JSON object.
fn required_bool(v: &serde_json::Value, key: &str) -> (r: Option<bool>)
    ensures
        r == spec_req_bool(*v, key@),
{
    match json_field(v, key) {
        Some(x) => json_bool(x),
        None => None,
    }
}

/// Reads a string-or-null field of a JSON object.
fn optional_string(v: &serde_json::Value, key: &str) -> (r: Result<Option<String>, ()>)
    ensures
        r == spec_opt_string(*v, key@),
{
    match json_field(v, key) {
        Some(x) => {
            if json_is_null(x) {
                Ok(None)
            } else {
                match json_string(x) {
                    Some(s) => Ok(Some(s)),
                    None => Err(()),
                }
            }
        },
        None => Ok(None),
    }
}

/// Reads the strings of a JSON array from position `i` on.
fn parse_texts_from(arr: &Vec<serde_json::Value>, i: usize) -> (r: Option<Vec<String>>)
    requires
        i <= arr@.len(),
    ensures
        match r {
            Some(out) => spec_texts_from(arr@, i as int) == Some(out@),
            None => spec_texts_from(arr@, i as int) is None,
        },
    decreases arr@.len() - i,
{
    if i == arr.len() {
        let empty: Vec<String> = Vec::new();
        proof {
            assert(empty@ =~= Seq::<String>::empty());
        }
        return Some(empty);
    }
    match json_string(&arr[i]) {
        Some(s) => match parse_texts_from(arr, i + 1) {
            Some(rest) => {
                let mut items = rest;
                let ghost tail = items@;
                items.insert(0, s);
                proof {
                    assert(items@ =~= seq![s] + tail);
                }
                Some(items)
            },
            None => None,
        },
        None => None,
    }
}

/// Reads one dependency declaration of a version record's `deps` array.
fn parse_dependency(v: &serde_json::Value) -> (r: Option<Dependency>)
    ensures
        match r {
            Some(d) => spec_dep_of(*v) == Some(dep_model(d)),
            None => spec_dep_of(*v) is None,
        },
{
    let name = match required_string(v, "name") {
        Some(s) => s,
        None => {
            return None;
        },
    };
    let req = match required_string(v, "req") {
        Some(s) => s,
        None => {
            return None;
        },
    };
    let features = match json_field(v, "features") {
        Some(x) => match json_array(x) {
            Some(a) => match parse_texts_from(a, 0) {
                Some(fs) => fs,
                None => {
                    return None;
                },
            },
            None => {
                return None;
            },
        },
        None => {
            return None;
        },
    };
    let optional = match required_bool(v, "optional") {
        Some(b) => b,
        None => {
            return None;
        },
    };
    let default_features = match required_bool(v, "default_features") {
        Some(b) => b,
        None => {
            return None;
        },
    };
    let target = match optional_string(v, "target") {
        Ok(t) => t,
        Err(_) => {
            return None;
        },
    };
    let kind = match optional_string(v, "kind") {
        Ok(k) => k,
        Err(_) => {
            return None;
        },
    };
    Some(Dependency { name, req, features, optional, default_features, target, kind })
}

/// Reads the dependency declarations of a JSON array from position `i` on.
fn parse_deps_from(arr: &Vec<serde_json::Value>, i: usize) -> (r: Option<Vec<Dependency>>)
    requires
        i <= arr@.len(),
    ensures
        match r {
            Some(out) => spec_deps_from(arr@, i as int) == Some(
                out@.map_values(|d: Dependency| dep_model(d)),
            ),
            None => spec_deps_from(arr@, i as int) is None,
        },
    decreases arr@.len() - i,
{
    if i == arr.len() {
        let empty: Vec<Dependency> = Vec::new();
        proof {
            assert(empty@.map_values(|d: Dependency| dep_model(d)) =~= Seq::<DepModel>::empty());
        }
        return Some(empty);
    }
    match parse_dependency(&arr[i]) {
        Some(d) => match parse_deps_from(arr, i + 1) {
            Some(rest) => {
                let mut items = rest;
                let ghost tail = items@;
                items.insert(0, d);
                proof {
                    assert(items@ =~= seq![d] + tail);
                    assert(items@.map_values(|x: Dependency| dep_model(x)) =~= seq![dep_model(d)]
                        + tail.map_values(|x: Dependency| dep_model(x)));
                }
                Some(items)
            },
            None => None,
        },
        None => None,
    }
}

/// Reads the feature entries of a JSON object from position `i` on.
fn parse_feats_from(es: &Vec<(String, serde_json::Value)>, i: usize) -> (r: Option<
    Vec<(String, Vec<String>)>,
>)
    requires
        i <= es@.len(),
    ensures
        match r {
            Some(out) => spec_feats_from(es@, i as int) == Some(
                out@.map_values(|f: (String, Vec<String>)| (f.0, f.1@)),
            ),
            None => spec_feats_from(es@, i as int) is None,
        },
    decreases es@.len() - i,
{
    if i == es.len() {
        let empty: Vec<(String, Vec<String>)> = Vec::new();
        proof {
            assert(empty@.map_values(|f: (String, Vec<String>)| (f.0, f.1@)) =~= Seq::<
                (String, Seq<String>),
            >::empty());
        }
        return Some(empty);
    }
    let vals = match json_array(&es[i].1) {
        Some(a) => match parse_texts_from(a, 0) {
            Some(vs) => vs,
            None => {
                return None;
            },
        },
        None => {
            return None;
        },
    };
    match parse_feats_from(es, i + 1) {
        Some(rest) => {
            let entry = (es[i].0.clone(), vals);
            let ghost gentry = entry;
            let mut items = rest;
            let ghost tail = items@;
            items.insert(0, entry);
            proof {
                assert(items@ =~= seq![gentry] + tail);
                assert(items@.map_values(|x: (String, Vec<String>)| (x.0, x.1@)) =~= seq![
                    (gentry.0, gentry.1@),
                ] + tail.map_values(|x: (String, Vec<String>)| (x.0, x.1@)));
            }
            Some(items)
        },
        None => None,
    }
}

/// Reads one whole version record from a parsed JSON value.
fn parse_version_record(v: &serde_json::Value) -> (r: Option<VersionRecord>)
    ensures
        match r {
            Some(rec) => spec_record_of(*v) == Some(record_model(rec)),
            None => spec_record_of(*v) is None,
        },
{
    let name = match required_string(v, "name") {
        Some(s) => s,
        None => {
            return None;
        },
    };
    let vers_text = match required_string(v, "vers") {
        Some(s) => s,
        None => {
            return None;
        },
    };
    let version = match version_parse(vers_text.as_str()) {
        Some(ver) => ver,
        None => {
            return None;
        },
    };
    let deps = match json_field(v, "deps") {
        Some(x) => match json_array(x) {
            Some(a) => match parse_deps_from(a, 0) {
                Some(ds) => ds,
                None => {
                    return None;
                },
            },
            None => {
                return None;
            },
        },
        None => {
            return None;
        },
    };
    let cksum = match required_string(v, "cksum") {
        Some(s) => s,
        None => {
            return None;
        },
    };
    let features = match json_field(v, "features") {
        Some(x) => match json_object_entries(x) {
            Some(es) => match parse_feats_from(&es, 0) {
                Some(fm) => fm,
                None => {
                    return None;
                },
            },
            None => {
                return None;
            },
        },
        None => {
            return None;
        },
    };
    let yanked = match required_bool(v, "yanked") {
        Some(b) => b,
        None => {
            return None;
        },
    };
    Some(VersionRecord { name, version, deps, cksum, features, yanked })
}

/// A malformed line of a package-metadata file: the file, the offending
/// line's text, and what went wrong with it.
#[derive(Debug)]
pub struct ParseError {
    pub path: String,
    pub line: String,
    pub message: String,
}

/// Reads one line of a package-metadata file into a version record: `Ok`
/// exactly when the line parses, and then to the record the line declares.
/// The error text is serde_json's own message for unparsable JSON, or names
/// the missing or ill-typed part of an otherwise well-formed JSON object.
pub fn parse_version_line(line: &str) -> (r: Result<VersionRecord, String>)
    ensures
        match r {
            Ok(rec) => spec_line_record(line@) == Some(record_model(rec)),
            Err(_) => spec_line_record(line@) is None,
        },
{
    match json_parse(line) {
        Ok(v) => match parse_version_record(&v) {
            Some(rec) => Ok(rec),
            None => Err("missing or ill-typed version-record field".to_owned()),
        },
        Err(msg) => Err(msg),
    }
}

/// Parses one whole package-metadata file, given as its lines in on-disk
/// order (newest published version last).  Succeeds exactly when the file
/// has at least one line, every line parses as a version record, and all
/// records agree on the package name; the package then holds one record per
/// line, newest first.  A single malformed line fails the whole file, and
/// the error carries the file's path and that line's text.
pub fn parse_package(path: &str, lines: &Vec<String>) -> (r: Result<Package, ParseError>)
    ensures
        match r {
            Ok(p) => {
                &&& lines@.len() > 0
                &&& p.versions@.len() == lines@.len()
                &&& forall|i: int|
                    0 <= i < lines@.len() ==> spec_line_record((#[trigger] lines@[i])@) == Some(
                        record_model(p.versions@[lines@.len() - 1 - i]),
                    )
                &&& p.name@ == line_record_name(lines@[lines@.len() - 1]@)
                &&& pkg_wf(p)
            },
            Err(e) => {
                &&& e.path@ == path@
                &&& {
                    ||| lines@.len() == 0
                    ||| exists|i: int|
                        0 <= i < lines@.len() && spec_line_record((#[trigger] lines@[i])@) is None
                            && e.line@ == lines@[i]@
                    ||| {
                        &&& forall|i: int|
                            0 <= i < lines@.len() ==> spec_line_record(
                                (#[trigger] lines@[i])@,
                            ) is Some
                        &&& exists|i: int|
                            0 <= i < lines@.len() && line_record_name((#[trigger] lines@[i])@)
                                != line_record_name(lines@[lines@.len() - 1]@)
                    }
                }
            },
        },
{
    if lines.len() == 0 {
        return Err(
            ParseError {
                path: path.to_owned(),
                line: String::new(),
                message: "empty package file".to_owned(),
            },
        );
    }
    let mut records: Vec<VersionRecord> = Vec::new();
    let mut i: usize = 0;
    while i < lines.len()
        invariant
            0 <= i <= lines@.len(),
            records@.len() == i,
            forall|j: int|
                0 <= j < i ==> spec_line_record((#[trigger] lines@[j])@) == Some(
                    record_model(records@[j]),
                ),
        decreases lines@.len() - i,
    {
        match parse_version_line(lines[i].as_str()) {
            Ok(rec) => records.push(rec),
            Err(msg) => {
                return Err(
                    ParseError { path: path.to_owned(), line: lines[i].clone(), message: msg },
                );
            },
        }
        i = i + 1;
    }
    let ghost grecords = records@;
    match package_from_records(records) {
        Some(p) => {
            proof {
                assert forall|k: int| 0 <= k < lines@.len() implies spec_line_record(
                    (#[trigger] lines@[k])@,
                ) == Some(record_model(p.versions@[lines@.len() - 1 - k])) by {
                    assert(p.versions@[lines@.len() - 1 - k] == grecords.reverse()[lines@.len() - 1
                        - k]);
                    assert(grecords.reverse()[lines@.len() - 1 - k] == grecords[k]);
                }
                assert(p.name@ == grecords[grecords.len() - 1].name@);
                assert(line_record_name(lines@[lines@.len() - 1]@) == record_model(
                    grecords[grecords.len() - 1],
                ).name@);
            }
            Ok(p)
        },
        None => {
            proof {
                let j = choose|j: int|
                    0 <= j < grecords.len() && (#[trigger] grecords[j]).name@ != grecords[grecords.len()
                        - 1].name@;
                assert(line_record_name(lines@[j]@) == grecords[j].name@);
                assert(line_record_name(lines@[lines@.len() - 1]@) == grecords[grecords.len()
                    - 1].name@);
                assert(line_record_name(lines@[j]@) != line_record_name(
                    lines@[lines@.len() - 1]@,
                ));
            }
            Err(
                ParseError {
                    path: path.to_owned(),
                    line: String::new(),
                    message: "version records disagree on the package name".to_owned(),
                },
            )
        },
    }
}

} // verus!
