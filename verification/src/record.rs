//! The core data model: semantic versions, dependency declarations,
//! per-package version records, and packages as they appear in a registry
//! index.

use vstd::prelude::*;
use vstd::string::StringExecFns;
use crate::timefmt::dec_digits;
use crate::timefmt::u64_to_dec;

verus! {

/// A semantic version, held as plain components.  `pre` is the pre-release
/// identifier string (empty when none) and `build` the build-metadata string
/// (empty when none).
#[derive(Debug)]
pub struct Version {
    pub major: u64,
    pub minor: u64,
    pub patch: u64,
    pub pre: String,
    pub build: String,
}

/// The mathematical value of a `Version`: all five components as plain values.
pub open spec fn version_view(v: Version) -> (int, int, int, Seq<char>, Seq<char>) {
    (v.major as int, v.minor as int, v.patch as int, v.pre@, v.build@)
}

/// The text of a version: the three numbers dot-separated, then the
/// pre-release after a dash and the build metadata after a plus sign, each
/// only when present.
pub open spec fn version_text(v: Version) -> Seq<char> {
    dec_digits(v.major as int) + seq!['.'] + dec_digits(v.minor as int) + seq!['.'] + dec_digits(
        v.patch as int,
    ) + (if v.pre@.len() > 0 {
        seq!['-'] + v.pre@
    } else {
        Seq::<char>::empty()
    }) + (if v.build@.len() > 0 {
        seq!['+'] + v.build@
    } else {
        Seq::<char>::empty()
    })
}

impl Version {
    /// Structural equality of two versions, all five components included.
    pub open spec fn eq_spec(self, other: Version) -> bool {
        version_view(self) == version_view(other)
    }

    /// Decides structural equality of two versions.
    pub fn eq_version(&self, other: &Version) -> (r: bool)
        ensures
            r == self.eq_spec(*other),
    {
        self.major == other.major && self.minor == other.minor && self.patch == other.patch
            && self.pre == other.pre && self.build == other.build
    }

    /// Renders the version as text: `major.minor.patch`, the pre-release
    /// after a dash and the build metadata after a plus sign, each only when
    /// present.
    pub fn render(&self) -> (r: String)
        ensures
            r@ == version_text(*self),
    {
        let mut s = u64_to_dec(self.major);
        s.append(".");
        let m = u64_to_dec(self.minor);
        s.append(m.as_str());
        s.append(".");
        let p = u64_to_dec(self.patch);
        s.append(p.as_str());
        if !self.pre.as_str().is_empty() {
            s.append("-");
            s.append(self.pre.as_str());
        }
        if !self.build.as_str().is_empty() {
            s.append("+");
            s.append(self.build.as_str());
        }
        proof {
            reveal_strlit(".");
            reveal_strlit("-");
            reveal_strlit("+");
            assert(s@ =~= version_text(*self));
        }
        s
    }

    /// A copy of this version, equal to it component for component.
    pub fn duplicate(&self) -> (r: Version)
        ensures
            version_view(r) == version_view(*self),
    {
        Version {
            major: self.major,
            minor: self.minor,
            patch: self.patch,
            pre: self.pre.clone(),
            build: self.build.clone(),
        }
    }
}

/// One dependency declaration of a version record.  `req` is the raw
/// version-requirement expression as declared.  A `kind` of `None` means a
/// normal dependency.
#[derive(Debug)]
pub struct Dependency {
    pub name: String,
    pub req: String,
    pub features: Vec<String>,
    pub optional: bool,
    pub default_features: bool,
    pub target: Option<String>,
    pub kind: Option<String>,
}

/// Whether a dependency is a development-only dependency: its declared kind
/// is exactly `dev`.  Such dependencies never produce graph edges.
pub open spec fn is_dev(d: Dependency) -> bool {
    match d.kind {
        Some(k) => k@ == "dev"@,
        None => false,
    }
}

/// The text of a dependency declaration: its name, a space, and its raw
/// requirement.
pub open spec fn dep_text(d: Dependency) -> Seq<char> {
    d.name@ + seq![' '] + d.req@
}

impl Dependency {
    /// Renders the declaration as its name and raw requirement.
    pub fn render(&self) -> (r: String)
        ensures
            r@ == dep_text(*self),
    {
        let mut s = self.name.clone();
        s.append(" ");
        s.append(self.req.as_str());
        proof {
            reveal_strlit(" ");
            assert(s@ =~= dep_text(*self));
        }
        s
    }

    /// Decides whether this dependency's kind is `dev`.
    pub fn is_dev_dep(&self) -> (r: bool)
        ensures
            r == is_dev(*self),
    {
        match &self.kind {
            Some(k) => {
                let dev: String = "dev".to_owned();
                *k == dev
            },
            None => false,
        }
    }
}

/// One parsed package-version entry of the index.  Its identity is the
/// `(name, version)` pair, which must be unique across the whole index.
#[derive(Debug)]
pub struct VersionRecord {
    pub name: String,
    pub version: Version,
    pub deps: Vec<Dependency>,
    pub cksum: String,
    pub features: Vec<(String, Vec<String>)>,
    pub yanked: bool,
}

/// The text of a version record: its name, a space, and its version.
pub open spec fn record_text(r: VersionRecord) -> Seq<char> {
    r.name@ + seq![' '] + version_text(r.version)
}

impl VersionRecord {
    /// Renders the record as its name and version.
    pub fn render(&self) -> (r: String)
        ensures
            r@ == record_text(*self),
    {
        let mut s = self.name.clone();
        s.append(" ");
        let v = self.version.render();
        s.append(v.as_str());
        proof {
            reveal_strlit(" ");
            assert(s@ =~= record_text(*self));
        }
        s
    }
}

/// Whether two records have the same identity: equal names and structurally
/// equal versions.
pub open spec fn same_identity(a: VersionRecord, b: VersionRecord) -> bool {
    a.name@ == b.name@ && a.version.eq_spec(b.version)
}

/// One package: all its version records, newest declared first.
#[derive(Debug)]
pub struct Package {
    pub name: String,
    pub versions: Vec<VersionRecord>,
}

/// Well-formedness of a package: it holds at least one record, and every
/// record carries the package's name.
pub open spec fn pkg_wf(p: Package) -> bool {
    &&& p.versions@.len() > 0
    &&& forall|i: int|
        0 <= i < p.versions@.len() ==> (#[trigger] p.versions@[i]).name@ == p.name@
}

impl Package {
    /// Decides well-formedness of a package.
    pub fn is_wf(&self) -> (r: bool)
        ensures
            r == pkg_wf(*self),
    {
        if self.versions.len() == 0 {
            return false;
        }
        let mut i: usize = 0;
        while i < self.versions.len()
            invariant
                0 <= i <= self.versions@.len(),
                forall|j: int| 0 <= j < i ==> (#[trigger] self.versions@[j]).name@ == self.name@,
            decreases self.versions@.len() - i,
        {
            if !(self.versions[i].name == self.name) {
                return false;
            }
            i = i + 1;
        }
        true
    }
}

/// Builds a package from the records of one package-metadata file, given in
/// their on-disk declaration order (newest published version last).
///
/// The records are reversed, so the package's `versions` are newest-first,
/// and the package name is taken from the latest (last declared) record.
/// Returns `None` when the file held no record at all, or when its records
/// do not all agree on the package name.
pub fn package_from_records(records: Vec<VersionRecord>) -> (r: Option<Package>)
    ensures
        match r {
            Some(p) => {
                &&& p.versions@ == records@.reverse()
                &&& records@.len() > 0
                &&& p.name@ == records@[records@.len() - 1].name@
                &&& pkg_wf(p)
            },
            None => records@.len() == 0 || exists|i: int|
                0 <= i < records@.len() && (#[trigger] records@[i]).name@ != records@[records@.len()
                    - 1].name@,
        },
{
    if records.len() == 0 {
        return None;
    }
    let name: String = records[records.len() - 1].name.clone();
    let mut i: usize = 0;
    while i < records.len()
        invariant
            0 <= i <= records@.len(),
            records@.len() > 0,
            name@ == records@[records@.len() - 1].name@,
            forall|j: int| 0 <= j < i ==> (#[trigger] records@[j]).name@ == name@,
        decreases records@.len() - i,
    {
        if !(records[i].name == name) {
            return None;
        }
        i = i + 1;
    }
    let ghost all: Seq<VersionRecord> = records@;
    let mut rest: Vec<VersionRecord> = records;
    let mut versions: Vec<VersionRecord> = Vec::new();
    while rest.len() > 0
        invariant
            rest@.len() <= all.len(),
            forall|j: int| 0 <= j < rest@.len() ==> rest@[j] == all[j],
            versions@.len() == all.len() - rest@.len(),
            forall|i: int| 0 <= i < versions@.len() ==> versions@[i] == all[all.len() - 1 - i],
        decreases rest@.len(),
    {
        let v = rest.pop().unwrap();
        versions.push(v);
    }
    proof {
        assert(versions@ =~= all.reverse());
    }
    Some(Package { name, versions })
}

/// The mathematical content of a dependency: as `Dependency`, with the
/// feature list as a sequence.
pub struct DepModel {
    pub name: String,
    pub req: String,
    pub features: Seq<String>,
    pub optional: bool,
    pub default_features: bool,
    pub target: Option<String>,
    pub kind: Option<String>,
}

/// The mathematical content of a `Dependency`.
pub open spec fn dep_model(d: Dependency) -> DepModel {
    DepModel {
        name: d.name,
        req: d.req,
        features: d.features@,
        optional: d.optional,
        default_features: d.default_features,
        target: d.target,
        kind: d.kind,
    }
}

/// The mathematical content of a version record, lists as sequences.
pub struct RecordModel {
    pub name: String,
    pub version: Version,
    pub deps: Seq<DepModel>,
    pub cksum: String,
    pub features: Seq<(String, Seq<String>)>,
    pub yanked: bool,
}

/// The mathematical content of a `VersionRecord`.
pub open spec fn record_model(r: VersionRecord) -> RecordModel {
    RecordModel {
        name: r.name,
        version: r.version,
        deps: r.deps@.map_values(|d: Dependency| dep_model(d)),
        cksum: r.cksum,
        features: r.features@.map_values(|f: (String, Vec<String>)| (f.0, f.1@)),
        yanked: r.yanked,
    }
}

/// The mathematical content of a package.
pub struct PackageModel {
    pub name: String,
    pub versions: Seq<RecordModel>,
}

/// The mathematical content of a `Package`.
pub open spec fn package_model(p: Package) -> PackageModel {
    PackageModel {
        name: p.name,
        versions: p.versions@.map_values(|r: VersionRecord| record_model(r)),
    }
}

/// The mathematical content of a package index.
pub struct IndexModel {
    pub packages: Seq<PackageModel>,
}

} // verus!
