//! The package index: every package keyed by name, with integrity checks,
//! and the dependency resolver that picks the newest satisfying version.

use vstd::prelude::*;
use crate::record::Dependency;
use crate::record::Package;
use crate::record::Version;
use crate::record::VersionRecord;
use crate::record::pkg_wf;
use crate::record::same_identity;
use crate::record::version_view;

verus! {

/// What an admissibility test of a version requirement returns: a function of
/// the requirement text and the version's components alone.
pub uninterp spec fn req_matches_spec(
    req: Seq<char>,
    major: int,
    minor: int,
    patch: int,
    pre: Seq<char>,
) -> bool;

/// Relies on `semver::VersionReq::parse` and `semver::VersionReq::matches`:
/// whether a requirement admits a version depends on the requirement text and
/// the version's numeric and pre-release components alone (build metadata
/// never takes part in matching).  A requirement or pre-release text that
/// `semver` cannot parse admits no version.
#[verifier::external_body]
pub fn req_admits(req: &str, v: &Version) -> (r: bool)
    ensures
        r == req_matches_spec(req@, v.major as int, v.minor as int, v.patch as int, v.pre@),
{
    let parsed = match semver::VersionReq::parse(req) {
        Ok(p) => p,
        Err(_) => return false,
    };
    let pre = match semver::Prerelease::new(&v.pre) {
        Ok(p) => p,
        Err(_) => return false,
    };
    let (major, minor, patch) = (v.major, v.minor, v.patch);
    let build = semver::BuildMetadata::EMPTY;
    parsed.matches(&semver::Version { major, minor, patch, pre, build })
}

/// Whether dependency `d`'s requirement admits version `v`.
pub open spec fn dep_matches(d: Dependency, v: Version) -> bool {
    req_matches_spec(d.req@, v.major as int, v.minor as int, v.patch as int, v.pre@)
}

/// The full collection of packages, the name-keyed view of the index.
pub struct PackageIndex {
    pub packages: Vec<Package>,
}

/// Well-formedness of the index: every package is well formed, package names
/// are unique, and within each package no two records share a version, so
/// the `(name, version)` identity is unique across the whole index.
pub open spec fn index_wf(idx: PackageIndex) -> bool {
    &&& forall|i: int| 0 <= i < idx.packages@.len() ==> pkg_wf(#[trigger] idx.packages@[i])
    &&& forall|i: int, j: int|
        0 <= i < j < idx.packages@.len() ==> (#[trigger] idx.packages@[i]).name@ != (
        #[trigger] idx.packages@[j]).name@
    &&& forall|i: int, a: int, b: int|
        0 <= i < idx.packages@.len() && 0 <= a < b < idx.packages@[i].versions@.len()
            ==> !(#[trigger] idx.packages@[i].versions@[a].version.eq_spec(
            idx.packages@[i].versions@[b].version,
        ))
}

/// The first package at or after position `i` whose name is `name`.
pub open spec fn first_pkg_from(idx: PackageIndex, name: Seq<char>, i: int) -> Option<int>
    decreases idx.packages@.len() - i,
    when 0 <= i <= idx.packages@.len()
{
    if i >= idx.packages@.len() {
        None
    } else if idx.packages@[i].name@ == name {
        Some(i)
    } else {
        first_pkg_from(idx, name, i + 1)
    }
}

/// The first version record of `p` at or after position `i` that `d`'s
/// requirement admits.  Positions in `p` run newest-first.
pub open spec fn first_match_from(p: Package, d: Dependency, i: int) -> Option<int>
    decreases p.versions@.len() - i,
    when 0 <= i <= p.versions@.len()
{
    if i >= p.versions@.len() {
        None
    } else if dep_matches(d, p.versions@[i].version) {
        Some(i)
    } else {
        first_match_from(p, d, i + 1)
    }
}

/// The resolver's choice for dependency `d`: the position of the newest
/// admitted version of the named package, or `None` when the package is
/// absent or no version is admitted.
pub open spec fn resolve_spec(d: Dependency, idx: PackageIndex) -> Option<(int, int)> {
    match first_pkg_from(idx, d.name@, 0) {
        Some(pi) => match first_match_from(idx.packages@[pi], d, 0) {
            Some(vi) => Some((pi, vi)),
            None => None,
        },
        None => None,
    }
}

/// Everything `first_match_from` promises of its result: the position is in
/// range, its record is admitted, and no earlier (newer) record from `i` on
/// is; on `None`, no record from `i` on is admitted.
pub proof fn lemma_first_match_from(p: Package, d: Dependency, i: int)
    requires
        0 <= i <= p.versions@.len(),
    ensures
        match first_match_from(p, d, i) {
            Some(vi) => {
                &&& i <= vi < p.versions@.len()
                &&& dep_matches(d, p.versions@[vi].version)
                &&& forall|j: int| i <= j < vi ==> !dep_matches(d, p.versions@[j].version)
            },
            None => forall|j: int| i <= j < p.versions@.len() ==> !dep_matches(
                d,
                p.versions@[j].version,
            ),
        },
    decreases p.versions@.len() - i,
{
    if i < p.versions@.len() && !dep_matches(d, p.versions@[i].version) {
        lemma_first_match_from(p, d, i + 1);
    }
}

/// Everything `first_pkg_from` promises of its result, in the same way.
pub proof fn lemma_first_pkg_from(idx: PackageIndex, name: Seq<char>, i: int)
    requires
        0 <= i <= idx.packages@.len(),
    ensures
        match first_pkg_from(idx, name, i) {
            Some(pi) => {
                &&& i <= pi < idx.packages@.len()
                &&& idx.packages@[pi].name@ == name
                &&& forall|j: int| i <= j < pi ==> (#[trigger] idx.packages@[j]).name@ != name
            },
            None => forall|j: int| i <= j < idx.packages@.len() ==> (
            #[trigger] idx.packages@[j]).name@ != name,
        },
    decreases idx.packages@.len() - i,
{
    if i < idx.packages@.len() && idx.packages@[i].name@ != name {
        lemma_first_pkg_from(idx, name, i + 1);
    }
}

/// Law: the resolver returns a record only of the dependency's own package,
/// only one its requirement admits, and always the first such record in the
/// package's newest-first order.
pub proof fn lemma_resolve_first(d: Dependency, idx: PackageIndex, pi: int, vi: int)
    requires
        index_wf(idx),
        resolve_spec(d, idx) == Some((pi, vi)),
    ensures
        0 <= pi < idx.packages@.len(),
        0 <= vi < idx.packages@[pi].versions@.len(),
        idx.packages@[pi].versions@[vi].name@ == d.name@,
        dep_matches(d, idx.packages@[pi].versions@[vi].version),
        forall|j: int| 0 <= j < vi ==> !dep_matches(d, idx.packages@[pi].versions@[j].version),
{
    lemma_first_pkg_from(idx, d.name@, 0);
    lemma_first_match_from(idx.packages@[pi], d, 0);
}

/// Law: in a well-formed index the `(name, version)` identity determines the
/// record's position; no two distinct positions hold the same identity.
pub proof fn lemma_identity_unique(idx: PackageIndex, pi: int, vi: int, pj: int, vj: int)
    requires
        index_wf(idx),
        0 <= pi < idx.packages@.len(),
        0 <= vi < idx.packages@[pi].versions@.len(),
        0 <= pj < idx.packages@.len(),
        0 <= vj < idx.packages@[pj].versions@.len(),
        same_identity(idx.packages@[pi].versions@[vi], idx.packages@[pj].versions@[vj]),
    ensures
        pi == pj,
        vi == vj,
{
    assert(idx.packages@[pi].versions@[vi].name@ == idx.packages@[pi].name@);
    assert(idx.packages@[pj].versions@[vj].name@ == idx.packages@[pj].name@);
    if pi != pj {
        if pi < pj {
            assert(idx.packages@[pi].name@ != idx.packages@[pj].name@);
        } else {
            assert(idx.packages@[pj].name@ != idx.packages@[pi].name@);
        }
    }
    if vi != vj {
        if vi < vj {
            assert(!idx.packages@[pi].versions@[vi].version.eq_spec(
                idx.packages@[pi].versions@[vj].version,
            ));
        } else {
            assert(!idx.packages@[pi].versions@[vj].version.eq_spec(
                idx.packages@[pi].versions@[vi].version,
            ));
        }
    }
}

/// Finds the position of the package named `name`, scanning in storage order.
pub fn find_package(index: &PackageIndex, name: &String) -> (r: Option<usize>)
    ensures
        match r {
            Some(pi) => first_pkg_from(*index, name@, 0) == Some(pi as int),
            None => first_pkg_from(*index, name@, 0) is None,
        },
{
    let mut i: usize = 0;
    while i < index.packages.len()
        invariant
            0 <= i <= index.packages@.len(),
            first_pkg_from(*index, name@, 0) == first_pkg_from(*index, name@, i as int),
        decreases index.packages@.len() - i,
    {
        if index.packages[i].name == *name {
            return Some(i);
        }
        i = i + 1;
    }
    None
}

/// Resolves dependency `d` to the positions of its chosen record, or `None`
/// when the package is absent or no version is admitted.
pub fn resolve_ids(dep: &Dependency, index: &PackageIndex) -> (r: Option<(usize, usize)>)
    ensures
        match r {
            Some(ids) => resolve_spec(*dep, *index) == Some((ids.0 as int, ids.1 as int)),
            None => resolve_spec(*dep, *index) is None,
        },
{
    let pi = match find_package(index, &dep.name) {
        Some(pi) => pi,
        None => {
            return None;
        },
    };
    proof {
        lemma_first_pkg_from(*index, dep.name@, 0);
    }
    let p = &index.packages[pi];
    let mut vi: usize = 0;
    while vi < p.versions.len()
        invariant
            0 <= vi <= p.versions@.len(),
            *p == index.packages@[pi as int],
            0 <= pi < index.packages@.len(),
            first_pkg_from(*index, dep.name@, 0) == Some(pi as int),
            first_match_from(*p, *dep, 0) == first_match_from(*p, *dep, vi as int),
        decreases p.versions@.len() - vi,
    {
        if req_admits(dep.req.as_str(), &p.versions[vi].version) {
            return Some((pi, vi));
        }
        vi = vi + 1;
    }
    None
}

/// Resolves dependency `d` against the index and hands back the chosen
/// record itself: the newest one of `d`'s package that `d`'s requirement
/// admits, per `resolve_spec`.
pub fn resolve<'a>(dep: &Dependency, index: &'a PackageIndex) -> (r: Option<&'a VersionRecord>)
    requires
        index_wf(*index),
    ensures
        match r {
            Some(w) => {
                &&& exists|pi: int, vi: int|
                    resolve_spec(*dep, *index) == Some((pi, vi)) && *w == index.packages@[pi].versions@[vi]
                &&& w.name@ == dep.name@
                &&& dep_matches(*dep, w.version)
            },
            None => resolve_spec(*dep, *index) is None,
        },
{
    match resolve_ids(dep, index) {
        Some((pi, vi)) => {
            proof {
                lemma_resolve_first(*dep, *index, pi as int, vi as int);
            }
            Some(&index.packages[pi].versions[vi])
        },
        None => None,
    }
}

/// Whether two packages of the sequence share a name.
pub open spec fn has_dup_name(pkgs: Seq<Package>) -> bool {
    exists|i: int, j: int|
        0 <= i < j < pkgs.len() && (#[trigger] pkgs[i]).name@ == (#[trigger] pkgs[j]).name@
}

/// Whether some package declares two structurally equal versions.
pub open spec fn has_dup_version(pkgs: Seq<Package>) -> bool {
    exists|i: int, a: int, b: int|
        0 <= i < pkgs.len() && 0 <= a < b < pkgs[i].versions@.len() && (#[trigger] pkgs[i].versions@[a].version.eq_spec(
            pkgs[i].versions@[b].version,
        ))
}

/// A data-integrity violation of the index itself: either two files declared
/// the same package, or one package declared the same version twice.
#[derive(Debug)]
pub enum IntegrityError {
    DuplicatePackage { name: String },
    DuplicateVersion { name: String, version: Version },
}

/// Builds the index from the parsed packages.  Fails fast on an integrity
/// violation: a duplicate package name, or a duplicate `(name, version)`
/// identity, is an inconsistency of the input index, never merged over.
pub fn build_index(packages: Vec<Package>) -> (r: Result<PackageIndex, IntegrityError>)
    requires
        forall|i: int| 0 <= i < packages@.len() ==> pkg_wf(#[trigger] packages@[i]),
    ensures
        match r {
            Ok(idx) => {
                &&& idx.packages@ == packages@
                &&& index_wf(idx)
                &&& !has_dup_name(packages@)
                &&& !has_dup_version(packages@)
            },
            Err(e) => {
                &&& has_dup_name(packages@) || has_dup_version(packages@)
                &&& match e {
                    IntegrityError::DuplicatePackage { name } => exists|i: int, j: int|
                        0 <= i < j < packages@.len() && (#[trigger] packages@[i]).name@ == (
                        #[trigger] packages@[j]).name@ && name@ == packages@[i].name@,
                    IntegrityError::DuplicateVersion { name, version } => exists|i: int, a: int, b: int|
                        0 <= i < packages@.len() && 0 <= a < b < packages@[i].versions@.len() && (
                        #[trigger] packages@[i].versions@[a].version.eq_spec(
                            packages@[i].versions@[b].version,
                        )) && name@ == packages@[i].name@ && version_view(version) == version_view(
                            packages@[i].versions@[a].version,
                        ),
                }
            },
        },
{
    let n = packages.len();
    let mut i: usize = 0;
    while i < n
        invariant
            n == packages@.len(),
            0 <= i <= n,
            forall|a: int, b: int|
                0 <= a < b < n && a < i ==> (#[trigger] packages@[a]).name@ != (
                #[trigger] packages@[b]).name@,
        decreases n - i,
    {
        let mut j: usize = i + 1;
        while j < n
            invariant
                n == packages@.len(),
                0 <= i < n,
                i < j <= n,
                forall|b: int| i < b < j ==> (#[trigger] packages@[b]).name@ != packages@[i as int].name@,
            decreases n - j,
        {
            if packages[i].name == packages[j].name {
                return Err(IntegrityError::DuplicatePackage { name: packages[i].name.clone() });
            }
            j = j + 1;
        }
        i = i + 1;
    }
    let mut pi: usize = 0;
    while pi < n
        invariant
            n == packages@.len(),
            0 <= pi <= n,
            forall|i2: int, a: int, b: int|
                0 <= i2 < pi && 0 <= a < b < packages@[i2].versions@.len()
                    ==> !(#[trigger] packages@[i2].versions@[a].version.eq_spec(
                    packages@[i2].versions@[b].version,
                )),
        decreases n - pi,
    {
        let m = packages[pi].versions.len();
        let mut a: usize = 0;
        while a < m
            invariant
                n == packages@.len(),
                0 <= pi < n,
                m == packages@[pi as int].versions@.len(),
                0 <= a <= m,
                forall|a2: int, b: int|
                    0 <= a2 < b < m && a2 < a ==> !(#[trigger] packages@[pi as int].versions@[a2].version.eq_spec(
                        packages@[pi as int].versions@[b].version,
                    )),
            decreases m - a,
        {
            let mut b: usize = a + 1;
            while b < m
                invariant
                    n == packages@.len(),
                    0 <= pi < n,
                    m == packages@[pi as int].versions@.len(),
                    0 <= a < m,
                    a < b <= m,
                    forall|b2: int|
                        a < b2 < b ==> !(#[trigger] packages@[pi as int].versions@[a as int].version.eq_spec(
                            packages@[pi as int].versions@[b2].version,
                        )),
                decreases m - b,
            {
                if packages[pi].versions[a].version.eq_version(&packages[pi].versions[b].version) {
                    return Err(IntegrityError::DuplicateVersion {
                        name: packages[pi].name.clone(),
                        version: packages[pi].versions[a].version.duplicate(),
                    });
                }
                b = b + 1;
            }
            a = a + 1;
        }
        pi = pi + 1;
    }
    Ok(PackageIndex { packages })
}

} // verus!
