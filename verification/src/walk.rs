//! The index walker's file-selection policy.  Traversal itself is ordinary
//! directory walking; these predicates decide what it descends into and
//! what counts as a package-metadata file.

use vstd::prelude::*;

verus! {

/// Whether the walk may take this directory entry at all: everything but a
/// version-control `.git` subtree.
pub fn keep_entry(file_name: &str) -> (r: bool)
    ensures
        r == (file_name@ != ".git"@),
{
    let git: String = ".git".to_owned();
    let name: String = file_name.to_owned();
    !(name == git)
}

/// Whether a kept entry is a package-metadata file: a regular file strictly
/// more than one level below the root, since depth-one entries are the
/// registry's shard directories, not package files.
pub fn is_package_file(depth: usize, is_file: bool) -> (r: bool)
    ensures
        r == (is_file && depth > 1),
{
    is_file && depth > 1
}

} // verus!
