//! The trusted boundary around `walkdir`: starting a walk and reading one
//! entry at a time as plain values. Nothing is promised about what the
//! filesystem contains; the one structural assumption is that a walk yields
//! finitely many entries, so that loops driving it terminate. The collector
//! states its own guarantees over whatever comes back.

use vstd::prelude::*;

verus! {

#[verifier::external_type_specification]
#[verifier::external_body]
pub struct ExWalkDirIntoIter(walkdir::IntoIter);

#[verifier::external_type_specification]
#[verifier::external_body]
pub struct ExWalkDirEntry(walkdir::DirEntry);

#[verifier::external_type_specification]
#[verifier::external_body]
pub struct ExWalkDirError(walkdir::Error);

/// A directory walk in progress. The ghost field bounds how many entries the
/// walk will still yield; it exists so that the collection loop has a
/// termination measure.
pub(crate) struct DirWalk {
    inner: walkdir::IntoIter,
    left: Ghost<nat>,
}

impl DirWalk {
    /// An upper bound on the entries this walk will still yield.
    pub(crate) closed spec fn remaining(&self) -> nat {
        self.left@
    }
}

/// Relies on `walkdir::WalkDir::new` and `follow_links(false)`: a
/// depth-unlimited walk rooted at `root` that does not follow symbolic links.
#[verifier::external_body]
fn raw_walk_recursive(root: &str) -> walkdir::IntoIter {
    walkdir::WalkDir::new(root).follow_links(false).into_iter()
}

/// Relies on `walkdir::WalkDir::max_depth(1)`: a walk rooted at `root` that
/// descends one level only and does not follow symbolic links.
#[verifier::external_body]
fn raw_walk_shallow(root: &str) -> walkdir::IntoIter {
    walkdir::WalkDir::new(root).max_depth(1).follow_links(false).into_iter()
}

/// Starts a depth-unlimited walk of `root`.
pub(crate) fn walk_start_recursive(root: &str) -> DirWalk {
    DirWalk { inner: raw_walk_recursive(root), left: Ghost(arbitrary()) }
}

/// Starts a walk of `root` that descends one level only.
pub(crate) fn walk_start_shallow(root: &str) -> DirWalk {
    DirWalk { inner: raw_walk_shallow(root), left: Ghost(arbitrary()) }
}

/// Relies on `walkdir::IntoIter::next`: the next entry of the walk, an
/// entry-level error rendered as its display message, or the end of the walk.
/// A walk of a directory tree is finite, so each yielded entry lowers the
/// bound on what is left.
#[verifier::external_body]
pub(crate) fn walk_next(it: &mut DirWalk) -> (r: Option<Result<walkdir::DirEntry, String>>)
    ensures
        r is Some ==> final(it).remaining() < old(it).remaining(),
{
    match it.inner.next() {
        None => None,
        Some(Ok(entry)) => Some(Ok(entry)),
        Some(Err(err)) => Some(Err(format!("{}", err))),
    }
}

/// Relies on `walkdir::DirEntry::path`: the entry's full path rendered as a
/// string.
#[verifier::external_body]
pub(crate) fn entry_path_string(entry: &walkdir::DirEntry) -> String {
    entry.path().display().to_string()
}

/// Relies on `walkdir::DirEntry::file_name`: the final component of the
/// entry's path rendered as a string.
#[verifier::external_body]
pub(crate) fn entry_file_name(entry: &walkdir::DirEntry) -> String {
    entry.file_name().to_string_lossy().to_string()
}

/// Relies on `walkdir::DirEntry::file_type`: whether the entry is a regular
/// file (symbolic links are reported as links, not as their targets).
#[verifier::external_body]
pub(crate) fn entry_is_file(entry: &walkdir::DirEntry) -> bool {
    entry.file_type().is_file()
}

/// Relies on `walkdir::DirEntry::metadata`: the entry's size in bytes, or the
/// metadata error rendered as its display message.
#[verifier::external_body]
pub(crate) fn entry_size(entry: &walkdir::DirEntry) -> Result<u64, String> {
    match entry.metadata() {
        Ok(meta) => Ok(meta.len()),
        Err(err) => Err(format!("{}", err)),
    }
}

} // verus!
