//! Working-tree and stash checks: whether anything is uncommitted since
//! the last commit, and how many stash entries a repository holds.

use vstd::prelude::*;
use crate::git::repo_path_display;
use crate::git::stash_walk_count;
use crate::git::status_query;

verus! {

/// The status query of [`check_uncommitted`] failed.
#[derive(Debug)]
pub struct UncommittedError {
    /// Path of the repository's metadata directory, for diagnostics.
    pub path: String,
    /// Underlying error.
    pub source: git2::Error,
}

/// Check if there are any uncommitted local changes: working-tree or index
/// entries, untracked files included and ignored files excluded, that
/// differ from the last commit. The answer reflects the repository on disk
/// at the time of the call.
pub fn check_uncommitted(repo: &git2::Repository) -> (r: Result<bool, UncommittedError>) {
    match status_query(repo) {
        Ok(has_changes) => Ok(has_changes),
        Err(e) => Err(UncommittedError { path: repo_path_display(repo), source: e }),
    }
}

/// The stash enumeration of [`check_stashed`] failed.
#[derive(Debug)]
pub struct StashedError(pub git2::Error);

/// Adds one to a count of stash entries, stopping at the largest
/// representable count rather than wrapping.
pub(crate) fn saturating_bump(n: u32) -> (r: u32)
    ensures
        r == if n < u32::MAX { n + 1 } else { n as int },
{
    if n < u32::MAX {
        n + 1
    } else {
        n
    }
}

/// Check how many stashed changes the repository holds, by walking its
/// stash list and counting the entries. The stash list itself is left
/// unchanged.
pub fn check_stashed(repo: &mut git2::Repository) -> (r: Result<u32, StashedError>) {
    match stash_walk_count(repo) {
        Ok(count) => Ok(count),
        Err(e) => Err(StashedError(e)),
    }
}

} // verus!
