//! The trusted boundary to `git2`: type declarations and thin wrappers
//! around the repository operations the checks rely on. Each wrapper makes
//! one call into `git2` and converts its result to plain values; what a
//! wrapper returns depends on the repository on disk, so none of them
//! promises anything about the values that come back.

use vstd::prelude::*;

verus! {

#[verifier::external_type_specification]
#[verifier::external_body]
/// An on-disk Git repository handle.
pub struct ExRepository(git2::Repository);

#[verifier::external_type_specification]
#[verifier::external_body]
/// A reference to a local or remote-tracking branch of a repository.
pub struct ExBranch<'a>(git2::Branch<'a>);

#[verifier::external_type_specification]
#[verifier::external_body]
/// The id of an object in a repository's object store.
pub struct ExOid(git2::Oid);

#[verifier::external_type_specification]
#[verifier::external_body]
/// An error reported by `git2`.
pub struct ExGitError(git2::Error);

#[verifier::external_type_specification]
#[verifier::external_body]
/// A credential for authenticating against a remote.
pub struct ExCred(git2::Cred);

#[verifier::external_type_specification]
#[verifier::external_body]
/// The set of credential schemes a remote is willing to accept.
pub struct ExCredentialType(git2::CredentialType);

/// Relies on `git2::Repository::path`: the path of the repository's
/// metadata directory, rendered as text for diagnostics.
#[verifier::external_body]
pub(crate) fn repo_path_display(repo: &git2::Repository) -> (r: String) {
    repo.path().display().to_string()
}

/// Relies on `git2::Repository::statuses`, queried with ignored files
/// excluded and untracked files included: `Ok(true)` exactly when some
/// working-tree or index entry differs from the last commit.
#[verifier::external_body]
pub(crate) fn status_query(repo: &git2::Repository) -> (r: Result<bool, git2::Error>) {
    let mut opts = git2::StatusOptions::new();
    opts.include_ignored(false).include_untracked(true);
    match repo.statuses(Some(&mut opts)) {
        Ok(statuses) => Ok(!statuses.is_empty()),
        Err(e) => Err(e),
    }
}

/// Relies on `git2::Repository::stash_foreach`: the callback runs once per
/// stash entry, most recent first, and returning `true` asks for the next
/// entry, so the count covers every entry. The stash list is not changed.
#[verifier::external_body]
pub(crate) fn stash_walk_count(repo: &mut git2::Repository) -> (r: Result<u32, git2::Error>) {
    let mut count: u32 = 0;
    let outcome = repo.stash_foreach(|_index, _message, _id| {
        count = crate::status::saturating_bump(count);
        true
    });
    match outcome {
        Ok(()) => Ok(count),
        Err(e) => Err(e),
    }
}

/// Relies on `git2::Cred::credential_helper`, reading the default Git
/// configuration: resolves a username+password credential for `url`.
/// Handed to a fetch as its credential callback; aborts if the host
/// requests any scheme but plaintext username+password, a misconfigured
/// environment rather than a recoverable failure.
#[verifier::external_body]
pub(crate) fn git_cred_check(
    url: &str,
    username: Option<&str>,
    allowed: git2::CredentialType,
) -> (r: Result<git2::Cred, git2::Error>) {
    let plaintext: Option<()> = if allowed == git2::CredentialType::USER_PASS_PLAINTEXT {
        Some(())
    } else {
        None
    };
    plaintext.expect("only plaintext username+password credentials are supported");
    let config = git2::Config::open_default().expect("couldn't find default git configuration");
    git2::Cred::credential_helper(&config, url, username)
}

/// Relies on `git2::Remote::fetch` with the remote's base refspecs and
/// [`git_cred_check`] as credential callback: refreshes the remote-tracking
/// refs. A repository without the named remote is left as it is
/// (`Ok(false)`); only local branches' upstream information changes, never
/// local branches themselves.
#[verifier::external_body]
pub(crate) fn remote_refresh(repo: &git2::Repository, remote: &str) -> (r: Result<
    bool,
    git2::Error,
>) {
    let mut rem = match repo.find_remote(remote) {
        Ok(rem) => rem,
        Err(_) => return Ok(false),
    };
    let mut cbs = git2::RemoteCallbacks::new();
    cbs.credentials(|url, username, allowed| git_cred_check(url, username, allowed));
    let mut opts = git2::FetchOptions::new();
    opts.remote_callbacks(cbs);
    let refspecs: &[&str] = &[];
    match rem.fetch(refspecs, Some(&mut opts), None) {
        Ok(()) => Ok(true),
        Err(e) => Err(e),
    }
}

/// Relies on `git2::Repository::branches` filtered to local branches;
/// entries the enumeration could not produce are dropped. Panics if the
/// branch enumeration itself cannot be opened.
#[verifier::external_body]
pub(crate) fn local_branches<'a>(repo: &'a git2::Repository) -> (r: Vec<git2::Branch<'a>>) {
    repo.branches(Some(git2::BranchType::Local))
        .expect("failed to get list of local branches")
        .flatten()
        .map(|(branch, _kind)| branch)
        .collect()
}

/// Relies on `git2::Branch::name`: `Some` exactly when the branch has a
/// name and it is valid UTF-8.
#[verifier::external_body]
pub(crate) fn branch_name_string(branch: &git2::Branch) -> (r: Option<String>) {
    match branch.name() {
        Ok(Some(name)) => Some(name.to_owned()),
        _ => None,
    }
}

/// Relies on `git2::Branch::upstream`: the branch's configured upstream
/// branch, or `None` if no upstream is configured or it cannot be found.
#[verifier::external_body]
pub(crate) fn branch_upstream<'a>(branch: &git2::Branch<'a>) -> (r: Option<git2::Branch<'a>>) {
    branch.upstream().ok()
}

/// Relies on `git2::Branch::get` and `git2::Reference::target`: the id of
/// the commit the branch points to, or `None` if the branch's reference
/// is not direct (an unborn branch, for example).
#[verifier::external_body]
pub(crate) fn branch_target(branch: &git2::Branch) -> (r: Option<git2::Oid>) {
    branch.get().target()
}

/// Relies on `git2::Repository::graph_ahead_behind`: the number of commits
/// reachable from `local` but not from `upstream`, and the reverse. Two
/// equal ids have no unique commits on either side, so two branches at the
/// same tip give `Ok((0, 0))`.
#[verifier::external_body]
pub(crate) fn graph_distances(
    repo: &git2::Repository,
    local: git2::Oid,
    upstream: git2::Oid,
) -> (r: Result<(usize, usize), git2::Error>)
    ensures
        r is Ok && local == upstream ==> r->Ok_0 == (0usize, 0usize),
{
    repo.graph_ahead_behind(local, upstream)
}

} // verus!
