//! Ahead/behind check: refreshes the remote-tracking refs of a named
//! remote, then classifies every local branch by its divergence from its
//! configured upstream branch.

use vstd::prelude::*;
use crate::git::branch_name_string;
use crate::git::branch_target;
use crate::git::branch_upstream;
use crate::git::graph_distances;
use crate::git::local_branches;
use crate::git::remote_refresh;

verus! {

/// Details about the state of a local branch relative to its upstream.
#[derive(Clone, Debug, Eq, PartialEq)]
pub struct AheadBehind {
    /// The number of commits this branch is ahead of its upstream, or
    /// `None` if no upstream branch is detected.
    pub ahead: Option<usize>,
    /// The number of commits this branch is behind its upstream, or
    /// `None` if no upstream branch is detected.
    pub behind: Option<usize>,
    /// The name of this branch, or `None` if the name would not be a
    /// valid `String` (not UTF-8 for example).
    pub branch_name: Option<String>,
    /// The name of the upstream branch, or `None` if it is not detected.
    pub upstream_name: Option<String>,
}

impl AheadBehind {
    /// The shape every record has: the two counts are both present or
    /// both absent, and an upstream name is reported only together with
    /// the counts.
    pub open spec fn wf(self) -> bool {
        &&& self.ahead is Some <==> self.behind is Some
        &&& self.upstream_name is Some ==> self.ahead is Some
    }
}

/// The fetch that refreshes the remote-tracking refs failed, so no
/// ahead/behind numbers can be trusted.
#[derive(Debug)]
pub struct AheadBehindError(pub git2::Error);

/// Why a single branch's ahead/behind record could not be computed.
#[derive(Debug)]
pub enum AheadBehindIterError {
    /// Failed to get the id of the commit a branch points to; holds the
    /// branch's name, or a placeholder if the name is not representable.
    Oid(String),
    /// Failed to walk the commit graph between the two branch tips.
    CommitGraph(git2::Error),
}

/// The record for a branch with no configured upstream: no counts and no
/// upstream name, only the branch's own name.
pub fn no_upstream_record(branch_name: Option<String>) -> (r: AheadBehind)
    ensures
        r.ahead is None,
        r.behind is None,
        r.upstream_name is None,
        r.branch_name == branch_name,
        r.wf(),
{
    AheadBehind { ahead: None, behind: None, branch_name, upstream_name: None }
}

/// The record for a branch whose divergence from its upstream was
/// computed: it carries both counts and both names as given.
pub fn tracked_record(
    branch_name: Option<String>,
    upstream_name: Option<String>,
    ahead: usize,
    behind: usize,
) -> (r: AheadBehind)
    ensures
        r.ahead == Some(ahead),
        r.behind == Some(behind),
        r.branch_name == branch_name,
        r.upstream_name == upstream_name,
        r.wf(),
{
    AheadBehind { ahead: Some(ahead), behind: Some(behind), branch_name, upstream_name }
}

/// The name a branch gets in an error report: its own name when it is
/// representable, a fixed placeholder otherwise.
pub open spec fn oid_label(branch_name: Option<String>) -> Seq<char> {
    match branch_name {
        Some(name) => name@,
        None => "(unnamed??)"@,
    }
}

/// The branch name used in an error report: the name itself when it is
/// representable, a fixed placeholder otherwise.
pub fn oid_error_label(branch_name: &Option<String>) -> (r: String)
    ensures
        r@ == oid_label(*branch_name),
{
    match branch_name {
        Some(name) => name.clone(),
        None => "(unnamed??)".to_owned(),
    }
}

/// What probing a branch's upstream relationship found, as plain values:
/// everything the classification of one branch decides on.
pub enum UpstreamProbe {
    /// No upstream branch is configured or detected.
    NoUpstream,
    /// The branch's own tip could not be resolved to a commit.
    LocalTipUnresolved,
    /// The upstream's tip could not be resolved; holds the upstream's name.
    UpstreamTipUnresolved(Option<String>),
    /// Both tips resolved and the graph walk gave the two counts; holds the
    /// upstream's name, the ahead count and the behind count.
    Distances(Option<String>, usize, usize),
    /// Both tips resolved but the graph walk failed.
    GraphFailure(git2::Error),
}

/// The whole per-branch decision, over plain values: which record or error
/// each upstream situation yields. No upstream gives the record without
/// counts; an unresolved tip gives the `Oid` error naming the branch whose
/// tip it was (or the placeholder); counts give the tracked record with
/// both names; a failed graph walk passes its error through.
pub fn branch_record(branch_name: Option<String>, probe: UpstreamProbe) -> (r: Result<
    AheadBehind,
    AheadBehindIterError,
>)
    ensures
        match probe {
            UpstreamProbe::NoUpstream => r == Ok::<AheadBehind, AheadBehindIterError>(
                AheadBehind {
                    ahead: None,
                    behind: None,
                    branch_name,
                    upstream_name: None,
                },
            ),
            UpstreamProbe::LocalTipUnresolved => r matches Err(AheadBehindIterError::Oid(label))
                && label@ == oid_label(branch_name),
            UpstreamProbe::UpstreamTipUnresolved(upstream_name) => r matches Err(
                AheadBehindIterError::Oid(label),
            ) && label@ == oid_label(upstream_name),
            UpstreamProbe::Distances(upstream_name, ahead, behind) => r == Ok::<
                AheadBehind,
                AheadBehindIterError,
            >(AheadBehind { ahead: Some(ahead), behind: Some(behind), branch_name, upstream_name }),
            UpstreamProbe::GraphFailure(e) => r == Err::<AheadBehind, AheadBehindIterError>(
                AheadBehindIterError::CommitGraph(e),
            ),
        },
        r is Ok ==> r->Ok_0.wf(),
{
    match probe {
        UpstreamProbe::NoUpstream => Ok(no_upstream_record(branch_name)),
        UpstreamProbe::LocalTipUnresolved => Err(
            AheadBehindIterError::Oid(oid_error_label(&branch_name)),
        ),
        UpstreamProbe::UpstreamTipUnresolved(upstream_name) => Err(
            AheadBehindIterError::Oid(oid_error_label(&upstream_name)),
        ),
        UpstreamProbe::Distances(upstream_name, ahead, behind) => Ok(
            tracked_record(branch_name, upstream_name, ahead, behind),
        ),
        UpstreamProbe::GraphFailure(e) => Err(AheadBehindIterError::CommitGraph(e)),
    }
}

/// Walks the commit graph between two resolved branch tips and reports the
/// outcome: the two counts with the upstream's name, or the walk's
/// failure. A branch whose upstream points at the same commit has no
/// unique commits on either side, so identical tips give zero counts
/// whenever the walk succeeds.
pub fn distance_probe(
    repo: &git2::Repository,
    upstream_name: Option<String>,
    local_tip: git2::Oid,
    upstream_tip: git2::Oid,
) -> (p: UpstreamProbe)
    ensures
        match p {
            UpstreamProbe::Distances(name, ahead, behind) => name == upstream_name && (local_tip
                == upstream_tip ==> ahead == 0 && behind == 0),
            UpstreamProbe::GraphFailure(_) => true,
            _ => false,
        },
{
    match graph_distances(repo, local_tip, upstream_tip) {
        Ok((ahead, behind)) => UpstreamProbe::Distances(upstream_name, ahead, behind),
        Err(e) => UpstreamProbe::GraphFailure(e),
    }
}

/// Probes one local branch's upstream relationship: resolves the upstream,
/// the two tips and the graph distances, and reports which of the
/// situations of [`branch_record`] the repository is in. Every outcome
/// comes from the repository on disk, so nothing more is promised here;
/// what each outcome means is fixed by [`branch_record`]'s and
/// [`distance_probe`]'s contracts.
fn probe_upstream(repo: &git2::Repository, local: &git2::Branch) -> UpstreamProbe {
    let upstream = match branch_upstream(local) {
        None => {
            return UpstreamProbe::NoUpstream;
        },
        Some(upstream) => upstream,
    };
    let local_oid = match branch_target(local) {
        None => {
            return UpstreamProbe::LocalTipUnresolved;
        },
        Some(oid) => oid,
    };
    let upstream_name = branch_name_string(&upstream);
    let upstream_oid = match branch_target(&upstream) {
        None => {
            return UpstreamProbe::UpstreamTipUnresolved(upstream_name);
        },
        Some(oid) => oid,
    };
    distance_probe(repo, upstream_name, local_oid, upstream_oid)
}

/// Classifies one local branch: probes its upstream relationship and turns
/// the outcome into the record or error that [`branch_record`] fixes for
/// it. Every record returned is well-formed.
fn classify_branch(repo: &git2::Repository, local: &git2::Branch) -> (r: Result<
    AheadBehind,
    AheadBehindIterError,
>)
    ensures
        r is Ok ==> r->Ok_0.wf(),
{
    let branch_name = branch_name_string(local);
    let probe = probe_upstream(repo, local);
    branch_record(branch_name, probe)
}

/// Check how far each local branch is ahead of or behind its upstream.
/// Fetches from the named remote first, so the upstream information is
/// current; a repository without that remote is checked as it is. A failed
/// fetch fails the whole check, since counts against a stale remote would
/// mislead. Each branch yields its own `Result`, so a caller may stop at
/// the first bad branch or skip it and go on; every record that comes back
/// is well-formed.
pub fn check_ahead_behind(repo: &git2::Repository, remote: &str) -> (r: Result<
    Vec<Result<AheadBehind, AheadBehindIterError>>,
    AheadBehindError,
>)
    ensures
        r is Ok ==> forall|i: int|
            0 <= i < r->Ok_0@.len() && (#[trigger] r->Ok_0@[i]) is Ok ==> r->Ok_0@[i]->Ok_0.wf(),
{
    match remote_refresh(repo, remote) {
        Ok(_) => (),
        Err(e) => {
            return Err(AheadBehindError(e));
        },
    }
    let branches = local_branches(repo);
    let mut out: Vec<Result<AheadBehind, AheadBehindIterError>> = Vec::new();
    let mut i: usize = 0;
    while i < branches.len()
        invariant
            forall|k: int| 0 <= k < out@.len() && (#[trigger] out@[k]) is Ok ==> out@[k]->Ok_0.wf(),
        decreases branches@.len() - i,
    {
        out.push(classify_branch(repo, &branches[i]));
        i = i + 1;
    }
    Ok(out)
}

} // verus!
