//! Hook reconciliation: compares the hook scripts of an "active" directory
//! with those of an in-repo canonical directory and classifies every hook
//! name into one of four states.
//!
//! The caller lists the two directories and reads the shared files; this
//! module holds everything that is decidable from those plain values:
//! filtering out `.sample` templates, reconciling the two name sets, and
//! classifying shared names by content digest.

use vstd::prelude::*;
use crate::content::content_digest;
use crate::content::sha256_of;

verus! {

/// Classification of a single git hook name.
#[derive(Clone, Copy, Debug, Eq, PartialEq, Structural)]
pub enum HookState {
    /// Only in the active hook directory.
    ActiveOnly,
    /// Only in the in-repo hook directory.
    InRepoOnly,
    /// In both locations but file contents don't match.
    Mismatch,
    /// In both locations and file contents match.
    Good,
}

/// The name and state of a single git hook. The name is the filename as
/// raw bytes, the same in both hook directories.
#[derive(Clone, Debug, Eq, PartialEq)]
pub struct Hook {
    /// The filename of the git hook.
    pub name: Vec<u8>,
    /// The state of the git hook.
    pub state: HookState,
}

#[verifier::external_type_specification]
#[verifier::external_body]
/// An I/O error reported by the standard library.
pub struct ExIoError(std::io::Error);

/// Reading a hook file failed. A single unreadable hook file aborts the
/// whole reconciliation, since partial results would mislead about
/// repository health.
#[derive(Debug)]
pub struct HookError {
    /// The file the read failed on.
    pub filename: String,
    /// Underlying error.
    pub source: std::io::Error,
}

/// The bytes of the suffix `.sample`, which marks a disabled template hook.
pub open spec fn sample_suffix() -> Seq<u8> {
    seq![46u8, 115u8, 97u8, 109u8, 112u8, 108u8, 101u8]
}

/// A file name whose extension is exactly `sample`: it ends in `.sample`
/// and the dot of that suffix is not its first byte (a leading dot starts
/// a hidden file's name and opens no extension).
pub open spec fn is_sample_name(name: Seq<u8>) -> bool {
    name.len() >= 8 && name.subrange(name.len() - 7, name.len() as int) == sample_suffix()
}

/// Byte-for-byte equality of two byte vectors.
pub fn bytes_eq(a: &Vec<u8>, b: &Vec<u8>) -> (r: bool)
    ensures
        r == (a@ == b@),
{
    if a.len() != b.len() {
        return false;
    }
    let mut i: usize = 0;
    while i < a.len()
        invariant
            i <= a@.len(),
            a@.len() == b@.len(),
            forall|j: int| 0 <= j < i ==> a@[j] == b@[j],
        decreases a@.len() - i,
    {
        if a[i] != b[i] {
            return false;
        }
        i = i + 1;
    }
    proof {
        assert(a@ =~= b@);
    }
    true
}

/// Whether `list` holds an entry whose bytes are `name`.
pub fn contains_name(list: &Vec<Vec<u8>>, name: &Vec<u8>) -> (r: bool)
    ensures
        r == list.deep_view().contains(name@),
{
    let mut i: usize = 0;
    while i < list.len()
        invariant
            i <= list@.len(),
            forall|j: int| 0 <= j < i ==> list.deep_view()[j] != name@,
        decreases list@.len() - i,
    {
        assert(list.deep_view()[i as int] == list@[i as int]@);
        if bytes_eq(&list[i], name) {
            return true;
        }
        i = i + 1;
    }
    false
}

/// Whether a file name carries the `sample` extension and is therefore
/// excluded from hook reconciliation.
pub fn is_sample_file(name: &Vec<u8>) -> (r: bool)
    ensures
        r == is_sample_name(name@),
{
    let n = name.len();
    if n < 8 {
        return false;
    }
    let r = name[n - 7] == 46 && name[n - 6] == 115 && name[n - 5] == 97 && name[n - 4] == 109
        && name[n - 3] == 112 && name[n - 2] == 108 && name[n - 1] == 101;
    proof {
        if r {
            assert(name@.subrange(n - 7, n as int) =~= sample_suffix());
        } else {
            assert(name@.subrange(n - 7, n as int) != sample_suffix()) by {
                if name@.subrange(n - 7, n as int) == sample_suffix() {
                    assert(forall|j: int|
                        0 <= j < 7 ==> name@.subrange(n - 7, n as int)[j] == sample_suffix()[j]);
                }
            }
        }
    }
    r
}

broadcast use vstd::seq_lib::lemma_seq_contains_after_push;

/// Pushing a fresh element onto a duplicate-free sequence keeps it
/// duplicate-free.
proof fn lemma_push_no_duplicates<A>(s: Seq<A>, x: A)
    requires
        s.no_duplicates(),
        !s.contains(x),
    ensures
        s.push(x).no_duplicates(),
{
    assert forall|i: int, j: int|
        0 <= i < s.push(x).len() && 0 <= j < s.push(x).len() && i != j implies s.push(x)[i]
        != s.push(x)[j] by {
        if i < s.len() && j < s.len() {
        } else if j == s.len() && i < s.len() {
            assert(s.contains(s[i]));
        } else if i == s.len() && j < s.len() {
            assert(s.contains(s[j]));
        }
    }
}

/// A hook name that takes part in reconciliation and is present in both
/// directory listings.
pub open spec fn hook_in_both(active: Seq<Seq<u8>>, in_repo: Seq<Seq<u8>>, n: Seq<u8>) -> bool {
    !is_sample_name(n) && active.contains(n) && in_repo.contains(n)
}

/// A hook name that takes part in reconciliation and is present only in the
/// active directory listing.
pub open spec fn hook_active_only(active: Seq<Seq<u8>>, in_repo: Seq<Seq<u8>>, n: Seq<u8>) -> bool {
    !is_sample_name(n) && active.contains(n) && !in_repo.contains(n)
}

/// A hook name that takes part in reconciliation and is present only in the
/// in-repo directory listing.
pub open spec fn hook_in_repo_only(
    active: Seq<Seq<u8>>,
    in_repo: Seq<Seq<u8>>,
    n: Seq<u8>,
) -> bool {
    !is_sample_name(n) && !active.contains(n) && in_repo.contains(n)
}

/// The names found by reconciling two directory listings, split three ways
/// by presence. Built by [`hook_plan`]; the caller then reads the files
/// named by `in_both` and hands their contents to [`classify_hooks`].
pub struct HookPlan {
    /// Names present in both directories, each exactly once.
    pub in_both: Vec<Vec<u8>>,
    /// Names present only in the active directory, each exactly once.
    pub active_only: Vec<Vec<u8>>,
    /// Names present only in the in-repo directory, each exactly once.
    pub in_repo_only: Vec<Vec<u8>>,
}

/// What [`hook_plan`] promises of its result: each part lists, without
/// duplicates, exactly the non-template names with the matching presence.
/// The order within each part is not pinned down.
pub open spec fn plan_matches(p: HookPlan, active: Seq<Seq<u8>>, in_repo: Seq<Seq<u8>>) -> bool {
    &&& p.in_both.deep_view().no_duplicates()
    &&& p.active_only.deep_view().no_duplicates()
    &&& p.in_repo_only.deep_view().no_duplicates()
    &&& forall|n: Seq<u8>|
        #![trigger p.in_both.deep_view().contains(n)]
        #![trigger hook_in_both(active, in_repo, n)]
        p.in_both.deep_view().contains(n) <==> hook_in_both(active, in_repo, n)
    &&& forall|n: Seq<u8>|
        #![trigger p.active_only.deep_view().contains(n)]
        #![trigger hook_active_only(active, in_repo, n)]
        p.active_only.deep_view().contains(n) <==> hook_active_only(active, in_repo, n)
    &&& forall|n: Seq<u8>|
        #![trigger p.in_repo_only.deep_view().contains(n)]
        #![trigger hook_in_repo_only(active, in_repo, n)]
        p.in_repo_only.deep_view().contains(n) <==> hook_in_repo_only(active, in_repo, n)
}

/// Reconciles the raw file listings of the two hook directories: drops
/// `.sample` templates and splits the remaining names by presence.
pub fn hook_plan(active: &Vec<Vec<u8>>, in_repo: &Vec<Vec<u8>>) -> (p: HookPlan)
    ensures
        plan_matches(p, active.deep_view(), in_repo.deep_view()),
{
    let mut in_both: Vec<Vec<u8>> = Vec::new();
    let mut active_only: Vec<Vec<u8>> = Vec::new();
    let mut in_repo_only: Vec<Vec<u8>> = Vec::new();

    let mut i: usize = 0;
    while i < active.len()
        invariant
            i <= active@.len(),
            in_both.deep_view().no_duplicates(),
            active_only.deep_view().no_duplicates(),
            forall|n: Seq<u8>|
                in_both.deep_view().contains(n) <==> hook_in_both(
                    active.deep_view().take(i as int),
                    in_repo.deep_view(),
                    n,
                ),
            forall|n: Seq<u8>|
                active_only.deep_view().contains(n) <==> hook_active_only(
                    active.deep_view().take(i as int),
                    in_repo.deep_view(),
                    n,
                ),
        decreases active@.len() - i,
    {
        let name = &active[i];
        assert(active.deep_view()[i as int] == name@);
        if !is_sample_file(name) {
            if contains_name(in_repo, name) {
                if !contains_name(&in_both, name) {
                    let ghost prev = in_both.deep_view();
                    in_both.push(name.clone());
                    proof {
                        assert(in_both.deep_view() =~= prev.push(name@));
                        lemma_push_no_duplicates(prev, name@);
                    }
                }
            } else {
                if !contains_name(&active_only, name) {
                    let ghost prev = active_only.deep_view();
                    active_only.push(name.clone());
                    proof {
                        assert(active_only.deep_view() =~= prev.push(name@));
                        lemma_push_no_duplicates(prev, name@);
                    }
                }
            }
        }
        proof {
            assert(active.deep_view().take(i + 1) =~= active.deep_view().take(i as int).push(
                name@,
            ));
        }
        i = i + 1;
    }
    proof {
        assert(active.deep_view().take(active@.len() as int) =~= active.deep_view());
    }

    let mut j: usize = 0;
    while j < in_repo.len()
        invariant
            j <= in_repo@.len(),
            in_both.deep_view().no_duplicates(),
            active_only.deep_view().no_duplicates(),
            in_repo_only.deep_view().no_duplicates(),
            forall|n: Seq<u8>|
                in_both.deep_view().contains(n) <==> hook_in_both(
                    active.deep_view(),
                    in_repo.deep_view(),
                    n,
                ),
            forall|n: Seq<u8>|
                active_only.deep_view().contains(n) <==> hook_active_only(
                    active.deep_view(),
                    in_repo.deep_view(),
                    n,
                ),
            forall|n: Seq<u8>|
                in_repo_only.deep_view().contains(n) <==> hook_in_repo_only(
                    active.deep_view(),
                    in_repo.deep_view().take(j as int),
                    n,
                ),
        decreases in_repo@.len() - j,
    {
        let name = &in_repo[j];
        assert(in_repo.deep_view()[j as int] == name@);
        if !is_sample_file(name) && !contains_name(active, name) {
            if !contains_name(&in_repo_only, name) {
                let ghost prev = in_repo_only.deep_view();
                in_repo_only.push(name.clone());
                proof {
                    assert(in_repo_only.deep_view() =~= prev.push(name@));
                    lemma_push_no_duplicates(prev, name@);
                }
            }
        }
        proof {
            assert(in_repo.deep_view().take(j + 1) =~= in_repo.deep_view().take(j as int).push(
                name@,
            ));
        }
        j = j + 1;
    }
    proof {
        assert(in_repo.deep_view().take(in_repo@.len() as int) =~= in_repo.deep_view());
    }

    HookPlan { in_both, active_only, in_repo_only }
}

/// The state a hook shared by both directories gets: `Good` when the
/// content digests of the two copies agree, `Mismatch` otherwise.
pub open spec fn pair_state(active_bytes: Seq<u8>, in_repo_bytes: Seq<u8>) -> HookState {
    if sha256_of(active_bytes) == sha256_of(in_repo_bytes) {
        HookState::Good
    } else {
        HookState::Mismatch
    }
}

/// Classifies one hook present in both directories by comparing the
/// content digests of its two copies.
pub fn classify_hook_pair(active_bytes: &Vec<u8>, in_repo_bytes: &Vec<u8>) -> (s: HookState)
    ensures
        s == pair_state(active_bytes@, in_repo_bytes@),
{
    let active_digest = content_digest(active_bytes);
    let in_repo_digest = content_digest(in_repo_bytes);
    if bytes_eq(&active_digest, &in_repo_digest) {
        HookState::Good
    } else {
        HookState::Mismatch
    }
}

/// What [`classify_hooks`] promises of its result, record by record: first
/// the shared names with their digest comparison, then the names seen only
/// in the active directory, then those seen only in the in-repo directory.
pub open spec fn hooks_match(
    r: Seq<Hook>,
    p: HookPlan,
    active_contents: Seq<Seq<u8>>,
    in_repo_contents: Seq<Seq<u8>>,
) -> bool {
    let nb = p.in_both.deep_view().len() as int;
    let na = p.active_only.deep_view().len() as int;
    let nr = p.in_repo_only.deep_view().len() as int;
    &&& r.len() == nb + na + nr
    &&& forall|i: int|
        0 <= i < nb ==> (#[trigger] r[i]).name@ == p.in_both.deep_view()[i] && r[i].state
            == pair_state(active_contents[i], in_repo_contents[i])
    &&& forall|i: int|
        nb <= i < nb + na ==> (#[trigger] r[i]).name@ == p.active_only.deep_view()[i - nb]
            && r[i].state == HookState::ActiveOnly
    &&& forall|i: int|
        nb + na <= i < nb + na + nr ==> (#[trigger] r[i]).name@ == p.in_repo_only.deep_view()[i
            - nb - na] && r[i].state == HookState::InRepoOnly
}

/// Turns a reconciliation plan into one record per hook name. For each
/// shared name the caller supplies the bytes of the two copies, in the
/// order of `plan.in_both`.
pub fn classify_hooks(
    plan: &HookPlan,
    active_contents: &Vec<Vec<u8>>,
    in_repo_contents: &Vec<Vec<u8>>,
) -> (r: Vec<Hook>)
    requires
        active_contents@.len() == plan.in_both@.len(),
        in_repo_contents@.len() == plan.in_both@.len(),
    ensures
        hooks_match(r@, *plan, active_contents.deep_view(), in_repo_contents.deep_view()),
{
    let mut r: Vec<Hook> = Vec::new();
    let nb = plan.in_both.len();
    let na = plan.active_only.len();

    let mut i: usize = 0;
    while i < nb
        invariant
            nb == plan.in_both@.len(),
            active_contents@.len() == nb,
            in_repo_contents@.len() == nb,
            i <= nb,
            r@.len() == i,
            forall|k: int|
                0 <= k < i ==> (#[trigger] r@[k]).name@ == plan.in_both.deep_view()[k] && r@[k].state
                    == pair_state(
                    active_contents.deep_view()[k],
                    in_repo_contents.deep_view()[k],
                ),
        decreases nb - i,
    {
        let state = classify_hook_pair(&active_contents[i], &in_repo_contents[i]);
        let name = plan.in_both[i].clone();
        proof {
            assert(name@ =~= plan.in_both@[i as int]@);
            assert(plan.in_both.deep_view()[i as int] == plan.in_both@[i as int]@);
            assert(active_contents.deep_view()[i as int] == active_contents@[i as int]@);
            assert(in_repo_contents.deep_view()[i as int] == in_repo_contents@[i as int]@);
        }
        r.push(Hook { name, state });
        i = i + 1;
    }

    let mut j: usize = 0;
    while j < na
        invariant
            nb == plan.in_both@.len(),
            na == plan.active_only@.len(),
            active_contents@.len() == nb,
            in_repo_contents@.len() == nb,
            j <= na,
            r@.len() == nb + j,
            forall|k: int|
                0 <= k < nb ==> (#[trigger] r@[k]).name@ == plan.in_both.deep_view()[k] && r@[k].state
                    == pair_state(
                    active_contents.deep_view()[k],
                    in_repo_contents.deep_view()[k],
                ),
            forall|k: int|
                nb <= k < nb + j ==> (#[trigger] r@[k]).name@ == plan.active_only.deep_view()[k
                    - nb] && r@[k].state == HookState::ActiveOnly,
        decreases na - j,
    {
        let name = plan.active_only[j].clone();
        proof {
            assert(name@ =~= plan.active_only@[j as int]@);
            assert(plan.active_only.deep_view()[j as int] == plan.active_only@[j as int]@);
        }
        r.push(Hook { name, state: HookState::ActiveOnly });
        j = j + 1;
    }

    let nr = plan.in_repo_only.len();
    let mut k: usize = 0;
    while k < nr
        invariant
            nb == plan.in_both@.len(),
            na == plan.active_only@.len(),
            nr == plan.in_repo_only@.len(),
            active_contents@.len() == nb,
            in_repo_contents@.len() == nb,
            k <= nr,
            r@.len() == nb + na + k,
            forall|m: int|
                0 <= m < nb ==> (#[trigger] r@[m]).name@ == plan.in_both.deep_view()[m] && r@[m].state
                    == pair_state(
                    active_contents.deep_view()[m],
                    in_repo_contents.deep_view()[m],
                ),
            forall|m: int|
                nb <= m < nb + na ==> (#[trigger] r@[m]).name@ == plan.active_only.deep_view()[m
                    - nb] && r@[m].state == HookState::ActiveOnly,
            forall|m: int|
                nb + na <= m < nb + na + k ==> (#[trigger] r@[m]).name@
                    == plan.in_repo_only.deep_view()[m - nb - na] && r@[m].state
                    == HookState::InRepoOnly,
        decreases nr - k,
    {
        let name = plan.in_repo_only[k].clone();
        proof {
            assert(name@ =~= plan.in_repo_only@[k as int]@);
            assert(plan.in_repo_only.deep_view()[k as int] == plan.in_repo_only@[k as int]@);
        }
        r.push(Hook { name, state: HookState::InRepoOnly });
        k = k + 1;
    }

    r
}

/// Whether the records in `r` report hook `n` with state `s`.
pub open spec fn hook_reported(r: Seq<Hook>, n: Seq<u8>, s: HookState) -> bool {
    exists|i: int| 0 <= i < r.len() && (#[trigger] r[i]).name@ == n && r[i].state == s
}

/// Reconciling two empty (or missing, hence empty) directory listings
/// yields no hook records at all.
pub proof fn lemma_empty_listings_yield_no_hooks(
    p: HookPlan,
    active: Seq<Seq<u8>>,
    in_repo: Seq<Seq<u8>>,
    r: Seq<Hook>,
    active_contents: Seq<Seq<u8>>,
    in_repo_contents: Seq<Seq<u8>>,
)
    requires
        active.len() == 0,
        in_repo.len() == 0,
        plan_matches(p, active, in_repo),
        hooks_match(r, p, active_contents, in_repo_contents),
    ensures
        r.len() == 0,
{
    if p.in_both.deep_view().len() > 0 {
        assert(p.in_both.deep_view().contains(p.in_both.deep_view()[0]));
    }
    if p.active_only.deep_view().len() > 0 {
        assert(p.active_only.deep_view().contains(p.active_only.deep_view()[0]));
    }
    if p.in_repo_only.deep_view().len() > 0 {
        assert(p.in_repo_only.deep_view().contains(p.in_repo_only.deep_view()[0]));
    }
}

/// A hook name seen only in the active directory is reported as
/// `ActiveOnly`.
pub proof fn lemma_active_only_reported(
    p: HookPlan,
    active: Seq<Seq<u8>>,
    in_repo: Seq<Seq<u8>>,
    r: Seq<Hook>,
    active_contents: Seq<Seq<u8>>,
    in_repo_contents: Seq<Seq<u8>>,
    n: Seq<u8>,
)
    requires
        plan_matches(p, active, in_repo),
        hooks_match(r, p, active_contents, in_repo_contents),
        hook_active_only(active, in_repo, n),
    ensures
        hook_reported(r, n, HookState::ActiveOnly),
{
    let dv = p.active_only.deep_view();
    assert(dv.contains(n));
    let i = choose|i: int| 0 <= i < dv.len() && dv[i] == n;
    let nb = p.in_both.deep_view().len() as int;
    assert(r[nb + i].name@ == n && r[nb + i].state == HookState::ActiveOnly);
}

/// A hook name seen only in the in-repo directory is reported as
/// `InRepoOnly`.
pub proof fn lemma_in_repo_only_reported(
    p: HookPlan,
    active: Seq<Seq<u8>>,
    in_repo: Seq<Seq<u8>>,
    r: Seq<Hook>,
    active_contents: Seq<Seq<u8>>,
    in_repo_contents: Seq<Seq<u8>>,
    n: Seq<u8>,
)
    requires
        plan_matches(p, active, in_repo),
        hooks_match(r, p, active_contents, in_repo_contents),
        hook_in_repo_only(active, in_repo, n),
    ensures
        hook_reported(r, n, HookState::InRepoOnly),
{
    let dv = p.in_repo_only.deep_view();
    assert(dv.contains(n));
    let i = choose|i: int| 0 <= i < dv.len() && dv[i] == n;
    let nb = p.in_both.deep_view().len() as int;
    let na = p.active_only.deep_view().len() as int;
    assert(r[nb + na + i].name@ == n && r[nb + na + i].state == HookState::InRepoOnly);
}

/// A hook name seen in both directories is reported with the state its
/// content digests give: `Good` exactly when the digests agree.
pub proof fn lemma_shared_hook_reported(
    p: HookPlan,
    active: Seq<Seq<u8>>,
    in_repo: Seq<Seq<u8>>,
    r: Seq<Hook>,
    active_contents: Seq<Seq<u8>>,
    in_repo_contents: Seq<Seq<u8>>,
    n: Seq<u8>,
)
    requires
        plan_matches(p, active, in_repo),
        hooks_match(r, p, active_contents, in_repo_contents),
        hook_in_both(active, in_repo, n),
    ensures
        exists|i: int|
            0 <= i < p.in_both.deep_view().len() && p.in_both.deep_view()[i] == n && (
            #[trigger] r[i]).name@ == n && r[i].state == pair_state(
                active_contents[i],
                in_repo_contents[i],
            ),
{
    let dv = p.in_both.deep_view();
    assert(dv.contains(n));
    let i = choose|i: int| 0 <= i < dv.len() && dv[i] == n;
    assert(r[i].name@ == n && r[i].state == pair_state(active_contents[i], in_repo_contents[i]));
}

/// Identical bytes have identical digests, so a hook whose two copies hold
/// the same bytes is classified `Good`.
pub proof fn lemma_equal_contents_good(active_bytes: Seq<u8>, in_repo_bytes: Seq<u8>)
    requires
        active_bytes == in_repo_bytes,
    ensures
        pair_state(active_bytes, in_repo_bytes) == HookState::Good,
{
}

/// A `.sample` template never appears among the hook records.
pub proof fn lemma_sample_never_reported(
    p: HookPlan,
    active: Seq<Seq<u8>>,
    in_repo: Seq<Seq<u8>>,
    r: Seq<Hook>,
    active_contents: Seq<Seq<u8>>,
    in_repo_contents: Seq<Seq<u8>>,
    n: Seq<u8>,
)
    requires
        plan_matches(p, active, in_repo),
        hooks_match(r, p, active_contents, in_repo_contents),
        is_sample_name(n),
    ensures
        forall|i: int| 0 <= i < r.len() ==> (#[trigger] r[i]).name@ != n,
{
    let nb = p.in_both.deep_view().len() as int;
    let na = p.active_only.deep_view().len() as int;
    assert forall|i: int| 0 <= i < r.len() implies (#[trigger] r[i]).name@ != n by {
        if i < nb {
            assert(p.in_both.deep_view().contains(p.in_both.deep_view()[i]));
        } else if i < nb + na {
            assert(p.active_only.deep_view().contains(p.active_only.deep_view()[i - nb]));
        } else {
            assert(p.in_repo_only.deep_view().contains(p.in_repo_only.deep_view()[i - nb - na]));
        }
    }
}

/// Each hook name gets exactly one record: no two records share a name.
pub proof fn lemma_hook_names_unique(
    p: HookPlan,
    active: Seq<Seq<u8>>,
    in_repo: Seq<Seq<u8>>,
    r: Seq<Hook>,
    active_contents: Seq<Seq<u8>>,
    in_repo_contents: Seq<Seq<u8>>,
)
    requires
        plan_matches(p, active, in_repo),
        hooks_match(r, p, active_contents, in_repo_contents),
    ensures
        forall|i: int, j: int|
            0 <= i < j < r.len() ==> (#[trigger] r[i]).name@ != (#[trigger] r[j]).name@,
{
    let bdv = p.in_both.deep_view();
    let adv = p.active_only.deep_view();
    let rdv = p.in_repo_only.deep_view();
    let nb = bdv.len() as int;
    let na = adv.len() as int;
    assert forall|i: int, j: int| 0 <= i < j < r.len() implies (#[trigger] r[i]).name@ != (
    #[trigger] r[j]).name@ by {
        if i < nb {
            assert(bdv.contains(bdv[i]));
        } else if i < nb + na {
            assert(adv.contains(adv[i - nb]));
        } else {
            assert(rdv.contains(rdv[i - nb - na]));
        }
        if j < nb {
            assert(bdv.contains(bdv[j]));
        } else if j < nb + na {
            assert(adv.contains(adv[j - nb]));
        } else {
            assert(rdv.contains(rdv[j - nb - na]));
        }
    }
}

/// Reconciling the same two listings twice finds the same hook names: the
/// parts of any two plans for the same listings hold exactly the same
/// names, whatever their order.
pub proof fn lemma_plan_names_determined(
    p1: HookPlan,
    p2: HookPlan,
    active: Seq<Seq<u8>>,
    in_repo: Seq<Seq<u8>>,
)
    requires
        plan_matches(p1, active, in_repo),
        plan_matches(p2, active, in_repo),
    ensures
        forall|n: Seq<u8>|
            p1.in_both.deep_view().contains(n) <==> p2.in_both.deep_view().contains(n),
        forall|n: Seq<u8>|
            p1.active_only.deep_view().contains(n) <==> p2.active_only.deep_view().contains(n),
        forall|n: Seq<u8>|
            p1.in_repo_only.deep_view().contains(n) <==> p2.in_repo_only.deep_view().contains(n),
{
}

/// Classifying the same plan with the same file contents twice yields
/// identical records.
pub proof fn lemma_classification_deterministic(
    p: HookPlan,
    r1: Seq<Hook>,
    r2: Seq<Hook>,
    active_contents: Seq<Seq<u8>>,
    in_repo_contents: Seq<Seq<u8>>,
)
    requires
        hooks_match(r1, p, active_contents, in_repo_contents),
        hooks_match(r2, p, active_contents, in_repo_contents),
    ensures
        r1.len() == r2.len(),
        forall|i: int|
            0 <= i < r1.len() ==> (#[trigger] r1[i]).name@ == (#[trigger] r2[i]).name@ && r1[i].state
                == r2[i].state,
{
}

/// The converse of the reporting lemmas: every record's state tells the
/// truth about where its name was seen. A `Good` or `Mismatch` record names
/// a hook present in both directories, an `ActiveOnly` record one present
/// only in the active directory, an `InRepoOnly` record one present only in
/// the in-repo directory.
pub proof fn lemma_reported_hook_is_real(
    p: HookPlan,
    active: Seq<Seq<u8>>,
    in_repo: Seq<Seq<u8>>,
    r: Seq<Hook>,
    active_contents: Seq<Seq<u8>>,
    in_repo_contents: Seq<Seq<u8>>,
)
    requires
        plan_matches(p, active, in_repo),
        hooks_match(r, p, active_contents, in_repo_contents),
    ensures
        forall|i: int|
            0 <= i < r.len() ==> match (#[trigger] r[i]).state {
                HookState::ActiveOnly => hook_active_only(active, in_repo, r[i].name@),
                HookState::InRepoOnly => hook_in_repo_only(active, in_repo, r[i].name@),
                HookState::Good | HookState::Mismatch => hook_in_both(active, in_repo, r[i].name@),
            },
{
    let nb = p.in_both.deep_view().len() as int;
    let na = p.active_only.deep_view().len() as int;
    assert forall|i: int| 0 <= i < r.len() implies match (#[trigger] r[i]).state {
        HookState::ActiveOnly => hook_active_only(active, in_repo, r[i].name@),
        HookState::InRepoOnly => hook_in_repo_only(active, in_repo, r[i].name@),
        HookState::Good | HookState::Mismatch => hook_in_both(active, in_repo, r[i].name@),
    } by {
        if i < nb {
            assert(p.in_both.deep_view().contains(p.in_both.deep_view()[i]));
        } else if i < nb + na {
            assert(p.active_only.deep_view().contains(p.active_only.deep_view()[i - nb]));
        } else {
            assert(p.in_repo_only.deep_view().contains(p.in_repo_only.deep_view()[i - nb - na]));
        }
    }
}

} // verus!

verus! {

/// Two classification runs saw the same bytes for every shared name: where
/// the two plans list the same name, the corresponding content pairs agree.
pub open spec fn contents_agree(
    p1: HookPlan,
    p2: HookPlan,
    active_contents1: Seq<Seq<u8>>,
    in_repo_contents1: Seq<Seq<u8>>,
    active_contents2: Seq<Seq<u8>>,
    in_repo_contents2: Seq<Seq<u8>>,
) -> bool {
    forall|i: int, j: int|
        #![trigger p1.in_both.deep_view()[i], p2.in_both.deep_view()[j]]
        0 <= i < p1.in_both.deep_view().len() && 0 <= j < p2.in_both.deep_view().len()
            && p1.in_both.deep_view()[i] == p2.in_both.deep_view()[j] ==> active_contents1[i]
            == active_contents2[j] && in_repo_contents1[i] == in_repo_contents2[j]
}

/// One direction of the cross-run law: a hook reported by the first run is
/// reported, with the same state, by the second.
proof fn lemma_reported_in_other_run(
    p1: HookPlan,
    p2: HookPlan,
    active: Seq<Seq<u8>>,
    in_repo: Seq<Seq<u8>>,
    r1: Seq<Hook>,
    r2: Seq<Hook>,
    active_contents1: Seq<Seq<u8>>,
    in_repo_contents1: Seq<Seq<u8>>,
    active_contents2: Seq<Seq<u8>>,
    in_repo_contents2: Seq<Seq<u8>>,
    n: Seq<u8>,
    s: HookState,
)
    requires
        plan_matches(p1, active, in_repo),
        plan_matches(p2, active, in_repo),
        hooks_match(r1, p1, active_contents1, in_repo_contents1),
        hooks_match(r2, p2, active_contents2, in_repo_contents2),
        contents_agree(
            p1,
            p2,
            active_contents1,
            in_repo_contents1,
            active_contents2,
            in_repo_contents2,
        ),
        hook_reported(r1, n, s),
    ensures
        hook_reported(r2, n, s),
{
    let bdv1 = p1.in_both.deep_view();
    let adv1 = p1.active_only.deep_view();
    let rdv1 = p1.in_repo_only.deep_view();
    let nb1 = bdv1.len() as int;
    let na1 = adv1.len() as int;
    let bdv2 = p2.in_both.deep_view();
    let adv2 = p2.active_only.deep_view();
    let rdv2 = p2.in_repo_only.deep_view();
    let nb2 = bdv2.len() as int;
    let na2 = adv2.len() as int;
    let i = choose|i: int| 0 <= i < r1.len() && (#[trigger] r1[i]).name@ == n && r1[i].state == s;
    if i < nb1 {
        assert(bdv1.contains(bdv1[i]));
        assert(bdv2.contains(n));
        let j = choose|j: int| 0 <= j < bdv2.len() && bdv2[j] == n;
        assert(bdv1[i] == bdv2[j]);
        assert(r2[j].name@ == n && r2[j].state == s);
    } else if i < nb1 + na1 {
        assert(adv1.contains(adv1[i - nb1]));
        assert(adv2.contains(n));
        let j = choose|j: int| 0 <= j < adv2.len() && adv2[j] == n;
        assert(r2[nb2 + j].name@ == n && r2[nb2 + j].state == s);
    } else {
        assert(rdv1.contains(rdv1[i - nb1 - na1]));
        assert(rdv2.contains(n));
        let j = choose|j: int| 0 <= j < rdv2.len() && rdv2[j] == n;
        assert(r2[nb2 + na2 + j].name@ == n && r2[nb2 + na2 + j].state == s);
    }
}

/// Re-running the whole reconciliation with nothing changed on disk — the
/// same two listings, and the same bytes behind every shared name — reports
/// exactly the same hooks with exactly the same states. Together with
/// [`lemma_hook_names_unique`] this pins both runs' records down to their
/// order, which is deliberately left open.
pub proof fn lemma_runs_report_alike(
    p1: HookPlan,
    p2: HookPlan,
    active: Seq<Seq<u8>>,
    in_repo: Seq<Seq<u8>>,
    r1: Seq<Hook>,
    r2: Seq<Hook>,
    active_contents1: Seq<Seq<u8>>,
    in_repo_contents1: Seq<Seq<u8>>,
    active_contents2: Seq<Seq<u8>>,
    in_repo_contents2: Seq<Seq<u8>>,
)
    requires
        plan_matches(p1, active, in_repo),
        plan_matches(p2, active, in_repo),
        hooks_match(r1, p1, active_contents1, in_repo_contents1),
        hooks_match(r2, p2, active_contents2, in_repo_contents2),
        contents_agree(
            p1,
            p2,
            active_contents1,
            in_repo_contents1,
            active_contents2,
            in_repo_contents2,
        ),
    ensures
        forall|n: Seq<u8>, s: HookState|
            hook_reported(r1, n, s) <==> hook_reported(r2, n, s),
{
    assert forall|i: int, j: int|
        #![trigger p2.in_both.deep_view()[i], p1.in_both.deep_view()[j]]
        0 <= i < p2.in_both.deep_view().len() && 0 <= j < p1.in_both.deep_view().len()
            && p2.in_both.deep_view()[i] == p1.in_both.deep_view()[j] implies active_contents2[i]
        == active_contents1[j] && in_repo_contents2[i] == in_repo_contents1[j] by {
        assert(p1.in_both.deep_view()[j] == p2.in_both.deep_view()[i]);
    }
    assert forall|n: Seq<u8>, s: HookState|
        hook_reported(r1, n, s) <==> hook_reported(r2, n, s) by {
        if hook_reported(r1, n, s) {
            lemma_reported_in_other_run(
                p1,
                p2,
                active,
                in_repo,
                r1,
                r2,
                active_contents1,
                in_repo_contents1,
                active_contents2,
                in_repo_contents2,
                n,
                s,
            );
        }
        if hook_reported(r2, n, s) {
            lemma_reported_in_other_run(
                p2,
                p1,
                active,
                in_repo,
                r2,
                r1,
                active_contents2,
                in_repo_contents2,
                active_contents1,
                in_repo_contents1,
                n,
                s,
            );
        }
    }
}

} // verus!
