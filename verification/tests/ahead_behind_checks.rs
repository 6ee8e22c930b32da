use git2::{BranchType, Oid, Repository, RepositoryInitOptions};
use kamino::{check_ahead_behind, AheadBehind, AheadBehindError};
use std::io::Write;
use std::path::Path;
use tempfile::TempDir;

fn repo_init() -> (TempDir, Repository) {
    let td = TempDir::new().unwrap();
    let mut opts = RepositoryInitOptions::new();
    opts.initial_head("main");
    let repo = Repository::init_opts(td.path(), &opts).unwrap();
    {
        let mut config = repo.config().unwrap();
        config.set_str("user.name", "name").unwrap();
        config.set_str("user.email", "email").unwrap();
        let mut index = repo.index().unwrap();
        let id = index.write_tree().unwrap();

        let tree = repo.find_tree(id).unwrap();
        let sig = repo.signature().unwrap();
        repo.commit(Some("HEAD"), &sig, &sig, "initial\n\nbody", &tree, &[])
            .unwrap();
    }
    (td, repo)
}

fn create_file(dir: &Path, filename: &str) {
    fs_err::File::create(dir.join(filename))
        .unwrap()
        .write_all(b"contents")
        .unwrap();
}

fn add_file_to_index(repo: &Repository, filename: &str) {
    let mut index = repo.index().unwrap();
    index.add_path(Path::new(filename)).unwrap();
}

fn commit_index_to_branch(repo: &Repository, branch_name: &str) -> (Oid, Oid) {
    let mut index = repo.index().unwrap();
    let mut branch_ref_name = String::from("refs/heads/");
    branch_ref_name.push_str(branch_name);

    let tree_id = index.write_tree().unwrap();
    let tree = repo.find_tree(tree_id).unwrap();
    let sig = repo.signature().unwrap();
    let oid = repo.refname_to_id(branch_ref_name.as_str()).unwrap();
    let parent = repo.find_commit(oid).unwrap();
    let commit = repo
        .commit(
            Some(branch_ref_name.as_str()),
            &sig,
            &sig,
            "commit",
            &tree,
            &[&parent],
        )
        .unwrap();
    (commit, tree_id)
}

fn create_branch_at_head(repo: &Repository, name: &str) {
    let head = repo.head().unwrap();
    let target = head.target().unwrap();
    let commit = repo.find_commit(target).unwrap();
    repo.branch(name, &commit, false).unwrap();
}

// Note: usually upstream wants to point to a remote, in which case you need to include the remote
// name in the upstream name e.g. "origin/mybranch"
fn set_branch_upstream(repo: &Repository, local_name: &str, upstream_name: Option<&str>) {
    repo.find_branch(local_name, BranchType::Local)
        .unwrap()
        .set_upstream(upstream_name)
        .unwrap();
}

fn collect_records(repo: &Repository) -> Vec<AheadBehind> {
    check_ahead_behind(repo, "origin")
        .unwrap()
        .into_iter()
        .collect::<Result<Vec<AheadBehind>, _>>()
        .unwrap()
}

#[test]
fn ahead_behind() {
    let (upstream_dir, upstream_repo) = repo_init();
    let (local_dir, local_repo) = repo_init();
    local_repo
        .remote("origin", upstream_dir.path().to_str().unwrap())
        .unwrap();

    // Create branches on local and upstream
    create_branch_at_head(&local_repo, "b1");
    create_branch_at_head(&local_repo, "b2");
    create_branch_at_head(&local_repo, "b3");
    create_branch_at_head(&upstream_repo, "b1");
    create_branch_at_head(&upstream_repo, "b2");
    create_branch_at_head(&upstream_repo, "b3");

    // Fetch the newly created branches from upstream. This is required in order to set
    // these as upstream tracking branches for the local ones.
    if let Ok(mut remote) = local_repo.find_remote("origin") {
        let refspecs: &[&str] = &[];
        remote
            .fetch(refspecs, None, None)
            .map_err(AheadBehindError)
            .unwrap();
    }

    // Connect local and upstream branches
    set_branch_upstream(&local_repo, "b1", Some("origin/b1"));
    set_branch_upstream(&local_repo, "b2", Some("origin/b2"));
    set_branch_upstream(&local_repo, "b3", Some("origin/b3"));

    // Make local b1 ahead of upstream
    create_file(local_dir.path(), "file1");
    add_file_to_index(&local_repo, "file1");
    commit_index_to_branch(&local_repo, "b1");

    // Make upstream b2 ahead of local
    create_file(upstream_dir.path(), "file2");
    add_file_to_index(&upstream_repo, "file2");
    commit_index_to_branch(&upstream_repo, "b2");

    // Make b3 ahead and behind
    create_file(local_dir.path(), "file3a");
    add_file_to_index(&local_repo, "file3a");
    commit_index_to_branch(&local_repo, "b3");

    create_file(upstream_dir.path(), "file3b");
    add_file_to_index(&upstream_repo, "file3b");
    commit_index_to_branch(&upstream_repo, "b3");

    let results: Vec<AheadBehind> = collect_records(&local_repo);
    assert_eq!(results.len(), 4);

    assert!(results.contains(&AheadBehind {
        ahead: None,
        behind: None,
        branch_name: Some("main".into()),
        upstream_name: None,
    }));
    assert!(results.contains(&AheadBehind {
        ahead: Some(1),
        behind: Some(0),
        branch_name: Some("b1".into()),
        upstream_name: Some("origin/b1".into()),
    }));
    assert!(results.contains(&AheadBehind {
        ahead: Some(0),
        behind: Some(1),
        branch_name: Some("b2".into()),
        upstream_name: Some("origin/b2".into()),
    }));
    assert!(results.contains(&AheadBehind {
        ahead: Some(1),
        behind: Some(1),
        branch_name: Some("b3".into()),
        upstream_name: Some("origin/b3".into()),
    }));
}

#[test]
fn ahead_behind_in_sync_branch() {
    let (upstream_dir, upstream_repo) = repo_init();
    let (_local_dir, local_repo) = repo_init();
    local_repo
        .remote("origin", upstream_dir.path().to_str().unwrap())
        .unwrap();

    create_branch_at_head(&local_repo, "b1");
    create_branch_at_head(&upstream_repo, "b1");

    if let Ok(mut remote) = local_repo.find_remote("origin") {
        let refspecs: &[&str] = &[];
        remote.fetch(refspecs, None, None).unwrap();
    }
    set_branch_upstream(&local_repo, "b1", Some("origin/b1"));

    let results = collect_records(&local_repo);
    assert!(results.contains(&AheadBehind {
        ahead: Some(0),
        behind: Some(0),
        branch_name: Some("b1".into()),
        upstream_name: Some("origin/b1".into()),
    }));
}

#[test]
fn ahead_behind_without_remote() {
    // A repository without the named remote skips the refresh and still
    // reports its branches.
    let (_dir, repo) = repo_init();
    let results = collect_records(&repo);
    assert_eq!(
        results,
        vec![AheadBehind {
            ahead: None,
            behind: None,
            branch_name: Some("main".into()),
            upstream_name: None,
        }]
    );
}

#[test]
fn ahead_behind_fetch_failure_is_an_error() {
    let (dir, repo) = repo_init();
    let missing = dir.path().join("no-such-remote");
    repo.remote("origin", missing.to_str().unwrap()).unwrap();
    assert!(check_ahead_behind(&repo, "origin").is_err());
}

#[test]
fn ahead_behind_twice_gives_same_answer() {
    let (_dir, repo) = repo_init();
    let first = collect_records(&repo);
    let second = collect_records(&repo);
    assert_eq!(first, second);
}

#[test]
fn ahead_behind_oid_error_for_symbolic_branch() {
    // A branch whose ref is symbolic has no direct commit id; once it has
    // an upstream, its record becomes an error naming the branch.
    let (_dir, repo) = repo_init();
    repo.reference_symbolic("refs/heads/sym", "refs/heads/main", false, "sym branch")
        .unwrap();
    let mut config = repo.config().unwrap();
    config.set_str("branch.sym.remote", ".").unwrap();
    config.set_str("branch.sym.merge", "refs/heads/main").unwrap();

    let results = check_ahead_behind(&repo, "origin").unwrap();
    assert!(results.iter().any(|r| matches!(
        r,
        Err(kamino::AheadBehindIterError::Oid(name)) if name == "sym"
    )));
}

#[test]
fn branch_record_no_upstream() {
    let r = kamino::branch_record(Some("main".into()), kamino::UpstreamProbe::NoUpstream).unwrap();
    assert_eq!(
        r,
        AheadBehind {
            ahead: None,
            behind: None,
            branch_name: Some("main".into()),
            upstream_name: None,
        }
    );
}

#[test]
fn branch_record_distances() {
    let r = kamino::branch_record(
        Some("b3".into()),
        kamino::UpstreamProbe::Distances(Some("origin/b3".into()), 1, 1),
    )
    .unwrap();
    assert_eq!(
        r,
        AheadBehind {
            ahead: Some(1),
            behind: Some(1),
            branch_name: Some("b3".into()),
            upstream_name: Some("origin/b3".into()),
        }
    );
}

#[test]
fn branch_record_unresolved_tips() {
    let r = kamino::branch_record(None, kamino::UpstreamProbe::LocalTipUnresolved);
    assert!(matches!(
        r,
        Err(kamino::AheadBehindIterError::Oid(label)) if label == "(unnamed??)"
    ));

    let r = kamino::branch_record(
        Some("b1".into()),
        kamino::UpstreamProbe::UpstreamTipUnresolved(Some("origin/b1".into())),
    );
    assert!(matches!(
        r,
        Err(kamino::AheadBehindIterError::Oid(label)) if label == "origin/b1"
    ));
}

#[test]
fn branch_record_graph_failure() {
    let r = kamino::branch_record(
        Some("b1".into()),
        kamino::UpstreamProbe::GraphFailure(git2::Error::from_str("walk failed")),
    );
    assert!(matches!(r, Err(kamino::AheadBehindIterError::CommitGraph(_))));
}

#[test]
fn distance_probe_identical_tips() {
    let (_dir, repo) = repo_init();
    let tip = repo.head().unwrap().target().unwrap();
    let probe = kamino::distance_probe(&repo, Some("origin/main".into()), tip, tip);
    assert!(matches!(
        probe,
        kamino::UpstreamProbe::Distances(Some(name), 0, 0) if name == "origin/main"
    ));
}
