use kamino::{
    classify_hook_pair, classify_hooks, content_digest, hook_plan, is_sample_file, Hook, HookState,
};

fn names(list: &[&str]) -> Vec<Vec<u8>> {
    list.iter().map(|s| s.as_bytes().to_vec()).collect()
}

fn bytes(s: &str) -> Vec<u8> {
    s.as_bytes().to_vec()
}

fn hex(s: &str) -> Vec<u8> {
    (0..s.len())
        .step_by(2)
        .map(|i| u8::from_str_radix(&s[i..i + 2], 16).unwrap())
        .collect()
}

#[test]
fn hooks_empty_directories_yield_nothing() {
    let plan = hook_plan(&names(&[]), &names(&[]));
    assert!(plan.in_both.is_empty());
    assert!(plan.active_only.is_empty());
    assert!(plan.in_repo_only.is_empty());
    let results = classify_hooks(&plan, &Vec::new(), &Vec::new());
    assert!(results.is_empty());
}

#[test]
fn hooks_active_only() {
    // Only in the active hook directory; the template is ignored.
    let plan = hook_plan(&names(&["hook.sample", "hook1"]), &names(&[]));
    assert_eq!(plan.in_both, names(&[]));
    assert_eq!(plan.active_only, names(&["hook1"]));
    assert_eq!(plan.in_repo_only, names(&[]));
    let results = classify_hooks(&plan, &Vec::new(), &Vec::new());
    assert_eq!(
        results,
        vec![Hook {
            name: bytes("hook1"),
            state: HookState::ActiveOnly,
        }]
    );
}

#[test]
fn hooks_in_repo_only() {
    // Only in the in-repo hook directory.
    let plan = hook_plan(&names(&[]), &names(&["hook.sample", "hook1"]));
    let results = classify_hooks(&plan, &Vec::new(), &Vec::new());
    assert_eq!(
        results,
        vec![Hook {
            name: bytes("hook1"),
            state: HookState::InRepoOnly,
        }]
    );
}

#[test]
fn hooks_mismatch() {
    // In both locations but file contents don't match.
    let plan = hook_plan(
        &names(&["hook.sample", "hook1"]),
        &names(&["hook.sample", "hook1"]),
    );
    assert_eq!(plan.in_both, names(&["hook1"]));
    let results = classify_hooks(&plan, &vec![bytes("b")], &vec![bytes("d")]);
    assert_eq!(
        results,
        vec![Hook {
            name: bytes("hook1"),
            state: HookState::Mismatch,
        }]
    );
}

#[test]
fn hooks_good() {
    // In both locations and file contents match.
    let plan = hook_plan(
        &names(&["hook.sample", "hook1"]),
        &names(&["hook.sample", "hook1"]),
    );
    let results = classify_hooks(&plan, &vec![bytes("contents")], &vec![bytes("contents")]);
    assert_eq!(
        results,
        vec![Hook {
            name: bytes("hook1"),
            state: HookState::Good,
        }]
    );
}

#[test]
fn hooks_duplicate_listings_yield_one_record_per_name() {
    let plan = hook_plan(&names(&["hook1", "hook1", "hook2"]), &names(&["hook2"]));
    assert_eq!(plan.in_both, names(&["hook2"]));
    assert_eq!(plan.active_only, names(&["hook1"]));
    let results = classify_hooks(&plan, &vec![bytes("x")], &vec![bytes("x")]);
    assert_eq!(
        results,
        vec![
            Hook {
                name: bytes("hook2"),
                state: HookState::Good,
            },
            Hook {
                name: bytes("hook1"),
                state: HookState::ActiveOnly,
            },
        ]
    );
}

#[test]
fn sample_extension_rule() {
    assert!(is_sample_file(&bytes("hook.sample")));
    assert!(is_sample_file(&bytes("a.b.sample")));
    // A leading dot starts a hidden file's name, not an extension.
    assert!(!is_sample_file(&bytes(".sample")));
    assert!(!is_sample_file(&bytes("sample")));
    assert!(!is_sample_file(&bytes("hook1")));
    assert!(!is_sample_file(&bytes("hook.samples")));
}

#[test]
fn digest_known_answers() {
    assert_eq!(
        content_digest(&Vec::new()),
        hex("e3b0c44298fc1c149afbf4c8996fb92427ae41e4649b934ca495991b7852b855"),
    );
    assert_eq!(
        content_digest(&bytes("abc")),
        hex("ba7816bf8f01cfea414140de5dae2223b00361a396177a9cb410ff61f20015ad"),
    );
}

#[test]
fn classify_pair_by_digest() {
    assert_eq!(
        classify_hook_pair(&bytes("contents"), &bytes("contents")),
        HookState::Good
    );
    assert_eq!(
        classify_hook_pair(&bytes("a"), &bytes("c")),
        HookState::Mismatch
    );
}

#[test]
fn hooks_twice_gives_same_answer() {
    let active = names(&["pre-commit", "pre-push", "pre-push.sample"]);
    let in_repo = names(&["pre-commit", "post-merge"]);
    let plan1 = hook_plan(&active, &in_repo);
    let plan2 = hook_plan(&active, &in_repo);
    assert_eq!(plan1.in_both, plan2.in_both);
    assert_eq!(plan1.active_only, plan2.active_only);
    assert_eq!(plan1.in_repo_only, plan2.in_repo_only);

    let contents = vec![bytes("same")];
    let r1 = classify_hooks(&plan1, &contents, &contents);
    let r2 = classify_hooks(&plan2, &contents, &contents);
    assert_eq!(r1, r2);
}
