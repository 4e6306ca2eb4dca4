use hunter::domain::{FindingJobKind, JobKind, JobState};
use hunter::util::path_starts_with;
use hunter::workspace::{
    chain_fate, create_step, expired, jobs_root, legacy_tree_in_use, legacy_wt_name, numbered_dir,
    orphan_step,
    prune_args, release_if_idle, release_step, remove_tree_args, resolve, resolve_args, run_dir_of,
    scan_root, session_expired, taken_note, tree_start, tree_step, ChainFate, CreateAction, CreateEvent,
    CreatePhase, LiveJob, OrphanAction, OrphanEvent, OrphanPhase, ReleaseAction, ReleasePhase, ScanTree, SessionRef, TreeAction, TreePhase,
    TreeSpec, Workspace, SESSION_RETENTION_MS,
};

const NOW: i64 = 1_700_000_000_000;

#[test]
fn a_chain_has_its_own_directory() {
    let a = Workspace::for_chain("/w", "/repos/1", 7);
    assert_eq!(a.tree, format!("{}/tree", a.root));
    assert_eq!(a.session, format!("{}/session", a.root));
    assert_eq!(a.build_cache(), "/repos/1/target");
    let b = Workspace::for_chain("/w", "/repos/1", 8);
    assert_ne!(a.root, b.root);
    assert!(a.root.starts_with(&jobs_root("/w")));
    let name = a.root.rsplit('/').next().unwrap();
    assert_eq!(numbered_dir(name), Some(7));
}

#[test]
fn only_numbers_name_chains() {
    assert_eq!(numbered_dir("12"), Some(12));
    assert_eq!(numbered_dir("x12"), None);
    assert_eq!(numbered_dir(""), None);
}

#[test]
fn live_chains_are_kept() {
    assert_eq!(chain_fate(1, Some(0), Some(0), NOW), ChainFate::Keep);
    assert_eq!(chain_fate(0, Some(0), Some(0), NOW), ChainFate::Remove);
    assert_eq!(chain_fate(0, Some(NOW), Some(NOW), NOW), ChainFate::ReleaseTree);
}

#[test]
fn a_session_expires_after_its_retention() {
    assert!(!expired(Some(NOW - SESSION_RETENTION_MS + 1), NOW));
    assert!(expired(Some(NOW - SESSION_RETENTION_MS - 1), NOW));
    let live = SessionRef { state: JobState::Suspended, finished_at: Some(0) };
    assert!(!session_expired(&vec![live], Some(0), NOW));
    let done = SessionRef { state: JobState::Done, finished_at: Some(0) };
    assert!(session_expired(&vec![done], Some(0), NOW));
}

#[test]
fn revisions_are_resolved_to_commits() {
    assert_eq!(
        resolve_args("/c", "main"),
        ["git", "-C", "/c", "rev-parse", "--verify", "--quiet", "main^{commit}"]
    );
    assert_eq!(resolve(0, "abc123\n").as_deref(), Some("abc123"));
    assert_eq!(resolve(1, ""), None);
}

#[test]
fn a_detached_tree_is_made() {
    let spec = TreeSpec::Detached { at: "main".to_owned() };
    assert!(tree_start("/c", &spec).iter().any(|a| a == "main^{commit}"));
    let (phase, action) = tree_step("/c", "/t", &spec, TreePhase::Resolve, 0, "abc\n");
    match action {
        TreeAction::Git { argv } => {
            assert_eq!(argv, ["git", "-C", "/c", "worktree", "add", "--detach", "/t", "abc"])
        }
        _ => panic!("no command"),
    }
    let (_, action) = tree_step("/c", "/t", &spec, phase, 0, "");
    match action {
        TreeAction::Made { sha } => assert_eq!(sha, "abc"),
        _ => panic!("not made"),
    }
}

#[test]
fn a_revision_that_does_not_resolve_makes_no_tree() {
    let spec = TreeSpec::Detached { at: "nope".to_owned() };
    let (_, action) = tree_step("/c", "/t", &spec, TreePhase::Resolve, 1, "");
    match action {
        TreeAction::Failed { why } => assert_eq!(why, "nope does not resolve to a commit"),
        _ => panic!("went on"),
    }
}

#[test]
fn a_scan_tree_belongs_to_its_repo() {
    let t = ScanTree::for_repo("/w", "/repos/1", 1);
    assert_eq!(t.path(), &format!("{}/repo-1", scan_root("/w")));
    assert_eq!(ScanTree::failure(0, ""), None);
    assert_eq!(ScanTree::failure(1, "boom").as_deref(), Some("scan worktree add failed: boom"));
    assert!(t.add_args("abc").iter().any(|a| a == "abc"));
}

#[test]
fn trees_are_removed_by_git() {
    let args = remove_tree_args("/c", "/t");
    assert_eq!(args[0], "git");
    assert!(args.iter().any(|a| a == "remove"));
    assert!(taken_note("/w/jobs/7").contains("/w/jobs/7"));
}

#[test]
fn old_trees_are_found_by_finding() {
    let name = legacy_wt_name(JobKind::Finding(FindingJobKind::Fix), Some(5)).unwrap();
    let live = vec![LiveJob {
        kind: JobKind::Finding(FindingJobKind::Fix),
        finding_id: Some(5),
        session_file: None,
    }];
    assert!(legacy_tree_in_use(&live, &format!("/w/worktrees/{name}"), &name));
    assert!(!legacy_tree_in_use(&vec![], &format!("/w/worktrees/{name}"), &name));
    assert_eq!(legacy_wt_name(JobKind::Finding(FindingJobKind::Fix), None), None);
}

#[test]
fn the_directory_of_a_run_is_the_first_below_the_prefix() {
    assert_eq!(run_dir_of("/s/run1/a.jsonl", "/s/").as_deref(), Some("run1"));
    assert_eq!(run_dir_of("/elsewhere/a.jsonl", "/s/"), None);
}

#[test]
fn a_taken_place_is_refused() {
    let ws = Workspace::for_chain("/w", "/c", 7);
    let spec = TreeSpec::Detached { at: "main".to_owned() };
    let (phase, action) = create_step(&ws, &spec, CreatePhase::Look, CreateEvent::Root { exists: true });
    assert!(matches!(phase, CreatePhase::Ended));
    match action {
        CreateAction::Refuse { why } => assert_eq!(why, "workspace /w/jobs/7 already exists"),
        _ => panic!("not refused"),
    }
}

#[test]
fn a_workspace_is_made_step_by_step() {
    let ws = Workspace::for_chain("/w", "/c", 7);
    let spec = TreeSpec::Detached { at: "main".to_owned() };
    let (phase, action) = create_step(&ws, &spec, CreatePhase::Look, CreateEvent::Root { exists: false });
    assert!(matches!(action, CreateAction::MakeSession));
    let (phase, action) = create_step(&ws, &spec, phase, CreateEvent::Session { error: None });
    match action {
        CreateAction::Git { argv } => assert_eq!(argv, resolve_args("/c", "main")),
        _ => panic!("no command"),
    }
    let answer = CreateEvent::Git { rc: 0, out: "abc\n".to_owned() };
    let (phase, action) = create_step(&ws, &spec, phase, answer);
    match action {
        CreateAction::Git { argv } => {
            assert_eq!(argv, ["git", "-C", "/c", "worktree", "add", "--detach", "/w/jobs/7/tree", "abc"])
        }
        _ => panic!("no command"),
    }
    let failed = CreateEvent::Git { rc: 1, out: "no space".to_owned() };
    match create_step(&ws, &spec, phase.clone(), failed).1 {
        CreateAction::ReleaseAndRemove { why } => assert_eq!(why, "worktree add failed: no space"),
        _ => panic!("left something behind"),
    }
    let done = CreateEvent::Git { rc: 0, out: String::new() };
    match create_step(&ws, &spec, phase, done).1 {
        CreateAction::Made { sha } => assert_eq!(sha, "abc"),
        _ => panic!("not made"),
    }
}

#[test]
fn a_failed_session_directory_is_cleared_away() {
    let ws = Workspace::for_chain("/w", "/c", 7);
    let spec = TreeSpec::Detached { at: "main".to_owned() };
    let event = CreateEvent::Session { error: Some("denied".to_owned()) };
    match create_step(&ws, &spec, CreatePhase::Session, event).1 {
        CreateAction::RemoveRoot { why } => {
            assert_eq!(why, "cannot create /w/jobs/7/session: denied")
        }
        _ => panic!("went on"),
    }
    let event = CreateEvent::Session { error: None };
    match create_step(&ws, &spec, CreatePhase::Look, event).1 {
        CreateAction::Refuse { why } => assert_eq!(why, "out of turn"),
        _ => panic!("went on"),
    }
}

#[test]
fn a_released_tree_is_gone() {
    let ws = Workspace::for_chain("/w", "/c", 7);
    let (phase, action) = release_step(&ws, ReleasePhase::Start, true, true);
    assert!(matches!(action, ReleaseAction::Git { argv } if argv == remove_tree_args("/c", "/w/jobs/7/tree")));
    let (phase, action) = release_step(&ws, phase, true, true);
    assert!(matches!(action, ReleaseAction::RemoveTree));
    let (phase, action) = release_step(&ws, phase, true, false);
    assert!(matches!(action, ReleaseAction::Git { argv } if argv == prune_args("/c")));
    assert!(matches!(release_step(&ws, phase, true, false).1, ReleaseAction::Done));
    // Without the clone git is never run.
    let (phase, action) = release_step(&ws, ReleasePhase::Start, false, true);
    assert!(matches!(action, ReleaseAction::RemoveTree));
    assert!(matches!(release_step(&ws, phase, false, false).1, ReleaseAction::Done));
}

#[test]
fn only_idle_chains_are_released() {
    assert!(release_if_idle(0));
    assert!(!release_if_idle(1));
}

#[test]
fn a_tree_of_an_unknown_clone_is_unregistered_and_deleted() {
    let (phase, action) = orphan_step("/t", OrphanPhase::Start, OrphanEvent::Entry { there: true });
    match action {
        OrphanAction::Git { argv } => assert_eq!(
            argv,
            ["git", "-C", "/t", "rev-parse", "--path-format=absolute", "--git-common-dir"]
        ),
        OrphanAction::Delete => panic!("not asked"),
    }
    let found = OrphanEvent::Clone { rc: 0, parent: Some("/c".to_owned()) };
    let (phase, action) = orphan_step("/t", phase, found);
    assert!(matches!(action, OrphanAction::Git { argv } if argv == remove_tree_args("/c", "/t")));
    assert!(matches!(orphan_step("/t", phase, OrphanEvent::Removed).1, OrphanAction::Delete));
    let failed = OrphanEvent::Clone { rc: 1, parent: Some("/c".to_owned()) };
    assert!(matches!(orphan_step("/t", OrphanPhase::Asked, failed).1, OrphanAction::Delete));
    let bare = OrphanEvent::Entry { there: false };
    assert!(matches!(orphan_step("/t", OrphanPhase::Start, bare).1, OrphanAction::Delete));
}

#[test]
fn no_chain_lies_inside_another() {
    let one = Workspace::for_chain("/w", "/c", 1);
    let twelve = Workspace::for_chain("/w", "/c", 12);
    assert!(path_starts_with(&twelve.tree, &twelve.root));
    assert!(!path_starts_with(&twelve.tree, &one.root));
    assert!(!path_starts_with(&one.root, &twelve.root));
}
