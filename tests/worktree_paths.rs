use force::worktree::{
    expand_path_template, join, resolve_path, resolve_worktree_path, worktree_marker, CreatePhase,
    Outcome, RemovePhase, WorktreeAction, WorktreeCreation, WorktreeRemoval,
};
use force::error::ForceError;

#[test]
fn test_expand_path_template() {
    assert_eq!(
        expand_path_template("../worktrees/$FORCE_FEATURE_SLUG", "my_feature"),
        "../worktrees/my_feature"
    );
    assert_eq!(
        expand_path_template(".worktrees/$FORCE_FEATURE_SLUG", "test"),
        ".worktrees/test"
    );
}

#[test]
fn expand_replaces_every_placeholder() {
    assert_eq!(
        expand_path_template("$FORCE_FEATURE_SLUG/x/$FORCE_FEATURE_SLUG", "s"),
        "s/x/s"
    );
    assert_eq!(expand_path_template("no-placeholder", "s"), "no-placeholder");
    assert_eq!(expand_path_template("$FORCE_FEATURE", "s"), "$FORCE_FEATURE");
}

#[test]
fn test_resolve_path_relative() {
    let resolved = resolve_path("/home/user/project", "../worktrees/feature");
    assert_eq!(resolved, "/home/user/project/../worktrees/feature");
}

#[test]
fn test_resolve_path_absolute() {
    let resolved = resolve_path("/home/user/project", "/tmp/worktrees/feature");
    assert_eq!(resolved, "/tmp/worktrees/feature");
}

#[test]
fn join_adds_one_separator() {
    assert_eq!(join("/a/", "b"), "/a/b");
    assert_eq!(join("/a", "b"), "/a/b");
    assert_eq!(join("", "b"), "b");
    assert_eq!(join("/a", "/b"), "/b");
    assert_eq!(worktree_marker("/w/x"), "/w/x/.git");
}

#[test]
fn resolve_worktree_path_uses_slug_and_root() {
    assert_eq!(
        resolve_worktree_path("/proj", "my_feature", "../worktrees/$FORCE_FEATURE_SLUG"),
        "/proj/../worktrees/my_feature"
    );
    assert_eq!(
        resolve_worktree_path("/proj", "f", "/tmp/trees/$FORCE_FEATURE_SLUG"),
        "/tmp/trees/f"
    );
}

fn strings(v: &[String]) -> Vec<&str> {
    v.iter().map(|s| s.as_str()).collect()
}

#[test]
fn existing_valid_worktree_is_reused() {
    let mut c = WorktreeCreation::new("/proj", "feat", ".worktrees/$FORCE_FEATURE_SLUG");
    match c.next_action() {
        WorktreeAction::CheckPath(p) => assert_eq!(p, "/proj/.worktrees/feat"),
        _ => panic!("expected a path check"),
    }
    c.advance(Outcome::Success);
    match c.next_action() {
        WorktreeAction::CheckMarker(p) => assert_eq!(p, "/proj/.worktrees/feat/.git"),
        _ => panic!("expected a marker check"),
    }
    c.advance(Outcome::Success);
    assert_eq!(c.phase, CreatePhase::Reused);
    assert!(matches!(c.next_action(), WorktreeAction::Finished));
    let r = c.result().unwrap().unwrap();
    assert_eq!(r.path, "/proj/.worktrees/feat");
    assert!(!r.created);
}

#[test]
fn existing_path_without_marker_conflicts() {
    let mut c = WorktreeCreation::new("/proj", "feat", "/tmp/$FORCE_FEATURE_SLUG");
    c.advance(Outcome::Success);
    c.advance(Outcome::Failure(String::new()));
    assert_eq!(c.phase, CreatePhase::Conflict);
    let e = c.result().unwrap().err().unwrap();
    assert_eq!(e, ForceError::WorktreeConflict { path: "/tmp/feat".to_string() });
    assert_eq!(e.message(), "Path /tmp/feat exists but is not a valid git worktree");
}

#[test]
fn new_worktree_tries_new_branch_then_existing() {
    let mut c = WorktreeCreation::new("/proj", "feat", "../wt/$FORCE_FEATURE_SLUG");
    c.advance(Outcome::Failure(String::new()));
    match c.next_action() {
        WorktreeAction::CreateParents(p) => assert_eq!(p, "/proj/../wt/feat"),
        _ => panic!("expected parent creation"),
    }
    c.advance(Outcome::Success);
    match c.next_action() {
        WorktreeAction::RunGit { dir, args } => {
            assert_eq!(dir, "/proj");
            assert_eq!(strings(&args), ["worktree", "add", "/proj/../wt/feat", "-b", "feat"]);
        }
        _ => panic!("expected git"),
    }
    c.advance(Outcome::Failure("branch exists".to_string()));
    match c.next_action() {
        WorktreeAction::RunGit { args, .. } => {
            assert_eq!(strings(&args), ["worktree", "add", "/proj/../wt/feat", "feat"]);
        }
        _ => panic!("expected git"),
    }
    c.advance(Outcome::Success);
    let r = c.result().unwrap().unwrap();
    assert!(r.created);
    assert_eq!(r.path, "/proj/../wt/feat");
}

#[test]
fn both_git_attempts_failing_is_fatal() {
    let mut c = WorktreeCreation::new("/proj", "feat", "wt/$FORCE_FEATURE_SLUG");
    c.advance(Outcome::Failure(String::new()));
    c.advance(Outcome::Success);
    c.advance(Outcome::Failure("first".to_string()));
    c.advance(Outcome::Failure("fatal: in use".to_string()));
    assert_eq!(c.phase, CreatePhase::GitFailed);
    assert!(c.result().is_some());
    let mut c = WorktreeCreation::new("/proj", "feat", "wt/$FORCE_FEATURE_SLUG");
    c.advance(Outcome::Failure(String::new()));
    c.advance(Outcome::Success);
    c.advance(Outcome::Failure("first".to_string()));
    c.advance(Outcome::Failure("fatal: in use".to_string()));
    let e = c.result().unwrap().err().unwrap();
    assert_eq!(
        e.message(),
        "Failed to create worktree. Branch 'feat' may exist in another worktree.\nfatal: in use"
    );
}

#[test]
fn creation_io_error_stops() {
    let mut c = WorktreeCreation::new("/proj", "feat", "wt/$FORCE_FEATURE_SLUG");
    assert!(!c.is_done());
    c.advance(Outcome::Failure(String::new()));
    c.advance(Outcome::IoError("permission denied".to_string()));
    assert_eq!(c.phase, CreatePhase::IoFailed);
    c.advance(Outcome::Success);
    assert_eq!(c.phase, CreatePhase::IoFailed);
    assert_eq!(
        c.result().unwrap().err().unwrap(),
        ForceError::Io { detail: "permission denied".to_string() }
    );
}

#[test]
fn removal_of_missing_path_is_no_op() {
    let mut r = WorktreeRemoval::new("/proj", "/proj/wt/x");
    match r.next_action() {
        WorktreeAction::CheckPath(p) => assert_eq!(p, "/proj/wt/x"),
        _ => panic!("expected a path check"),
    }
    r.advance(Outcome::Failure(String::new()));
    assert_eq!(r.phase, RemovePhase::Absent);
    assert_eq!(r.result(), Some(Ok(())));
}

#[test]
fn removal_runs_forced_git_remove() {
    let mut r = WorktreeRemoval::new("/proj", "/proj/wt/x");
    r.advance(Outcome::Success);
    match r.next_action() {
        WorktreeAction::RunGit { dir, args } => {
            assert_eq!(dir, "/proj");
            assert_eq!(strings(&args), ["worktree", "remove", "/proj/wt/x", "--force"]);
        }
        _ => panic!("expected git"),
    }
    r.advance(Outcome::Success);
    assert_eq!(r.result(), Some(Ok(())));

    let mut r = WorktreeRemoval::new("/proj", "/proj/wt/x");
    r.advance(Outcome::Success);
    r.advance(Outcome::Failure("locked".to_string()));
    let e = r.result().unwrap().unwrap_err();
    assert_eq!(e.message(), "Failed to remove worktree at /proj/wt/x: locked");
}
