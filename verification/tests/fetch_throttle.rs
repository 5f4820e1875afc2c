use git_history::backend::{CommandOutput, Request, Step};
use git_history::throttle::{fetch_due, fetch_from_remote, fetch_key, fetch_plan};
use git_history::{GitCaches, GitError};

fn text(s: &str) -> String {
    s.to_string()
}

fn ran() -> Option<Result<CommandOutput, String>> {
    Some(Ok(CommandOutput { success: true, stdout: vec![], stderr: vec![] }))
}

fn refused(stderr: &str) -> Option<Result<CommandOutput, String>> {
    Some(Ok(CommandOutput { success: false, stdout: vec![], stderr: stderr.as_bytes().to_vec() }))
}

fn fetch(root: &str, remote: &str) -> Step<()> {
    Step::Ask(Request::Fetch {
        root: text(root),
        arguments: vec![text("-C"), text(root), text("fetch"), text(remote)],
    })
}

#[test]
fn a_fetch_is_due_when_none_is_remembered_or_the_window_has_passed() {
    assert!(fetch_due(None, 0));
    assert!(!fetch_due(Some(100), 100));
    assert!(!fetch_due(Some(100), 3699));
    assert!(fetch_due(Some(100), 3700));
    assert!(fetch_due(Some(100), 3701));
    assert!(!fetch_due(Some(100), 99));
    assert!(!fetch_due(Some(i64::MAX), i64::MIN));
    assert!(fetch_due(Some(i64::MIN), i64::MAX));
}

#[test]
fn fetches_are_remembered_by_root_and_remote() {
    assert_eq!(fetch_key("/repo", "upstream"), "/repo:upstream");
    assert_eq!(fetch_key("", ""), ":");
}

#[test]
fn nothing_is_fetched_from_origin() {
    let mut caches = GitCaches::new();
    assert_eq!(fetch_from_remote(&mut caches, "/repo", "origin", None, 0), Step::Done(Ok(())));
    assert_eq!(fetch_plan("/repo", "origin", &None, None, 0), Step::Done(Ok(())));
    assert_eq!(fetch_plan("/repo", "Origin", &None, None, 0), fetch("/repo", "Origin"));
}

#[test]
fn the_first_fetch_is_asked_for() {
    let mut caches = GitCaches::new();
    assert_eq!(
        fetch_from_remote(&mut caches, "/repo", "upstream", None, 50),
        fetch("/repo", "upstream")
    );
}

#[test]
fn one_fetch_serves_a_burst_of_queries() {
    let mut caches = GitCaches::new();
    assert_eq!(fetch_from_remote(&mut caches, "/repo", "upstream", ran(), 50), Step::Done(Ok(())));
    for now in 50..60 {
        assert_eq!(
            fetch_from_remote(&mut caches, "/repo", "upstream", None, now),
            Step::Done(Ok(()))
        );
    }
    assert_eq!(
        fetch_from_remote(&mut caches, "/repo", "upstream", None, 3650),
        fetch("/repo", "upstream")
    );
}

#[test]
fn a_failed_fetch_is_not_remembered() {
    let mut caches = GitCaches::new();
    assert_eq!(
        fetch_from_remote(&mut caches, "/repo", "upstream", refused("denied"), 50),
        Step::Done(Err(GitError::BackendFailure(text("denied"))))
    );
    assert_eq!(
        fetch_from_remote(&mut caches, "/repo", "upstream", Some(Err(text("no git"))), 50),
        Step::Done(Err(GitError::BackendFailure(text(
            "Failed to fetch from remote upstream: no git"
        ))))
    );
    assert_eq!(
        fetch_from_remote(&mut caches, "/repo", "upstream", None, 51),
        fetch("/repo", "upstream")
    );
}

#[test]
fn a_later_fetch_moves_the_window() {
    let mut caches = GitCaches::new();
    fetch_from_remote(&mut caches, "/repo", "upstream", ran(), 50);
    fetch_from_remote(&mut caches, "/repo", "upstream", ran(), 4000);
    assert_eq!(
        fetch_from_remote(&mut caches, "/repo", "upstream", None, 7000),
        Step::Done(Ok(()))
    );
    assert_eq!(
        fetch_from_remote(&mut caches, "/repo", "upstream", None, 7600),
        fetch("/repo", "upstream")
    );
}
