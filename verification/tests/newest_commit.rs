use git_history::backend::{CommandOutput, Request, Step};
use git_history::history::HistoryReply;
use git_history::change::Resolution;
use git_history::newest::{check_new_commits, newer_commit, newest_on_line};
use git_history::walk::{CommitNode, RevisionWalker};
use git_history::{BasicCommit, GitError};

fn text(s: &str) -> String {
    s.to_string()
}

fn texts(items: &[&str]) -> Vec<String> {
    items.iter().map(|s| s.to_string()).collect()
}

fn ran(stdout: &str) -> Result<CommandOutput, String> {
    Ok(CommandOutput { success: true, stdout: stdout.as_bytes().to_vec(), stderr: vec![] })
}

fn failed(stderr: &str) -> Result<CommandOutput, String> {
    Ok(CommandOutput { success: false, stdout: vec![], stderr: stderr.as_bytes().to_vec() })
}

fn commit(id: &str, date: i64) -> BasicCommit {
    BasicCommit { id: text(id), message: text("m"), author: text("Ada"), date }
}

const FORMAT: &str = "--format=%H%x00%an%x00%at%x00%B%x00<COMMIT>";

fn check(
    branch: Option<&str>,
    remote: Option<&str>,
    known: Option<&str>,
    reply: HistoryReply,
) -> Step<Option<BasicCommit>> {
    check_new_commits(text("/repo/src"), branch.map(text), remote.map(text), known.map(text), reply)
}

#[test]
fn the_check_begins_with_the_root() {
    assert_eq!(
        check(None, None, None, HistoryReply::Start),
        Step::Ask(Request::LocateRoot { path: text("/repo/src") })
    );
    assert_eq!(
        check(None, None, None, HistoryReply::Root(None)),
        Step::Done(Err(GitError::RepositoryNotFound))
    );
}

#[test]
fn the_check_fetches_from_the_remote_or_from_upstream() {
    assert_eq!(
        check(None, None, None, HistoryReply::Root(Some(text("/repo")))),
        Step::Ask(Request::Fetch {
            root: text("/repo"),
            arguments: texts(&["-C", "/repo", "fetch", "upstream"]),
        })
    );
    assert_eq!(
        check(Some("main"), Some("origin"), None, HistoryReply::Root(Some(text("/repo")))),
        Step::Ask(Request::Fetch {
            root: text("/repo"),
            arguments: texts(&["-C", "/repo", "fetch", "origin"]),
        })
    );
}

#[test]
fn a_fetch_that_failed_ends_the_check() {
    let reply = HistoryReply::Fetched { root: text("/repo"), outcome: failed("no such remote") };
    assert_eq!(
        check(None, None, None, reply),
        Step::Done(Err(GitError::BackendFailure(text("no such remote"))))
    );
    let reply = HistoryReply::Fetched { root: text("/repo"), outcome: failed("denied") };
    assert_eq!(
        check(Some("main"), Some("fork"), Some("abc"), reply),
        Step::Done(Err(GitError::BackendFailure(text("denied"))))
    );
    let reply = HistoryReply::Fetched { root: text("/repo"), outcome: Err(text("not found")) };
    assert_eq!(
        check(None, None, None, reply),
        Step::Done(Err(GitError::BackendFailure(text("Failed to fetch from remote: not found"))))
    );
}

#[test]
fn a_fetch_that_succeeded_is_followed_by_the_newest_commit() {
    let reply = HistoryReply::Fetched { root: text("/repo"), outcome: ran("") };
    assert_eq!(
        check(None, None, None, reply),
        Step::Ask(Request::Newest {
            root: text("/repo"),
            reference: None,
            arguments: texts(&["-C", "/repo", "log", "-1", FORMAT]),
        })
    );
}

#[test]
fn a_branch_is_resolved_before_its_newest_commit_is_asked_for() {
    let reply = HistoryReply::Fetched { root: text("/repo"), outcome: ran("") };
    assert_eq!(
        check(Some("main"), Some("fork"), None, reply),
        Step::Ask(Request::Resolve {
            root: text("/repo"),
            name: text("fork/main"),
            arguments: texts(&[
                "-C",
                "/repo",
                "rev-parse",
                "--verify",
                "--quiet",
                "fork/main^{commit}"
            ]),
        })
    );
    let reply = HistoryReply::Resolved { root: text("/repo"), outcome: ran("abc\n") };
    assert_eq!(
        check(Some("main"), Some("fork"), None, reply),
        Step::Ask(Request::Newest {
            root: text("/repo"),
            reference: Some(text("fork/main")),
            arguments: texts(&["-C", "/repo", "log", "-1", FORMAT, "fork/main"]),
        })
    );
    let reply = HistoryReply::Resolved { root: text("/repo"), outcome: failed("") };
    assert_eq!(
        check(Some("main"), None, None, reply),
        Step::Done(Err(GitError::ReferenceNotFound(text("main"))))
    );
    let reply = HistoryReply::Resolved { root: text("/repo"), outcome: Err(text("x")) };
    assert_eq!(
        check(Some("main"), None, None, reply),
        Step::Done(Err(GitError::BackendFailure(text("Failed to execute git command: x"))))
    );
}

#[test]
fn the_newest_commit_is_handed_back_unless_it_is_known() {
    let output = "c3\0Ada\030\0m\n\0<COMMIT>\n";
    assert_eq!(
        check(None, None, Some("b2"), HistoryReply::Logged(ran(output))),
        Step::Done(Ok(Some(commit("c3", 30))))
    );
    assert_eq!(
        check(None, None, Some("c3"), HistoryReply::Logged(ran(output))),
        Step::Done(Ok(None))
    );
    assert_eq!(
        check(None, None, None, HistoryReply::Logged(ran(output))),
        Step::Done(Ok(Some(commit("c3", 30))))
    );
    assert_eq!(check(None, None, Some("c3"), HistoryReply::Logged(ran(""))), Step::Done(Ok(None)));
    assert_eq!(check(None, None, None, HistoryReply::Logged(ran("\n"))), Step::Done(Ok(None)));
}

#[test]
fn a_walked_history_is_checked_like_a_printed_one() {
    let walked = vec![commit("c3", 30), commit("b2", 20)];
    assert_eq!(
        check(None, None, Some("b2"), HistoryReply::Walked(Ok(walked.clone()))),
        Step::Done(Ok(Some(commit("c3", 30))))
    );
    assert_eq!(
        check(None, None, Some("c3"), HistoryReply::Walked(Ok(walked))),
        Step::Done(Ok(None))
    );
    assert_eq!(
        check(None, None, None, HistoryReply::Walked(Err(text("corrupt")))),
        Step::Done(Err(GitError::BackendFailure(text("corrupt"))))
    );
}

#[test]
fn a_log_that_cannot_be_read_fails_the_check() {
    assert_eq!(
        check(None, None, None, HistoryReply::Logged(failed("fatal: bad revision"))),
        Step::Done(Err(GitError::BackendFailure(text("fatal: bad revision"))))
    );
    assert_eq!(
        check(None, None, None, HistoryReply::Logged(ran("id\0a\0never\0m\0<COMMIT>"))),
        Step::Done(Err(GitError::EncodingFailure(text("Invalid date in the log"))))
    );
}

#[test]
fn only_the_newest_commit_is_compared() {
    let history = vec![commit("c", 3), commit("b", 2), commit("a", 1)];
    assert_eq!(newer_commit(&history, &Some(text("b"))), Some(commit("c", 3)));
    assert_eq!(newer_commit(&history, &Some(text("c"))), None);
    assert_eq!(newer_commit(&history, &Some(text("C"))), Some(commit("c", 3)));
    assert_eq!(newer_commit(&history, &Some(text(""))), Some(commit("c", 3)));
    assert_eq!(newer_commit(&history, &None), Some(commit("c", 3)));
    assert_eq!(newer_commit(&[], &None), None);
    assert_eq!(newer_commit(&[], &Some(text("c"))), None);
}

#[test]
fn the_newest_commit_of_a_line_is_its_first() {
    let node = |id: &str| CommitNode {
        commit: commit(id, 1),
        tree: format!("t{}", id),
        parent_tree: None,
    };
    assert_eq!(
        check(None, None, Some("b"), HistoryReply::Line(Ok(vec![node("c"), node("b")]))),
        Step::Done(Ok(Some(commit("c", 1))))
    );
    assert_eq!(
        check(None, None, Some("c"), HistoryReply::Line(Ok(vec![node("c"), node("b")]))),
        Step::Done(Ok(None))
    );
    assert_eq!(check(None, None, None, HistoryReply::Line(Ok(vec![]))), Step::Done(Ok(None)));
    assert_eq!(
        check(None, None, None, HistoryReply::Line(Err(text("gone")))),
        Step::Done(Err(GitError::BackendFailure(text("gone"))))
    );
    assert_eq!(newest_on_line(&vec![node("c")], &None), Some(commit("c", 1)));
    assert_eq!(newest_on_line(&vec![], &None), None);
}

#[test]
fn the_check_resolves_no_tree() {
    let walker = RevisionWalker::new(vec![]);
    let resolution = Resolution { tree: text("t"), entry: None };
    assert_eq!(
        check(None, None, None, HistoryReply::Entry { walker, resolution }),
        Step::Done(Err(GitError::BackendFailure(text(
            "Unexpected reply: the check resolves no tree"
        ))))
    );
}
