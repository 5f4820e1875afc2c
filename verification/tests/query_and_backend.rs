use git_history::backend::{
    branches_arguments, check_run, fetch_arguments, log_arguments, newest_arguments, read_output,
    remotes_arguments, resolve_arguments, CommandOutput,
};
use git_history::history::{fresh, path_in_repository, select_page, started_step};
use git_history::query::{cache_key, reference_name, same_part};
use git_history::store::HistoryEntry;
use git_history::{BasicCommit, GitCaches, GitError, HistoryQuery, Request, Step};
use std::sync::Arc;

fn text(s: &str) -> String {
    s.to_string()
}

fn commit(id: &str) -> BasicCommit {
    BasicCommit { id: text(id), message: text("m"), author: text("a"), date: 1 }
}

fn query(page: Option<usize>, per_page: Option<usize>) -> HistoryQuery {
    HistoryQuery { path: text("/repo/x"), page, per_page, branch: None, remote: None }
}

#[test]
fn a_key_is_path_branch_and_remote_with_bars_between() {
    assert_eq!(cache_key("/repo/src", &None, &None), "/repo/src||");
    assert_eq!(cache_key("/repo/src", &Some(text("main")), &None), "/repo/src|main|");
    assert_eq!(cache_key("/repo/src", &None, &Some(text("origin"))), "/repo/src||origin");
    assert_eq!(
        cache_key("/repo/src", &Some(text("main")), &Some(text("origin"))),
        "/repo/src|main|origin"
    );
    assert_eq!(cache_key("", &Some(text("")), &Some(text(""))), "||");
}

#[test]
fn a_branch_and_a_remote_of_one_name_have_keys_of_their_own() {
    assert_ne!(
        cache_key("/repo/src", &Some(text("b")), &None),
        cache_key("/repo/src", &None, &Some(text("b")))
    );
}

#[test]
fn parts_are_the_same_when_both_are_absent_or_the_same_text() {
    assert!(same_part(&None, &None));
    assert!(same_part(&Some(text("a")), &Some(text("a"))));
    assert!(same_part(&Some(text("")), &Some(text(""))));
    assert!(!same_part(&Some(text("a")), &Some(text("b"))));
    assert!(!same_part(&Some(text("")), &None));
    assert!(!same_part(&None, &Some(text("a"))));
}

#[test]
fn a_reference_is_the_branch_of_the_remote_or_the_local_branch() {
    assert_eq!(reference_name(&None, &None), None);
    assert_eq!(reference_name(&None, &Some(text("origin"))), None);
    assert_eq!(reference_name(&Some(text("main")), &None), Some(text("main")));
    assert_eq!(
        reference_name(&Some(text("main")), &Some(text("origin"))),
        Some(text("origin/main"))
    );
    assert_eq!(
        reference_name(&Some(text("feature/x")), &Some(text("fork"))),
        Some(text("fork/feature/x"))
    );
}

#[test]
fn arguments_name_the_repository_first() {
    assert_eq!(fetch_arguments("/r", "up"), vec!["-C", "/r", "fetch", "up"]);
    assert_eq!(
        resolve_arguments("/r", "up/main"),
        vec!["-C", "/r", "rev-parse", "--verify", "--quiet", "up/main^{commit}"]
    );
    assert_eq!(remotes_arguments("/r"), vec!["-C", "/r", "remote"]);
    assert_eq!(
        branches_arguments("/r"),
        vec!["-C", "/r", "branch", "--format=%(refname:short)"]
    );
    assert_eq!(
        log_arguments("/r", &Some(text("main")), "a/b"),
        vec![
            "-C",
            "/r",
            "log",
            "--first-parent",
            "--format=%H%x00%an%x00%at%x00%B%x00<COMMIT>",
            "main",
            "--",
            "a/b"
        ]
    );
    assert_eq!(
        newest_arguments("/r", &None),
        vec!["-C", "/r", "log", "-1", "--format=%H%x00%an%x00%at%x00%B%x00<COMMIT>"]
    );
}

#[test]
fn a_run_has_failed_when_it_did_not_start_or_did_not_succeed() {
    let unstarted: Result<CommandOutput, String> = Err(text("no such program"));
    assert_eq!(
        check_run(&unstarted, "Could not run: ", true),
        Some(GitError::BackendFailure(text("Could not run: no such program")))
    );
    assert_eq!(
        check_run(&unstarted, "", false),
        Some(GitError::BackendFailure(text("no such program")))
    );
    let refused = Ok(CommandOutput { success: false, stdout: b"out".to_vec(), stderr: b"err".to_vec() });
    assert_eq!(check_run(&refused, "x", true), Some(GitError::BackendFailure(text("err"))));
    assert_eq!(check_run(&refused, "x", false), None);
    let fine = Ok(CommandOutput { success: true, stdout: b"out".to_vec(), stderr: b"err".to_vec() });
    assert_eq!(check_run(&fine, "x", true), None);
}

#[test]
fn output_is_read_as_utf8() {
    let fine = Ok(CommandOutput {
        success: true,
        stdout: "gr\u{fc}n \u{1f33f}".as_bytes().to_vec(),
        stderr: vec![],
    });
    assert_eq!(read_output(&fine, "x", true), Ok(text("gr\u{fc}n \u{1f33f}")));
    for bytes in [vec![0x80u8], vec![0xc3], vec![0xe2, 0x82], vec![0xed, 0xa0, 0x80], vec![0xc0, 0x80], vec![0xf5, 0x80, 0x80, 0x80]] {
        let words = String::from_utf8(bytes.clone()).unwrap_err().to_string();
        let garbled = Ok(CommandOutput { success: true, stdout: bytes, stderr: vec![] });
        assert_eq!(read_output(&garbled, "x", true), Err(GitError::EncodingFailure(words)));
    }
    let cut = Ok(CommandOutput { success: true, stdout: vec![b'o', 0xe2, 0x82], stderr: vec![] });
    assert_eq!(
        read_output(&cut, "x", true),
        Err(GitError::EncodingFailure(text("incomplete utf-8 byte sequence from index 1")))
    );
    let refused = Ok(CommandOutput { success: false, stdout: b"out".to_vec(), stderr: vec![] });
    assert_eq!(read_output(&refused, "x", false), Ok(text("out")));
    assert_eq!(read_output(&refused, "x", true), Err(GitError::BackendFailure(text(""))));
}

#[test]
fn a_path_lies_in_a_repository_at_or_below_its_root() {
    assert_eq!(path_in_repository("/repo/src/app.ts", "/repo"), Ok(text("src/app.ts")));
    assert_eq!(path_in_repository("/repo/src/", "/repo/"), Ok(text("src")));
    assert_eq!(path_in_repository("/repo", "/repo"), Ok(text("")));
    assert_eq!(path_in_repository("rel/a/b", "rel"), Ok(text("a/b")));
    assert_eq!(path_in_repository("/repository", "/repo"), Err(GitError::BackendFailure(text("Failed to get relative path"))));
    assert_eq!(path_in_repository("/other", "/repo"), Err(GitError::BackendFailure(text("Failed to get relative path"))));
    assert_eq!(path_in_repository("/", "/repo"), Err(GitError::BackendFailure(text("Failed to get relative path"))));
}

#[test]
fn a_query_asks_for_the_first_twenty_commits_unless_it_says_otherwise() {
    let history: Vec<BasicCommit> = (0..50).map(|i| commit(&i.to_string())).collect();
    assert_eq!(select_page(&query(None, None), &history), history[0..20].to_vec());
    assert_eq!(select_page(&query(Some(2), None), &history), history[20..40].to_vec());
    assert_eq!(select_page(&query(None, Some(5)), &history), history[0..5].to_vec());
    assert_eq!(select_page(&query(Some(3), Some(7)), &history), history[14..21].to_vec());
    assert_eq!(select_page(&query(Some(0), None), &history), vec![]);
    assert_eq!(select_page(&query(None, Some(0)), &history), vec![]);
}

#[test]
fn a_history_is_fresh_for_less_than_its_time_to_live() {
    assert!(fresh(1000, 1000));
    assert!(fresh(1000, 1599));
    assert!(!fresh(1000, 1600));
    assert!(fresh(1000, 0));
    assert!(!fresh(i64::MIN, i64::MAX));
    assert!(fresh(i64::MAX, i64::MIN));
}

#[test]
fn a_query_begins_with_what_is_remembered_and_fresh() {
    let entry = || HistoryEntry {
        path: text("/repo/x"),
        branch: None,
        remote: None,
        commits: Arc::new(vec![commit("b"), commit("a")]),
        created_at: 100,
    };
    assert_eq!(
        started_step(&query(Some(2), Some(1)), Some(entry()), 699),
        Step::Done(Ok(vec![commit("a")]))
    );
    assert_eq!(
        started_step(&query(Some(2), Some(1)), Some(entry()), 700),
        Step::Ask(Request::LocateRoot { path: text("/repo/x") })
    );
    assert_eq!(
        started_step(&query(None, None), None, 100),
        Step::Ask(Request::LocateRoot { path: text("/repo/x") })
    );
}

#[test]
fn a_history_is_served_to_the_query_it_was_remembered_for_only() {
    let entry = |path: &str, branch: Option<&str>, remote: Option<&str>| HistoryEntry {
        path: text(path),
        branch: branch.map(text),
        remote: remote.map(text),
        commits: Arc::new(vec![commit("a")]),
        created_at: 100,
    };
    let ask = Step::Ask(Request::LocateRoot { path: text("/repo/x") });
    assert_eq!(
        started_step(&query(None, None), Some(entry("/repo/x", None, None)), 100),
        Step::Done(Ok(vec![commit("a")]))
    );
    assert_eq!(started_step(&query(None, None), Some(entry("/repo/y", None, None)), 100), ask);
    assert_eq!(
        started_step(&query(None, None), Some(entry("/repo/x", Some("main"), None)), 100),
        ask
    );
    assert_eq!(
        started_step(&query(None, None), Some(entry("/repo/x", None, Some("fork"))), 100),
        ask
    );
    assert_eq!(
        started_step(&query(None, None), Some(entry("/repo/x", Some(""), None)), 100),
        ask
    );
}

#[test]
fn queries_whose_keys_coincide_do_not_share_a_history() {
    let mut caches = GitCaches::new();
    let first = git_history::list_folder_commits(
        &mut caches,
        text("/repo/a"),
        None,
        None,
        Some(text("b|")),
        None,
        git_history::HistoryReply::Walked(Ok(vec![commit("x")])),
        0,
    );
    assert_eq!(first, Step::Done(Ok(vec![commit("x")])));
    assert_eq!(
        cache_key("/repo/a", &Some(text("b|")), &None),
        cache_key("/repo/a", &Some(text("b")), &Some(text("|")))
    );
    let other = git_history::list_folder_commits(
        &mut caches,
        text("/repo/a"),
        None,
        None,
        Some(text("b")),
        Some(text("|")),
        git_history::HistoryReply::Start,
        1,
    );
    assert_eq!(other, Step::Ask(Request::LocateRoot { path: text("/repo/a") }));
    let same = git_history::list_folder_commits(
        &mut caches,
        text("/repo/a"),
        None,
        None,
        Some(text("b|")),
        None,
        git_history::HistoryReply::Start,
        1,
    );
    assert_eq!(same, Step::Done(Ok(vec![commit("x")])));
}

#[test]
fn the_memories_keep_what_they_are_told_until_they_are_told_to_forget() {
    let mut caches = GitCaches::new();
    assert!(caches.history("k").is_none());
    assert_eq!(caches.root("p"), None);
    assert_eq!(caches.fetch_time("f"), None);
    caches.remember_history(
        text("k"),
        HistoryEntry {
            path: text("p"),
            branch: None,
            remote: None,
            commits: Arc::new(vec![commit("a")]),
            created_at: 7,
        },
    );
    caches.remember_root(text("p"), text("/root"));
    caches.remember_fetch(text("f"), 42);
    let entry = caches.history("k").unwrap();
    assert_eq!(*entry.commits, vec![commit("a")]);
    assert_eq!(entry.created_at, 7);
    assert_eq!(caches.root("p"), Some(text("/root")));
    assert_eq!(caches.fetch_time("f"), Some(42));
    assert!(caches.history("p").is_none());
    assert_eq!(caches.root("k"), None);
    assert_eq!(caches.fetch_time("k"), None);
    caches.remember_fetch(text("f"), 43);
    assert_eq!(caches.fetch_time("f"), Some(43));
    caches.forget_history("k");
    assert!(caches.history("k").is_none());
    assert_eq!(caches.root("p"), Some(text("/root")));
    caches.forget_root("p");
    assert_eq!(caches.root("p"), None);
    caches.forget_fetch("f");
    assert_eq!(caches.fetch_time("f"), None);
    caches.remember_root(text("p"), text("/root"));
    caches.clear();
    assert_eq!(caches.root("p"), None);
}
