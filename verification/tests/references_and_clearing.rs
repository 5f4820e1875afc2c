use git_history::backend::{CommandOutput, Request, Step};
use git_history::history::{list_folder_commits, HistoryReply};
use git_history::references::{
    clear_git_cache, forget_fetches, get_git_references, names_in, ClearReply, ReferencesReply,
};
use git_history::root::{find_git_root, Inspection, RootSearch};
use git_history::{BasicCommit, GitCaches, GitError, GitReferences};

fn text(s: &str) -> String {
    s.to_string()
}

fn texts(items: &[&str]) -> Vec<String> {
    items.iter().map(|s| s.to_string()).collect()
}

fn ran(stdout: &str) -> Result<CommandOutput, String> {
    Ok(CommandOutput { success: true, stdout: stdout.as_bytes().to_vec(), stderr: vec![] })
}

fn commit(id: &str) -> BasicCommit {
    BasicCommit { id: text(id), message: text("m"), author: text("a"), date: 1 }
}

fn remember(caches: &mut GitCaches, path: &str, branch: Option<&str>, id: &str) {
    list_folder_commits(
        caches,
        text(path),
        None,
        None,
        branch.map(text),
        None,
        HistoryReply::Walked(Ok(vec![commit(id)])),
        0,
    );
}

fn served(caches: &mut GitCaches, path: &str, branch: Option<&str>) -> Step<Vec<BasicCommit>> {
    list_folder_commits(
        caches,
        text(path),
        None,
        None,
        branch.map(text),
        None,
        HistoryReply::Start,
        0,
    )
}

fn fetched(caches: &mut GitCaches, root: &str, remote: &str, now: i64) {
    list_folder_commits(
        caches,
        format!("{}/x", root),
        None,
        None,
        None,
        Some(text(remote)),
        HistoryReply::Fetched { root: text(root), outcome: ran("") },
        now,
    );
}

fn fetch_is_due(caches: &mut GitCaches, root: &str, remote: &str, now: i64) -> bool {
    let step = list_folder_commits(
        caches,
        format!("{}/x", root),
        None,
        None,
        None,
        Some(text(remote)),
        HistoryReply::Root(Some(text(root))),
        now,
    );
    matches!(step, Step::Ask(Request::Fetch { .. }))
}

#[test]
fn lines_are_names() {
    assert_eq!(names_in(""), Vec::<String>::new());
    assert_eq!(names_in("origin\n"), texts(&["origin"]));
    assert_eq!(names_in("origin\nupstream\n"), texts(&["origin", "upstream"]));
    assert_eq!(names_in("origin\r\nupstream"), texts(&["origin", "upstream"]));
    assert_eq!(names_in("a\n\nb\n"), texts(&["a", "", "b"]));
    assert_eq!(names_in("\n"), texts(&[""]));
    assert_eq!(names_in("a\r"), texts(&["a\r"]));
    assert_eq!(names_in("a\r\r\nb"), texts(&["a\r", "b"]));
}

#[test]
fn names_agree_with_the_lines_of_the_standard_library() {
    for s in ["", "\n", "\r\n", "a", "a\n", "a\r\n", "a\rb", "a\n\n", "\n\na", "a\r\n\r\nb\r", "x\ny\nz", "\r", "\r\r\n"] {
        let expected: Vec<String> = s.lines().map(String::from).collect();
        assert_eq!(names_in(s), expected, "{:?}", s);
    }
}

#[test]
fn references_are_listed_in_two_runs() {
    assert_eq!(
        get_git_references("/repo", ReferencesReply::Start),
        Step::Ask(Request::Remotes {
            root: text("/repo"),
            arguments: texts(&["-C", "/repo", "remote"]),
        })
    );
    assert_eq!(
        get_git_references("/repo", ReferencesReply::Remotes(ran("origin\nupstream\n"))),
        Step::Ask(Request::Branches {
            root: text("/repo"),
            remotes: texts(&["origin", "upstream"]),
            arguments: texts(&["-C", "/repo", "branch", "--format=%(refname:short)"]),
        })
    );
    assert_eq!(
        get_git_references(
            "/repo",
            ReferencesReply::Branches {
                remotes: texts(&["origin", "upstream"]),
                outcome: ran("main\nfeature/x\n"),
            }
        ),
        Step::Done(Ok(GitReferences {
            remotes: texts(&["origin", "upstream"]),
            branches: texts(&["main", "feature/x"]),
        }))
    );
}

#[test]
fn a_listing_that_cannot_be_had_fails() {
    assert_eq!(
        get_git_references("/repo", ReferencesReply::Remotes(Err(text("no git")))),
        Step::Done(Err(GitError::BackendFailure(text("Failed to get remotes: no git"))))
    );
    assert_eq!(
        get_git_references(
            "/repo",
            ReferencesReply::Branches { remotes: vec![], outcome: Err(text("no git")) }
        ),
        Step::Done(Err(GitError::BackendFailure(text("Failed to get branches: no git"))))
    );
    let garbled =
        Ok(CommandOutput { success: true, stdout: vec![0xff, 0xfe, b'\n'], stderr: vec![] });
    assert_eq!(
        get_git_references("/repo", ReferencesReply::Remotes(garbled)),
        Step::Done(Err(GitError::EncodingFailure(text(
            "invalid utf-8 sequence of 1 bytes from index 0"
        ))))
    );
}

#[test]
fn a_listing_that_did_not_succeed_fails() {
    let outcome =
        Ok(CommandOutput { success: false, stdout: b"origin\n".to_vec(), stderr: b"fatal".to_vec() });
    assert_eq!(
        get_git_references("/repo", ReferencesReply::Remotes(outcome)),
        Step::Done(Err(GitError::BackendFailure(text("fatal"))))
    );
    let outcome = Ok(CommandOutput { success: false, stdout: vec![], stderr: b"not a repo".to_vec() });
    assert_eq!(
        get_git_references(
            "/repo",
            ReferencesReply::Branches { remotes: texts(&["origin"]), outcome }
        ),
        Step::Done(Err(GitError::BackendFailure(text("not a repo"))))
    );
}

#[test]
fn a_listing_of_remotes_that_did_not_succeed_forgets_no_fetch() {
    let mut caches = GitCaches::new();
    fetched(&mut caches, "/repo", "upstream", 100);
    let outcome = Ok(CommandOutput {
        success: false,
        stdout: b"upstream\n".to_vec(),
        stderr: b"fatal: broken".to_vec(),
    });
    let reply = ClearReply::Remotes { root: text("/repo"), outcome };
    assert_eq!(
        clear_git_cache(&mut caches, Some(text("/repo/a")), reply),
        Step::Done(Err(GitError::BackendFailure(text("fatal: broken"))))
    );
    assert!(!fetch_is_due(&mut caches, "/repo", "upstream", 101));
}

#[test]
fn clearing_without_a_path_forgets_everything() {
    let mut caches = GitCaches::new();
    remember(&mut caches, "/repo/a", None, "a");
    remember(&mut caches, "/repo/b", Some("main"), "b");
    find_git_root(
        &mut caches,
        "/repo/a",
        Some(Inspection { directory: text("/repo"), has_marker: true }),
    );
    fetched(&mut caches, "/repo", "upstream", 100);
    assert_eq!(clear_git_cache(&mut caches, None, ClearReply::Start), Step::Done(Ok(())));
    assert_eq!(
        served(&mut caches, "/repo/a", None),
        Step::Ask(Request::LocateRoot { path: text("/repo/a") })
    );
    assert_eq!(
        served(&mut caches, "/repo/b", Some("main")),
        Step::Ask(Request::LocateRoot { path: text("/repo/b") })
    );
    assert_eq!(find_git_root(&mut caches, "/repo/a", None), RootSearch::Inspect(text("/repo/a")));
    assert!(fetch_is_due(&mut caches, "/repo", "upstream", 101));
}

#[test]
fn clearing_a_path_forgets_its_history_and_its_root_only() {
    let mut caches = GitCaches::new();
    remember(&mut caches, "/repo/a", None, "a");
    remember(&mut caches, "/repo/a", Some("main"), "a-main");
    remember(&mut caches, "/repo/b", None, "b");
    for path in ["/repo/a", "/repo/b"] {
        find_git_root(
            &mut caches,
            path,
            Some(Inspection { directory: text("/repo"), has_marker: true }),
        );
    }
    assert_eq!(
        clear_git_cache(&mut caches, Some(text("/repo/a")), ClearReply::Start),
        Step::Ask(Request::LocateRoot { path: text("/repo/a") })
    );
    assert_eq!(
        served(&mut caches, "/repo/a", None),
        Step::Ask(Request::LocateRoot { path: text("/repo/a") })
    );
    assert_eq!(served(&mut caches, "/repo/a", Some("main")), Step::Done(Ok(vec![commit("a-main")])));
    assert_eq!(served(&mut caches, "/repo/b", None), Step::Done(Ok(vec![commit("b")])));
    assert_eq!(find_git_root(&mut caches, "/repo/a", None), RootSearch::Inspect(text("/repo/a")));
    assert_eq!(find_git_root(&mut caches, "/repo/b", None), RootSearch::Found(text("/repo")));
}

#[test]
fn clearing_a_path_goes_on_to_the_remotes_of_its_repository() {
    let mut caches = GitCaches::new();
    assert_eq!(
        clear_git_cache(&mut caches, Some(text("/repo/a")), ClearReply::Root(None)),
        Step::Done(Ok(()))
    );
    assert_eq!(
        clear_git_cache(&mut caches, Some(text("/repo/a")), ClearReply::Root(Some(text("/repo")))),
        Step::Ask(Request::Remotes {
            root: text("/repo"),
            arguments: texts(&["-C", "/repo", "remote"]),
        })
    );
}

#[test]
fn clearing_a_path_forgets_the_fetches_of_the_remotes_listed() {
    let mut caches = GitCaches::new();
    fetched(&mut caches, "/repo", "upstream", 100);
    fetched(&mut caches, "/repo", "fork", 100);
    fetched(&mut caches, "/repo", "mirror", 100);
    fetched(&mut caches, "/other", "upstream", 100);
    let reply = ClearReply::Remotes { root: text("/repo"), outcome: ran("origin\nupstream\nfork\n") };
    assert_eq!(clear_git_cache(&mut caches, Some(text("/repo/a")), reply), Step::Done(Ok(())));
    assert!(fetch_is_due(&mut caches, "/repo", "upstream", 101));
    assert!(fetch_is_due(&mut caches, "/repo", "fork", 101));
    assert!(!fetch_is_due(&mut caches, "/repo", "mirror", 101));
    assert!(!fetch_is_due(&mut caches, "/other", "upstream", 101));
}

#[test]
fn a_failed_listing_forgets_no_fetch() {
    let mut caches = GitCaches::new();
    fetched(&mut caches, "/repo", "upstream", 100);
    let reply = ClearReply::Remotes { root: text("/repo"), outcome: Err(text("gone")) };
    assert_eq!(
        clear_git_cache(&mut caches, Some(text("/repo/a")), reply),
        Step::Done(Err(GitError::BackendFailure(text("Failed to get remotes: gone"))))
    );
    assert!(!fetch_is_due(&mut caches, "/repo", "upstream", 101));
}

#[test]
fn fetches_are_forgotten_by_root_and_remote() {
    let mut caches = GitCaches::new();
    fetched(&mut caches, "/repo", "a", 5);
    fetched(&mut caches, "/repo", "b", 5);
    forget_fetches(&mut caches, "/repo", &texts(&["b", "c", "b"]));
    assert!(!fetch_is_due(&mut caches, "/repo", "a", 6));
    assert!(fetch_is_due(&mut caches, "/repo", "b", 6));
}

#[test]
fn a_cleared_query_is_answered_anew() {
    let mut caches = GitCaches::new();
    remember(&mut caches, "/repo/a", None, "old");
    assert_eq!(served(&mut caches, "/repo/a", None), Step::Done(Ok(vec![commit("old")])));
    clear_git_cache(&mut caches, Some(text("/repo/a")), ClearReply::Start);
    assert_eq!(
        served(&mut caches, "/repo/a", None),
        Step::Ask(Request::LocateRoot { path: text("/repo/a") })
    );
    remember(&mut caches, "/repo/a", None, "new");
    assert_eq!(served(&mut caches, "/repo/a", None), Step::Done(Ok(vec![commit("new")])));
}
