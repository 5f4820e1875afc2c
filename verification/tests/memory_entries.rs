use git_history::store::{fetch_entry, history_entry, root_entry, Cached, HistoryEntry};
use git_history::BasicCommit;
use std::sync::Arc;

fn text(s: &str) -> String {
    s.to_string()
}

fn history() -> Cached {
    let commit = BasicCommit { id: text("a"), message: text("m"), author: text("me"), date: 3 };
    Cached::History(HistoryEntry {
        path: text("/repo/x"),
        branch: Some(text("main")),
        remote: None,
        commits: Arc::new(vec![commit]),
        created_at: 9,
    })
}

#[test]
fn a_lookup_that_found_nothing_has_no_entry_of_any_kind() {
    assert!(history_entry(None).is_none());
    assert_eq!(root_entry(None), None);
    assert_eq!(fetch_entry(None), None);
}

#[test]
fn a_history_is_found_as_it_was_remembered() {
    let hit = history_entry(Some(history())).unwrap();
    assert_eq!(hit.created_at, 9);
    assert_eq!(hit.path, "/repo/x");
    assert_eq!(hit.branch, Some(text("main")));
    assert_eq!(hit.remote, None);
    assert_eq!(hit.commits.len(), 1);
    assert_eq!(hit.commits[0].id, "a");
    assert_eq!(hit.commits[0].date, 3);
}

#[test]
fn a_root_is_found_as_it_was_remembered() {
    assert_eq!(root_entry(Some(Cached::Root(text("/repo")))), Some(text("/repo")));
    assert_eq!(root_entry(Some(Cached::Root(text("")))), Some(text("")));
}

#[test]
fn the_time_of_a_fetch_is_found_as_it_was_remembered() {
    assert_eq!(fetch_entry(Some(Cached::FetchedAt(42))), Some(42));
    assert_eq!(fetch_entry(Some(Cached::FetchedAt(i64::MIN))), Some(i64::MIN));
}

#[test]
fn an_entry_of_another_kind_is_no_entry() {
    assert!(history_entry(Some(Cached::Root(text("/repo")))).is_none());
    assert!(history_entry(Some(Cached::FetchedAt(1))).is_none());
    assert_eq!(root_entry(Some(history())), None);
    assert_eq!(root_entry(Some(Cached::FetchedAt(1))), None);
    assert_eq!(fetch_entry(Some(history())), None);
    assert_eq!(fetch_entry(Some(Cached::Root(text("/repo")))), None);
}
