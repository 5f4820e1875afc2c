//! Watching a reference for a new commit.
//!
//! The caller knows the newest commit it has shown. The check fetches,
//! reads the one newest commit of the reference, whatever path it touched,
//! and hands it back unless it is the commit that the caller knows.
use vstd::prelude::*;
use vstd::string::StringExecFns;
use crate::backend::{
    check_run, fetch_arguments, fetch_arguments_spec, newest_arguments, newest_arguments_spec,
    option_text, resolve_arguments, resolve_arguments_spec, run_failure, Request, RequestView,
    Step, StepView,
};
use crate::commit::{commit_views, BasicCommit, CommitView};
use crate::error::{GitError, GitErrorView};
use crate::history::{log_launch, logged_history, read_history, walked_history, HistoryReply};
use crate::query::{reference_name, reference_name_spec};
use crate::walk::CommitNode;

verus! {

impl View for Step<Option<BasicCommit>> {
    type V = StepView<Option<CommitView>>;

    open spec fn view(&self) -> StepView<Option<CommitView>> {
        match self {
            Step::Ask(request) => StepView::Ask(request@),
            Step::Done(Ok(Some(commit))) => StepView::Done(Ok(Some(commit@))),
            Step::Done(Ok(None)) => StepView::Done(Ok(None)),
            Step::Done(Err(failure)) => StepView::Done(Err(failure@)),
        }
    }
}

/// The remote that is fetched from before the check: the one named, or
/// `upstream`.
pub open spec fn watched_remote(remote: Option<Seq<char>>) -> Seq<char> {
    match remote {
        Some(name) => name,
        None => "upstream"@,
    }
}

/// What names the attempt to fetch, where `git` did not start.
pub open spec fn watch_launch() -> Seq<char> {
    "Failed to fetch from remote: "@
}

/// The newest commit of `history`, unless there is none or it is the commit
/// that the caller knows by the identifier `known`.
pub open spec fn newer_commit_spec(history: Seq<CommitView>, known: Option<Seq<char>>) -> Option<
    CommitView,
> {
    if history.len() == 0 || known == Some(history[0].id) {
        None
    } else {
        Some(history[0])
    }
}

/// The step of the check that asks for the newest commit of the repository
/// at `root`.
pub open spec fn newest_step_spec(root: Seq<char>, reference: Option<Seq<char>>) -> StepView<
    Option<CommitView>,
> {
    StepView::Ask(
        RequestView::Newest { root, reference, arguments: newest_arguments_spec(root, reference) },
    )
}

/// The step that the check takes on `reply`. It locates the repository,
/// fetches from the remote, resolves a reference that is named, asks for the
/// newest commit and compares it with the one known. A fetch that did not
/// start, or did not report success, ends the check with that failure.
pub open spec fn check_step(
    path: Seq<char>,
    branch: Option<Seq<char>>,
    remote: Option<Seq<char>>,
    last_commit_id: Option<Seq<char>>,
    reply: HistoryReply,
) -> StepView<Option<CommitView>> {
    let reference = reference_name_spec(branch, remote);
    match reply {
        HistoryReply::Start => StepView::Ask(RequestView::LocateRoot { path }),
        HistoryReply::Root(None) => StepView::Done(Err(GitErrorView::RepositoryNotFound)),
        HistoryReply::Root(Some(root)) => StepView::Ask(
            RequestView::Fetch {
                root: root@,
                arguments: fetch_arguments_spec(root@, watched_remote(remote)),
            },
        ),
        HistoryReply::Fetched { root, outcome } => match run_failure(
            outcome,
            watch_launch(),
            true,
        ) {
            Some(failure) => StepView::Done(Err(failure)),
            None => match reference {
                Some(name) => StepView::Ask(
                    RequestView::Resolve {
                        root: root@,
                        name,
                        arguments: resolve_arguments_spec(root@, name),
                    },
                ),
                None => newest_step_spec(root@, None),
            },
        },
        HistoryReply::Resolved { root, outcome } => match run_failure(
            outcome,
            log_launch(),
            false,
        ) {
            Some(failure) => StepView::Done(Err(failure)),
            None => match reference {
                Some(name) if !outcome->Ok_0.success => StepView::Done(
                    Err(GitErrorView::ReferenceNotFound(name)),
                ),
                _ => newest_step_spec(root@, reference),
            },
        },
        HistoryReply::Logged(outcome) => newer_step_spec(logged_history(outcome), last_commit_id),
        HistoryReply::Walked(walked) => newer_step_spec(walked_history(walked), last_commit_id),
        HistoryReply::Line(Ok(line)) => newer_step_spec(
            Ok(line_commits(line@)),
            last_commit_id,
        ),
        HistoryReply::Line(Err(reason)) => StepView::Done(
            Err(GitErrorView::BackendFailure(reason@)),
        ),
        HistoryReply::Entry { walker, resolution } => StepView::Done(
            Err(GitErrorView::BackendFailure(unasked())),
        ),
    }
}

/// The commits on `line`, in the order of the line.
pub open spec fn line_commits(line: Seq<CommitNode>) -> Seq<CommitView> {
    Seq::new(line.len(), |i: int| line[i].commit@)
}

/// What is said of a reply to a request that the check never makes: it asks
/// for no tree.
pub open spec fn unasked() -> Seq<char> {
    "Unexpected reply: the check resolves no tree"@
}

/// The end of the check once the history of the reference is reported: the
/// newest commit unless it is known, or why there is no history.
pub open spec fn newer_step_spec(
    reported: Result<Seq<CommitView>, GitErrorView>,
    known: Option<Seq<char>>,
) -> StepView<Option<CommitView>> {
    match reported {
        Ok(history) => StepView::Done(Ok(newer_commit_spec(history, known))),
        Err(failure) => StepView::Done(Err(failure)),
    }
}

/// The newest commit of `history`, unless there is none or it is the commit
/// that the caller knows by the identifier `known`.
pub fn newer_commit(history: &[BasicCommit], known: &Option<String>) -> (newer: Option<BasicCommit>)
    ensures
        match newer_commit_spec(commit_views(history@), option_text(*known)) {
            Some(view) => newer matches Some(commit) && commit@ == view,
            None => newer is None,
        },
{
    if history.len() == 0 {
        return None;
    }
    let newest = &history[0];
    match known {
        Some(id) => if newest.id == *id {
            None
        } else {
            Some(newest.clone())
        },
        None => Some(newest.clone()),
    }
}

/// The step of the check that asks for the newest commit of the repository
/// at `root`.
fn newest_step(root: &str, reference: &Option<String>) -> (step: Step<Option<BasicCommit>>)
    ensures
        step@ == newest_step_spec(root@, option_text(*reference)),
{
    Step::Ask(
        Request::Newest {
            root: root.to_owned(),
            reference: reference.clone(),
            arguments: newest_arguments(root, reference),
        },
    )
}

/// One step of the check for a commit newer than `last_commit_id` on
/// `branch` of `remote`, in the repository that holds `path`. `reply` is
/// [`HistoryReply::Start`] when the check begins and afterwards what the
/// caller has to report on the request of the step before.
///
/// The check ends with nothing where the newest commit of the reference is
/// the one known, or where the reference has no commit, and with the newest
/// commit otherwise. It ends with the failure where the fetch, the
/// resolving of the reference or the reading of the newest commit failed.
pub fn check_new_commits(
    path: String,
    branch: Option<String>,
    remote: Option<String>,
    last_commit_id: Option<String>,
    reply: HistoryReply,
) -> (step: Step<Option<BasicCommit>>)
    ensures
        step@ == check_step(
            path@,
            option_text(branch),
            option_text(remote),
            option_text(last_commit_id),
            reply,
        ),
{
    match reply {
        HistoryReply::Start => Step::Ask(Request::LocateRoot { path }),
        HistoryReply::Root(None) => Step::Done(Err(GitError::RepositoryNotFound)),
        HistoryReply::Root(Some(root)) => {
            let arguments = match &remote {
                Some(name) => fetch_arguments(root.as_str(), name.as_str()),
                None => fetch_arguments(root.as_str(), "upstream"),
            };
            Step::Ask(Request::Fetch { root, arguments })
        },
        HistoryReply::Fetched { root, outcome } => {
            match check_run(&outcome, "Failed to fetch from remote: ", true) {
                Some(failure) => Step::Done(Err(failure)),
                None => match reference_name(&branch, &remote) {
                    Some(name) => {
                        let arguments = resolve_arguments(root.as_str(), name.as_str());
                        Step::Ask(Request::Resolve { root, name, arguments })
                    },
                    None => newest_step(root.as_str(), &None),
                },
            }
        },
        HistoryReply::Resolved { root, outcome } => {
            match check_run(&outcome, "Failed to execute git command: ", false) {
                Some(failure) => Step::Done(Err(failure)),
                None => {
                    let succeeded = match &outcome {
                        Ok(output) => output.success,
                        Err(_) => false,
                    };
                    match reference_name(&branch, &remote) {
                        Some(name) => if !succeeded {
                            Step::Done(Err(GitError::ReferenceNotFound(name)))
                        } else {
                            newest_step(root.as_str(), &Some(name))
                        },
                        None => newest_step(root.as_str(), &None),
                    }
                },
            }
        },
        HistoryReply::Logged(outcome) => match read_history(&outcome) {
            Ok(history) => Step::Done(Ok(newer_commit(history.as_slice(), &last_commit_id))),
            Err(failure) => Step::Done(Err(failure)),
        },
        HistoryReply::Walked(Ok(history)) => Step::Done(
            Ok(newer_commit(history.as_slice(), &last_commit_id)),
        ),
        HistoryReply::Walked(Err(reason)) => Step::Done(Err(GitError::BackendFailure(reason))),
        HistoryReply::Line(Ok(line)) => Step::Done(Ok(newest_on_line(&line, &last_commit_id))),
        HistoryReply::Line(Err(reason)) => Step::Done(Err(GitError::BackendFailure(reason))),
        HistoryReply::Entry { walker, resolution } => Step::Done(
            Err(
                GitError::BackendFailure(
                    String::from_str("Unexpected reply: the check resolves no tree"),
                ),
            ),
        ),
    }
}

/// The newest commit on `line`, unless there is none or it is the commit
/// that the caller knows by the identifier `known`.
pub fn newest_on_line(line: &Vec<CommitNode>, known: &Option<String>) -> (newer: Option<
    BasicCommit,
>)
    ensures
        match newer_commit_spec(line_commits(line@), option_text(*known)) {
            Some(view) => newer matches Some(commit) && commit@ == view,
            None => newer is None,
        },
{
    if line.len() == 0 {
        return None;
    }
    let newest = &line[0].commit;
    match known {
        Some(id) => if newest.id == *id {
            None
        } else {
            Some(newest.clone())
        },
        None => Some(newest.clone()),
    }
}

} // verus!
