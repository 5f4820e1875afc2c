//! Fetching from a remote, but not too often.
//!
//! A fetch crosses the network and is far dearer than a walk through the
//! history, and queries come in bursts, one for each page. So the time of
//! the last fetch that did not fail is remembered for each repository and
//! remote, and while it is recent no other fetch is asked for. A fetch that
//! failed is not remembered: the next query tries again. From `origin`
//! nothing is fetched at all; it is taken to be kept current by other means.
use vstd::prelude::*;
use vstd::string::StringExecFns;
use crate::backend::{
    check_run, fetch_arguments, fetch_arguments_spec, run_failure, CommandOutput, Request,
    RequestView, Step, StepView,
};
use crate::error::GitErrorView;
use crate::store::{may_answer, GitCaches};

verus! {

/// Seconds that must have passed since a fetch from a remote before the
/// next one: as long as the time of a fetch is remembered.
pub const FETCH_WINDOW_SECS: i64 = 3600;

/// The key under which the last fetch from `remote` into the repository at
/// `root` is remembered.
pub open spec fn fetch_key_spec(root: Seq<char>, remote: Seq<char>) -> Seq<char> {
    root + ":"@ + remote
}

/// Whether a fetch is due at `now` when the last one was at `last`: none is
/// remembered, or the window has passed since.
pub open spec fn fetch_due_spec(last: Option<int>, now: int) -> bool {
    match last {
        Some(at) => now - at >= FETCH_WINDOW_SECS,
        None => true,
    }
}

/// What names the attempt to fetch from `remote`, where `git` did not start.
pub open spec fn fetch_launch(remote: Seq<char>) -> Seq<char> {
    "Failed to fetch from remote "@ + remote + ": "@
}

/// Why a fetch from `remote` failed, if it did: `git` did not start, or did
/// not report success.
pub open spec fn fetch_failure(remote: Seq<char>, outcome: Result<CommandOutput, String>) -> Option<
    GitErrorView,
> {
    run_failure(outcome, fetch_launch(remote), true)
}

/// The step of a fetch from `remote` into the repository at `root`. Before
/// the fetch has run, `outcome` is nothing: the fetch is asked for where the
/// remote is not `origin` and a fetch is due by `fetched_at`, the time of the
/// last one as far as it is remembered, and else there is nothing to do.
/// After it has run, it has failed or is done.
pub open spec fn fetch_step(
    root: Seq<char>,
    remote: Seq<char>,
    outcome: Option<Result<CommandOutput, String>>,
    fetched_at: Option<int>,
    now: int,
) -> StepView<()> {
    match outcome {
        None => if remote != "origin"@ && fetch_due_spec(fetched_at, now) {
            StepView::Ask(
                RequestView::Fetch { root, arguments: fetch_arguments_spec(root, remote) },
            )
        } else {
            StepView::Done(Ok(()))
        },
        Some(outcome) => match fetch_failure(remote, outcome) {
            Some(failure) => StepView::Done(Err(failure)),
            None => StepView::Done(Ok(())),
        },
    }
}

/// The fetch times remembered after a step of a fetch at `now`: a fetch that
/// has run and did not fail is remembered with the time `now`, and nothing
/// else changes.
pub open spec fn fetch_times_after(
    times: Map<Seq<char>, int>,
    root: Seq<char>,
    remote: Seq<char>,
    outcome: Option<Result<CommandOutput, String>>,
    now: int,
) -> Map<Seq<char>, int> {
    match outcome {
        Some(outcome) if fetch_failure(remote, outcome) is None => times.insert(
            fetch_key_spec(root, remote),
            now,
        ),
        _ => times,
    }
}

/// The key under which the last fetch from `remote` into the repository at
/// `root` is remembered.
pub fn fetch_key(root: &str, remote: &str) -> (key: String)
    ensures
        key@ == fetch_key_spec(root@, remote@),
{
    String::from_str(root).concat(":").concat(remote)
}

/// Whether a fetch is due at `now` when the last one was at `last`.
pub fn fetch_due(last: Option<i64>, now: i64) -> (due: bool)
    ensures
        due == fetch_due_spec(
            match last {
                Some(at) => Some(at as int),
                None => None,
            },
            now as int,
        ),
{
    match last {
        Some(at) => (now as i128) - (at as i128) >= FETCH_WINDOW_SECS as i128,
        None => true,
    }
}

/// The step of a fetch from `remote` into the repository at `root`, given
/// the time of the last fetch as far as it is remembered.
pub fn fetch_plan(
    root: &str,
    remote: &str,
    outcome: &Option<Result<CommandOutput, String>>,
    fetched_at: Option<i64>,
    now: i64,
) -> (step: Step<()>)
    ensures
        step@ == fetch_step(
            root@,
            remote@,
            *outcome,
            match fetched_at {
                Some(at) => Some(at as int),
                None => None,
            },
            now as int,
        ),
{
    match outcome {
        None => {
            let origin = String::from_str("origin");
            if String::from_str(remote) != origin && fetch_due(fetched_at, now) {
                Step::Ask(
                    Request::Fetch {
                        root: String::from_str(root),
                        arguments: fetch_arguments(root, remote),
                    },
                )
            } else {
                Step::Done(Ok(()))
            }
        },
        Some(outcome) => {
            let launch = String::from_str("Failed to fetch from remote ").concat(remote).concat(
                ": ",
            );
            match check_run(outcome, launch.as_str(), true) {
                Some(failure) => Step::Done(Err(failure)),
                None => Step::Done(Ok(())),
            }
        },
    }
}

/// One step of a fetch from `remote` into the repository at `git_root`.
/// `outcome` is nothing before the fetch has run, and afterwards how the run
/// ended; `now` is the time in seconds since the epoch.
///
/// Whether a fetch is asked for depends on what the memory answers for the
/// last fetch; the memory may have forgotten it, and then the fetch is asked
/// for again. A fetch is never passed over but for `origin` or because one
/// is remembered within the window.
pub fn fetch_from_remote(
    caches: &mut GitCaches,
    git_root: &str,
    remote: &str,
    outcome: Option<Result<CommandOutput, String>>,
    now: i64,
) -> (step: Step<()>)
    ensures
        exists|fetched_at: Option<int>| #[trigger]
            may_answer(
                old(caches).fetch_times(),
                fetch_key_spec(git_root@, remote@),
                fetched_at,
            ) && step@ == fetch_step(git_root@, remote@, outcome, fetched_at, now as int),
        final(caches).fetch_times() == fetch_times_after(
            old(caches).fetch_times(),
            git_root@,
            remote@,
            outcome,
            now as int,
        ),
        final(caches).histories() == old(caches).histories(),
        final(caches).roots() == old(caches).roots(),
{
    let key = fetch_key(git_root, remote);
    let fetched_at = match &outcome {
        None => caches.fetch_time(key.as_str()),
        Some(_) => None,
    };
    let ghost answer = match fetched_at {
        Some(at) => Some(at as int),
        None => None,
    };
    let step = fetch_plan(git_root, remote, &outcome, fetched_at, now);
    match (&outcome, &step) {
        (Some(_), Step::Done(Ok(_))) => {
            caches.remember_fetch(key, now);
        },
        _ => {},
    }
    proof {
        assert(may_answer(
            old(caches).fetch_times(),
            fetch_key_spec(git_root@, remote@),
            answer,
        ));
        assert(step@ == fetch_step(git_root@, remote@, outcome, answer, now as int));
    }
    step
}

} // verus!
