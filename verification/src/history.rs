//! The history of a path, page by page.
//!
//! A query is answered from memory where its history is remembered. Where
//! it is not, the query goes through the repository: the root is located, a
//! remote other than `origin` is fetched from unless that was done lately,
//! the reference is resolved, the log is printed and decoded or the line of
//! first parents is walked, and the whole history is remembered before the
//! page asked for is cut from it. Later pages of the same query then cost a
//! lookup.
use vstd::prelude::*;
use vstd::string::StringExecFns;
use std::sync::Arc;
use crate::backend::{
    check_run, log_arguments, log_arguments_spec, option_text, output_text, read_output,
    resolve_arguments, resolve_arguments_spec, run_failure, CommandOutput, Request, RequestView,
    Step, StepView,
};
use crate::commit::{commit_views, BasicCommit, CommitView};
use crate::error::{GitError, GitErrorView};
use crate::log::{bad_time, parse_git_log_output, parse_log_spec};
use crate::page::{lemma_pages_cover, page, page_of, pages_joined};
use crate::query::{
    cache_key, reference_name, same_part, HistoryQuery, DEFAULT_PAGE, DEFAULT_PAGE_SIZE,
};
use crate::store::{may_answer, GitCaches, HistoryEntry, HistoryEntryView, HISTORY_TTL_SECS};
use crate::change::Resolution;
use crate::walk::{
    first_blocked, judged, kept_commits, kept_positions, known_after, lemma_first_blocked,
    lemma_walk_keeps_order,
    needed, node_changed, CommitNode, RevisionWalker, WalkStep,
};
use crate::throttle::{
    fetch_failure, fetch_from_remote, fetch_key, fetch_key_spec, fetch_plan, fetch_step,
    fetch_times_after,
};

verus! {

/// What the caller reports to a query that goes through the repository.
#[derive(Debug, PartialEq, Eq)]
pub enum HistoryReply {
    /// Nothing yet: the query begins.
    Start,
    /// The root of the repository that holds the path, or nothing where no
    /// repository holds it.
    Root(Option<String>),
    /// How the fetch into the repository at `root` ended.
    Fetched { root: String, outcome: Result<CommandOutput, String> },
    /// How the run that resolves the reference in the repository at `root`
    /// ended.
    Resolved { root: String, outcome: Result<CommandOutput, String> },
    /// How the run that prints the log ended.
    Logged(Result<CommandOutput, String>),
    /// The commits that the caller found by walking the history itself,
    /// newest first, or why the walk failed.
    Walked(Result<Vec<BasicCommit>, String>),
    /// The line of first parents from the reference of the query back,
    /// newest commit first, each commit with its tree and the tree of its
    /// first parent, or why the line could not be had. The query walks the
    /// line itself and asks for what the path holds in the trees.
    Line(Result<Vec<CommitNode>, String>),
    /// What the path holds in the tree that the step before named, and the
    /// walk that waits for it.
    Entry { walker: RevisionWalker, resolution: Resolution },
}

impl View for Step<Vec<BasicCommit>> {
    type V = StepView<Seq<CommitView>>;

    open spec fn view(&self) -> StepView<Seq<CommitView>> {
        match self {
            Step::Ask(request) => StepView::Ask(request@),
            Step::Done(Ok(commits)) => StepView::Done(Ok(commit_views(commits@))),
            Step::Done(Err(failure)) => StepView::Done(Err(failure@)),
        }
    }
}

/// What `Path::strip_prefix` makes of `path` and `base`: the path that leads
/// from `base` to `path`, and nothing where `path` does not lie at or below
/// `base`. It depends on the two paths alone, by the rules for paths of the
/// platform that the crate is built for; what it is for given paths is not
/// said here.
pub uninterp spec fn relative_path(path: Seq<char>, base: Seq<char>) -> Option<Seq<char>>;

/// `Path::strip_prefix`: the path that leads from `base` to `path`. All that
/// is claimed is that the same paths give the same result.
#[verifier::external_body]
fn relative_to(path: &str, base: &str) -> (relative: Option<String>)
    ensures
        option_text(relative) == relative_path(path@, base@),
{
    std::path::Path::new(path).strip_prefix(base).ok().and_then(|p| p.to_str()).map(
        |s| s.to_string(),
    )
}

/// What names the attempt to print the log, where `git` did not start.
pub open spec fn log_launch() -> Seq<char> {
    "Failed to execute git command: "@
}

/// The step that asks for the log of the path that lies at `relative` in
/// the repository at `root`. A path that does not lie at or below the root
/// has no place in the repository, which is a failure.
pub open spec fn log_step_spec(
    root: Seq<char>,
    reference: Option<Seq<char>>,
    relative: Option<Seq<char>>,
) -> StepView<Seq<CommitView>> {
    match relative {
        Some(inside) => StepView::Ask(
            RequestView::Log {
                root,
                reference,
                path: inside,
                arguments: log_arguments_spec(root, reference, inside),
            },
        ),
        None => StepView::Done(Err(GitErrorView::BackendFailure(outside_root()))),
    }
}

/// What is said of a path that does not lie at or below the root that was
/// reported for it.
pub open spec fn outside_root() -> Seq<char> {
    "Failed to get relative path"@
}

/// The step of a query once the repository at `root` is up to date: a
/// reference that the query names is resolved first, and else the log is
/// asked for.
pub open spec fn walk_step_spec(query: HistoryQuery, root: Seq<char>) -> StepView<Seq<CommitView>> {
    match query.reference() {
        Some(name) => StepView::Ask(
            RequestView::Resolve { root, name, arguments: resolve_arguments_spec(root, name) },
        ),
        None => log_step_spec(root, None, relative_path(query.path@, root)),
    }
}

/// Whether a history that was remembered at `created_at` is still served at
/// `now`: its age is less than the time to live.
pub open spec fn is_fresh(created_at: int, now: int) -> bool {
    now - created_at < HISTORY_TTL_SECS
}

/// Whether `entry` was remembered for `query`: for its path, its branch and
/// its remote.
pub open spec fn remembered_for(entry: HistoryEntryView, query: HistoryQuery) -> bool {
    &&& entry.path == query.path@
    &&& entry.branch == option_text(query.branch)
    &&& entry.remote == option_text(query.remote)
}

/// The entry under which a history is remembered for `query` at `now`.
pub open spec fn entry_for(query: HistoryQuery, history: Seq<CommitView>, now: int) -> HistoryEntryView {
    HistoryEntryView {
        path: query.path@,
        branch: option_text(query.branch),
        remote: option_text(query.remote),
        commits: history,
        created_at: now,
    }
}

/// The step of a query that begins at `now`, when the memory answers
/// `cached` for its key: the page asked for where the history is
/// remembered, was remembered for this very query and is fresh, and else the
/// search for the repository. A history that is no longer fresh counts as
/// forgotten, and so does one that another query left under the same key.
pub open spec fn started_spec(query: HistoryQuery, cached: Option<HistoryEntryView>, now: int) -> StepView<
    Seq<CommitView>,
> {
    match cached {
        Some(entry) if is_fresh(entry.created_at, now) && remembered_for(entry, query) => StepView::Done(
            Ok(page_of(entry.commits, query.page_number(), query.page_size())),
        ),
        _ => StepView::Ask(RequestView::LocateRoot { path: query.path@ }),
    }
}

/// The step of a query once the repository was searched for, when the
/// memory answers `fetched_at` for the last fetch: a failure where there is
/// no repository, the fetch from the remote of the query where one is asked
/// for, and else the walk.
pub open spec fn rooted_spec(
    query: HistoryQuery,
    located: Option<Seq<char>>,
    fetched_at: Option<int>,
    now: int,
) -> StepView<Seq<CommitView>> {
    match located {
        None => StepView::Done(Err(GitErrorView::RepositoryNotFound)),
        Some(root) => match query.remote {
            Some(remote) => match fetch_step(root, remote@, None, fetched_at, now) {
                StepView::Ask(request) => StepView::Ask(request),
                _ => walk_step_spec(query, root),
            },
            None => walk_step_spec(query, root),
        },
    }
}

/// The step of a query after its fetch: the failure of the fetch, or the
/// walk.
pub open spec fn fetched_spec(
    query: HistoryQuery,
    root: Seq<char>,
    outcome: Result<CommandOutput, String>,
) -> StepView<Seq<CommitView>> {
    match query.remote {
        Some(remote) => match fetch_failure(remote@, outcome) {
            Some(failure) => StepView::Done(Err(failure)),
            None => walk_step_spec(query, root),
        },
        None => walk_step_spec(query, root),
    }
}

/// The step of a query after the run that resolves its reference: the
/// failure to run, the reference not found where the run did not succeed,
/// or the request for the log.
pub open spec fn resolved_spec(
    query: HistoryQuery,
    root: Seq<char>,
    outcome: Result<CommandOutput, String>,
) -> StepView<Seq<CommitView>> {
    match run_failure(outcome, log_launch(), false) {
        Some(failure) => StepView::Done(Err(failure)),
        None => match query.reference() {
            Some(name) if !outcome->Ok_0.success => StepView::Done(
                Err(GitErrorView::ReferenceNotFound(name)),
            ),
            _ => log_step_spec(root, query.reference(), relative_path(query.path@, root)),
        },
    }
}

/// The history that a run of the log has printed, or why there is none.
pub open spec fn logged_history(outcome: Result<CommandOutput, String>) -> Result<
    Seq<CommitView>,
    GitErrorView,
> {
    match output_text(outcome, log_launch(), true) {
        Err(failure) => Err(failure),
        Ok(text) => match parse_log_spec(text) {
            Some(history) => Ok(history),
            None => Err(GitErrorView::EncodingFailure(bad_time())),
        },
    }
}

/// The history that the caller has walked, or why there is none.
pub open spec fn walked_history(walked: Result<Vec<BasicCommit>, String>) -> Result<
    Seq<CommitView>,
    GitErrorView,
> {
    match walked {
        Ok(commits) => Ok(commit_views(commits@)),
        Err(reason) => Err(GitErrorView::BackendFailure(reason@)),
    }
}

/// The history that a walk along `line` ends with when it has judged the
/// commits before `from` and knows `known`: the commits that changed the
/// path, where all commits can be judged, and none yet where a tree is left
/// to resolve.
pub open spec fn walk_history(
    line: Seq<CommitNode>,
    known: Map<Seq<char>, Option<Seq<char>>>,
    from: int,
) -> Option<Result<Seq<CommitView>, GitErrorView>> {
    if first_blocked(line, known, from) < line.len() {
        None
    } else {
        Some(Ok(kept_commits(line, known)))
    }
}

/// The history that `reply` brings, if it brings one, or why it brings
/// none. A history printed is decoded; a line of first parents is walked,
/// and brings its history once the last of its trees is resolved: the
/// commits on it that changed the path, in the order of the line.
pub open spec fn reported_history(reply: HistoryReply) -> Option<
    Result<Seq<CommitView>, GitErrorView>,
> {
    match reply {
        HistoryReply::Logged(outcome) => Some(logged_history(outcome)),
        HistoryReply::Walked(walked) => Some(walked_history(walked)),
        HistoryReply::Line(Ok(line)) => walk_history(line@, Map::empty(), 0),
        HistoryReply::Line(Err(reason)) => Some(Err(GitErrorView::BackendFailure(reason@))),
        HistoryReply::Entry { walker, resolution } => walk_history(
            walker.line(),
            known_after(walker.known(), Some(resolution)),
            walker.position(),
        ),
        _ => None,
    }
}

/// How far a query that walks a line itself has come after `reply`: the
/// line, what is known of its trees, and the position before which every
/// commit can be judged by that. For another reply, the empty line.
pub open spec fn walk_after(reply: HistoryReply) -> (
    Seq<CommitNode>,
    Map<Seq<char>, Option<Seq<char>>>,
    int,
) {
    match reply {
        HistoryReply::Line(Ok(line)) => (
            line@,
            Map::empty(),
            first_blocked(line@, Map::empty(), 0),
        ),
        HistoryReply::Entry { walker, resolution } => {
            let known = known_after(walker.known(), Some(resolution));
            (walker.line(), known, first_blocked(walker.line(), known, walker.position()))
        },
        _ => (Seq::empty(), Map::empty(), 0),
    }
}

/// The position from which a query that walks a line itself goes on after
/// `reply`.
pub open spec fn walk_start(reply: HistoryReply) -> int {
    match reply {
        HistoryReply::Entry { walker, resolution } => walker.position(),
        _ => 0,
    }
}

/// A query that walks a line itself ends with the commits on the line that
/// changed the path and with no others, in the order of the line: a commit
/// with a parent is among them exactly when the path holds another thing in
/// its tree than in the tree of its first parent, a commit without a parent
/// exactly when the path exists in its tree, and no commit comes before one
/// that stands before it on the line.
pub proof fn lemma_line_history(reply: HistoryReply, history: Seq<CommitView>)
    requires
        reply is Line || reply is Entry,
        reported_history(reply) == Some(Ok::<Seq<CommitView>, GitErrorView>(history)),
    ensures
        ({
            let (line, known, position) = walk_after(reply);
            let positions = kept_positions(line, known);
            &&& position == line.len()
            &&& history.len() == positions.len()
            &&& forall|i: int|
                0 <= i < history.len() ==> 0 <= #[trigger] positions[i] < line.len()
                    && history[i] == line[positions[i]].commit@ && node_changed(
                    line[positions[i]],
                    known,
                )
            &&& forall|i: int, j: int|
                0 <= i < j < history.len() ==> #[trigger] positions[i] < #[trigger] positions[j]
            &&& forall|p: int|
                0 <= p < line.len() && node_changed(#[trigger] line[p], known)
                    ==> positions.contains(p)
        }),
{
    let (line, known, position) = walk_after(reply);
    lemma_walk_keeps_order(line, known);
    match reply {
        HistoryReply::Entry { walker, resolution } => {
            lemma_first_blocked(line, known, walker.position());
        },
        _ => {
            lemma_first_blocked(line, known, 0);
        },
    }
}

/// The step of a walk along `line` that has judged the commits before
/// `from` and knows `known`, while a tree is left to resolve: the request to
/// resolve the tree of the first commit that cannot be judged.
pub open spec fn tree_step_spec(
    line: Seq<CommitNode>,
    known: Map<Seq<char>, Option<Seq<char>>>,
    from: int,
) -> StepView<Seq<CommitView>> {
    let position = first_blocked(line, known, from);
    StepView::Ask(
        RequestView::ResolveTree {
            line,
            position,
            known,
            tree: needed(line[position], known)->Some_0,
        },
    )
}

/// The step of a query that walks a line itself: the page asked for once the
/// walk has ended, and else the request for the next tree.
pub open spec fn walking_spec(query: HistoryQuery, reply: HistoryReply) -> StepView<
    Seq<CommitView>,
> {
    match reported_history(reply) {
        Some(reported) => reported_spec(query, reported),
        None => tree_step_spec(walk_after(reply).0, walk_after(reply).1, walk_start(reply)),
    }
}

/// The step of a query once its history is reported: the page asked for,
/// cut from that history, or why there is no history.
pub open spec fn reported_spec(
    query: HistoryQuery,
    reported: Result<Seq<CommitView>, GitErrorView>,
) -> StepView<Seq<CommitView>> {
    match reported {
        Ok(history) => StepView::Done(
            Ok(page_of(history, query.page_number(), query.page_size())),
        ),
        Err(failure) => StepView::Done(Err(failure)),
    }
}

/// The step that a query takes on `reply`, when the memory answers `cached`
/// for its history and `fetched_at` for its last fetch.
pub open spec fn list_step(
    query: HistoryQuery,
    reply: HistoryReply,
    now: int,
    cached: Option<HistoryEntryView>,
    fetched_at: Option<int>,
) -> StepView<Seq<CommitView>> {
    match reply {
        HistoryReply::Start => started_spec(query, cached, now),
        HistoryReply::Root(located) => rooted_spec(query, option_text(located), fetched_at, now),
        HistoryReply::Fetched { root, outcome } => fetched_spec(query, root@, outcome),
        HistoryReply::Resolved { root, outcome } => resolved_spec(query, root@, outcome),
        HistoryReply::Logged(outcome) => reported_spec(query, logged_history(outcome)),
        HistoryReply::Walked(walked) => reported_spec(query, walked_history(walked)),
        HistoryReply::Line(_) => walking_spec(query, reply),
        HistoryReply::Entry { walker, resolution } => walking_spec(query, reply),
    }
}

/// The key under which the last fetch of a query is looked up, once its
/// repository is known from `reply`.
pub open spec fn list_fetch_key(query: HistoryQuery, reply: HistoryReply) -> Seq<char> {
    match (reply, query.remote) {
        (HistoryReply::Root(Some(root)), Some(remote)) => fetch_key_spec(root@, remote@),
        _ => Seq::empty(),
    }
}

/// The histories remembered after a step at `now`: a history that was
/// reported is remembered under the key of the query, whole and with the
/// time `now`, and nothing else changes.
pub open spec fn histories_after(
    histories: Map<Seq<char>, HistoryEntryView>,
    query: HistoryQuery,
    reply: HistoryReply,
    now: int,
) -> Map<Seq<char>, HistoryEntryView> {
    match reported_history(reply) {
        Some(Ok(history)) => histories.insert(query.key(), entry_for(query, history, now)),
        _ => histories,
    }
}

/// The fetch times remembered after a step at `now`: a fetch that did not
/// fail is remembered with the time `now`, a failed one is not, and nothing
/// else changes.
pub open spec fn list_fetch_times_after(
    times: Map<Seq<char>, int>,
    query: HistoryQuery,
    reply: HistoryReply,
    now: int,
) -> Map<Seq<char>, int> {
    match (reply, query.remote) {
        (HistoryReply::Fetched { root, outcome }, Some(remote)) => fetch_times_after(
            times,
            root@,
            remote@,
            Some(outcome),
            now,
        ),
        _ => times,
    }
}

/// Two queries with the same key that ask for the same page, and are both
/// answered from memory, get the same commits, whenever they are asked, as
/// long as the history remembered under their key has stayed as it was
/// between them. Only a new report for the key and forgetting change it.
pub proof fn lemma_served_alike(
    first: HistoryQuery,
    second: HistoryQuery,
    before: Map<Seq<char>, HistoryEntryView>,
    after: Map<Seq<char>, HistoryEntryView>,
    first_answer: Option<HistoryEntryView>,
    second_answer: Option<HistoryEntryView>,
    first_now: int,
    second_now: int,
)
    requires
        first.key() == second.key(),
        first.page_number() == second.page_number(),
        first.page_size() == second.page_size(),
        before.contains_key(first.key()) ==> after.contains_key(first.key()) && after[first.key()]
            == before[first.key()],
        may_answer(before, first.key(), first_answer),
        may_answer(after, second.key(), second_answer),
        started_spec(first, first_answer, first_now) is Done,
        started_spec(second, second_answer, second_now) is Done,
    ensures
        started_spec(first, first_answer, first_now) == started_spec(
            second,
            second_answer,
            second_now,
        ),
{
}

/// A query is answered from memory only from a history that is remembered
/// under its key, was remembered for its own path, branch and remote, and
/// whose time to live has not passed: once the history is as old as that,
/// the query goes through the repository again, whatever the memory
/// answers.
pub proof fn lemma_served_fresh(
    query: HistoryQuery,
    histories: Map<Seq<char>, HistoryEntryView>,
    answer: Option<HistoryEntryView>,
    now: int,
)
    requires
        may_answer(histories, query.key(), answer),
        started_spec(query, answer, now) is Done,
    ensures
        histories.contains_key(query.key()),
        remembered_for(histories[query.key()], query),
        now - histories[query.key()].created_at < HISTORY_TTL_SECS,
        started_spec(query, answer, now) == StepView::<Seq<CommitView>>::Done(
            Ok(
                page_of(histories[query.key()].commits, query.page_number(), query.page_size()),
            ),
        ),
{
}

/// `query`, asking for page `page` in pages of `size` commits.
pub open spec fn with_page(query: HistoryQuery, page: usize, size: usize) -> HistoryQuery {
    HistoryQuery {
        path: query.path,
        page: Some(page),
        per_page: Some(size),
        branch: query.branch,
        remote: query.remote,
    }
}

/// The commits that a step ends with, and none where it ends with a
/// failure or does not end.
pub open spec fn served(step: StepView<Seq<CommitView>>) -> Seq<CommitView> {
    match step {
        StepView::Done(Ok(commits)) => commits,
        _ => Seq::empty(),
    }
}

/// What `count` queries are served one after the other when they ask for the
/// pages one to `count` of one query, call `i` at the time `times[i]`, and
/// the memory answers each of them with `entry`.
pub open spec fn pages_served(
    query: HistoryQuery,
    entry: HistoryEntryView,
    size: usize,
    times: Seq<int>,
    count: nat,
) -> Seq<CommitView>
    decreases count,
{
    if count == 0 {
        Seq::empty()
    } else {
        pages_served(query, entry, size, times, (count - 1) as nat) + served(
            started_spec(with_page(query, count as usize, size), Some(entry), times[count - 1]),
        )
    }
}

/// The pages of a query, asked for one after the other while its history
/// is remembered and fresh, give that history back when they are put
/// together: nothing is lost, repeated or moved between the calls.
pub proof fn lemma_pages_served_cover(
    query: HistoryQuery,
    entry: HistoryEntryView,
    size: usize,
    times: Seq<int>,
    count: nat,
)
    requires
        size > 0,
        count <= usize::MAX,
        count <= times.len(),
        count * size >= entry.commits.len(),
        remembered_for(entry, query),
        forall|i: int| 0 <= i < count ==> is_fresh(entry.created_at, #[trigger] times[i]),
    ensures
        pages_served(query, entry, size, times, count) == entry.commits,
{
    lemma_pages_served(query, entry, size, times, count);
    lemma_pages_cover(entry.commits, size as nat, count);
}

/// What is served for the pages one to `count` is these pages of the
/// history remembered.
proof fn lemma_pages_served(
    query: HistoryQuery,
    entry: HistoryEntryView,
    size: usize,
    times: Seq<int>,
    count: nat,
)
    requires
        count <= usize::MAX,
        count <= times.len(),
        remembered_for(entry, query),
        forall|i: int| 0 <= i < count ==> is_fresh(entry.created_at, #[trigger] times[i]),
    ensures
        pages_served(query, entry, size, times, count) == pages_joined(
            entry.commits,
            size as nat,
            count,
        ),
    decreases count,
{
    if count > 0 {
        lemma_pages_served(query, entry, size, times, (count - 1) as nat);
        assert(is_fresh(entry.created_at, times[count - 1]));
        assert(remembered_for(entry, with_page(query, count as usize, size)));
    }
}

/// A step of a query leaves the history that is remembered under `key` as
/// it is, unless it reports a history for that very key.
pub proof fn lemma_history_kept(
    histories: Map<Seq<char>, HistoryEntryView>,
    query: HistoryQuery,
    reply: HistoryReply,
    now: int,
    key: Seq<char>,
)
    requires
        query.key() != key || !(reported_history(reply) matches Some(Ok(_))),
    ensures
        histories_after(histories, query, reply, now).contains_key(key) == histories.contains_key(
            key,
        ),
        histories.contains_key(key) ==> histories_after(histories, query, reply, now)[key]
            == histories[key],
{
}

/// The page that `query` asks for, cut from `history`.
pub fn select_page(query: &HistoryQuery, history: &[BasicCommit]) -> (selected: Vec<BasicCommit>)
    ensures
        commit_views(selected@) == page_of(
            commit_views(history@),
            query.page_number(),
            query.page_size(),
        ),
{
    let page_number = match query.page {
        Some(number) => number,
        None => DEFAULT_PAGE,
    };
    let page_size = match query.per_page {
        Some(size) => size,
        None => DEFAULT_PAGE_SIZE,
    };
    page(history, page_number, page_size)
}

/// Whether a history that was remembered at `created_at` is still served at
/// `now`.
pub fn fresh(created_at: i64, now: i64) -> (still: bool)
    ensures
        still == is_fresh(created_at as int, now as int),
{
    (now as i128) - (created_at as i128) < HISTORY_TTL_SECS as i128
}

/// The step of a query that begins at `now`, given its history as far as it
/// is remembered.
pub fn started_step(query: &HistoryQuery, cached: Option<HistoryEntry>, now: i64) -> (step: Step<
    Vec<BasicCommit>,
>)
    ensures
        step@ == started_spec(
            *query,
            match cached {
                Some(entry) => Some(entry@),
                None => None,
            },
            now as int,
        ),
{
    match cached {
        Some(entry) => if fresh(entry.created_at, now) && entry.path == query.path && same_part(
            &entry.branch,
            &query.branch,
        ) && same_part(&entry.remote, &query.remote) {
            Step::Done(Ok(select_page(query, entry.commits.as_slice())))
        } else {
            Step::Ask(Request::LocateRoot { path: query.path.clone() })
        },
        None => Step::Ask(Request::LocateRoot { path: query.path.clone() }),
    }
}

/// Where `path` lies in the repository at `root`: the path that leads to it
/// from the root. A path that does not lie at or below the root has no
/// place in the repository, which is a failure.
pub fn path_in_repository(path: &str, root: &str) -> (inside: Result<String, GitError>)
    ensures
        match relative_path(path@, root@) {
            Some(relative) => inside matches Ok(found) && found@ == relative,
            None => inside matches Err(failure) && failure@ == GitErrorView::BackendFailure(
                outside_root(),
            ),
        },
{
    match relative_to(path, root) {
        Some(relative) => Ok(relative),
        None => Err(GitError::BackendFailure(String::from_str("Failed to get relative path"))),
    }
}

/// The step that asks for the log of the path that lies at `relative` in
/// the repository at `root`.
pub fn log_step(root: &str, reference: &Option<String>, relative: Option<String>) -> (step: Step<
    Vec<BasicCommit>,
>)
    ensures
        step@ == log_step_spec(root@, option_text(*reference), option_text(relative)),
{
    match relative {
        Some(inside) => {
            let arguments = log_arguments(root, reference, inside.as_str());
            Step::Ask(
                Request::Log {
                    root: root.to_owned(),
                    reference: reference.clone(),
                    path: inside,
                    arguments,
                },
            )
        },
        None => Step::Done(
            Err(GitError::BackendFailure(String::from_str("Failed to get relative path"))),
        ),
    }
}

/// The step of a query once the repository at `root` is up to date.
fn walk_step(query: &HistoryQuery, root: String) -> (step: Step<Vec<BasicCommit>>)
    ensures
        step@ == walk_step_spec(*query, root@),
{
    match reference_name(&query.branch, &query.remote) {
        Some(name) => {
            let arguments = resolve_arguments(root.as_str(), name.as_str());
            Step::Ask(Request::Resolve { root, name, arguments })
        },
        None => {
            let relative = relative_to(query.path.as_str(), root.as_str());
            log_step(root.as_str(), &None, relative)
        },
    }
}

/// The step of a query once the repository was searched for, given the
/// time `fetched_at` of the last fetch as far as it is remembered.
pub fn rooted_step(query: &HistoryQuery, located: Option<String>, fetched_at: Option<i64>, now: i64) -> (step:
    Step<Vec<BasicCommit>>)
    ensures
        step@ == rooted_spec(
            *query,
            option_text(located),
            match fetched_at {
                Some(at) => Some(at as int),
                None => None,
            },
            now as int,
        ),
{
    match located {
        None => Step::Done(Err(GitError::RepositoryNotFound)),
        Some(root) => match &query.remote {
            Some(remote) => match fetch_plan(
                root.as_str(),
                remote.as_str(),
                &None,
                fetched_at,
                now,
            ) {
                Step::Ask(request) => Step::Ask(request),
                Step::Done(_) => walk_step(query, root),
            },
            None => walk_step(query, root),
        },
    }
}

/// The step of a query after the run that resolves its reference.
pub fn resolved_step(query: &HistoryQuery, root: &str, outcome: &Result<CommandOutput, String>) -> (step:
    Step<Vec<BasicCommit>>)
    ensures
        step@ == resolved_spec(*query, root@, *outcome),
{
    match check_run(outcome, "Failed to execute git command: ", false) {
        Some(failure) => Step::Done(Err(failure)),
        None => {
            let reference = reference_name(&query.branch, &query.remote);
            let succeeded = match outcome {
                Ok(output) => output.success,
                Err(_) => false,
            };
            match reference {
                Some(name) => {
                    if !succeeded {
                        Step::Done(Err(GitError::ReferenceNotFound(name)))
                    } else {
                        let relative = relative_to(query.path.as_str(), root);
                        log_step(root, &Some(name), relative)
                    }
                },
                None => {
                    let relative = relative_to(query.path.as_str(), root);
                    log_step(root, &None, relative)
                },
            }
        },
    }
}

/// The history that a run of the log has printed, or why there is none.
pub fn read_history(outcome: &Result<CommandOutput, String>) -> (read: Result<
    Vec<BasicCommit>,
    GitError,
>)
    ensures
        match logged_history(*outcome) {
            Ok(history) => read matches Ok(commits) && commit_views(commits@) == history,
            Err(failure) => read matches Err(error) && error@ == failure,
        },
{
    match read_output(outcome, "Failed to execute git command: ", true) {
        Err(failure) => Err(failure),
        Ok(text) => parse_git_log_output(text.as_str()),
    }
}

/// The step of a query once its history is reported. The history is
/// remembered, whole, before the page is cut from it.
fn reported_step(
    caches: &mut GitCaches,
    query: &HistoryQuery,
    reported: Result<Vec<BasicCommit>, GitError>,
    now: i64,
) -> (step: Step<Vec<BasicCommit>>)
    ensures
        match reported {
            Ok(history) => {
                &&& step@ == reported_spec(*query, Ok(commit_views(history@)))
                &&& final(caches).histories() == old(caches).histories().insert(
                    query.key(),
                    entry_for(*query, commit_views(history@), now as int),
                )
            },
            Err(failure) => {
                &&& step@ == reported_spec(*query, Err(failure@))
                &&& final(caches).histories() == old(caches).histories()
            },
        },
        final(caches).roots() == old(caches).roots(),
        final(caches).fetch_times() == old(caches).fetch_times(),
{
    match reported {
        Err(failure) => Step::Done(Err(failure)),
        Ok(history) => {
            let selected = select_page(query, history.as_slice());
            let key = cache_key(query.path.as_str(), &query.branch, &query.remote);
            caches.remember_history(
                key,
                HistoryEntry {
                    path: query.path.clone(),
                    branch: query.branch.clone(),
                    remote: query.remote.clone(),
                    commits: Arc::new(history),
                    created_at: now,
                },
            );
            Step::Done(Ok(selected))
        },
    }
}

/// One step of the query for the history of `path`: page `page` of it, in
/// pages of `per_page` commits, on `branch` of `remote`. `reply` is
/// [`HistoryReply::Start`] when the query begins and afterwards what the
/// caller has to report on the request of the step before; `now` is the time
/// in seconds since the epoch.
///
/// The log that the query asks for can be answered in three ways: with what
/// `git` printed, with the commits that the caller found itself, or with the
/// line of first parents alone. The query then walks the line itself,
/// asks for what the path holds in each tree, once, and keeps the commits
/// that changed the path, in the order of the line.
///
/// The step depends on the caller's report and on what the memory answers;
/// the memory may have forgotten what it was told. Whatever it answers, the
/// step is the one that [`list_step`] gives for that answer, a history is
/// remembered when it was reported and a fetch when it did not fail.
pub fn list_folder_commits(
    caches: &mut GitCaches,
    path: String,
    page: Option<usize>,
    per_page: Option<usize>,
    branch: Option<String>,
    remote: Option<String>,
    reply: HistoryReply,
    now: i64,
) -> (step: Step<Vec<BasicCommit>>)
    ensures
        exists|cached: Option<HistoryEntryView>, fetched_at: Option<int>|
            #![trigger list_step((HistoryQuery { path, page, per_page, branch, remote }), reply, now as int, cached, fetched_at)]
            {
                let query = HistoryQuery { path, page, per_page, branch, remote };
                &&& may_answer(old(caches).histories(), query.key(), cached)
                &&& may_answer(old(caches).fetch_times(), list_fetch_key(query, reply), fetched_at)
                &&& step@ == list_step(query, reply, now as int, cached, fetched_at)
            },
        final(caches).histories() == histories_after(
            old(caches).histories(),
            (HistoryQuery { path, page, per_page, branch, remote }),
            reply,
            now as int,
        ),
        final(caches).fetch_times() == list_fetch_times_after(
            old(caches).fetch_times(),
            (HistoryQuery { path, page, per_page, branch, remote }),
            reply,
            now as int,
        ),
        final(caches).roots() == old(caches).roots(),
        judged(walk_after(reply).0, walk_after(reply).1, walk_after(reply).2),
{
    let query = HistoryQuery { path, page, per_page, branch, remote };
    let ghost no_history: Option<HistoryEntryView> = None;
    let ghost no_fetch: Option<int> = None;
    match reply {
        HistoryReply::Start => {
            let key = cache_key(query.path.as_str(), &query.branch, &query.remote);
            let cached = caches.history(key.as_str());
            let ghost answer = match &cached {
                Some(entry) => Some(entry@),
                None => None,
            };
            let step = started_step(&query, cached, now);
            proof {
                assert(may_answer(old(caches).histories(), query.key(), answer));
                assert(step@ == list_step(query, reply, now as int, answer, no_fetch));
            }
            step
        },
        HistoryReply::Root(located) => {
            let fetched_at = match (&located, &query.remote) {
                (Some(root), Some(remote)) => {
                    let key = fetch_key(root.as_str(), remote.as_str());
                    caches.fetch_time(key.as_str())
                },
                _ => None,
            };
            let ghost answer = match fetched_at {
                Some(at) => Some(at as int),
                None => None,
            };
            let step = rooted_step(&query, located, fetched_at, now);
            proof {
                assert(may_answer(
                    old(caches).fetch_times(),
                    list_fetch_key(query, reply),
                    answer,
                ));
                assert(step@ == list_step(query, reply, now as int, no_history, answer));
            }
            step
        },
        HistoryReply::Fetched { root, outcome } => {
            let step = match &query.remote {
                Some(remote) => match fetch_from_remote(
                    caches,
                    root.as_str(),
                    remote.as_str(),
                    Some(outcome),
                    now,
                ) {
                    Step::Done(Err(failure)) => Step::Done(Err(failure)),
                    _ => walk_step(&query, root),
                },
                None => walk_step(&query, root),
            };
            proof {
                assert(step@ == list_step(query, reply, now as int, no_history, no_fetch));
            }
            step
        },
        HistoryReply::Resolved { root, outcome } => {
            let step = resolved_step(&query, root.as_str(), &outcome);
            proof {
                assert(step@ == list_step(query, reply, now as int, no_history, no_fetch));
            }
            step
        },
        HistoryReply::Logged(outcome) => {
            let step = reported_step(caches, &query, read_history(&outcome), now);
            proof {
                assert(step@ == list_step(query, reply, now as int, no_history, no_fetch));
            }
            step
        },
        HistoryReply::Walked(walked) => {
            let reported = match walked {
                Ok(commits) => Ok(commits),
                Err(reason) => Err(GitError::BackendFailure(reason)),
            };
            let step = reported_step(caches, &query, reported, now);
            proof {
                assert(step@ == list_step(query, reply, now as int, no_history, no_fetch));
            }
            step
        },
        HistoryReply::Line(Err(reason)) => {
            let step = reported_step(caches, &query, Err(GitError::BackendFailure(reason)), now);
            proof {
                assert(step@ == list_step(query, reply, now as int, no_history, no_fetch));
            }
            step
        },
        HistoryReply::Line(Ok(line)) => {
            let step = walked_step(caches, &query, RevisionWalker::new(line).walk(None), now);
            proof {
                assert(step@ == list_step(query, reply, now as int, no_history, no_fetch));
            }
            step
        },
        HistoryReply::Entry { walker, resolution } => {
            let step = walked_step(caches, &query, walker.walk(Some(resolution)), now);
            proof {
                assert(step@ == list_step(query, reply, now as int, no_history, no_fetch));
            }
            step
        },
    }
}

/// The step of a query after a step of its walk: the request for the tree
/// that the walk names, or the page asked for, cut from the history that the
/// walk has ended with and that is remembered, whole.
fn walked_step(caches: &mut GitCaches, query: &HistoryQuery, outcome: WalkStep, now: i64) -> (step:
    Step<Vec<BasicCommit>>)
    ensures
        match outcome {
            WalkStep::Resolve { walker, tree } => {
                &&& step@ == StepView::<Seq<CommitView>>::Ask(walker_request(walker, tree@))
                &&& final(caches).histories() == old(caches).histories()
            },
            WalkStep::Done(commits) => {
                &&& step@ == reported_spec(*query, Ok(commit_views(commits@)))
                &&& final(caches).histories() == old(caches).histories().insert(
                    query.key(),
                    entry_for(*query, commit_views(commits@), now as int),
                )
            },
        },
        final(caches).roots() == old(caches).roots(),
        final(caches).fetch_times() == old(caches).fetch_times(),
{
    match outcome {
        WalkStep::Resolve { walker, tree } => Step::Ask(Request::ResolveTree { walker, tree }),
        WalkStep::Done(commits) => reported_step(caches, query, Ok(commits), now),
    }
}

/// The request to resolve `tree` for `walker`.
pub open spec fn walker_request(walker: RevisionWalker, tree: Seq<char>) -> RequestView {
    RequestView::ResolveTree {
        line: walker.line(),
        position: walker.position(),
        known: walker.known(),
        tree,
    }
}

} // verus!
