//! The names that a repository knows, and forgetting what is remembered.
use vstd::prelude::*;
use crate::backend::{
    branches_arguments, branches_arguments_spec, output_text, read_output, remotes_arguments,
    remotes_arguments_spec, texts, CommandOutput, Request, RequestView, Step, StepView,
};
use crate::commit::GitReferences;
use crate::error::GitErrorView;
use crate::query::{cache_key, cache_key_spec};
use crate::throttle::{fetch_key, fetch_key_spec};
use crate::store::{GitCaches, HistoryEntryView};
use crate::text::{chars_of, lines, lines_of, text_of};

verus! {

/// What a [`GitReferences`] holds, as mathematical values.
pub ghost struct ReferencesView {
    pub remotes: Seq<Seq<char>>,
    pub branches: Seq<Seq<char>>,
}

impl View for GitReferences {
    type V = ReferencesView;

    open spec fn view(&self) -> ReferencesView {
        ReferencesView { remotes: texts(self.remotes@), branches: texts(self.branches@) }
    }
}

impl View for Step<GitReferences> {
    type V = StepView<ReferencesView>;

    open spec fn view(&self) -> StepView<ReferencesView> {
        match self {
            Step::Ask(request) => StepView::Ask(request@),
            Step::Done(Ok(references)) => StepView::Done(Ok(references@)),
            Step::Done(Err(failure)) => StepView::Done(Err(failure@)),
        }
    }
}

/// What the caller reports to the listing of references.
#[derive(Debug, PartialEq, Eq)]
pub enum ReferencesReply {
    /// Nothing yet: the listing begins.
    Start,
    /// How the run that lists the remotes ended.
    Remotes(Result<CommandOutput, String>),
    /// How the run that lists the branches ended, and the remotes that were
    /// listed before.
    Branches { remotes: Vec<String>, outcome: Result<CommandOutput, String> },
}

/// What the caller reports while something is forgotten.
#[derive(Debug, PartialEq, Eq)]
pub enum ClearReply {
    /// Nothing yet.
    Start,
    /// The root of the repository that holds the path, or nothing where no
    /// repository holds it.
    Root(Option<String>),
    /// How the run that lists the remotes of the repository at `root`
    /// ended.
    Remotes { root: String, outcome: Result<CommandOutput, String> },
}

/// What names the attempt to list the remotes, where `git` did not start.
pub open spec fn remotes_launch() -> Seq<char> {
    "Failed to get remotes: "@
}

/// What names the attempt to list the branches, where `git` did not start.
pub open spec fn branches_launch() -> Seq<char> {
    "Failed to get branches: "@
}

/// The names that a run of `git` has listed, one on each line, or why there
/// are none: the run did not start, did not report success, or wrote what is
/// no text.
pub open spec fn listed_names(outcome: Result<CommandOutput, String>, launch: Seq<char>) -> Result<
    Seq<Seq<char>>,
    GitErrorView,
> {
    match output_text(outcome, launch, true) {
        Ok(text) => Ok(lines_of(text)),
        Err(failure) => Err(failure),
    }
}

/// The step that the listing of the references of the repository at `path`
/// takes on `reply`: it lists the remotes, then the branches, and ends with
/// both.
pub open spec fn references_step(path: Seq<char>, reply: ReferencesReply) -> StepView<
    ReferencesView,
> {
    match reply {
        ReferencesReply::Start => StepView::Ask(
            RequestView::Remotes { root: path, arguments: remotes_arguments_spec(path) },
        ),
        ReferencesReply::Remotes(outcome) => match listed_names(outcome, remotes_launch()) {
            Ok(remotes) => StepView::Ask(
                RequestView::Branches {
                    root: path,
                    remotes,
                    arguments: branches_arguments_spec(path),
                },
            ),
            Err(failure) => StepView::Done(Err(failure)),
        },
        ReferencesReply::Branches { remotes, outcome } => match listed_names(
            outcome,
            branches_launch(),
        ) {
            Ok(branches) => StepView::Done(
                Ok(ReferencesView { remotes: texts(remotes@), branches }),
            ),
            Err(failure) => StepView::Done(Err(failure)),
        },
    }
}

/// The lines of `text`, each a string of its own.
pub fn names_in(text: &str) -> (names: Vec<String>)
    ensures
        texts(names@) == lines_of(text@),
{
    let chars = chars_of(text);
    let parts = lines(chars.as_slice());
    let mut names: Vec<String> = Vec::new();
    let mut i: usize = 0;
    while i < parts.len()
        invariant
            i <= parts@.len(),
            parts@.len() == lines_of(text@).len(),
            forall|j: int| 0 <= j < parts@.len() ==> (#[trigger] parts@[j])@ == lines_of(text@)[j],
            names@.len() == i,
            forall|j: int| 0 <= j < i ==> (#[trigger] names@[j])@ == lines_of(text@)[j],
        decreases parts@.len() - i,
    {
        names.push(text_of(parts[i]));
        i += 1;
    }
    proof {
        assert(texts(names@) =~= lines_of(text@));
    }
    names
}

/// One step of the listing of the references of the repository at `path`.
/// `reply` is [`ReferencesReply::Start`] when the listing begins and
/// afterwards what the caller has to report on the request of the step
/// before.
pub fn get_git_references(path: &str, reply: ReferencesReply) -> (step: Step<GitReferences>)
    ensures
        step@ == references_step(path@, reply),
{
    match reply {
        ReferencesReply::Start => Step::Ask(
            Request::Remotes { root: path.to_owned(), arguments: remotes_arguments(path) },
        ),
        ReferencesReply::Remotes(outcome) => match read_output(
            &outcome,
            "Failed to get remotes: ",
            true,
        ) {
            Ok(text) => Step::Ask(
                Request::Branches {
                    root: path.to_owned(),
                    remotes: names_in(text.as_str()),
                    arguments: branches_arguments(path),
                },
            ),
            Err(failure) => Step::Done(Err(failure)),
        },
        ReferencesReply::Branches { remotes, outcome } => match read_output(
            &outcome,
            "Failed to get branches: ",
            true,
        ) {
            Ok(text) => Step::Done(
                Ok(GitReferences { remotes, branches: names_in(text.as_str()) }),
            ),
            Err(failure) => Step::Done(Err(failure)),
        },
    }
}

/// The keys under which the last fetches from `remotes` into the repository
/// at `root` are remembered.
pub open spec fn fetch_keys(root: Seq<char>, remotes: Seq<Seq<char>>) -> Set<Seq<char>> {
    Set::new(
        |key: Seq<char>|
            exists|i: int| 0 <= i < remotes.len() && key == fetch_key_spec(root, #[trigger] remotes[i]),
    )
}

/// The step that the forgetting takes on `reply`. With no path, everything
/// is forgotten at once. With a path, the search for its repository
/// follows, then the listing of the remotes of that repository; a path that
/// lies in no repository has no more to forget.
pub open spec fn clear_step(path: Option<Seq<char>>, reply: ClearReply) -> StepView<()> {
    match reply {
        ClearReply::Start => match path {
            Some(path) => StepView::Ask(RequestView::LocateRoot { path }),
            None => StepView::Done(Ok(())),
        },
        ClearReply::Root(Some(root)) => StepView::Ask(
            RequestView::Remotes { root: root@, arguments: remotes_arguments_spec(root@) },
        ),
        ClearReply::Root(None) => StepView::Done(Ok(())),
        ClearReply::Remotes { root, outcome } => match listed_names(outcome, remotes_launch()) {
            Ok(_) => StepView::Done(Ok(())),
            Err(failure) => StepView::Done(Err(failure)),
        },
    }
}

/// The histories that are remembered after a step of the forgetting: all
/// but that of the query for the path itself, which names no branch and no
/// remote, or none where no path is given.
pub open spec fn histories_cleared(
    histories: Map<Seq<char>, HistoryEntryView>,
    path: Option<Seq<char>>,
    reply: ClearReply,
) -> Map<Seq<char>, HistoryEntryView> {
    match reply {
        ClearReply::Start => match path {
            Some(path) => histories.remove(cache_key_spec(path, None, None)),
            None => Map::empty(),
        },
        _ => histories,
    }
}

/// The repository roots that are remembered after a step of the forgetting:
/// all but that of the path, or none where no path is given.
pub open spec fn roots_cleared(
    roots: Map<Seq<char>, Seq<char>>,
    path: Option<Seq<char>>,
    reply: ClearReply,
) -> Map<Seq<char>, Seq<char>> {
    match reply {
        ClearReply::Start => match path {
            Some(path) => roots.remove(path),
            None => Map::empty(),
        },
        _ => roots,
    }
}

/// The fetch times that are remembered after a step of the forgetting: all
/// but those of the remotes that were listed for the repository of the
/// path, or none where no path is given.
pub open spec fn fetch_times_cleared(
    times: Map<Seq<char>, int>,
    path: Option<Seq<char>>,
    reply: ClearReply,
) -> Map<Seq<char>, int> {
    match reply {
        ClearReply::Start => match path {
            Some(_) => times,
            None => Map::empty(),
        },
        ClearReply::Remotes { root, outcome } => match listed_names(outcome, remotes_launch()) {
            Ok(remotes) => times.remove_keys(fetch_keys(root@, remotes)),
            Err(_) => times,
        },
        _ => times,
    }
}

/// Forgets the last fetch from each of `remotes` into the repository at
/// `root`.
pub fn forget_fetches(caches: &mut GitCaches, root: &str, remotes: &Vec<String>)
    ensures
        final(caches).fetch_times() == old(caches).fetch_times().remove_keys(
            fetch_keys(root@, texts(remotes@)),
        ),
        final(caches).histories() == old(caches).histories(),
        final(caches).roots() == old(caches).roots(),
{
    let ghost names = texts(remotes@);
    let mut i: usize = 0;
    proof {
        assert(caches.fetch_times() =~= old(caches).fetch_times().remove_keys(
            fetch_keys(root@, names.take(0)),
        ));
    }
    while i < remotes.len()
        invariant
            i <= remotes@.len(),
            names == texts(remotes@),
            caches.fetch_times() == old(caches).fetch_times().remove_keys(
                fetch_keys(root@, names.take(i as int)),
            ),
            caches.histories() == old(caches).histories(),
            caches.roots() == old(caches).roots(),
        decreases remotes@.len() - i,
    {
        let key = fetch_key(root, remotes[i].as_str());
        let ghost before = caches.fetch_times();
        caches.forget_fetch(key.as_str());
        proof {
            let earlier = fetch_keys(root@, names.take(i as int));
            let later = fetch_keys(root@, names.take(i + 1));
            assert(names.take(i + 1)[i as int] == names[i as int]);
            assert forall|k: Seq<char>| later.contains(k) <==> (earlier.contains(k) || k
                == key@) by {
                if earlier.contains(k) {
                    let j = choose|j: int|
                        0 <= j < names.take(i as int).len() && k == fetch_key_spec(
                            root@,
                            #[trigger] names.take(i as int)[j],
                        );
                    assert(names.take(i + 1)[j] == names.take(i as int)[j]);
                }
                if later.contains(k) {
                    let j = choose|j: int|
                        0 <= j < names.take(i + 1).len() && k == fetch_key_spec(
                            root@,
                            #[trigger] names.take(i + 1)[j],
                        );
                    if j < i {
                        assert(names.take(i as int)[j] == names.take(i + 1)[j]);
                    }
                }
            }
            assert(before.remove(key@) =~= old(caches).fetch_times().remove_keys(later));
        }
        i += 1;
    }
    proof {
        assert(names.take(remotes@.len() as int) =~= names);
    }
}

/// One step of forgetting what is remembered for `path`, or everything
/// where no path is given. `reply` is [`ClearReply::Start`] at first and
/// afterwards what the caller has to report on the request of the step
/// before.
///
/// For a path, the first step forgets the history remembered under the path
/// and the root remembered for it; the last forgets the fetches from the
/// remotes of its repository, so that the next query for the path goes
/// through the repository again and fetches.
pub fn clear_git_cache(caches: &mut GitCaches, path: Option<String>, reply: ClearReply) -> (step: Step<
    (),
>)
    ensures
        step@ == clear_step(crate::backend::option_text(path), reply),
        final(caches).histories() == histories_cleared(
            old(caches).histories(),
            crate::backend::option_text(path),
            reply,
        ),
        final(caches).roots() == roots_cleared(
            old(caches).roots(),
            crate::backend::option_text(path),
            reply,
        ),
        final(caches).fetch_times() == fetch_times_cleared(
            old(caches).fetch_times(),
            crate::backend::option_text(path),
            reply,
        ),
{
    match reply {
        ClearReply::Start => match path {
            Some(path) => {
                caches.forget_root(path.as_str());
                caches.forget_history(cache_key(path.as_str(), &None, &None).as_str());
                Step::Ask(Request::LocateRoot { path })
            },
            None => {
                caches.clear();
                Step::Done(Ok(()))
            },
        },
        ClearReply::Root(Some(root)) => {
            let arguments = remotes_arguments(root.as_str());
            Step::Ask(Request::Remotes { root, arguments })
        },
        ClearReply::Root(None) => Step::Done(Ok(())),
        ClearReply::Remotes { root, outcome } => match read_output(
            &outcome,
            "Failed to get remotes: ",
            true,
        ) {
            Ok(text) => {
                let remotes = names_in(text.as_str());
                forget_fetches(caches, root.as_str(), &remotes);
                Step::Done(Ok(()))
            },
            Err(failure) => Step::Done(Err(failure)),
        },
    }
}

} // verus!
