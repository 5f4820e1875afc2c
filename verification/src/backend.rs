//! What the crate asks of its caller, and what the caller reports back.
//!
//! The crate reads no file and starts no process. Where a query needs the
//! repository it hands its caller a [`Request`]; the caller does what the
//! request says and calls again with what came of it. A query thus goes on
//! step by step until a step is [`Step::Done`].
use vstd::prelude::*;
use vstd::string::StringExecFns;
use vstd::utf8::{decode_utf8, valid_utf8};
use crate::error::{GitError, GitErrorView};
use crate::walk::{CommitNode, RevisionWalker};

verus! {

/// How a run of `git` ended: whether it reported success, and what it wrote
/// to its two outputs.
#[derive(Debug, PartialEq, Eq)]
pub struct CommandOutput {
    pub success: bool,
    pub stdout: Vec<u8>,
    pub stderr: Vec<u8>,
}

/// Something for the caller to do.
#[derive(Debug, PartialEq, Eq)]
pub enum Request {
    /// Find the repository that holds `path`, and report its root.
    LocateRoot { path: String },
    /// Run `git` with `arguments`, which fetches from a remote of the
    /// repository at `root`, and report how the run ended.
    Fetch { root: String, arguments: Vec<String> },
    /// Run `git` with `arguments`, which succeeds where the reference `name`
    /// resolves to a commit of the repository at `root`, and report how the
    /// run ended.
    Resolve { root: String, name: String, arguments: Vec<String> },
    /// Report the history of `path`, a path in the repository at `root`,
    /// walked along first parents from `reference` or, where there is none,
    /// from what is checked out: either run `git` with `arguments`, which
    /// prints that history, and report how the run ended, or walk it and
    /// report the commits, or report the line of first parents itself and
    /// leave the walk to the query.
    Log { root: String, reference: Option<String>, path: String, arguments: Vec<String> },
    /// Report the newest commit of the repository at `root`, on `reference`
    /// or, where there is none, on what is checked out: either run `git` with
    /// `arguments`, which prints that commit, and report how the run ended, or
    /// look it up and report it.
    Newest { root: String, reference: Option<String>, arguments: Vec<String> },
    /// Resolve the path of the query in `tree`, a tree of the repository, and
    /// report what it holds there together with `walker`, the walk that
    /// waits for it.
    ResolveTree { walker: RevisionWalker, tree: String },
    /// Run `git` with `arguments`, which lists the remotes of the repository
    /// at `root`, and report how the run ended.
    Remotes { root: String, arguments: Vec<String> },
    /// Run `git` with `arguments`, which lists the branches of the repository
    /// at `root`, and report how the run ended together with `remotes`.
    Branches { root: String, remotes: Vec<String>, arguments: Vec<String> },
}

/// The texts of `items`, in the same order.
pub open spec fn texts(items: Seq<String>) -> Seq<Seq<char>> {
    Seq::new(items.len(), |i: int| items[i]@)
}

/// What a [`Request`] holds, as mathematical values.
pub ghost enum RequestView {
    LocateRoot { path: Seq<char> },
    Fetch { root: Seq<char>, arguments: Seq<Seq<char>> },
    Resolve { root: Seq<char>, name: Seq<char>, arguments: Seq<Seq<char>> },
    Log {
        root: Seq<char>,
        reference: Option<Seq<char>>,
        path: Seq<char>,
        arguments: Seq<Seq<char>>,
    },
    Newest { root: Seq<char>, reference: Option<Seq<char>>, arguments: Seq<Seq<char>> },
    ResolveTree {
        line: Seq<CommitNode>,
        position: int,
        known: Map<Seq<char>, Option<Seq<char>>>,
        tree: Seq<char>,
    },
    Remotes { root: Seq<char>, arguments: Seq<Seq<char>> },
    Branches { root: Seq<char>, remotes: Seq<Seq<char>>, arguments: Seq<Seq<char>> },
}

impl View for Request {
    type V = RequestView;

    open spec fn view(&self) -> RequestView {
        match self {
            Request::LocateRoot { path } => RequestView::LocateRoot { path: path@ },
            Request::Fetch { root, arguments } => RequestView::Fetch {
                root: root@,
                arguments: texts(arguments@),
            },
            Request::Resolve { root, name, arguments } => RequestView::Resolve {
                root: root@,
                name: name@,
                arguments: texts(arguments@),
            },
            Request::Log { root, reference, path, arguments } => RequestView::Log {
                root: root@,
                reference: option_text(*reference),
                path: path@,
                arguments: texts(arguments@),
            },
            Request::Newest { root, reference, arguments } => RequestView::Newest {
                root: root@,
                reference: option_text(*reference),
                arguments: texts(arguments@),
            },
            Request::ResolveTree { walker, tree } => RequestView::ResolveTree {
                line: walker.line(),
                position: walker.position(),
                known: walker.known(),
                tree: tree@,
            },
            Request::Remotes { root, arguments } => RequestView::Remotes {
                root: root@,
                arguments: texts(arguments@),
            },
            Request::Branches { root, remotes, arguments } => RequestView::Branches {
                root: root@,
                remotes: texts(remotes@),
                arguments: texts(arguments@),
            },
        }
    }
}

/// Where a query stands after a step: it waits for the caller, or it has
/// ended, with its result or with a failure.
#[derive(Debug, PartialEq, Eq)]
pub enum Step<T> {
    Ask(Request),
    Done(Result<T, GitError>),
}

/// What a [`Step`] holds, as mathematical values.
pub ghost enum StepView<V> {
    Ask(RequestView),
    Done(Result<V, GitErrorView>),
}

impl View for Step<()> {
    type V = StepView<()>;

    open spec fn view(&self) -> StepView<()> {
        match self {
            Step::Ask(request) => StepView::Ask(request@),
            Step::Done(Ok(_)) => StepView::Done(Ok(())),
            Step::Done(Err(failure)) => StepView::Done(Err(failure@)),
        }
    }
}

/// The format in which the log is asked for: hash, author name, author
/// time and message, a NUL after each, then `<COMMIT>`.
pub open spec fn log_format() -> Seq<char> {
    "--format=%H%x00%an%x00%at%x00%B%x00<COMMIT>"@
}

/// The arguments that make `git` fetch from `remote` into the repository at
/// `root`.
pub open spec fn fetch_arguments_spec(root: Seq<char>, remote: Seq<char>) -> Seq<Seq<char>> {
    seq!["-C"@, root, "fetch"@, remote]
}

/// The arguments with which `git` succeeds exactly where `name` resolves to
/// a commit of the repository at `root`.
pub open spec fn resolve_arguments_spec(root: Seq<char>, name: Seq<char>) -> Seq<Seq<char>> {
    seq!["-C"@, root, "rev-parse"@, "--verify"@, "--quiet"@, name + "^{commit}"@]
}

/// The arguments that make `git` print the history of `relative_path` in the
/// repository at `root`, walked along first parents from `reference` or,
/// where there is none, from what is checked out.
pub open spec fn log_arguments_spec(
    root: Seq<char>,
    reference: Option<Seq<char>>,
    relative_path: Seq<char>,
) -> Seq<Seq<char>> {
    let start = match reference {
        Some(name) => seq![name],
        None => Seq::empty(),
    };
    seq!["-C"@, root, "log"@, "--first-parent"@, log_format()] + start + seq![
        "--"@,
        relative_path,
    ]
}

/// The arguments that make `git` print the newest commit of the repository
/// at `root`, on `reference` or, where there is none, on what is checked
/// out.
pub open spec fn newest_arguments_spec(root: Seq<char>, reference: Option<Seq<char>>) -> Seq<
    Seq<char>,
> {
    let start = match reference {
        Some(name) => seq![name],
        None => Seq::empty(),
    };
    seq!["-C"@, root, "log"@, "-1"@, log_format()] + start
}

/// The arguments that make `git` list the remotes of the repository at
/// `root`, one on each line.
pub open spec fn remotes_arguments_spec(root: Seq<char>) -> Seq<Seq<char>> {
    seq!["-C"@, root, "remote"@]
}

/// The arguments that make `git` list the branches of the repository at
/// `root`, one on each line.
pub open spec fn branches_arguments_spec(root: Seq<char>) -> Seq<Seq<char>> {
    seq!["-C"@, root, "branch"@, "--format=%(refname:short)"@]
}

/// The text of `text`, where there is one.
pub open spec fn option_text(text: Option<String>) -> Option<Seq<char>> {
    match text {
        Some(text) => Some(text@),
        None => None,
    }
}

/// `-C` and `root`: what tells `git` which repository is meant.
fn in_repository(root: &str) -> (arguments: Vec<String>)
    ensures
        texts(arguments@) == seq!["-C"@, root@],
{
    let mut arguments: Vec<String> = Vec::new();
    arguments.push(String::from_str("-C"));
    arguments.push(String::from_str(root));
    proof {
        assert(texts(arguments@) =~= seq!["-C"@, root@]);
    }
    arguments
}

/// `arguments` with `text` as one more argument.
fn with_argument(arguments: Vec<String>, text: &str) -> (longer: Vec<String>)
    ensures
        texts(longer@) == texts(arguments@).push(text@),
{
    let mut longer = arguments;
    longer.push(String::from_str(text));
    proof {
        assert(texts(longer@) =~= texts(arguments@).push(text@));
    }
    longer
}

/// The arguments that make `git` fetch from `remote` into the repository at
/// `root`.
pub fn fetch_arguments(root: &str, remote: &str) -> (arguments: Vec<String>)
    ensures
        texts(arguments@) == fetch_arguments_spec(root@, remote@),
{
    let arguments = with_argument(with_argument(in_repository(root), "fetch"), remote);
    proof {
        assert(texts(arguments@) =~= fetch_arguments_spec(root@, remote@));
    }
    arguments
}

/// The arguments with which `git` succeeds exactly where `name` resolves to
/// a commit of the repository at `root`.
pub fn resolve_arguments(root: &str, name: &str) -> (arguments: Vec<String>)
    ensures
        texts(arguments@) == resolve_arguments_spec(root@, name@),
{
    let commit = String::from_str(name).concat("^{commit}");
    let arguments = with_argument(
        with_argument(
            with_argument(with_argument(in_repository(root), "rev-parse"), "--verify"),
            "--quiet",
        ),
        commit.as_str(),
    );
    proof {
        assert(texts(arguments@) =~= resolve_arguments_spec(root@, name@));
    }
    arguments
}

/// The arguments that make `git` print the history of `relative_path` in the
/// repository at `root`, walked along first parents from `reference` or,
/// where there is none, from what is checked out.
pub fn log_arguments(root: &str, reference: &Option<String>, relative_path: &str) -> (arguments:
    Vec<String>)
    ensures
        texts(arguments@) == log_arguments_spec(root@, option_text(*reference), relative_path@),
{
    let named = with_argument(
        with_argument(with_argument(in_repository(root), "log"), "--first-parent"),
        "--format=%H%x00%an%x00%at%x00%B%x00<COMMIT>",
    );
    let started = match reference {
        Some(name) => with_argument(named, name.as_str()),
        None => named,
    };
    let arguments = with_argument(with_argument(started, "--"), relative_path);
    proof {
        assert(texts(arguments@) =~= log_arguments_spec(
            root@,
            option_text(*reference),
            relative_path@,
        ));
    }
    arguments
}

/// The arguments that make `git` print the newest commit of the repository
/// at `root`, on `reference` or, where there is none, on what is checked
/// out.
pub fn newest_arguments(root: &str, reference: &Option<String>) -> (arguments: Vec<String>)
    ensures
        texts(arguments@) == newest_arguments_spec(root@, option_text(*reference)),
{
    let named = with_argument(
        with_argument(with_argument(in_repository(root), "log"), "-1"),
        "--format=%H%x00%an%x00%at%x00%B%x00<COMMIT>",
    );
    let arguments = match reference {
        Some(name) => with_argument(named, name.as_str()),
        None => named,
    };
    proof {
        assert(texts(arguments@) =~= newest_arguments_spec(root@, option_text(*reference)));
    }
    arguments
}

/// The arguments that make `git` list the remotes of the repository at
/// `root`.
pub fn remotes_arguments(root: &str) -> (arguments: Vec<String>)
    ensures
        texts(arguments@) == remotes_arguments_spec(root@),
{
    let arguments = with_argument(in_repository(root), "remote");
    proof {
        assert(texts(arguments@) =~= remotes_arguments_spec(root@));
    }
    arguments
}

/// The arguments that make `git` list the branches of the repository at
/// `root`.
pub fn branches_arguments(root: &str) -> (arguments: Vec<String>)
    ensures
        texts(arguments@) == branches_arguments_spec(root@),
{
    let arguments = with_argument(
        with_argument(in_repository(root), "branch"),
        "--format=%(refname:short)",
    );
    proof {
        assert(texts(arguments@) =~= branches_arguments_spec(root@));
    }
    arguments
}

/// What `String::from_utf8_lossy` makes of `bytes`: their text, with the
/// replacement character where they are no UTF-8. It depends on the bytes
/// alone; what it is for given bytes is not said here.
pub uninterp spec fn lossy_text(bytes: Seq<u8>) -> Seq<char>;

/// `String::from_utf8_lossy`: the text of `bytes`, read leniently. All that
/// is claimed is that the same bytes give the same text.
#[verifier::external_body]
fn text_lossy(bytes: &[u8]) -> (text: String)
    ensures
        text@ == lossy_text(bytes@),
{
    String::from_utf8_lossy(bytes).into_owned()
}

/// What `String::from_utf8` says of `bytes` that are no UTF-8. It depends on
/// the bytes alone; what it is for given bytes is not said here.
pub uninterp spec fn utf8_complaint(bytes: Seq<u8>) -> Seq<char>;

/// `String::from_utf8`, with the failure in its own words: the text that
/// `bytes` encode, where they are UTF-8. The claim is that the standard
/// library judges and decodes UTF-8 as `vstd::utf8` defines it; of the words
/// of a failure no more is claimed than that the same bytes give the same
/// words.
#[verifier::external_body]
fn text_strict(bytes: &[u8]) -> (text: Result<String, String>)
    ensures
        text is Ok <==> valid_utf8(bytes@),
        text matches Ok(decoded) ==> decoded@ == decode_utf8(bytes@),
        text matches Err(words) ==> words@ == utf8_complaint(bytes@),
{
    match String::from_utf8(bytes.to_vec()) {
        Ok(decoded) => Ok(decoded),
        Err(failure) => Err(failure.to_string()),
    }
}

/// Why a run of `git` counts as failed, if it does. `launch` names what was
/// attempted, for the case that `git` did not start; with `strict` a run
/// that did not report success has failed too, and what it wrote to its
/// error output says why.
pub open spec fn run_failure(outcome: Result<CommandOutput, String>, launch: Seq<char>, strict: bool) -> Option<
    GitErrorView,
> {
    match outcome {
        Err(reason) => Some(GitErrorView::BackendFailure(launch + reason@)),
        Ok(output) => if strict && !output.success {
            Some(GitErrorView::BackendFailure(lossy_text(output.stderr@)))
        } else {
            None
        },
    }
}

/// What a run of `git` has to say, or why it says nothing: the text that it
/// wrote to its output, where the run has not failed and the output is
/// UTF-8. Output that is none is a failure in the words of the standard
/// library.
pub open spec fn output_text(
    outcome: Result<CommandOutput, String>,
    launch: Seq<char>,
    strict: bool,
) -> Result<Seq<char>, GitErrorView> {
    match run_failure(outcome, launch, strict) {
        Some(failure) => Err(failure),
        None => if valid_utf8(outcome->Ok_0.stdout@) {
            Ok(decode_utf8(outcome->Ok_0.stdout@))
        } else {
            Err(GitErrorView::EncodingFailure(utf8_complaint(outcome->Ok_0.stdout@)))
        },
    }
}

/// Why a run of `git` counts as failed, if it does.
pub fn check_run(outcome: &Result<CommandOutput, String>, launch: &str, strict: bool) -> (failure:
    Option<GitError>)
    ensures
        match run_failure(*outcome, launch@, strict) {
            Some(view) => failure matches Some(error) && error@ == view,
            None => failure is None,
        },
{
    match outcome {
        Err(reason) => Some(
            GitError::BackendFailure(String::from_str(launch).concat(reason.as_str())),
        ),
        Ok(output) => if strict && !output.success {
            Some(GitError::BackendFailure(text_lossy(output.stderr.as_slice())))
        } else {
            None
        },
    }
}

/// What a run of `git` has to say, or why it says nothing.
pub fn read_output(outcome: &Result<CommandOutput, String>, launch: &str, strict: bool) -> (read:
    Result<String, GitError>)
    ensures
        match output_text(*outcome, launch@, strict) {
            Ok(text) => read matches Ok(decoded) && decoded@ == text,
            Err(failure) => read matches Err(error) && error@ == failure,
        },
{
    match check_run(outcome, launch, strict) {
        Some(failure) => Err(failure),
        None => match outcome {
            Ok(output) => match text_strict(output.stdout.as_slice()) {
                Ok(text) => Ok(text),
                Err(words) => Err(GitError::EncodingFailure(words)),
            },
            Err(_) => Err(GitError::EncodingFailure(String::new())),
        },
    }
}

} // verus!
