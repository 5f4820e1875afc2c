//! Path-scoped commit history for a Git working tree.
//!
//! The crate answers one question: which commits touched a given file or
//! folder, newest first, one page at a time. Everything that talks to the
//! repository (running `git`, probing the file system) is left to the
//! caller; the crate decides what has to be done next, decodes what came
//! back, remembers it for a while and slices the remembered history into
//! pages.
//!
//! A query is a conversation. The caller begins with
//! [`list_folder_commits`] and a [`HistoryReply::Start`]; as long as the
//! answer is a [`Step::Ask`], it does what the [`Request`] says and calls
//! again with what came of it; a [`Step::Done`] ends the query.
//!
//! The parts, from the leaves up:
//!
//! - [`text`] reads text character by character; [`log`] decodes what
//!   `git log` prints and [`details`] what `git show` prints.
//! - [`page`] cuts a history into pages.
//! - [`store`] remembers histories, repository roots and the times of
//!   fetches.
//! - [`root`] finds the repository that holds a path.
//! - [`throttle`] keeps fetches from a remote apart.
//! - [`change`] decides whether a commit changed a path, and [`walk`] walks
//!   a line of commits with it.
//! - [`history`] answers the query for the history of a path, [`newest`]
//!   watches a reference for a new commit, and [`references`] lists the
//!   names of a repository and forgets what is remembered.
pub mod backend;
pub mod change;
pub mod commit;
pub mod details;
pub mod error;
pub mod history;
pub mod log;
pub mod newest;
pub mod page;
pub mod query;
pub mod references;
pub mod root;
pub mod store;
pub mod text;
pub mod throttle;
pub mod walk;

pub use backend::{CommandOutput, Request, RequestView, Step, StepView};
pub use commit::{commit_views, BasicCommit, CommitView, GitReferences};
pub use error::{GitError, GitErrorView};
pub use history::{list_folder_commits, HistoryReply};
pub use log::parse_git_log_output;
pub use newest::check_new_commits;
pub use page::page;
pub use query::HistoryQuery;
pub use references::{clear_git_cache, get_git_references, ClearReply, ReferencesReply};
pub use root::{find_git_root, Inspection, RootSearch};
pub use store::GitCaches;
pub use throttle::fetch_from_remote;
