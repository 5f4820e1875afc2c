//! The values a history query hands back.
use vstd::prelude::*;

verus! {

/// One commit as the history shows it: its hash, its message, the display
/// name of its author and the author time in seconds since the epoch.
#[derive(Debug, PartialEq, Eq)]
pub struct BasicCommit {
    pub id: String,
    pub message: String,
    pub author: String,
    pub date: i64,
}

/// What a [`BasicCommit`] holds, as mathematical values.
pub ghost struct CommitView {
    pub id: Seq<char>,
    pub message: Seq<char>,
    pub author: Seq<char>,
    pub date: int,
}

impl View for BasicCommit {
    type V = CommitView;

    open spec fn view(&self) -> CommitView {
        CommitView {
            id: self.id@,
            message: self.message@,
            author: self.author@,
            date: self.date as int,
        }
    }
}

impl Clone for BasicCommit {
    fn clone(&self) -> (copy: Self)
        ensures
            copy@ == self@,
    {
        BasicCommit {
            id: self.id.clone(),
            message: self.message.clone(),
            author: self.author.clone(),
            date: self.date,
        }
    }
}

/// The views of a run of commits, in the same order.
pub open spec fn commit_views(commits: Seq<BasicCommit>) -> Seq<CommitView> {
    Seq::new(commits.len(), |i: int| commits[i]@)
}

/// The names a repository knows: its remotes and its branches.
#[derive(Debug, PartialEq, Eq)]
pub struct GitReferences {
    pub remotes: Vec<String>,
    pub branches: Vec<String>,
}

} // verus!
