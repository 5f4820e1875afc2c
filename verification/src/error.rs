//! Why a query failed.
use vstd::prelude::*;
use vstd::string::StringExecFns;

verus! {

/// The ways a query can fail. Each failure belongs to one query only and
/// leaves what was remembered before untouched.
#[derive(Debug, PartialEq, Eq)]
pub enum GitError {
    /// No directory at or above the queried path is a repository.
    RepositoryNotFound,
    /// The named branch, or remote and branch, does not resolve.
    ReferenceNotFound(String),
    /// The caller supplied a commit identifier that is not one; the text
    /// says what is wrong with it.
    InvalidIdentifier(String),
    /// Git itself failed; the text is what it said.
    BackendFailure(String),
    /// Git answered, but its output could not be read; the text says what
    /// was wrong with it.
    EncodingFailure(String),
}

/// What a [`GitError`] holds, as mathematical values.
pub ghost enum GitErrorView {
    RepositoryNotFound,
    ReferenceNotFound(Seq<char>),
    InvalidIdentifier(Seq<char>),
    BackendFailure(Seq<char>),
    EncodingFailure(Seq<char>),
}

impl View for GitError {
    type V = GitErrorView;

    open spec fn view(&self) -> GitErrorView {
        match self {
            GitError::RepositoryNotFound => GitErrorView::RepositoryNotFound,
            GitError::ReferenceNotFound(name) => GitErrorView::ReferenceNotFound(name@),
            GitError::InvalidIdentifier(detail) => GitErrorView::InvalidIdentifier(detail@),
            GitError::BackendFailure(detail) => GitErrorView::BackendFailure(detail@),
            GitError::EncodingFailure(detail) => GitErrorView::EncodingFailure(detail@),
        }
    }
}

impl GitErrorView {
    /// The description of the failure.
    pub open spec fn message(self) -> Seq<char> {
        match self {
            GitErrorView::RepositoryNotFound => "Could not find Git repository"@,
            GitErrorView::ReferenceNotFound(name) => "Could not resolve reference: "@ + name,
            GitErrorView::InvalidIdentifier(detail) => "Invalid commit ID: "@ + detail,
            GitErrorView::BackendFailure(detail) => detail,
            GitErrorView::EncodingFailure(detail) => detail,
        }
    }
}

impl GitError {
    /// A description of the failure for the caller to show.
    pub fn message(&self) -> (text: String)
        ensures
            text@ == self@.message(),
    {
        match self {
            GitError::RepositoryNotFound => String::from_str("Could not find Git repository"),
            GitError::ReferenceNotFound(name) => String::from_str(
                "Could not resolve reference: ",
            ).concat(name.as_str()),
            GitError::InvalidIdentifier(detail) => String::from_str("Invalid commit ID: ").concat(
                detail.as_str(),
            ),
            GitError::BackendFailure(detail) => detail.clone(),
            GitError::EncodingFailure(detail) => detail.clone(),
        }
    }
}

} // verus!
