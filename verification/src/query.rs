//! What a history query is, and what it is known by.
use vstd::prelude::*;
use vstd::string::StringExecFns;
use crate::backend::option_text;

verus! {

/// The page that is served where the query names none.
pub const DEFAULT_PAGE: usize = 1;

/// The number of commits on a page where the query names none.
pub const DEFAULT_PAGE_SIZE: usize = 20;

/// A query for the history of a path.
#[derive(Debug, PartialEq, Eq)]
pub struct HistoryQuery {
    /// The file or folder whose history is asked for.
    pub path: String,
    /// The page to serve, counted from one.
    pub page: Option<usize>,
    /// The number of commits on a page.
    pub per_page: Option<usize>,
    /// The branch whose history is meant; what is checked out where there is
    /// none.
    pub branch: Option<String>,
    /// The remote whose copy of the branch is meant.
    pub remote: Option<String>,
}

impl HistoryQuery {
    /// The page that the query asks for.
    pub open spec fn page_number(&self) -> nat {
        match self.page {
            Some(page) => page as nat,
            None => DEFAULT_PAGE as nat,
        }
    }

    /// The number of commits that the query asks for on a page.
    pub open spec fn page_size(&self) -> nat {
        match self.per_page {
            Some(size) => size as nat,
            None => DEFAULT_PAGE_SIZE as nat,
        }
    }

    /// The key under which the history of the query is remembered.
    pub open spec fn key(&self) -> Seq<char> {
        cache_key_spec(self.path@, option_text(self.branch), option_text(self.remote))
    }

    /// The reference from which the history of the query is walked.
    pub open spec fn reference(&self) -> Option<Seq<char>> {
        reference_name_spec(option_text(self.branch), option_text(self.remote))
    }
}

/// The text of a part of a query that may be absent: the empty text where
/// it is.
pub open spec fn part(text: Option<Seq<char>>) -> Seq<char> {
    match text {
        Some(text) => text,
        None => Seq::empty(),
    }
}

/// The key of a query: its path, its branch and its remote, with a `|`
/// between them. A branch or remote that the query does not name is empty,
/// so that the branch never stands where the remote would.
pub open spec fn cache_key_spec(
    path: Seq<char>,
    branch: Option<Seq<char>>,
    remote: Option<Seq<char>>,
) -> Seq<char> {
    path + "|"@ + part(branch) + "|"@ + part(remote)
}

/// Two queries with one path share their key only where they name the same
/// branch and the same remote, as long as no branch holds a `|`. A name that
/// is absent counts as the empty name here; keys that coincide for other
/// reasons do no harm, since a history is served to the query that it was
/// remembered for and to no other.
pub proof fn lemma_key_tells_apart(
    path: Seq<char>,
    branch: Option<Seq<char>>,
    remote: Option<Seq<char>>,
    other_branch: Option<Seq<char>>,
    other_remote: Option<Seq<char>>,
)
    requires
        cache_key_spec(path, branch, remote) == cache_key_spec(path, other_branch, other_remote),
        !part(branch).contains('|'),
        !part(other_branch).contains('|'),
    ensures
        part(branch) == part(other_branch),
        part(remote) == part(other_remote),
{
    reveal_strlit("|");
    let bar = "|"@;
    let key = cache_key_spec(path, branch, remote);
    let other = cache_key_spec(path, other_branch, other_remote);
    let first = part(branch);
    let second = part(other_branch);
    let start: int = path.len() as int + 1;
    assert forall|i: int| 0 <= i < first.len() implies key[start + i] == #[trigger] first[i] by {}
    assert forall|i: int| 0 <= i < second.len() implies other[start + i] == #[trigger] second[
        i
    ] by {}
    assert(key[start + first.len()] == '|');
    assert(other[start + second.len()] == '|');
    if first.len() < second.len() {
        assert(second[first.len() as int] == '|');
        assert(second.contains('|'));
    }
    if second.len() < first.len() {
        assert(first[second.len() as int] == '|');
        assert(first.contains('|'));
    }
    assert(first =~= second);
    assert(key.len() == other.len());
    let after: int = start + first.len() as int + 1;
    assert forall|i: int| 0 <= i < part(remote).len() implies #[trigger] part(remote)[i] == part(
        other_remote,
    )[i] by {
        assert(key[after + i] == part(remote)[i]);
        assert(other[after + i] == part(other_remote)[i]);
    }
    assert(part(remote) =~= part(other_remote));
}

/// The reference that a branch and a remote select: the branch of the
/// remote where both are given, the local branch where only the branch is,
/// and none, which stands for what is checked out, where no branch is.
pub open spec fn reference_name_spec(branch: Option<Seq<char>>, remote: Option<Seq<char>>) -> Option<
    Seq<char>,
> {
    match branch {
        None => None,
        Some(branch) => match remote {
            Some(remote) => Some(remote + "/"@ + branch),
            None => Some(branch),
        },
    }
}

/// The key of a query: its path, its branch and its remote, with a `|`
/// between them.
pub fn cache_key(path: &str, branch: &Option<String>, remote: &Option<String>) -> (key: String)
    ensures
        key@ == cache_key_spec(path@, option_text(*branch), option_text(*remote)),
{
    let mut key = String::from_str(path);
    key.append("|");
    match branch {
        Some(name) => {
            key.append(name.as_str());
        },
        None => {},
    }
    key.append("|");
    match remote {
        Some(name) => {
            key.append(name.as_str());
        },
        None => {},
    }
    proof {
        assert(key@ =~= cache_key_spec(path@, option_text(*branch), option_text(*remote)));
    }
    key
}

/// Whether `a` and `b` are the same text, or both absent.
pub fn same_part(a: &Option<String>, b: &Option<String>) -> (same: bool)
    ensures
        same == (option_text(*a) == option_text(*b)),
{
    match (a, b) {
        (Some(x), Some(y)) => *x == *y,
        (None, None) => true,
        _ => false,
    }
}

/// The reference that `branch` and `remote` select.
pub fn reference_name(branch: &Option<String>, remote: &Option<String>) -> (name: Option<String>)
    ensures
        option_text(name) == reference_name_spec(option_text(*branch), option_text(*remote)),
{
    match branch {
        None => None,
        Some(branch) => match remote {
            Some(remote) => Some(
                String::from_str(remote.as_str()).concat("/").concat(branch.as_str()),
            ),
            None => Some(branch.clone()),
        },
    }
}

} // verus!
