//! Finding the repository that holds a path.
//!
//! The root of a repository is the nearest directory, at or above the path,
//! that holds the marker `.git`. Whether a directory holds it only the
//! caller can tell, so the search goes step by step: it names a directory to
//! inspect, hears what was found there, and moves one directory up until the
//! marker is found or no directory is left. What was found for a path is
//! remembered, since every query begins with this search.
use vstd::prelude::*;
use vstd::string::StrSliceExecFns;
use crate::backend::option_text;
use crate::store::{may_answer, GitCaches};

verus! {

/// What `Path::parent` makes of `path`: the path without its last component,
/// and nothing where `path` ends in a root or is empty. It depends on the
/// path alone, by the rules for paths of the platform that the crate is
/// built for; what it is for a given path is not said here.
pub uninterp spec fn parent_path(path: Seq<char>) -> Option<Seq<char>>;

/// Whether `above` is a beginning of `path`, and shorter than it.
pub open spec fn begins(above: Seq<char>, path: Seq<char>) -> bool {
    above.len() < path.len() && path.take(above.len() as int) == above
}

/// Whether `directory` is `path` itself or a beginning of it.
pub open spec fn at_or_above(directory: Seq<char>, path: Seq<char>) -> bool {
    directory == path || begins(directory, path)
}

/// A beginning of a directory that lies at or above a path is a beginning
/// of the path.
pub proof fn lemma_begins_above(above: Seq<char>, between: Seq<char>, path: Seq<char>)
    requires
        begins(above, between),
        at_or_above(between, path),
    ensures
        begins(above, path),
{
    if between != path {
        assert(path.take(above.len() as int) =~= path.take(between.len() as int).take(
            above.len() as int,
        ));
    }
}

/// `Path::parent`: the directory above `path`, if there is one. Two things
/// are claimed: that the same path gives the same parent, and that the
/// parent is the path without its last component, which makes it a
/// beginning of the path and shorter than it.
#[verifier::external_body]
fn parent_of(path: &str) -> (parent: Option<String>)
    ensures
        option_text(parent) == parent_path(path@),
        parent matches Some(above) ==> begins(above@, path@),
{
    std::path::Path::new(path).parent().and_then(|p| p.to_str()).map(|s| s.to_string())
}

/// What the caller found in a directory it was asked to inspect.
#[derive(Debug, PartialEq, Eq)]
pub struct Inspection {
    /// The directory that was inspected.
    pub directory: String,
    /// Whether it holds the marker `.git`.
    pub has_marker: bool,
}

/// Where the search for a repository root stands.
#[derive(Debug, PartialEq, Eq)]
pub enum RootSearch {
    /// The caller is to inspect this directory and to report what it found.
    Inspect(String),
    /// The root of the repository.
    Found(String),
    /// No directory at or above the path holds the marker.
    NotFound,
}

/// What a [`RootSearch`] holds, as mathematical values.
pub ghost enum RootSearchView {
    Inspect(Seq<char>),
    Found(Seq<char>),
    NotFound,
}

impl View for RootSearch {
    type V = RootSearchView;

    open spec fn view(&self) -> RootSearchView {
        match self {
            RootSearch::Inspect(directory) => RootSearchView::Inspect(directory@),
            RootSearch::Found(root) => RootSearchView::Found(root@),
            RootSearch::NotFound => RootSearchView::NotFound,
        }
    }
}

/// The next step of the search from `start_path`. Before anything was
/// inspected, a root that is remembered for the path ends the search, and
/// else the path itself is inspected first. A directory that holds the
/// marker is the root; from one that does not, the search moves to
/// `parent`, the directory above it, and fails where there is none. The
/// path of the directory above is the shorter one; a parent that is not
/// shorter is none, so that every step of a search names a shorter path than
/// the step before and the search ends.
pub open spec fn next_search(
    start_path: Seq<char>,
    inspected: Option<Inspection>,
    remembered: Option<Seq<char>>,
    parent: Option<Seq<char>>,
) -> RootSearchView {
    match inspected {
        None => match remembered {
            Some(root) => RootSearchView::Found(root),
            None => RootSearchView::Inspect(start_path),
        },
        Some(found) => if found.has_marker {
            RootSearchView::Found(found.directory@)
        } else {
            match parent {
                Some(above) if above.len() < found.directory@.len() => RootSearchView::Inspect(
                    above,
                ),
                _ => RootSearchView::NotFound,
            }
        },
    }
}

/// A search ends: each directory that it names after the first has a
/// shorter path than the directory inspected before it.
pub proof fn lemma_search_ends(
    start_path: Seq<char>,
    found: Inspection,
    remembered: Option<Seq<char>>,
    parent: Option<Seq<char>>,
)
    ensures
        next_search(start_path, Some(found), remembered, parent) matches RootSearchView::Inspect(
            above,
        ) ==> above.len() < found.directory@.len(),
{
}

/// The next step of the search from `start_path`, given what is remembered
/// for the path and which directory lies above the one inspected.
pub fn search_step(
    start_path: &str,
    inspected: Option<Inspection>,
    remembered: Option<String>,
    parent: Option<String>,
) -> (search: RootSearch)
    ensures
        search@ == next_search(
            start_path@,
            inspected,
            option_text(remembered),
            option_text(parent),
        ),
{
    match inspected {
        None => match remembered {
            Some(root) => RootSearch::Found(root),
            None => RootSearch::Inspect(start_path.to_owned()),
        },
        Some(found) => if found.has_marker {
            RootSearch::Found(found.directory)
        } else {
            match parent {
                Some(above) => if above.as_str().unicode_len()
                    < found.directory.as_str().unicode_len() {
                    RootSearch::Inspect(above)
                } else {
                    RootSearch::NotFound
                },
                None => RootSearch::NotFound,
            }
        },
    }
}

/// What the search leaves remembered: the root for the path it began at,
/// once a directory with the marker was reported.
pub open spec fn roots_after_search(
    roots: Map<Seq<char>, Seq<char>>,
    start_path: Seq<char>,
    inspected: Option<Inspection>,
) -> Map<Seq<char>, Seq<char>> {
    match inspected {
        Some(found) if found.has_marker => roots.insert(start_path, found.directory@),
        _ => roots,
    }
}

/// One step of the search for the repository that holds `start_path`.
/// `inspected` is nothing when the search begins, and afterwards what the
/// caller found in the directory that the step before named.
///
/// The search begins with what is remembered for the path; the memory may
/// have forgotten it, and then the path is searched anew. It ends with
/// [`RootSearch::Found`] at the first directory reported to hold the marker,
/// which is then remembered for the path, and with [`RootSearch::NotFound`]
/// where the directory inspected last holds none and has nothing above it.
/// Each directory named for inspection has a shorter path than the one
/// before, so the search takes no more steps than the path has characters,
/// and two.
///
/// The first directory named is the path itself, and each one after it is a
/// beginning of the directory inspected before. So a caller that inspects
/// what it is asked to inspect is asked for the path and for beginnings of
/// it only, and the root that it finds is one of these.
pub fn find_git_root(caches: &mut GitCaches, start_path: &str, inspected: Option<Inspection>) -> (search:
    RootSearch)
    ensures
        inspected is None ==> (search@ matches RootSearchView::Inspect(directory) ==> directory
            == start_path@),
        inspected matches Some(found) ==> match search@ {
            RootSearchView::Inspect(directory) => begins(directory, found.directory@),
            RootSearchView::Found(root) => root == found.directory@,
            RootSearchView::NotFound => true,
        },
        inspected matches Some(found) && at_or_above(found.directory@, start_path@)
            ==> match search@ {
            RootSearchView::Inspect(directory) => at_or_above(directory, start_path@),
            RootSearchView::Found(root) => at_or_above(root, start_path@),
            RootSearchView::NotFound => true,
        },
        exists|remembered: Option<Seq<char>>| #[trigger]
            may_answer(old(caches).roots(), start_path@, remembered) && search@ == next_search(
                start_path@,
                inspected,
                remembered,
                match inspected {
                    Some(found) => parent_path(found.directory@),
                    None => None,
                },
            ),
        final(caches).roots() == roots_after_search(old(caches).roots(), start_path@, inspected),
        final(caches).histories() == old(caches).histories(),
        final(caches).fetch_times() == old(caches).fetch_times(),
{
    let remembered = match &inspected {
        None => caches.root(start_path),
        Some(_) => None,
    };
    let parent = match &inspected {
        Some(found) => if found.has_marker {
            None
        } else {
            parent_of(found.directory.as_str())
        },
        None => None,
    };
    match &inspected {
        Some(found) => if found.has_marker {
            caches.remember_root(start_path.to_owned(), found.directory.clone());
        },
        None => {},
    }
    let ghost remembered_text = option_text(remembered);
    let ghost inspected_directory = match &inspected {
        Some(found) => Some(found.directory@),
        None => None,
    };
    let ghost above = match &inspected {
        Some(found) => parent_path(found.directory@),
        None => None,
    };
    let search = search_step(start_path, inspected, remembered, parent);
    proof {
        match (inspected_directory, search@) {
            (Some(before), RootSearchView::Inspect(directory)) => {
                if at_or_above(before, start_path@) {
                    lemma_begins_above(directory, before, start_path@);
                }
            },
            _ => {},
        }
        assert(may_answer(old(caches).roots(), start_path@, remembered_text));
        assert(search@ == next_search(start_path@, inspected, remembered_text, above));
    }
    search
}

} // verus!
