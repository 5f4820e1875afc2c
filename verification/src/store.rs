//! What the crate remembers between queries.
//!
//! Three memories, each a `moka` cache whose entries expire by themselves:
//! the history walked for a query, the repository root found for a path,
//! and the time of the last fetch from a remote. A memory may forget an
//! entry at any time, so a lookup that finds nothing proves nothing; a
//! lookup that finds a value finds the value that was remembered last.
//! Forgetting everything puts new caches in the place of the old ones.
//! The memories live as long as the process and no longer.
use vstd::prelude::*;
use std::sync::Arc;
use moka::sync::Cache;
use crate::backend::option_text;
use crate::commit::{commit_views, BasicCommit, CommitView};

verus! {

/// Seconds for which a history that was remembered is served again.
pub const HISTORY_TTL_SECS: u64 = 600;

/// Seconds for which a repository root or the time of a fetch is kept.
pub const MEMO_TTL_SECS: u64 = 3600;

/// The longest lifetime that `moka` accepts for its entries: a thousand
/// years of 365 days, in seconds.
pub const LONGEST_TTL_SECS: u64 = 31_536_000_000;

/// The history of a query as it is remembered.
#[derive(Clone, Debug)]
pub struct HistoryEntry {
    /// The path of the query that the history answers.
    pub path: String,
    /// The branch of that query.
    pub branch: Option<String>,
    /// The remote of that query.
    pub remote: Option<String>,
    /// The whole history, newest commit first.
    pub commits: Arc<Vec<BasicCommit>>,
    /// When it was remembered, in seconds since the epoch.
    pub created_at: i64,
}

/// What a [`HistoryEntry`] holds, as mathematical values.
pub ghost struct HistoryEntryView {
    pub path: Seq<char>,
    pub branch: Option<Seq<char>>,
    pub remote: Option<Seq<char>>,
    pub commits: Seq<CommitView>,
    pub created_at: int,
}

impl View for HistoryEntry {
    type V = HistoryEntryView;

    open spec fn view(&self) -> HistoryEntryView {
        HistoryEntryView {
            path: self.path@,
            branch: option_text(self.branch),
            remote: option_text(self.remote),
            commits: commit_views(self.commits@),
            created_at: self.created_at as int,
        }
    }
}

/// What one entry of a memory holds.
#[derive(Clone)]
pub enum Cached {
    /// The history of a query.
    History(HistoryEntry),
    /// The root of the repository that holds a path.
    Root(String),
    /// The time of a fetch, in seconds since the epoch.
    FetchedAt(i64),
}

/// What a [`Cached`] holds, as mathematical values.
pub ghost enum CachedView {
    History(HistoryEntryView),
    Root(Seq<char>),
    FetchedAt(int),
}

impl View for Cached {
    type V = CachedView;

    open spec fn view(&self) -> CachedView {
        match self {
            Cached::History(entry) => CachedView::History(entry@),
            Cached::Root(root) => CachedView::Root(root@),
            Cached::FetchedAt(at) => CachedView::FetchedAt(*at as int),
        }
    }
}

/// `moka::sync::Cache`, a cache that is taken as it stands: nothing is known
/// of what is inside a value of it but what the items below say.
#[verifier::external_type_specification]
#[verifier::external_body]
#[verifier::reject_recursive_types(K)]
#[verifier::reject_recursive_types(V)]
#[verifier::reject_recursive_types(S)]
pub struct ExCache<K, V, S>(Cache<K, V, S>);

/// The entries that were put into `cache` and neither taken out nor
/// discarded since, each under its key. The cache itself may hold fewer:
/// it drops an entry when the entry's lifetime is over. The claims that the
/// items below make of it hold as long as the cache is reached through this
/// one value only, which [`GitCaches`] sees to: it hands out no clone.
pub uninterp spec fn stored(cache: Cache<String, Cached>) -> Map<Seq<char>, CachedView>;

/// `CacheBuilder::build` after `Cache::builder`, `time_to_live` and
/// `initial_capacity`: a cache with no entries. `build` panics on a
/// lifetime of more than a thousand years, and it doubles the capacity and
/// allots a table of that size at once; `requires` leaves out the lifetimes
/// and the capacities for which that cannot be done.
#[verifier::external_body]
fn new_cache(ttl_secs: u64, initial_capacity: usize) -> (cache: Cache<String, Cached>)
    requires
        ttl_secs <= LONGEST_TTL_SECS,
        initial_capacity <= 1024,
    ensures
        forall|key: Seq<char>| !stored(cache).contains_key(key),
{
    Cache::builder().time_to_live(std::time::Duration::from_secs(ttl_secs)).initial_capacity(
        initial_capacity,
    ).build()
}

/// `Cache::get`: a value that comes back is a copy of the one stored under
/// `key`. Nothing may come back though an entry was stored, when the cache
/// has dropped it.
#[verifier::external_body]
fn cache_get(cache: &Cache<String, Cached>, key: &str) -> (hit: Option<Cached>)
    ensures
        hit matches Some(value) ==> stored(*cache).contains_key(key@) && stored(*cache)[key@]
            == value@,
{
    cache.get(key)
}

/// `Cache::insert`: `value` is stored under `key`, in place of what was
/// stored there. In `moka` the call needs no more than a shared reference;
/// the exclusive one keeps two views of one cache from disagreeing.
#[verifier::external_body]
fn cache_insert(cache: &mut Cache<String, Cached>, key: String, value: Cached)
    ensures
        stored(*final(cache)) == stored(*old(cache)).insert(key@, value@),
{
    cache.insert(key, value)
}

/// `Cache::invalidate`: nothing is stored under `key` any more.
#[verifier::external_body]
fn cache_invalidate(cache: &mut Cache<String, Cached>, key: &str)
    ensures
        stored(*final(cache)) == stored(*old(cache)).remove(key@),
{
    cache.invalidate(key)
}

/// The histories among `entries`, each under its key.
pub open spec fn histories_in(entries: Map<Seq<char>, CachedView>) -> Map<
    Seq<char>,
    HistoryEntryView,
> {
    Map::new(
        |key: Seq<char>| entries.contains_key(key) && entries[key] is History,
        |key: Seq<char>| entries[key]->History_0,
    )
}

/// The repository roots among `entries`, each under its key.
pub open spec fn roots_in(entries: Map<Seq<char>, CachedView>) -> Map<Seq<char>, Seq<char>> {
    Map::new(
        |key: Seq<char>| entries.contains_key(key) && entries[key] is Root,
        |key: Seq<char>| entries[key]->Root_0,
    )
}

/// The fetch times among `entries`, each under its key.
pub open spec fn fetch_times_in(entries: Map<Seq<char>, CachedView>) -> Map<Seq<char>, int> {
    Map::new(
        |key: Seq<char>| entries.contains_key(key) && entries[key] is FetchedAt,
        |key: Seq<char>| entries[key]->FetchedAt_0,
    )
}

/// Whether a memory that remembers `memory` may give `answer` when it is
/// asked for `key`: it may know nothing, and what it knows is what was
/// remembered.
pub open spec fn may_answer<V>(memory: Map<Seq<char>, V>, key: Seq<char>, answer: Option<V>) -> bool {
    answer matches Some(value) ==> memory.contains_key(key) && memory[key] == value
}

/// The three memories of the crate.
pub struct GitCaches {
    commits: Cache<String, Cached>,
    roots: Cache<String, Cached>,
    fetches: Cache<String, Cached>,
}

impl GitCaches {
    /// The histories remembered, each under the key of its query.
    pub closed spec fn histories(&self) -> Map<Seq<char>, HistoryEntryView> {
        histories_in(stored(self.commits))
    }

    /// The repository roots remembered, each under the path it was found
    /// for.
    pub closed spec fn roots(&self) -> Map<Seq<char>, Seq<char>> {
        roots_in(stored(self.roots))
    }

    /// The times of the last fetches, each under the key of its repository
    /// and remote.
    pub closed spec fn fetch_times(&self) -> Map<Seq<char>, int> {
        fetch_times_in(stored(self.fetches))
    }

    /// Memories that hold nothing yet.
    pub fn new() -> (caches: Self)
        ensures
            caches.histories() == Map::<Seq<char>, HistoryEntryView>::empty(),
            caches.roots() == Map::<Seq<char>, Seq<char>>::empty(),
            caches.fetch_times() == Map::<Seq<char>, int>::empty(),
    {
        let caches = GitCaches {
            commits: new_cache(HISTORY_TTL_SECS, 100),
            roots: new_cache(MEMO_TTL_SECS, 10),
            fetches: new_cache(MEMO_TTL_SECS, 10),
        };
        proof {
            assert(caches.histories() =~= Map::<Seq<char>, HistoryEntryView>::empty());
            assert(caches.roots() =~= Map::<Seq<char>, Seq<char>>::empty());
            assert(caches.fetch_times() =~= Map::<Seq<char>, int>::empty());
        }
        caches
    }

    /// The history remembered under `key`, where the memory still has it.
    pub fn history(&self, key: &str) -> (hit: Option<HistoryEntry>)
        ensures
            hit matches Some(entry) ==> self.histories().contains_key(key@) && entry@
                == self.histories()[key@],
    {
        // Whether the entry is still there is for the cache to say; what
        // comes back is told apart from the other kinds of entry.
        let found = cache_get(&self.commits, key);
        history_entry(found)
    }

    /// Remembers `entry` as the history under `key`.
    pub fn remember_history(&mut self, key: String, entry: HistoryEntry)
        ensures
            final(self).histories() == old(self).histories().insert(key@, entry@),
            final(self).roots() == old(self).roots(),
            final(self).fetch_times() == old(self).fetch_times(),
    {
        cache_insert(&mut self.commits, key, Cached::History(entry));
        proof {
            assert(self.histories() =~= old(self).histories().insert(key@, entry@));
        }
    }

    /// Forgets the history under `key`.
    pub fn forget_history(&mut self, key: &str)
        ensures
            final(self).histories() == old(self).histories().remove(key@),
            final(self).roots() == old(self).roots(),
            final(self).fetch_times() == old(self).fetch_times(),
    {
        cache_invalidate(&mut self.commits, key);
        proof {
            assert(self.histories() =~= old(self).histories().remove(key@));
        }
    }

    /// The repository root remembered for `path`, where the memory still has
    /// it.
    pub fn root(&self, path: &str) -> (hit: Option<String>)
        ensures
            hit matches Some(root) ==> self.roots().contains_key(path@) && root@
                == self.roots()[path@],
    {
        // Whether the entry is still there is for the cache to say; what
        // comes back is told apart from the other kinds of entry.
        let found = cache_get(&self.roots, path);
        root_entry(found)
    }

    /// Remembers `root` as the repository root for `path`.
    pub fn remember_root(&mut self, path: String, root: String)
        ensures
            final(self).roots() == old(self).roots().insert(path@, root@),
            final(self).histories() == old(self).histories(),
            final(self).fetch_times() == old(self).fetch_times(),
    {
        cache_insert(&mut self.roots, path, Cached::Root(root));
        proof {
            assert(self.roots() =~= old(self).roots().insert(path@, root@));
        }
    }

    /// Forgets the repository root for `path`.
    pub fn forget_root(&mut self, path: &str)
        ensures
            final(self).roots() == old(self).roots().remove(path@),
            final(self).histories() == old(self).histories(),
            final(self).fetch_times() == old(self).fetch_times(),
    {
        cache_invalidate(&mut self.roots, path);
        proof {
            assert(self.roots() =~= old(self).roots().remove(path@));
        }
    }

    /// The time of the last fetch remembered under `key`, where the memory
    /// still has it.
    pub fn fetch_time(&self, key: &str) -> (hit: Option<i64>)
        ensures
            hit matches Some(at) ==> self.fetch_times().contains_key(key@) && at
                == self.fetch_times()[key@],
    {
        // Whether the entry is still there is for the cache to say; what
        // comes back is told apart from the other kinds of entry.
        let found = cache_get(&self.fetches, key);
        fetch_entry(found)
    }

    /// Remembers `at` as the time of the last fetch under `key`.
    pub fn remember_fetch(&mut self, key: String, at: i64)
        ensures
            final(self).fetch_times() == old(self).fetch_times().insert(key@, at as int),
            final(self).histories() == old(self).histories(),
            final(self).roots() == old(self).roots(),
    {
        cache_insert(&mut self.fetches, key, Cached::FetchedAt(at));
        proof {
            assert(self.fetch_times() =~= old(self).fetch_times().insert(key@, at as int));
        }
    }

    /// Forgets the time of the last fetch under `key`.
    pub fn forget_fetch(&mut self, key: &str)
        ensures
            final(self).fetch_times() == old(self).fetch_times().remove(key@),
            final(self).histories() == old(self).histories(),
            final(self).roots() == old(self).roots(),
    {
        cache_invalidate(&mut self.fetches, key);
        proof {
            assert(self.fetch_times() =~= old(self).fetch_times().remove(key@));
        }
    }

    /// Forgets everything: each memory gives way to one that holds nothing.
    /// An emptied cache could still answer with an entry that was stored in
    /// the instant of the emptying; a new one cannot.
    pub fn clear(&mut self)
        ensures
            final(self).histories() == Map::<Seq<char>, HistoryEntryView>::empty(),
            final(self).roots() == Map::<Seq<char>, Seq<char>>::empty(),
            final(self).fetch_times() == Map::<Seq<char>, int>::empty(),
    {
        self.roots = new_cache(MEMO_TTL_SECS, 10);
        self.commits = new_cache(HISTORY_TTL_SECS, 100);
        self.fetches = new_cache(MEMO_TTL_SECS, 10);
        proof {
            assert(self.histories() =~= Map::<Seq<char>, HistoryEntryView>::empty());
            assert(self.roots() =~= Map::<Seq<char>, Seq<char>>::empty());
            assert(self.fetch_times() =~= Map::<Seq<char>, int>::empty());
        }
    }
}

/// The history that a lookup has found: the entry itself where the memory
/// answered with a history, and nothing where it answered with nothing or
/// with an entry of another kind.
pub fn history_entry(found: Option<Cached>) -> (hit: Option<HistoryEntry>)
    ensures
        hit == match found {
            Some(Cached::History(entry)) => Some(entry),
            _ => None,
        },
{
    match found {
        Some(Cached::History(entry)) => Some(entry),
        _ => None,
    }
}

/// The repository root that a lookup has found: the root itself where the
/// memory answered with a root, and nothing where it answered with nothing
/// or with an entry of another kind.
pub fn root_entry(found: Option<Cached>) -> (hit: Option<String>)
    ensures
        hit == match found {
            Some(Cached::Root(root)) => Some(root),
            _ => None,
        },
{
    match found {
        Some(Cached::Root(root)) => Some(root),
        _ => None,
    }
}

/// The time of a fetch that a lookup has found: the time itself where the
/// memory answered with one, and nothing where it answered with nothing or
/// with an entry of another kind.
pub fn fetch_entry(found: Option<Cached>) -> (hit: Option<i64>)
    ensures
        hit == match found {
            Some(Cached::FetchedAt(at)) => Some(at),
            _ => None,
        },
{
    match found {
        Some(Cached::FetchedAt(at)) => Some(at),
        _ => None,
    }
}

} // verus!
