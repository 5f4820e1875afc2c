//! Deciding which commits changed a path.
//!
//! A tree names the content of the whole repository at a commit. Resolving
//! the path in a tree gives the identifier of what the path holds there, or
//! nothing where the path does not exist. A commit changed the path when
//! that identifier is not the one in its first parent's tree; other parents
//! are not looked at. Identifiers name content, so a rename that keeps the
//! content, or a change elsewhere in the tree, changes nothing here.
//!
//! Resolving is the caller's work and is costly, and consecutive commits
//! share trees. What was resolved is therefore kept for the length of one
//! walk, and no tree is asked for twice.
use vstd::prelude::*;
use std::collections::HashMap;
use crate::backend::option_text;

verus! {

broadcast use vstd::std_specs::hash::group_hash_axioms;

/// Whether a commit changed a path: `own` is what the path resolves to in
/// the commit's tree, `parent` what it resolves to in the tree of the first
/// parent, and nothing where the commit has no parent. Without a parent the
/// path is changed exactly when it exists.
pub open spec fn changed_spec(own: Option<Seq<char>>, parent: Option<Option<Seq<char>>>) -> bool {
    match parent {
        Some(before) => own != before,
        None => own is Some,
    }
}

/// Whether two resolutions are the same: both nothing, or the same
/// identifier.
fn same_entry(a: &Option<String>, b: &Option<String>) -> (same: bool)
    ensures
        same == (option_text(*a) == option_text(*b)),
{
    match (a, b) {
        (Some(x), Some(y)) => *x == *y,
        (None, None) => true,
        _ => false,
    }
}

/// Whether a commit changed a path, from what the path resolves to in its
/// own tree and in the tree of its first parent.
pub fn changed(own: &Option<String>, parent: &Option<Option<String>>) -> (differs: bool)
    ensures
        differs == changed_spec(
            option_text(*own),
            match *parent {
                Some(before) => Some(option_text(before)),
                None => None,
            },
        ),
{
    match parent {
        Some(before) => !same_entry(own, before),
        None => own.is_some(),
    }
}

/// What is known of one tree: what the path resolves to in it.
#[derive(Debug, PartialEq, Eq)]
pub struct Resolution {
    /// The tree.
    pub tree: String,
    /// The identifier of what the path holds in the tree, or nothing where
    /// the path does not exist there.
    pub entry: Option<String>,
}

/// The trees among `known`, each with what the path resolves to in it. Of
/// two resolutions of one tree the first counts.
pub open spec fn resolved_in(known: Seq<Resolution>) -> Map<Seq<char>, Option<Seq<char>>>
    decreases known.len(),
{
    if known.len() == 0 {
        Map::empty()
    } else {
        let earlier = resolved_in(known.drop_last());
        if earlier.contains_key(known.last().tree@) {
            earlier
        } else {
            earlier.insert(known.last().tree@, option_text(known.last().entry))
        }
    }
}

/// The first resolution of a tree is among the resolutions, at a position
/// before which the tree does not occur.
proof fn lemma_resolved_in(known: Seq<Resolution>, tree: Seq<char>)
    ensures
        resolved_in(known).contains_key(tree) <==> exists|i: int|
            0 <= i < known.len() && (#[trigger] known[i]).tree@ == tree,
        forall|i: int|
            0 <= i < known.len() && (#[trigger] known[i]).tree@ == tree && (forall|j: int|
                0 <= j < i ==> (#[trigger] known[j]).tree@ != tree) ==> resolved_in(known)[tree]
                == option_text(known[i].entry),
    decreases known.len(),
{
    if known.len() > 0 {
        let earlier = known.drop_last();
        lemma_resolved_in(earlier, tree);
        assert forall|i: int| 0 <= i < earlier.len() implies #[trigger] earlier[i] == known[i] by {}
        if resolved_in(earlier).contains_key(tree) {
            let i = choose|i: int| 0 <= i < earlier.len() && (#[trigger] earlier[i]).tree@ == tree;
            assert(known[i].tree@ == tree);
        }
        if exists|i: int| 0 <= i < known.len() && (#[trigger] known[i]).tree@ == tree {
            let i = choose|i: int| 0 <= i < known.len() && (#[trigger] known[i]).tree@ == tree;
            if i < earlier.len() {
                assert(earlier[i].tree@ == tree);
            }
        }
        assert forall|i: int|
            0 <= i < known.len() && (#[trigger] known[i]).tree@ == tree && (forall|j: int|
                0 <= j < i ==> (#[trigger] known[j]).tree@ != tree) implies resolved_in(
            known,
        )[tree] == option_text(known[i].entry) by {
            if i < earlier.len() {
                assert(earlier[i].tree@ == tree);
                assert forall|j: int| 0 <= j < i implies (#[trigger] earlier[j]).tree@ != tree by {
                    assert(earlier[j] == known[j]);
                }
            } else {
                assert forall|j: int| 0 <= j < earlier.len() implies (#[trigger] earlier[j]).tree@
                    != tree by {
                    assert(earlier[j] == known[j]);
                }
            }
        }
    }
}

/// The number of the bucket that keeps what is known of `tree`: its
/// characters, taken as the digits of a number to the base 31, as far as
/// that number fits into 64 bits.
pub open spec fn bucket_of_spec(tree: Seq<char>) -> u64
    decreases tree.len(),
{
    if tree.len() == 0 {
        0
    } else {
        ((bucket_of_spec(tree.drop_last()) * 31 + tree.last() as u32)
            % 0x1_0000_0000_0000_0000) as u64
    }
}

/// The number of the bucket that keeps what is known of `tree`.
fn bucket_of(tree: &str) -> (bucket: u64)
    ensures
        bucket == bucket_of_spec(tree@),
{
    let mut bucket: u64 = 0;
    for c in it: tree.chars()
        invariant
            it.seq() == tree@,
            bucket == bucket_of_spec(it.seq().take(it.index() as int)),
    {
        proof {
            let longer = it.seq().take(it.index() + 1);
            assert(longer.drop_last() =~= it.seq().take(it.index() as int));
            assert(longer.last() == c);
        }
        bucket = (((bucket as u128) * 31 + (c as u32) as u128)
            % 0x1_0000_0000_0000_0000u128) as u64;
    }
    proof {
        assert(tree@.take(tree@.len() as int) =~= tree@);
    }
    bucket
}

/// What one walk has resolved so far. The resolutions lie in buckets by
/// their trees, so that a tree is found without looking at all the others.
#[derive(Debug, PartialEq, Eq)]
pub struct ChangeCache {
    buckets: HashMap<u64, Vec<Resolution>>,
}

impl ChangeCache {
    /// The trees resolved so far, each with what the path resolves to in
    /// it.
    pub closed spec fn view(&self) -> Map<Seq<char>, Option<Seq<char>>> {
        Map::new(
            |tree: Seq<char>|
                self.buckets@.contains_key(bucket_of_spec(tree)) && resolved_in(
                    self.buckets@[bucket_of_spec(tree)]@,
                ).contains_key(tree),
            |tree: Seq<char>| resolved_in(self.buckets@[bucket_of_spec(tree)]@)[tree],
        )
    }

    /// A cache that knows no tree.
    pub fn new() -> (cache: Self)
        ensures
            cache@ == Map::<Seq<char>, Option<Seq<char>>>::empty(),
    {
        let cache = ChangeCache { buckets: HashMap::new() };
        proof {
            assert(cache@ =~= Map::<Seq<char>, Option<Seq<char>>>::empty());
        }
        cache
    }

    /// What the path resolves to in `tree`, as far as that is known.
    pub fn lookup(&self, tree: &str) -> (found: Option<Option<String>>)
        ensures
            match found {
                Some(entry) => self@.contains_key(tree@) && self@[tree@] == option_text(entry),
                None => !self@.contains_key(tree@),
            },
    {
        let number = bucket_of(tree);
        let bucket = match self.buckets.get(&number) {
            Some(bucket) => bucket,
            None => {
                return None;
            },
        };
        let wanted = tree.to_owned();
        let mut i: usize = 0;
        while i < bucket.len()
            invariant
                i <= bucket@.len(),
                wanted@ == tree@,
                number == bucket_of_spec(tree@),
                self.buckets@.contains_key(number),
                self.buckets@[number]@ == bucket@,
                forall|j: int| 0 <= j < i ==> (#[trigger] bucket@[j]).tree@ != tree@,
            decreases bucket@.len() - i,
        {
            if bucket[i].tree == wanted {
                proof {
                    lemma_resolved_in(bucket@, tree@);
                }
                return Some(bucket[i].entry.clone());
            }
            i += 1;
        }
        proof {
            lemma_resolved_in(bucket@, tree@);
        }
        None
    }

    /// Keeps what `resolution` says of its tree, unless the tree is known
    /// already.
    pub fn record(&mut self, resolution: Resolution)
        ensures
            final(self)@ == if old(self)@.contains_key(resolution.tree@) {
                old(self)@
            } else {
                old(self)@.insert(resolution.tree@, option_text(resolution.entry))
            },
    {
        let number = bucket_of(resolution.tree.as_str());
        let ghost old_buckets = self.buckets@;
        let mut bucket = match self.buckets.remove(&number) {
            Some(bucket) => bucket,
            None => Vec::new(),
        };
        let ghost before = bucket@;
        proof {
            assert(self.buckets@ == old_buckets.remove(number));
            assert(before == if old_buckets.contains_key(number) {
                old_buckets[number]@
            } else {
                Seq::<Resolution>::empty()
            });
            assert(before.push(resolution).drop_last() =~= before);
        }
        bucket.push(resolution);
        self.buckets.insert(number, bucket);
        proof {
            let expected = if old(self)@.contains_key(resolution.tree@) {
                old(self)@
            } else {
                old(self)@.insert(resolution.tree@, option_text(resolution.entry))
            };
            assert(self.buckets@[number]@ == before.push(resolution));
            assert forall|tree: Seq<char>|
                #![trigger self@.contains_key(tree)]
                #![trigger expected.contains_key(tree)]
                self@.contains_key(tree) == expected.contains_key(tree) && (self@.contains_key(
                    tree,
                ) ==> self@[tree] == expected[tree]) by {
                let other = bucket_of_spec(tree);
                if other != number {
                    assert(self.buckets@.contains_key(other) == old_buckets.contains_key(other));
                    if old_buckets.contains_key(other) {
                        assert(self.buckets@[other] == old_buckets[other]);
                    }
                    assert(tree != resolution.tree@);
                } else {
                    assert(old(self)@.contains_key(tree) == resolved_in(before).contains_key(
                        tree,
                    ));
                    if old(self)@.contains_key(tree) {
                        assert(old(self)@[tree] == resolved_in(before)[tree]);
                    }
                }
            }
            assert(self@ =~= expected);
        }
    }
}

} // verus!
