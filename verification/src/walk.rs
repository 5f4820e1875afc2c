//! Walking the history of a path, commit by commit.
//!
//! The walk is handed the line of first parents from the starting commit
//! back, newest commit first, as the repository gives it. It keeps the
//! commits that changed the path and drops the others, in the order of the
//! line: a commit never comes after one of its ancestors. Wherever it must
//! know what the path resolves to in a tree, it asks, once for each tree.
use vstd::prelude::*;
use crate::backend::option_text;
use crate::change::{changed, changed_spec, ChangeCache, Resolution};
use crate::commit::{commit_views, BasicCommit, CommitView};

verus! {

/// A commit on the line of first parents.
#[derive(Debug, PartialEq, Eq)]
pub struct CommitNode {
    /// The commit.
    pub commit: BasicCommit,
    /// The tree of the commit.
    pub tree: String,
    /// The tree of its first parent, or nothing where it has no parent.
    pub parent_tree: Option<String>,
}

/// Where a walk stands.
#[derive(Debug, PartialEq, Eq)]
pub enum WalkStep {
    /// The caller is to resolve the path in `tree` and to go on with
    /// `walker` and what it found.
    Resolve { walker: RevisionWalker, tree: String },
    /// The commits that changed the path, newest first.
    Done(Vec<BasicCommit>),
}

/// The first position at or after `from` of a commit on `line` that cannot
/// be judged by what is known, or the length of the line where all can.
pub open spec fn first_blocked(
    line: Seq<CommitNode>,
    known: Map<Seq<char>, Option<Seq<char>>>,
    from: int,
) -> int
    decreases line.len() - from,
{
    if 0 <= from < line.len() {
        if needed(line[from], known) is Some {
            from
        } else {
            first_blocked(line, known, from + 1)
        }
    } else {
        line.len() as int
    }
}

/// The first commit that cannot be judged stands on the line, at or after
/// the position from which it was looked for, and every commit between the
/// two can be judged.
pub proof fn lemma_first_blocked(
    line: Seq<CommitNode>,
    known: Map<Seq<char>, Option<Seq<char>>>,
    from: int,
)
    ensures
        first_blocked(line, known, from) <= line.len(),
        0 <= from <= line.len() ==> from <= first_blocked(line, known, from),
        first_blocked(line, known, from) < line.len() ==> needed(
            line[first_blocked(line, known, from)],
            known,
        ) is Some,
        forall|i: int|
            0 <= from <= i < first_blocked(line, known, from) ==> needed(
                #[trigger] line[i],
                known,
            ) is None,
    decreases line.len() - from,
{
    if 0 <= from < line.len() && needed(line[from], known) is None {
        lemma_first_blocked(line, known, from + 1);
    }
}

/// The tree that must be resolved before `node` can be judged, if there is
/// one: its own tree first, then that of its parent.
pub open spec fn needed(node: CommitNode, known: Map<Seq<char>, Option<Seq<char>>>) -> Option<
    Seq<char>,
> {
    if !known.contains_key(node.tree@) {
        Some(node.tree@)
    } else {
        match node.parent_tree {
            Some(parent) if !known.contains_key(parent@) => Some(parent@),
            _ => None,
        }
    }
}

/// Whether `node` changed the path, by what is known of its trees.
pub open spec fn node_changed(node: CommitNode, known: Map<Seq<char>, Option<Seq<char>>>) -> bool {
    changed_spec(
        known[node.tree@],
        match node.parent_tree {
            Some(parent) => Some(known[parent@]),
            None => None,
        },
    )
}

/// The positions on `line` of the commits that changed the path, in rising
/// order.
pub open spec fn kept_positions(line: Seq<CommitNode>, known: Map<Seq<char>, Option<Seq<char>>>) -> Seq<
    int,
>
    decreases line.len(),
{
    if line.len() == 0 {
        Seq::empty()
    } else {
        let earlier = kept_positions(line.drop_last(), known);
        if node_changed(line.last(), known) {
            earlier.push(line.len() - 1)
        } else {
            earlier
        }
    }
}

/// The commits of `line` that changed the path, in the order of the line.
pub open spec fn kept_commits(line: Seq<CommitNode>, known: Map<Seq<char>, Option<Seq<char>>>) -> Seq<
    CommitView,
> {
    let positions = kept_positions(line, known);
    Seq::new(positions.len(), |i: int| line[positions[i]].commit@)
}

/// Whether all of the first `count` commits of `line` can be judged by what
/// is known.
pub open spec fn judged(
    line: Seq<CommitNode>,
    known: Map<Seq<char>, Option<Seq<char>>>,
    count: int,
) -> bool {
    forall|i: int| 0 <= i < count ==> needed(#[trigger] line[i], known) is None
}

/// The walk keeps the order of the line and keeps exactly the commits that
/// changed the path: the positions kept rise strictly, each is the position
/// of a commit that changed the path, and no such commit is left out. So no
/// commit is listed before one of its descendants on the line.
pub proof fn lemma_walk_keeps_order(line: Seq<CommitNode>, known: Map<Seq<char>, Option<Seq<char>>>)
    ensures
        forall|i: int|
            0 <= i < kept_positions(line, known).len() ==> 0 <= #[trigger] kept_positions(
                line,
                known,
            )[i] < line.len() && node_changed(line[kept_positions(line, known)[i]], known),
        forall|i: int, j: int|
            0 <= i < j < kept_positions(line, known).len() ==> #[trigger] kept_positions(
                line,
                known,
            )[i] < #[trigger] kept_positions(line, known)[j],
        forall|p: int|
            0 <= p < line.len() && node_changed(#[trigger] line[p], known) ==> kept_positions(
                line,
                known,
            ).contains(p),
    decreases line.len(),
{
    if line.len() > 0 {
        let earlier = line.drop_last();
        lemma_walk_keeps_order(earlier, known);
        let before = kept_positions(earlier, known);
        let all = kept_positions(line, known);
        assert forall|i: int| 0 <= i < all.len() implies 0 <= #[trigger] all[i] < line.len()
            && node_changed(line[all[i]], known) by {
            if i < before.len() {
                assert(all[i] == before[i]);
                assert(line[before[i]] == earlier[before[i]]);
            }
        }
        assert forall|i: int, j: int| 0 <= i < j < all.len() implies #[trigger] all[i]
            < #[trigger] all[j] by {
            assert(all[i] == before[i]);
            if j < before.len() {
                assert(all[j] == before[j]);
            }
        }
        assert forall|p: int|
            0 <= p < line.len() && node_changed(#[trigger] line[p], known) implies all.contains(
            p,
        ) by {
            if p < earlier.len() {
                assert(earlier[p] == line[p]);
                let i = choose|i: int| 0 <= i < before.len() && before[i] == p;
                assert(all[i] == p);
            } else {
                assert(all[all.len() - 1] == p);
            }
        }
    }
}

/// What is known grows: a tree that is resolved stays resolved, to the
/// same.
pub open spec fn grows(
    before: Map<Seq<char>, Option<Seq<char>>>,
    after: Map<Seq<char>, Option<Seq<char>>>,
) -> bool {
    forall|tree: Seq<char>| #[trigger]
        before.contains_key(tree) ==> after.contains_key(tree) && after[tree] == before[tree]
}

/// Commits that could be judged are judged the same once more is known.
proof fn lemma_kept_stable(
    line: Seq<CommitNode>,
    before: Map<Seq<char>, Option<Seq<char>>>,
    after: Map<Seq<char>, Option<Seq<char>>>,
)
    requires
        grows(before, after),
        judged(line, before, line.len() as int),
    ensures
        judged(line, after, line.len() as int),
        kept_positions(line, after) == kept_positions(line, before),
        kept_commits(line, after) == kept_commits(line, before),
    decreases line.len(),
{
    assert forall|i: int| 0 <= i < line.len() implies needed(#[trigger] line[i], after) is None
        && node_changed(line[i], after) == node_changed(line[i], before) by {
        assert(needed(line[i], before) is None);
        assert(before.contains_key(line[i].tree@));
        match line[i].parent_tree {
            Some(parent) => {
                assert(before.contains_key(parent@));
            },
            None => {},
        }
    }
    if line.len() > 0 {
        let earlier = line.drop_last();
        assert forall|i: int| 0 <= i < earlier.len() implies needed(
            #[trigger] earlier[i],
            before,
        ) is None by {
            assert(earlier[i] == line[i]);
        }
        lemma_kept_stable(earlier, before, after);
        assert(line.last() == line[line.len() - 1]);
    }
    assert(kept_commits(line, after) =~= kept_commits(line, before));
}

/// A walk along one line of first parents. Whatever was done with it, the
/// commits before its position can be judged by what it knows, and those of
/// them that changed the path are kept.
#[derive(Debug, PartialEq, Eq)]
pub struct RevisionWalker {
    line: Vec<CommitNode>,
    position: usize,
    memo: ChangeCache,
    kept: Vec<BasicCommit>,
}

impl RevisionWalker {
    /// The line that is walked.
    pub closed spec fn line(&self) -> Seq<CommitNode> {
        self.line@
    }

    /// How many commits of the line are judged.
    pub closed spec fn position(&self) -> int {
        self.position as int
    }

    /// What the walk knows of the trees.
    pub closed spec fn known(&self) -> Map<Seq<char>, Option<Seq<char>>> {
        self.memo@
    }

    /// The walk is in order: the commits up to its position are judged, and
    /// those of them that changed the path are kept.
    #[verifier::type_invariant]
    pub closed spec fn well_formed(&self) -> bool {
        &&& self.position <= self.line@.len()
        &&& judged(self.line@, self.memo@, self.position as int)
        &&& commit_views(self.kept@) == kept_commits(
            self.line@.take(self.position as int),
            self.memo@,
        )
    }

    /// A walk along `line` that has judged no commit and knows no tree.
    pub fn new(line: Vec<CommitNode>) -> (walker: Self)
        ensures
            walker.line() == line@,
            walker.position() == 0,
            walker.known() == Map::<Seq<char>, Option<Seq<char>>>::empty(),
    {
        let memo = ChangeCache::new();
        let kept: Vec<BasicCommit> = Vec::new();
        proof {
            assert(line@.take(0) =~= Seq::<CommitNode>::empty());
            assert(commit_views(kept@) =~= kept_commits(line@.take(0), memo@));
        }
        RevisionWalker { line, position: 0, memo, kept }
    }

    /// One step of the walk. `answer` is nothing when the walk begins, and
    /// afterwards what the caller found for the tree that the step before
    /// named.
    ///
    /// The answer is kept, unless its tree is known already. The walk then
    /// judges commit after commit until it comes to one with a tree that is
    /// not known, which it names, or to the end of the line, where it hands
    /// out the commits that changed the path. A tree that it names is never
    /// one that it knows.
    #[verifier::loop_isolation(false)]
    pub fn walk(self, answer: Option<Resolution>) -> (step: WalkStep)
        ensures
            match step {
                WalkStep::Resolve { walker, tree } => {
                    &&& walker.line() == self.line()
                    &&& walker.known() == known_after(self.known(), answer)
                    &&& walker.position() == first_blocked(
                        self.line(),
                        walker.known(),
                        self.position(),
                    )
                    &&& self.position() <= walker.position() < self.line().len()
                    &&& judged(self.line(), walker.known(), walker.position())
                    &&& needed(self.line()[walker.position()], walker.known()) == Some(tree@)
                },
                WalkStep::Done(commits) => {
                    &&& first_blocked(
                        self.line(),
                        known_after(self.known(), answer),
                        self.position(),
                    ) == self.line().len()
                    &&& judged(
                        self.line(),
                        known_after(self.known(), answer),
                        self.line().len() as int,
                    )
                    &&& commit_views(commits@) == kept_commits(
                        self.line(),
                        known_after(self.known(), answer),
                    )
                },
            },
    {
        proof {
            use_type_invariant(&self);
        }
        let ghost known_before = self.memo@;
        let ghost start = self.position;
        let RevisionWalker { line, position, memo, kept } = self;
        let mut position = position;
        let mut memo = memo;
        let mut kept = kept;
        match answer {
            Some(resolution) => {
                memo.record(resolution);
            },
            None => {},
        }
        proof {
            let judged_line = line@.take(position as int);
            assert forall|i: int| 0 <= i < judged_line.len() implies needed(
                #[trigger] judged_line[i],
                known_before,
            ) is None by {
                assert(judged_line[i] == line@[i]);
            }
            lemma_kept_stable(judged_line, known_before, memo@);
            assert forall|i: int| 0 <= i < position implies needed(
                #[trigger] line@[i],
                memo@,
            ) is None by {
                assert(judged_line[i] == line@[i]);
            }
        }
        while position < line.len()
            invariant
                start <= position <= line@.len(),
                judged(line@, memo@, position as int),
                commit_views(kept@) == kept_commits(line@.take(position as int), memo@),
                first_blocked(line@, memo@, start as int) == first_blocked(
                    line@,
                    memo@,
                    position as int,
                ),
            decreases line@.len() - position,
        {
            let own = match memo.lookup(line[position].tree.as_str()) {
                Some(entry) => entry,
                None => {
                    let tree = line[position].tree.clone();
                    return WalkStep::Resolve {
                        walker: RevisionWalker { line, position, memo, kept },
                        tree,
                    };
                },
            };
            let parent = match &line[position].parent_tree {
                Some(tree) => match memo.lookup(tree.as_str()) {
                    Some(entry) => Some(entry),
                    None => {
                        let tree = tree.clone();
                        return WalkStep::Resolve {
                            walker: RevisionWalker { line, position, memo, kept },
                            tree,
                        };
                    },
                },
                None => None,
            };
            let differs = changed(&own, &parent);
            let commit = line[position].commit.clone();
            proof {
                let node = line@[position as int];
                let shorter = line@.take(position as int);
                let longer = line@.take(position + 1);
                assert(longer.drop_last() =~= shorter);
                assert(longer.last() == node);
                assert(differs == node_changed(node, memo@));
                let positions = kept_positions(shorter, memo@);
                lemma_walk_keeps_order(shorter, memo@);
                assert forall|i: int| 0 <= i < positions.len() implies longer[positions[i]]
                    == shorter[#[trigger] positions[i]] by {}
                if differs {
                    assert(kept_commits(longer, memo@) =~= kept_commits(shorter, memo@).push(
                        commit@,
                    ));
                    assert(commit_views(kept@.push(commit)) =~= commit_views(kept@).push(commit@));
                } else {
                    assert(kept_commits(longer, memo@) =~= kept_commits(shorter, memo@));
                }
            }
            if differs {
                kept.push(commit);
            }
            position += 1;
        }
        proof {
            assert(line@.take(position as int) =~= line@);
        }
        WalkStep::Done(kept)
    }
}

/// What a walk knows after it was given `answer`: the answer too, unless its
/// tree was known already.
pub open spec fn known_after(
    known: Map<Seq<char>, Option<Seq<char>>>,
    answer: Option<Resolution>,
) -> Map<Seq<char>, Option<Seq<char>>> {
    match answer {
        Some(resolution) if !known.contains_key(resolution.tree@) => known.insert(
            resolution.tree@,
            option_text(resolution.entry),
        ),
        _ => known,
    }
}

} // verus!
