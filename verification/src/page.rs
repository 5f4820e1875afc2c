//! Cutting a history into pages.
//!
//! Pages are numbered from one and all have the same size, but for the last,
//! which holds what is left. A page that does not exist is empty: page zero,
//! any page of size zero, any page past the end.
use vstd::prelude::*;
use crate::commit::{commit_views, BasicCommit};

verus! {

/// Page `page_number` of `items`, the pages holding `page_size` items each.
pub open spec fn page_of<T>(items: Seq<T>, page_number: nat, page_size: nat) -> Seq<T> {
    if page_number == 0 || page_size == 0 {
        Seq::empty()
    } else {
        let offset = (page_number - 1) * page_size;
        if offset >= items.len() {
            Seq::empty()
        } else if offset + page_size <= items.len() {
            items.subrange(offset, offset + page_size)
        } else {
            items.subrange(offset, items.len() as int)
        }
    }
}

/// The first `count` pages of `items`, one after the other.
pub open spec fn pages_joined<T>(items: Seq<T>, page_size: nat, count: nat) -> Seq<T>
    decreases count,
{
    if count == 0 {
        Seq::empty()
    } else {
        pages_joined(items, page_size, (count - 1) as nat) + page_of(items, count, page_size)
    }
}

/// The first `count` pages, one after the other, are the first
/// `count * page_size` items, or all of them where there are fewer.
pub proof fn lemma_pages_joined<T>(items: Seq<T>, page_size: nat, count: nat)
    requires
        page_size > 0,
    ensures
        pages_joined(items, page_size, count) == if count * page_size <= items.len() {
            items.take((count * page_size) as int)
        } else {
            items
        },
    decreases count,
{
    if count == 0 {
        assert(0 * page_size == 0) by (nonlinear_arith);
        assert(items.take(0) =~= Seq::<T>::empty());
    } else {
        let before = (count - 1) as nat;
        lemma_pages_joined(items, page_size, before);
        assert(count * page_size == before * page_size + page_size) by (nonlinear_arith)
            requires
                before == count - 1,
        ;
        let offset: int = (before * page_size) as int;
        if offset >= items.len() {
            if offset == items.len() {
                assert(items.take(offset) =~= items);
            }
            assert(pages_joined(items, page_size, count) =~= items);
        } else if offset + page_size <= items.len() {
            assert(items.take(offset) + items.subrange(offset, offset + page_size)
                =~= items.take(offset + page_size));
        } else {
            assert(items.take(offset) + items.subrange(offset, items.len() as int)
                =~= items);
        }
    }
}

/// The pages of a history, taken in order and put one after the other, give
/// the history back: nothing is lost, repeated or moved.
pub proof fn lemma_pages_cover<T>(items: Seq<T>, page_size: nat, count: nat)
    requires
        page_size > 0,
        count * page_size >= items.len(),
    ensures
        pages_joined(items, page_size, count) == items,
{
    lemma_pages_joined(items, page_size, count);
    if count * page_size == items.len() {
        assert(items.take(items.len() as int) =~= items);
    }
}

/// Page zero is empty, and so is every page of size zero.
pub proof fn lemma_page_zero<T>(items: Seq<T>, n: nat)
    ensures
        page_of(items, 0, n) == Seq::<T>::empty(),
        page_of(items, n, 0) == Seq::<T>::empty(),
{
}

/// A page past the end is empty.
pub proof fn lemma_page_past_end<T>(items: Seq<T>, page_number: nat, page_size: nat)
    requires
        page_number >= 1,
        (page_number - 1) * page_size >= items.len(),
    ensures
        page_of(items, page_number, page_size) == Seq::<T>::empty(),
{
}

/// A page holds no more than `page_size` items, and they stand in the
/// history one after the other, from item `(page_number - 1) * page_size`
/// on.
pub proof fn lemma_page_items<T>(items: Seq<T>, page_number: nat, page_size: nat, i: int)
    requires
        0 <= i < page_of(items, page_number, page_size).len(),
    ensures
        page_number >= 1,
        i < page_size,
        (page_number - 1) * page_size + i < items.len(),
        page_of(items, page_number, page_size)[i] == items[(page_number - 1) * page_size + i],
{
}

/// Page `page_number` of `commits`, the pages holding `page_size` commits
/// each.
pub fn page(commits: &[BasicCommit], page_number: usize, page_size: usize) -> (selected: Vec<
    BasicCommit,
>)
    ensures
        commit_views(selected@) == page_of(
            commit_views(commits@),
            page_number as nat,
            page_size as nat,
        ),
{
    let mut selected: Vec<BasicCommit> = Vec::new();
    if page_number == 0 || page_size == 0 {
        proof {
            assert(commit_views(selected@) =~= Seq::empty());
        }
        return selected;
    }
    let ghost views = commit_views(commits@);
    let total: usize = commits.len();
    let before: usize = page_number - 1;
    proof {
        assert((page_number as nat - 1) * (page_size as nat) == before * page_size)
            by (nonlinear_arith)
            requires
                before == page_number - 1,
        ;
    }
    let start: usize = match before.checked_mul(page_size) {
        Some(start) => start,
        None => {
            proof {
                assert(commit_views(selected@) =~= Seq::empty());
            }
            return selected;
        },
    };
    if start >= total {
        proof {
            assert(commit_views(selected@) =~= Seq::empty());
        }
        return selected;
    }
    let end: usize = if page_size <= total - start {
        start + page_size
    } else {
        total
    };
    let mut i: usize = start;
    while i < end
        invariant
            start <= i <= end <= commits.len(),
            views == commit_views(commits@),
            commit_views(selected@) == views.subrange(start as int, i as int),
        decreases end - i,
    {
        let commit = commits[i].clone();
        proof {
            assert(commit_views(selected@.push(commit)) =~= views.subrange(
                start as int,
                i as int,
            ).push(commit@));
            assert(views.subrange(start as int, i as int).push(views[i as int]) =~= views.subrange(
                start as int,
                i + 1,
            ));
        }
        selected.push(commit);
        i += 1;
    }
    selected
}

} // verus!
