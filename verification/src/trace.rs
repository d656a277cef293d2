//! Counting and picking in what was done.

use vstd::prelude::*;

verus! {

/// How many of `done` are of a kind.
pub open spec fn count<A>(done: Seq<A>, kind: spec_fn(A) -> bool) -> nat
    decreases done.len(),
{
    if done.len() == 0 {
        0
    } else {
        count(done.drop_last(), kind) + (if kind(done.last()) {
            1nat
        } else {
            0nat
        })
    }
}

/// What is done in two parts is counted part by part.
pub proof fn lemma_count_add<A>(done: Seq<A>, more: Seq<A>, kind: spec_fn(A) -> bool)
    ensures
        count(done + more, kind) == count(done, kind) + count(more, kind),
    decreases more.len(),
{
    if more.len() == 0 {
        assert(done + more =~= done);
    } else {
        lemma_count_add(done, more.drop_last(), kind);
        assert((done + more).drop_last() =~= done + more.drop_last());
    }
}

/// What `pick` takes from `done`, in order.
pub open spec fn picked<A, B>(done: Seq<A>, pick: spec_fn(A) -> Option<B>) -> Seq<B>
    decreases done.len(),
{
    if done.len() == 0 {
        Seq::empty()
    } else {
        match pick(done.last()) {
            Some(found) => picked(done.drop_last(), pick).push(found),
            None => picked(done.drop_last(), pick),
        }
    }
}

/// What is done in two parts is picked from part by part.
pub proof fn lemma_picked_add<A, B>(done: Seq<A>, more: Seq<A>, pick: spec_fn(A) -> Option<B>)
    ensures
        picked(done + more, pick) == picked(done, pick) + picked(more, pick),
    decreases more.len(),
{
    if more.len() == 0 {
        assert(done + more =~= done);
        assert(picked(done, pick) + picked(more, pick) =~= picked(done, pick));
    } else {
        lemma_picked_add(done, more.drop_last(), pick);
        assert((done + more).drop_last() =~= done + more.drop_last());
        assert((done + more).last() == more.last());
        assert(picked(done + more, pick) =~= picked(done, pick) + picked(more, pick));
    }
}

/// Being a certain value.
pub open spec fn equal_to<A>(value: A) -> spec_fn(A) -> bool {
    |other: A| other == value
}

/// How often `value` occurs in `done`.
pub open spec fn times<A>(done: Seq<A>, value: A) -> nat {
    count(done, equal_to(value))
}

/// Once if something holds, and else not at all.
pub open spec fn once_if(condition: bool) -> nat {
    if condition {
        1
    } else {
        0
    }
}

/// Every `first` among `done` stands in front of every `second`.
pub open spec fn comes_before<A>(done: Seq<A>, first: A, second: A) -> bool {
    forall|i: int, j: int|
        0 <= i < done.len() && 0 <= j < done.len() && #[trigger] done[i] == first
            && #[trigger] done[j] == second ==> i < j
}

/// What is counted in a few steps, step by step.
pub proof fn lemma_count_few<A>(done: Seq<A>, kind: spec_fn(A) -> bool)
    requires
        done.len() <= 3,
    ensures
        count(done, kind) == once_if(done.len() > 0 && kind(done[0])) + once_if(
            done.len() > 1 && kind(done[1]),
        ) + once_if(done.len() > 2 && kind(done[2])),
{
    reveal_with_fuel(count, 4);
    if done.len() > 1 {
        assert(done.drop_last().last() == done[done.len() - 2]);
    }
    if done.len() > 2 {
        assert(done.drop_last().drop_last().last() == done[0]);
    }
}

} // verus!
