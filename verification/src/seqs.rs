//! Sequences: the front of a list, and the items that a rule picks from one.

use vstd::prelude::*;

verus! {

/// The first `n` items of a list, all of it where it is shorter.
pub open spec fn first_items<T>(list: Seq<T>, n: nat) -> Seq<T> {
    if list.len() <= n {
        list
    } else {
        list.take(n as int)
    }
}

/// What `pick` makes of the items of `list` of which it makes anything, in order.
pub open spec fn picked<A, B>(list: Seq<A>, pick: spec_fn(A) -> Option<B>) -> Seq<B>
    decreases list.len(),
{
    if list.len() == 0 {
        Seq::empty()
    } else {
        match pick(list.last()) {
            Some(b) => picked(list.drop_last(), pick).push(b),
            None => picked(list.drop_last(), pick),
        }
    }
}

/// The first thing that `pick` makes of an item of `list`.
pub open spec fn first_picked<A, B>(list: Seq<A>, pick: spec_fn(A) -> Option<B>) -> Option<B>
    decreases list.len(),
{
    if list.len() == 0 {
        None
    } else {
        match first_picked(list.drop_last(), pick) {
            Some(b) => Some(b),
            None => pick(list.last()),
        }
    }
}

/// The item of an option as a list of one, or the empty list.
pub open spec fn listed<T>(o: Option<T>) -> Seq<T> {
    match o {
        Some(t) => seq![t],
        None => Seq::empty(),
    }
}

/// Every item that is picked is what `pick` makes of an item of the list.
pub proof fn lemma_picked_members<A, B>(list: Seq<A>, pick: spec_fn(A) -> Option<B>)
    ensures
        forall|i: int|
            0 <= i < picked(list, pick).len() ==> exists|k: int|
                0 <= k < list.len() && pick(list[k]) == Some(#[trigger] picked(list, pick)[i]),
        picked(list, pick).len() <= list.len(),
    decreases list.len(),
{
    if list.len() > 0 {
        let front = list.drop_last();
        let out = picked(list, pick);
        lemma_picked_members(front, pick);
        assert forall|i: int| 0 <= i < out.len() implies exists|k: int|
            0 <= k < list.len() && pick(list[k]) == Some(#[trigger] out[i]) by {
            if i < picked(front, pick).len() {
                assert(out[i] == picked(front, pick)[i]);
                let k = choose|k: int|
                    0 <= k < front.len() && pick(front[k]) == Some(picked(front, pick)[i]);
                assert(front[k] == list[k]);
            } else {
                assert(pick(list[list.len() - 1]) == Some(out[i]));
            }
        }
    }
}

/// What is picked from the front of a list is the front of what is picked
/// from all of it.
pub proof fn lemma_picked_front<A, B>(list: Seq<A>, pick: spec_fn(A) -> Option<B>, i: int)
    requires
        0 <= i <= list.len(),
    ensures
        picked(list.take(i), pick).len() <= picked(list, pick).len(),
        picked(list.take(i), pick) == picked(list, pick).take(
            picked(list.take(i), pick).len() as int,
        ),
    decreases list.len(),
{
    if i == list.len() {
        assert(list.take(i) == list);
        assert(picked(list, pick).take(picked(list, pick).len() as int) == picked(list, pick));
    } else {
        let front = list.drop_last();
        lemma_picked_front(front, pick, i);
        assert(front.take(i) == list.take(i));
        let some = picked(front.take(i), pick);
        assert(picked(front, pick).take(some.len() as int) == picked(list, pick).take(
            some.len() as int,
        ));
    }
}

/// Once the front of a list has yielded `n` picks, the first `n` picks of
/// the whole list are known.
pub proof fn lemma_first_picks<A, B>(
    list: Seq<A>,
    pick: spec_fn(A) -> Option<B>,
    i: int,
    n: nat,
)
    requires
        0 <= i <= list.len(),
        picked(list.take(i), pick).len() == n || (i == list.len() && picked(list, pick).len()
            <= n),
    ensures
        first_items(picked(list, pick), n) == picked(list.take(i), pick),
{
    lemma_picked_front(list, pick, i);
    if i == list.len() {
        assert(list.take(i) == list);
    }
}

/// What is first picked from the front of a list is first picked from all of it.
pub proof fn lemma_first_picked_front<A, B>(
    list: Seq<A>,
    pick: spec_fn(A) -> Option<B>,
    i: int,
)
    requires
        0 <= i <= list.len(),
        first_picked(list.take(i), pick) is Some,
    ensures
        first_picked(list, pick) == first_picked(list.take(i), pick),
    decreases list.len(),
{
    if i == list.len() {
        assert(list.take(i) == list);
    } else {
        let front = list.drop_last();
        assert(front.take(i) == list.take(i));
        lemma_first_picked_front(front, pick, i);
    }
}

} // verus!
