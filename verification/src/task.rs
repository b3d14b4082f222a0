//! Task wakers: which of them have to be woken, and which tasks they stand for.

use core::task::{Poll, Waker};

use vstd::prelude::*;

verus! {

/// `core::task::Poll`, with its two variants.
#[verifier::external_type_specification]
pub struct ExPoll<T>(Poll<T>);

/// `core::task::Waker`, an opaque handle to a task.
#[verifier::external_type_specification]
#[verifier::external_body]
pub struct ExWaker(Waker);

/// `Waker::will_wake` compares two wakers on a best-effort basis: it may answer `false` for two
/// wakers of one task. Nothing is claimed of its answer; [`will_wake_answer`] says which answers
/// it can give. That two wakers found equal wake one task is left unsaid: nothing here names the
/// task of a waker.
pub assume_specification[ Waker::will_wake ](this: &Waker, other: &Waker) -> (answer: bool);

/// `Waker::clone` gives another handle to the same task. Nothing is claimed of it; contracts
/// speak of its outcome through [`is_clone`].
pub assume_specification[ <Waker as Clone>::clone ](this: &Waker) -> (copy: Waker);

/// Whether `answer` is an answer of `waker.will_wake(&other)`.
pub open spec fn will_wake_answer(waker: Waker, other: Waker, answer: bool) -> bool {
    call_ensures(Waker::will_wake, (&waker, &other), answer)
}

/// Whether `copy` is an outcome of `source.clone()`.
pub open spec fn is_clone<W: Clone>(source: W, copy: W) -> bool {
    vstd::pervasive::strictly_cloned(source, copy)
}

/// Whether `same` holds, for each of `wakers` in turn, an answer of its comparison with `current`.
pub open spec fn will_wake_answers(wakers: Seq<Waker>, current: Waker, same: Seq<bool>) -> bool {
    &&& same.len() == wakers.len()
    &&& forall|i: int|
        #![trigger wakers[i]]
        #![trigger same[i]]
        0 <= i < wakers.len() ==> will_wake_answer(wakers[i], current, same[i])
}

/// Those of `wakers` whose comparison came out `false`, in their order.
pub open spec fn unmatched<W>(wakers: Seq<W>, same: Seq<bool>) -> Seq<W>
    decreases wakers.len(),
{
    if wakers.len() == 0 {
        Seq::empty()
    } else {
        let before = unmatched(wakers.drop_last(), same.drop_last());
        if same.last() {
            before
        } else {
            before.push(wakers.last())
        }
    }
}

/// Whether `after` is what a stream remembers of the task that polls it with `current`, having
/// remembered `before`: a clone of `current`, unless `before` already wakes that task.
pub open spec fn remembered(before: Option<Waker>, current: Waker, after: Option<Waker>) -> bool {
    match after {
        Some(waker) => {
            ||| is_clone(current, waker)
            ||| before == Some(waker) && will_wake_answer(waker, current, true)
        },
        None => false,
    }
}

/// Whether `same` says if the remembered waker, if there is one, wakes the task of `current`.
pub open spec fn is_same_task(remembered: Option<Waker>, current: Waker, same: bool) -> bool {
    match remembered {
        Some(waker) => will_wake_answer(waker, current, same),
        None => !same,
    }
}

/// Calls `f`, and keeps hold of the fact that the answer came from it.
fn call_with_both<F: Fn(&Waker, &Waker) -> bool>(f: F, a: &Waker, b: &Waker) -> (answer: bool)
    requires
        call_requires(f, (a, b)),
    ensures
        call_ensures(f, (a, b), answer),
{
    f(a, b)
}

/// Asks whether `waker` wakes the same task as `other`.
pub fn will_wake(waker: &Waker, other: &Waker) -> (answer: bool)
    ensures
        will_wake_answer(*waker, *other, answer),
{
    call_with_both(Waker::will_wake, waker, other)
}

/// Clones `source`, and keeps hold of the fact that the copy came from it.
fn clone_of<W: Clone>(source: &W) -> (copy: W)
    ensures
        is_clone(*source, copy),
{
    source.clone()
}

/// Another handle to the task of `waker`.
pub fn clone_waker(waker: &Waker) -> (copy: Waker)
    ensures
        is_clone(*waker, copy),
{
    clone_of(waker)
}

/// `Waker::clone_from`: `target` becomes a clone of `source`, unless `target.will_wake(source)`
/// is true, in which case it stays as it is.
#[verifier::external_body]
fn clone_waker_from(target: &mut Waker, source: &Waker)
    ensures
        remembered(Some(*old(target)), *source, Some(*final(target))),
{
    target.clone_from(source)
}

/// Remembers the task that polls with `current`.
pub fn remember(slot: &mut Option<Waker>, current: &Waker)
    ensures
        remembered(*old(slot), *current, *final(slot)),
{
    match slot.take() {
        Some(mut waker) => {
            clone_waker_from(&mut waker, current);
            *slot = Some(waker);
        },
        None => {
            *slot = Some(clone_waker(current));
        },
    }
}

/// Whether the remembered waker, if there is one, wakes the task of `current`.
pub fn same_task(slot: &Option<Waker>, current: &Waker) -> (same: bool)
    ensures
        is_same_task(*slot, *current, same),
{
    match slot {
        Some(waker) => will_wake(waker, current),
        None => false,
    }
}

/// Compares each of `wakers` with `current`.
pub fn compare_wakers(wakers: &Vec<Waker>, current: &Waker) -> (same: Vec<bool>)
    ensures
        will_wake_answers(wakers@, *current, same@),
{
    let mut same: Vec<bool> = Vec::new();
    let mut i: usize = 0;
    while i < wakers.len()
        invariant
            i <= wakers@.len(),
            will_wake_answers(wakers@.take(i as int), *current, same@),
        decreases wakers@.len() - i,
    {
        let answer = will_wake(&wakers[i], current);
        same.push(answer);
        i += 1;
    }
    same
}

/// Picks the wakers that are left to be woken once the answers of their comparisons are known.
pub fn wakers_to_wake(wakers: Vec<Waker>, same: &Vec<bool>) -> (wake: Vec<Waker>)
    requires
        same@.len() == wakers@.len(),
    ensures
        wake@ == unmatched(wakers@, same@),
{
    let mut wake: Vec<Waker> = Vec::new();
    let ghost all = wakers@;
    let mut i: usize = 0;
    for waker in it: wakers.into_iter()
        invariant
            it.seq() == all,
            i == it.index(),
            same.len() == all.len(),
            wake@ == unmatched(all.take(i as int), same@.take(i as int)),
    {
        let matched = same[i];
        if !matched {
            wake.push(waker);
        }
        proof {
            assert(all.take(i + 1).drop_last() =~= all.take(i as int));
            assert(same@.take(i + 1).drop_last() =~= same@.take(i as int));
        }
        i += 1;
    }
    proof {
        assert(all.take(i as int) =~= all);
        assert(same@.take(i as int) =~= same@);
    }
    wake
}

} // verus!
