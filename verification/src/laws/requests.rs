//! Requests: what the consumer gets for asking, and which tasks are woken for it.

use core::future::Future;
use core::task::{Poll, Waker};

use crate::active::{ActiveStreamInner, ActiveStreamPointerGuard};
use crate::inner::{Inner, InnerView};
use crate::stream::{FnStream, PollStart, TryFnStream};

use vstd::prelude::*;

verus! {

/// Whether `wake` holds those of `wakers` that were not found to wake the task of `polling`, each
/// once and in their order: those at the places `at`.
pub open spec fn wakes_all_but(
    wakers: Seq<Waker>,
    polling: Waker,
    wake: Seq<Waker>,
    at: Seq<int>,
) -> bool {
    &&& at.len() == wake.len()
    &&& forall|i: int, j: int| 0 <= i < j < at.len() ==> #[trigger] at[i] < #[trigger] at[j]
    &&& forall|i: int|
        0 <= i < at.len() ==> 0 <= #[trigger] at[i] < wakers.len() && wake[i] == wakers[at[i]]
            && call_ensures(Waker::will_wake, (&wakers[at[i]], &polling), false)
    &&& forall|p: int|
        0 <= p < wakers.len() && !at.contains(p) ==> call_ensures(
            Waker::will_wake,
            (&#[trigger] wakers[p], &polling),
            true,
        )
}

/// Whether `after` remembers the task of `polling` as the one that polls the stream: by a clone
/// of `polling`, or by what it remembered before if that was found to wake the same task.
pub open spec fn remembers<T>(before: InnerView<T>, polling: Waker, after: InnerView<T>) -> bool {
    &&& after.stream_waker is Some
    &&& {
        ||| call_ensures(Waker::clone, (&polling,), after.stream_waker->0)
        ||| after.stream_waker == before.stream_waker && call_ensures(
            Waker::will_wake,
            (&after.stream_waker->0, &polling),
            true,
        )
    }
}

/// The places at which `same` is false.
spec fn places_of_false(same: Seq<bool>) -> Seq<int>
    decreases same.len(),
{
    if same.len() == 0 {
        Seq::empty()
    } else {
        let before = places_of_false(same.drop_last());
        if same.last() {
            before
        } else {
            before.push(same.len() - 1)
        }
    }
}

proof fn lemma_places_of_false(wakers: Seq<Waker>, same: Seq<bool>)
    requires
        same.len() == wakers.len(),
    ensures
        ({
            let at = places_of_false(same);
            let wake = crate::task::unmatched(wakers, same);
            &&& at.len() == wake.len()
            &&& forall|i: int, j: int| 0 <= i < j < at.len() ==> #[trigger] at[i] < #[trigger] at[j]
            &&& forall|i: int|
                0 <= i < at.len() ==> 0 <= #[trigger] at[i] < wakers.len() && wake[i]
                    == wakers[at[i]] && !same[at[i]]
            &&& forall|p: int| 0 <= p < same.len() && !#[trigger] same[p] ==> at.contains(p)
        }),
    decreases wakers.len(),
{
    if wakers.len() > 0 {
        let at = places_of_false(same);
        let before = places_of_false(same.drop_last());
        lemma_places_of_false(wakers.drop_last(), same.drop_last());
        assert forall|p: int| 0 <= p < same.len() && !#[trigger] same[p] implies at.contains(p) by {
            if p < same.len() - 1 {
                assert(!same.drop_last()[p]);
                let i = choose|i: int| 0 <= i < before.len() && before[i] == p;
                assert(at[i] == p);
            } else {
                assert(at.last() == p);
            }
        }
    }
}

pub(crate) proof fn lemma_picked(wakers: Seq<Waker>, polling: Waker, same: Seq<bool>)
    requires
        crate::task::will_wake_answers(wakers, polling, same),
    ensures
        exists|at: Seq<int>|
            wakes_all_but(wakers, polling, crate::task::unmatched(wakers, same), at),
{
    lemma_places_of_false(wakers, same);
    assert(wakes_all_but(
        wakers,
        polling,
        crate::task::unmatched(wakers, same),
        places_of_false(same),
    ));
}

pub(crate) proof fn lemma_readied<T>(
    before: InnerView<T>,
    waker: Waker,
    wake: Seq<Waker>,
    after: InnerView<T>,
)
    requires
        before.readied(waker, wake, after),
    ensures
        exists|at: Seq<int>|
            wakes_all_but(before.pending_wakers + before.waiting_wakers, waker, wake, at),
        remembers(before, waker, after),
{
    let all = before.pending_wakers + before.waiting_wakers;
    let same = choose|same: Seq<bool>| before.made_ready(waker, same, wake, after);
    lemma_picked(all, waker, same);
}

/// If values are pending when the consumer asks for the next item, it gets the one that was
/// emitted last. All others stay pending in their order, and nothing else changes.
pub proof fn law_request_hands_out_one_value<T, Fut: Future<Output = ()>>(
    inner: &mut Inner<T>,
    waker: Waker,
    start: PollStart<T>,
)
    requires
        call_ensures(FnStream::<T, Fut>::poll_next_start, (inner, &waker), start),
        old(inner)@.pending_values.len() > 0,
    ensures
        start == PollStart::Done(Poll::Ready(Some(old(inner)@.pending_values.last()))),
        final(inner)@ == (InnerView {
            pending_values: old(inner)@.pending_values.drop_last(),
            ..old(inner)@
        }),
{
}

/// If values are pending when the consumer of a stream that may fail, and has not failed, asks for
/// the next item, it gets the one that was emitted last. All others stay pending in their order,
/// and nothing else changes.
pub proof fn law_fallible_request_hands_out_one_value<T, E, Fut: Future<Output = Result<(), E>>>(
    inner: &mut Inner<Result<T, E>>,
    waker: Waker,
    start: PollStart<Result<T, E>>,
)
    requires
        call_ensures(TryFnStream::<T, E, Fut>::poll_next_start, (false, inner, &waker), start),
        old(inner)@.pending_values.len() > 0,
    ensures
        start == PollStart::Done(Poll::Ready(Some(old(inner)@.pending_values.last()))),
        final(inner)@ == (InnerView {
            pending_values: old(inner)@.pending_values.drop_last(),
            ..old(inner)@
        }),
{
}

/// If nothing is pending when the consumer asks for the next item, the future is to be polled.
/// Every waker of a task that emitted or waits is given back to be woken first, in order and once,
/// except those found to wake the task that asks; none of them stays behind. That task is
/// remembered, and a new round begins.
pub proof fn law_request_wakes_every_other_task<T, Fut: Future<Output = ()>>(
    inner: &mut Inner<T>,
    waker: Waker,
    start: PollStart<T>,
)
    requires
        call_ensures(FnStream::<T, Fut>::poll_next_start, (inner, &waker), start),
        old(inner)@.pending_values.len() == 0,
    ensures
        start is PollFuture,
        exists|at: Seq<int>|
            wakes_all_but(
                old(inner)@.pending_wakers + old(inner)@.waiting_wakers,
                waker,
                start->PollFuture_0@,
                at,
            ),
        remembers(old(inner)@, waker, final(inner)@),
        final(inner)@ == (InnerView {
            stream_waker: final(inner)@.stream_waker,
            pending_wakers: Seq::empty(),
            waiting_wakers: Seq::empty(),
            round: if old(inner)@.round < u64::MAX {
                (old(inner)@.round + 1) as u64
            } else {
                u64::MAX
            },
            ..old(inner)@
        }),
{
    lemma_readied(old(inner)@, waker, start->PollFuture_0@, final(inner)@);
}

/// The same of a stream that may fail and has not failed: every waker of a task that emitted or
/// waits is given back to be woken before the future is polled, in order and once, except those
/// found to wake the task that asks, and none of them stays behind.
pub proof fn law_fallible_request_wakes_every_other_task<
    T,
    E,
    Fut: Future<Output = Result<(), E>>,
>(inner: &mut Inner<Result<T, E>>, waker: Waker, start: PollStart<Result<T, E>>)
    requires
        call_ensures(TryFnStream::<T, E, Fut>::poll_next_start, (false, inner, &waker), start),
        old(inner)@.pending_values.len() == 0,
    ensures
        start is PollFuture,
        exists|at: Seq<int>|
            wakes_all_but(
                old(inner)@.pending_wakers + old(inner)@.waiting_wakers,
                waker,
                start->PollFuture_0@,
                at,
            ),
        remembers(old(inner)@, waker, final(inner)@),
        final(inner)@ == (InnerView {
            stream_waker: final(inner)@.stream_waker,
            pending_wakers: Seq::empty(),
            waiting_wakers: Seq::empty(),
            round: if old(inner)@.round < u64::MAX {
                (old(inner)@.round + 1) as u64
            } else {
                u64::MAX
            },
            ..old(inner)@
        }),
{
    lemma_readied(old(inner)@, waker, start->PollFuture_0@, final(inner)@);
}

/// A stream that has failed is at its end, whatever is pending: the consumer gets nothing more,
/// the future is not polled, and nothing changes.
pub proof fn law_failed_stream_is_at_its_end<T, E, Fut: Future<Output = Result<(), E>>>(
    inner: &mut Inner<Result<T, E>>,
    waker: Waker,
    start: PollStart<Result<T, E>>,
)
    requires
        call_ensures(TryFnStream::<T, E, Fut>::poll_next_start, (true, inner, &waker), start),
    ensures
        start == PollStart::<Result<T, E>>::Done(Poll::Ready(None)),
        final(inner)@ == old(inner)@,
{
}

/// Whatever state the stream is in and however often it was polled: when its future has returned,
/// the consumer gets the end of the stream; when the future is pending and has emitted, it gets
/// the value that was emitted last, and the others stay; when nothing was emitted, it waits.
pub proof fn law_consumer_waits_while_the_future_is_pending<T, Fut: Future<Output = ()>>(
    inner: &mut Inner<T>,
    slot: &mut ActiveStreamInner,
    guard: ActiveStreamPointerGuard,
    r: Poll<()>,
    item: Poll<Option<T>>,
)
    requires
        call_ensures(FnStream::<T, Fut>::poll_next_finish, (inner, slot, guard, r), item),
    ensures
        item == Poll::<Option<T>>::Ready(None) <==> r is Ready,
        item == Poll::<Option<T>>::Pending <==> r == Poll::<()>::Pending
            && old(inner)@.pending_values.len() == 0,
        match item {
            Poll::Ready(Some(value)) => old(inner)@.pending_values
                == final(inner)@.pending_values.push(value),
            _ => final(inner)@ == old(inner)@,
        },
        final(inner)@ == (InnerView {
            pending_values: final(inner)@.pending_values,
            ..old(inner)@
        }),
        final(slot)@ == guard@,
{
}

/// Whatever state a stream that may fail is in: when its future has returned `Ok`, the consumer
/// gets the end of the stream; when the future has returned an error, it gets that error, and the
/// stream has failed; when the future is pending and has emitted, it gets what was emitted last,
/// and the rest stays; when nothing was emitted, it waits. Nothing but an error of the future
/// makes the stream fail, and nothing makes good for it.
pub proof fn law_fallible_consumer_waits_while_the_future_is_pending<
    T,
    E,
    Fut: Future<Output = Result<(), E>>,
>(
    is_err: &mut bool,
    inner: &mut Inner<Result<T, E>>,
    slot: &mut ActiveStreamInner,
    guard: ActiveStreamPointerGuard,
    r: Poll<Result<(), E>>,
    item: Poll<Option<Result<T, E>>>,
)
    requires
        call_ensures(
            TryFnStream::<T, E, Fut>::poll_next_finish,
            (is_err, inner, slot, guard, r),
            item,
        ),
    ensures
        item == Poll::<Option<Result<T, E>>>::Ready(None) <==> (r matches Poll::Ready(Ok(_))),
        item == Poll::<Option<Result<T, E>>>::Pending <==> r == Poll::<Result<(), E>>::Pending
            && old(inner)@.pending_values.len() == 0,
        forall|e: E|
            r == Poll::Ready(Err::<(), E>(e)) ==> item == Poll::Ready(Some(Err::<T, E>(e))),
        match (r, item) {
            (Poll::Pending, Poll::Ready(Some(value))) => old(inner)@.pending_values
                == final(inner)@.pending_values.push(value),
            _ => final(inner)@ == old(inner)@,
        },
        final(inner)@ == (InnerView {
            pending_values: final(inner)@.pending_values,
            ..old(inner)@
        }),
        *final(is_err) == (*old(is_err) || r matches Poll::Ready(Err(_))),
        final(slot)@ == guard@,
{
}

/// The consumer may ask a stream for its next item, and its future may be polled with any outcome,
/// in every state and by every task.
pub proof fn law_requests_can_always_be_made<
    T,
    E,
    Fut: Future<Output = ()>,
    TryFut: Future<Output = Result<(), E>>,
>(
    is_err: &mut bool,
    inner: &mut Inner<T>,
    fallible: &mut Inner<Result<T, E>>,
    slot: &mut ActiveStreamInner,
    guard: ActiveStreamPointerGuard,
    waker: Waker,
    r: Poll<()>,
    outcome: Poll<Result<(), E>>,
)
    ensures
        call_requires(FnStream::<T, Fut>::poll_next_start, (inner, &waker)),
        call_requires(FnStream::<T, Fut>::poll_next_finish, (inner, slot, guard, r)),
        call_requires(
            TryFnStream::<T, E, TryFut>::poll_next_start,
            (*old(is_err), fallible, &waker),
        ),
        call_requires(
            TryFnStream::<T, E, TryFut>::poll_next_finish,
            (is_err, fallible, slot, guard, outcome),
        ),
        call_requires(Inner::<T>::activate, (old(inner), slot)),
        call_requires(ActiveStreamPointerGuard::restore, (guard, slot)),
{
}

} // verus!
