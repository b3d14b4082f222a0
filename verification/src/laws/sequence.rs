//! Streams whose future emits one item after the other and awaits each emission.

use core::task::{Poll, Waker};

use crate::inner::{InnerView, Registration};
use crate::stream::PollStart;

use vstd::prelude::*;

verus! {

/// How far a future that emits items one after the other has come: how many it has emitted, where
/// the task that waits for the last emission is registered, and the state of the stream.
#[verifier::reject_recursive_types(T)]
pub struct Progress<T> {
    pub emitted: nat,
    pub registration: Registration,
    pub state: InnerView<T>,
}

/// Whether `after` and `r` are what comes of a poll of a future that emits `items` one after the
/// other, awaits each emission, and then returns `outcome`. The task of `waker` polls it.
pub open spec fn future_polled<T, R>(
    items: Seq<T>,
    outcome: R,
    before: Progress<T>,
    waker: Waker,
    after: Progress<T>,
    r: Poll<R>,
) -> bool {
    if before.emitted > 0 && !before.state.emission_polled(
        None,
        before.registration,
        waker,
        before.state,
        before.registration,
        Poll::Ready(()),
    ) {
        &&& after.emitted == before.emitted
        &&& before.state.emission_polled(
            None,
            before.registration,
            waker,
            after.state,
            after.registration,
            Poll::Pending,
        )
        &&& r == Poll::<R>::Pending
    } else if before.emitted < items.len() {
        &&& after.emitted == before.emitted + 1
        &&& before.state.emission_polled(
            Some(items[before.emitted as int]),
            Registration::spec_none(),
            waker,
            after.state,
            after.registration,
            Poll::Pending,
        )
        &&& r == Poll::<R>::Pending
    } else {
        &&& after == before
        &&& r == Poll::Ready(outcome)
    }
}

/// Whether `after` and `item` are what comes of the consumer asking such a stream for its next
/// item.
pub open spec fn next_item<T>(
    items: Seq<T>,
    before: Progress<T>,
    waker: Waker,
    after: Progress<T>,
    item: Poll<Option<T>>,
) -> bool {
    exists|ready: InnerView<T>, start: PollStart<T>| #[trigger]
        before.state.poll_started(waker, ready, start) && match start {
            PollStart::Done(done) => {
                &&& after == (Progress { state: ready, ..before })
                &&& item == done
            },
            PollStart::PollFuture(_) => exists|polled: Progress<T>, r: Poll<()>| #[trigger]
                future_polled(items, (), Progress { state: ready, ..before }, waker, polled, r)
                    && item == polled.state.poll_result(r) && after == (Progress {
                    state: polled.state.after_poll(r),
                    ..polled
                }),
        }
}

/// The stream of a future that emits `items` one after the other, awaiting each emission, gives
/// its consumer exactly these items in this order, and then ends. Each request is answered at
/// once.
pub proof fn law_awaited_items_come_in_order<T>(
    items: Seq<T>,
    progress: Seq<Progress<T>>,
    wakers: Seq<Waker>,
    got: Seq<Poll<Option<T>>>,
)
    requires
        progress.len() == got.len() + 1,
        wakers.len() == got.len(),
        got.len() <= items.len() + 1,
        progress[0].emitted == 0,
        progress[0].state.pending_values.len() == 0,
        forall|i: int|
            0 <= i < got.len() ==> #[trigger] next_item(
                items,
                progress[i],
                wakers[i],
                progress[i + 1],
                got[i],
            ),
    ensures
        forall|i: int|
            0 <= i < got.len() ==> #[trigger] got[i] == Poll::Ready(
                if i < items.len() {
                    Some(items[i])
                } else {
                    None
                },
            ),
{
    assert forall|i: int| 0 <= i < got.len() implies #[trigger] got[i] == Poll::Ready(
        if i < items.len() {
            Some(items[i])
        } else {
            None
        },
    ) by {
        lemma_progress(items, progress, wakers, got, i);
    }
}

proof fn lemma_progress<T>(
    items: Seq<T>,
    progress: Seq<Progress<T>>,
    wakers: Seq<Waker>,
    got: Seq<Poll<Option<T>>>,
    i: int,
)
    requires
        progress.len() == got.len() + 1,
        wakers.len() == got.len(),
        got.len() <= items.len() + 1,
        progress[0].emitted == 0,
        progress[0].state.pending_values.len() == 0,
        forall|i: int|
            0 <= i < got.len() ==> #[trigger] next_item(
                items,
                progress[i],
                wakers[i],
                progress[i + 1],
                got[i],
            ),
        0 <= i < got.len(),
    ensures
        progress[i].emitted == i,
        progress[i].state.pending_values.len() == 0,
        got[i] == Poll::Ready(
            if i < items.len() {
                Some(items[i])
            } else {
                None
            },
        ),
        i < items.len() ==> progress[i + 1].emitted == i + 1
            && progress[i + 1].state.pending_values.len() == 0,
    decreases i,
{
    if i > 0 {
        lemma_progress(items, progress, wakers, got, i - 1);
    }
    assert(next_item(items, progress[i], wakers[i], progress[i + 1], got[i]));
}

/// How far a future has come that emits items one after the other and may fail, and whether it
/// has failed.
#[verifier::reject_recursive_types(T)]
#[verifier::reject_recursive_types(E)]
pub struct TryProgress<T, E> {
    pub is_err: bool,
    pub progress: Progress<Result<T, E>>,
}

/// Whether `after` and `item` are what comes of the consumer asking a stream for its next item
/// whose future emits `items` one after the other, awaits each emission, and then returns
/// `outcome`.
pub open spec fn try_next_item<T, E>(
    items: Seq<Result<T, E>>,
    outcome: Result<(), E>,
    before: TryProgress<T, E>,
    waker: Waker,
    after: TryProgress<T, E>,
    item: Poll<Option<Result<T, E>>>,
) -> bool {
    exists|ready: InnerView<Result<T, E>>, start: PollStart<Result<T, E>>| #[trigger]
        before.progress.state.try_poll_started(before.is_err, waker, ready, start) && match start {
            PollStart::Done(done) => {
                &&& after.is_err == before.is_err
                &&& after.progress == (Progress { state: ready, ..before.progress })
                &&& item == done
            },
            PollStart::PollFuture(_) => exists|
                polled: Progress<Result<T, E>>,
                r: Poll<Result<(), E>>,
            | #[trigger]
                future_polled(
                    items,
                    outcome,
                    Progress { state: ready, ..before.progress },
                    waker,
                    polled,
                    r,
                ) && item == polled.state.try_poll_result(r) && after.is_err == (before.is_err
                    || crate::stream::is_fatal(r)) && after.progress == (Progress {
                    state: polled.state.after_poll(r),
                    ..polled
                }),
        }
}

/// What the consumer of such a stream gets on its request number `i`, counted from zero.
pub open spec fn expected<T, E>(
    items: Seq<Result<T, E>>,
    outcome: Result<(), E>,
    i: int,
) -> Option<Result<T, E>> {
    if i < items.len() {
        Some(items[i])
    } else if i == items.len() {
        match outcome {
            Ok(()) => None,
            Err(e) => Some(Err(e)),
        }
    } else {
        None
    }
}

/// The stream of a future that emits `items` one after the other, values and transient errors
/// alike, awaiting each emission, gives its consumer exactly these items in this order. If the
/// future then returns an error, that comes next, and after it the stream is at its end for good;
/// if it returns no error, the stream ends at once.
pub proof fn law_awaited_results_come_in_order<T, E>(
    items: Seq<Result<T, E>>,
    outcome: Result<(), E>,
    progress: Seq<TryProgress<T, E>>,
    wakers: Seq<Waker>,
    got: Seq<Poll<Option<Result<T, E>>>>,
)
    requires
        progress.len() == got.len() + 1,
        wakers.len() == got.len(),
        outcome is Ok ==> got.len() <= items.len() + 1,
        !progress[0].is_err,
        progress[0].progress.emitted == 0,
        progress[0].progress.state.pending_values.len() == 0,
        forall|i: int|
            0 <= i < got.len() ==> #[trigger] try_next_item(
                items,
                outcome,
                progress[i],
                wakers[i],
                progress[i + 1],
                got[i],
            ),
    ensures
        forall|i: int|
            0 <= i < got.len() ==> #[trigger] got[i] == Poll::Ready(expected(items, outcome, i)),
{
    assert forall|i: int| 0 <= i < got.len() implies #[trigger] got[i] == Poll::Ready(
        expected(items, outcome, i),
    ) by {
        lemma_try_progress(items, outcome, progress, wakers, got, i);
    }
}

proof fn lemma_try_progress<T, E>(
    items: Seq<Result<T, E>>,
    outcome: Result<(), E>,
    progress: Seq<TryProgress<T, E>>,
    wakers: Seq<Waker>,
    got: Seq<Poll<Option<Result<T, E>>>>,
    i: int,
)
    requires
        progress.len() == got.len() + 1,
        wakers.len() == got.len(),
        outcome is Ok ==> got.len() <= items.len() + 1,
        !progress[0].is_err,
        progress[0].progress.emitted == 0,
        progress[0].progress.state.pending_values.len() == 0,
        forall|i: int|
            0 <= i < got.len() ==> #[trigger] try_next_item(
                items,
                outcome,
                progress[i],
                wakers[i],
                progress[i + 1],
                got[i],
            ),
        0 <= i < got.len(),
    ensures
        got[i] == Poll::Ready(expected(items, outcome, i)),
        i < items.len() ==> !progress[i + 1].is_err && progress[i + 1].progress.emitted == i + 1
            && progress[i + 1].progress.state.pending_values.len() == 0,
        i >= items.len() && outcome is Err ==> progress[i + 1].is_err,
    decreases i,
{
    if i > 0 {
        lemma_try_progress(items, outcome, progress, wakers, got, i - 1);
    }
    assert(try_next_item(items, outcome, progress[i], wakers[i], progress[i + 1], got[i]));
}

/// An error that the future returns is handed to the consumer and ends the stream: from then on
/// every request is answered with the end of the stream, the future is not polled, and nothing
/// changes.
pub proof fn law_fatal_error_ends_the_stream<T, E>(
    state: InnerView<Result<T, E>>,
    is_err: bool,
    error: E,
    waker: Waker,
    after: InnerView<Result<T, E>>,
    start: PollStart<Result<T, E>>,
)
    requires
        state.after_poll(Poll::Ready(Err::<(), E>(error))).try_poll_started(
            is_err || crate::stream::is_fatal(Poll::Ready(Err::<(), E>(error))),
            waker,
            after,
            start,
        ),
    ensures
        state.try_poll_result(Poll::Ready(Err(error))) == Poll::Ready(Some(Err::<T, E>(error))),
        start == PollStart::<Result<T, E>>::Done(Poll::Ready(None)),
        after == state,
{
}

/// An error that is emitted is handed to the consumer like a value, and does not end the stream:
/// the next request goes on with what else is pending, or polls the future.
pub proof fn law_emitted_error_does_not_end_the_stream<T, E>(
    before: InnerView<Result<T, E>>,
    error: E,
    same: bool,
    waker: Waker,
    state: InnerView<Result<T, E>>,
    now: Registration,
    consumer: Waker,
    after: InnerView<Result<T, E>>,
    start: PollStart<Result<T, E>>,
)
    requires
        before.took_in(Err(error), same, waker, state, now),
        state.after_poll(Poll::<Result<(), E>>::Pending).try_poll_started(
            crate::stream::is_fatal(Poll::<Result<(), E>>::Pending),
            consumer,
            after,
            start,
        ),
    ensures
        state.try_poll_result(Poll::Pending) == Poll::Ready(Some(Err::<T, E>(error))),
        before.pending_values.len() > 0 ==> start == PollStart::Done(before.handed_out()),
        before.pending_values.len() == 0 ==> start is PollFuture,
{
}

} // verus!
