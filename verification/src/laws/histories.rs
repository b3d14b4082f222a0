//! Histories: what the consumer of a stream gets over any number of requests and emissions.

use core::future::Future;
use core::task::{Poll, Waker};

use crate::active::{ActiveStreamInner, ActiveStreamPointerGuard};
use crate::emitter::EmitFuture;
use crate::inner::{Inner, InnerView, Registration};
use crate::stream::{FnStream, PollStart, TryFnStream};

use vstd::prelude::*;

verus! {

/// A call that concerns the state which a stream shares with its emitters. `T` is the type of the
/// items, and `R` is what the future of the stream returns.
#[verifier::reject_recursive_types(T)]
#[verifier::reject_recursive_types(R)]
pub enum Call<'a, T, R> {
    /// The consumer asked for the next item.
    Started { waker: Waker, start: PollStart<T> },
    /// An emission was polled.
    Polled {
        emission: &'a mut EmitFuture<T>,
        active: ActiveStreamInner,
        waker: Waker,
        r: Poll<()>,
    },
    /// The future was polled for the consumer, `polled` came of it, and the consumer got `item`.
    Finished {
        slot: &'a mut ActiveStreamInner,
        guard: ActiveStreamPointerGuard,
        polled: Poll<R>,
        item: Poll<Option<T>>,
    },
}

impl<'a, T, R> Call<'a, T, R> {
    /// What the consumer gets from this call, if it is answered by it.
    pub open spec fn answer(self) -> Option<Poll<Option<T>>> {
        match self {
            Call::Started { start: PollStart::Done(item), .. } => Some(item),
            Call::Finished { item, .. } => Some(item),
            _ => None,
        }
    }

    /// The value that is emitted by this call, if any is.
    pub open spec fn emitted(self) -> Option<T> {
        match self {
            Call::Polled { emission, .. } => emission.value(),
            _ => None,
        }
    }

    /// The outcome of the future, if this call is about one.
    pub open spec fn outcome(self) -> Option<R> {
        match self {
            Call::Finished { polled: Poll::Ready(outcome), .. } => Some(outcome),
            _ => None,
        }
    }

    /// The item that the consumer gets from this call, if it is one that was emitted and not what
    /// the future returned.
    pub open spec fn handed_out(self) -> Option<T> {
        match self.answer() {
            Some(Poll::Ready(Some(item))) => if self.outcome() is None {
                Some(item)
            } else {
                None
            },
            _ => None,
        }
    }

    /// Whether the future is about to be polled after this call.
    pub open spec fn begins_a_round(self) -> bool {
        self matches Call::Started { start: PollStart::PollFuture(_), .. }
    }
}

/// Whether `call` was made on the state `inner` of a stream.
pub open spec fn called<'a, T, Fut: Future<Output = ()>>(
    inner: &'a mut Inner<T>,
    call: Call<'a, T, ()>,
) -> bool {
    match call {
        Call::Started { waker, start } => call_ensures(
            FnStream::<T, Fut>::poll_next_start,
            (inner, &waker),
            start,
        ),
        Call::Polled { emission, active, waker, r } => call_ensures(
            EmitFuture::<T>::poll,
            (emission, inner, &active, &waker),
            r,
        ),
        Call::Finished { slot, guard, polled, item } => call_ensures(
            FnStream::<T, Fut>::poll_next_finish,
            (inner, slot, guard, polled),
            item,
        ),
    }
}

/// Whether `call` was made on the state `inner` of a stream that may fail, `is_err` saying whether
/// it has failed.
pub open spec fn try_called<'a, T, E, Fut: Future<Output = Result<(), E>>>(
    is_err: &'a mut bool,
    inner: &'a mut Inner<Result<T, E>>,
    call: Call<'a, Result<T, E>, Result<(), E>>,
) -> bool {
    match call {
        Call::Started { waker, start } => call_ensures(
            TryFnStream::<T, E, Fut>::poll_next_start,
            (*is_err, inner, &waker),
            start,
        ),
        Call::Polled { emission, active, waker, r } => call_ensures(
            EmitFuture::<Result<T, E>>::poll,
            (emission, inner, &active, &waker),
            r,
        ),
        Call::Finished { slot, guard, polled, item } => call_ensures(
            TryFnStream::<T, E, Fut>::poll_next_finish,
            (is_err, inner, slot, guard, polled),
            item,
        ),
    }
}

/// Those of `items` that there are, in their order.
pub open spec fn collected<T>(items: Seq<Option<T>>) -> Seq<T>
    decreases items.len(),
{
    if items.len() == 0 {
        Seq::empty()
    } else {
        match items.last() {
            Some(item) => collected(items.drop_last()).push(item),
            None => collected(items.drop_last()),
        }
    }
}

/// Whether `after` is what is pending once `emitted` was added to `before` or `handed_out` was
/// taken from its end.
spec fn accounts<T>(
    before: Seq<T>,
    emitted: Option<T>,
    handed_out: Option<T>,
    after: Seq<T>,
) -> bool {
    match (emitted, handed_out) {
        (Some(value), None) => after == before.push(value),
        (None, Some(value)) => before == after.push(value),
        (None, None) => after == before,
        _ => false,
    }
}

proof fn lemma_accounts<T>(
    pending: Seq<Seq<T>>,
    emitted: Seq<Option<T>>,
    handed_out: Seq<Option<T>>,
)
    requires
        pending.len() == emitted.len() + 1,
        handed_out.len() == emitted.len(),
        forall|i: int|
            0 <= i < emitted.len() ==> accounts(
                #[trigger] pending[i],
                emitted[i],
                handed_out[i],
                pending[i + 1],
            ),
    ensures
        pending.first().to_multiset().add(collected(emitted).to_multiset()) == collected(
            handed_out,
        ).to_multiset().add(pending.last().to_multiset()),
    decreases emitted.len(),
{
    broadcast use vstd::seq_lib::group_to_multiset_ensures;
    broadcast use vstd::multiset::group_multiset_axioms;

    let n = emitted.len() as int;
    if n > 0 {
        lemma_accounts(pending.drop_last(), emitted.drop_last(), handed_out.drop_last());
        if let Some(value) = emitted[n - 1] {
            assert(pending.first().to_multiset().add(collected(emitted).to_multiset())
                =~= pending.first().to_multiset().add(
                collected(emitted.drop_last()).to_multiset(),
            ).insert(value));
        }
    }
}

/// Over any history of requests and emissions, the consumer is at the end of the stream if and only
/// if the future returned in that very request; and it waits if and only if the future is pending
/// in that very request, with nothing left to be handed out.
pub proof fn law_stream_ends_when_its_future_returns<'a, T, Fut: Future<Output = ()>>(
    inners: Seq<&'a mut Inner<T>>,
    calls: Seq<Call<'a, T, ()>>,
)
    requires
        inners.len() == calls.len(),
        forall|i: int| 0 <= i < calls.len() ==> called::<T, Fut>(#[trigger] inners[i], calls[i]),
    ensures
        forall|i: int|
            0 <= i < calls.len() ==> ((#[trigger] calls[i]).answer() == Some(
                Poll::<Option<T>>::Ready(None),
            ) <==> calls[i].outcome() is Some),
        forall|i: int|
            0 <= i < calls.len() ==> ((#[trigger] calls[i]).answer() == Some(
                Poll::<Option<T>>::Pending,
            ) <==> calls[i] is Finished && calls[i].outcome() is None
                && inners[i]@.pending_values.len() == 0),
{
    assert forall|i: int| 0 <= i < calls.len() implies ((#[trigger] calls[i]).answer() == Some(
        Poll::<Option<T>>::Ready(None),
    ) <==> calls[i].outcome() is Some) by {
        assert(called::<T, Fut>(inners[i], calls[i]));
    }
}

proof fn lemma_call_accounts<'a, T, Fut: Future<Output = ()>>(
    inner: &'a mut Inner<T>,
    call: Call<'a, T, ()>,
)
    requires
        called::<T, Fut>(inner, call),
    ensures
        accounts(
            old(inner)@.pending_values,
            call.emitted(),
            call.handed_out(),
            final(inner)@.pending_values,
        ),
{
    let before = old(inner)@.pending_values;
    if before.len() > 0 {
        assert(before =~= before.drop_last().push(before.last()));
    }
}

/// Over any history of requests and emissions, what was pending at first and what was emitted is
/// what was handed out to the consumer and what is pending in the end: no value is lost, and none
/// comes twice.
pub proof fn law_consumer_gets_what_was_emitted<'a, T, Fut: Future<Output = ()>>(
    inners: Seq<&'a mut Inner<T>>,
    calls: Seq<Call<'a, T, ()>>,
)
    requires
        inners.len() == calls.len(),
        calls.len() > 0,
        forall|i: int| 0 <= i < calls.len() ==> called::<T, Fut>(#[trigger] inners[i], calls[i]),
        forall|i: int|
            0 <= i < calls.len() - 1 ==> final(#[trigger] inners[i])@ == inners[i + 1]@,
    ensures
        inners.first()@.pending_values.to_multiset().add(
            collected(Seq::new(calls.len(), |i: int| calls[i].emitted())).to_multiset(),
        ) == collected(Seq::new(calls.len(), |i: int| calls[i].handed_out())).to_multiset().add(
            final(inners.last())@.pending_values.to_multiset(),
        ),
{
    let n = calls.len();
    let pending = Seq::new(
        n + 1,
        |i: int|
            if i < n {
                inners[i]@.pending_values
            } else {
                final(inners[n - 1])@.pending_values
            },
    );
    let emitted = Seq::new(n, |i: int| calls[i].emitted());
    let handed_out = Seq::new(n, |i: int| calls[i].handed_out());
    assert forall|i: int| 0 <= i < n implies accounts(
        #[trigger] pending[i],
        emitted[i],
        handed_out[i],
        pending[i + 1],
    ) by {
        lemma_call_accounts::<T, Fut>(inners[i], calls[i]);
    }
    lemma_accounts(pending, emitted, handed_out);
}

proof fn lemma_try_call_accounts<'a, T, E, Fut: Future<Output = Result<(), E>>>(
    is_err: &'a mut bool,
    inner: &'a mut Inner<Result<T, E>>,
    call: Call<'a, Result<T, E>, Result<(), E>>,
)
    requires
        try_called::<T, E, Fut>(is_err, inner, call),
    ensures
        accounts(
            old(inner)@.pending_values,
            call.emitted(),
            call.handed_out(),
            final(inner)@.pending_values,
        ),
{
    let before = old(inner)@.pending_values;
    if before.len() > 0 {
        assert(before =~= before.drop_last().push(before.last()));
    }
}

/// Over any history of requests to a stream that may fail and of emissions, failed or not, what was
/// pending at first and what was emitted is what was handed out to the consumer and what is pending
/// in the end: no value and no transient error is lost, and none comes twice.
pub proof fn law_fallible_consumer_gets_what_was_emitted<
    'a,
    T,
    E,
    Fut: Future<Output = Result<(), E>>,
>(
    errs: Seq<&'a mut bool>,
    inners: Seq<&'a mut Inner<Result<T, E>>>,
    calls: Seq<Call<'a, Result<T, E>, Result<(), E>>>,
)
    requires
        inners.len() == calls.len(),
        errs.len() == calls.len(),
        calls.len() > 0,
        forall|i: int|
            0 <= i < calls.len() ==> try_called::<T, E, Fut>(
                errs[i],
                #[trigger] inners[i],
                calls[i],
            ),
        forall|i: int|
            0 <= i < calls.len() - 1 ==> final(#[trigger] inners[i])@ == inners[i + 1]@,
    ensures
        inners.first()@.pending_values.to_multiset().add(
            collected(Seq::new(calls.len(), |i: int| calls[i].emitted())).to_multiset(),
        ) == collected(Seq::new(calls.len(), |i: int| calls[i].handed_out())).to_multiset().add(
            final(inners.last())@.pending_values.to_multiset(),
        ),
{
    let n = calls.len();
    let pending = Seq::new(
        n + 1,
        |i: int|
            if i < n {
                inners[i]@.pending_values
            } else {
                final(inners[n - 1])@.pending_values
            },
    );
    let emitted = Seq::new(n, |i: int| calls[i].emitted());
    let handed_out = Seq::new(n, |i: int| calls[i].handed_out());
    assert forall|i: int| 0 <= i < n implies accounts(
        #[trigger] pending[i],
        emitted[i],
        handed_out[i],
        pending[i + 1],
    ) by {
        lemma_try_call_accounts::<T, E, Fut>(errs[i], inners[i], calls[i]);
    }
    lemma_accounts(pending, emitted, handed_out);
}

/// Whether the future returned an error in `call`.
pub open spec fn is_failure<'a, T, E>(call: Call<'a, Result<T, E>, Result<(), E>>) -> bool {
    call.outcome() matches Some(Err(_))
}

proof fn lemma_failed_before<'a, T, E, Fut: Future<Output = Result<(), E>>>(
    errs: Seq<&'a mut bool>,
    inners: Seq<&'a mut Inner<Result<T, E>>>,
    calls: Seq<Call<'a, Result<T, E>, Result<(), E>>>,
    n: int,
)
    requires
        inners.len() == calls.len(),
        errs.len() == calls.len(),
        forall|i: int|
            0 <= i < calls.len() ==> try_called::<T, E, Fut>(
                errs[i],
                #[trigger] inners[i],
                calls[i],
            ),
        forall|i: int|
            0 <= i < calls.len() && !(calls[i] is Finished) ==> *final(#[trigger] errs[i])
                == *errs[i],
        forall|i: int| 0 <= i < calls.len() - 1 ==> *final(#[trigger] errs[i]) == *errs[i + 1],
        0 <= n < calls.len(),
        !*errs[0],
    ensures
        *errs[n] <==> exists|j: int| 0 <= j < n && is_failure(#[trigger] calls[j]),
    decreases n,
{
    if n > 0 {
        lemma_failed_before::<T, E, Fut>(errs, inners, calls, n - 1);
        assert(try_called::<T, E, Fut>(errs[n - 1], inners[n - 1], calls[n - 1]));
    }
}

/// Over any history of requests to a stream that may fail and of emissions, the consumer is at the
/// end of the stream if and only if the future returned `Ok` in that very request, or the request
/// came after one in which the future had returned an error. An error that the future returns is
/// what the consumer gets. The consumer waits if and only if the future is pending in that very
/// request, with nothing left to be handed out.
pub proof fn law_fallible_stream_ends_when_its_future_returns<
    'a,
    T,
    E,
    Fut: Future<Output = Result<(), E>>,
>(
    errs: Seq<&'a mut bool>,
    inners: Seq<&'a mut Inner<Result<T, E>>>,
    calls: Seq<Call<'a, Result<T, E>, Result<(), E>>>,
    n: int,
)
    requires
        inners.len() == calls.len(),
        errs.len() == calls.len(),
        forall|i: int|
            0 <= i < calls.len() ==> try_called::<T, E, Fut>(
                errs[i],
                #[trigger] inners[i],
                calls[i],
            ),
        forall|i: int|
            0 <= i < calls.len() && !(calls[i] is Finished) ==> *final(#[trigger] errs[i])
                == *errs[i],
        forall|i: int| 0 <= i < calls.len() - 1 ==> *final(#[trigger] errs[i]) == *errs[i + 1],
        0 <= n < calls.len(),
        !*errs[0],
    ensures
        calls[n].answer() == Some(Poll::<Option<Result<T, E>>>::Ready(None)) <==> {
            ||| calls[n].outcome() matches Some(Ok(_))
            ||| calls[n] is Started && exists|j: int| 0 <= j < n && is_failure(#[trigger] calls[j])
        },
        forall|e: E|
            calls[n].outcome() == Some(Err::<(), E>(e)) ==> calls[n].answer() == Some(
                Poll::Ready(Some(Err::<T, E>(e))),
            ),
        calls[n].answer() == Some(Poll::<Option<Result<T, E>>>::Pending) <==> calls[n] is Finished
            && calls[n].outcome() is None && inners[n]@.pending_values.len() == 0,
{
    lemma_failed_before::<T, E, Fut>(errs, inners, calls, n);
}

proof fn lemma_pending_wakers_are_kept<'a, T, Fut: Future<Output = ()>>(
    inners: Seq<&'a mut Inner<T>>,
    calls: Seq<Call<'a, T, ()>>,
    n: int,
)
    requires
        inners.len() == calls.len(),
        forall|i: int| 0 <= i < calls.len() ==> called::<T, Fut>(#[trigger] inners[i], calls[i]),
        forall|i: int|
            0 <= i < calls.len() - 1 ==> final(#[trigger] inners[i])@ == inners[i + 1]@,
        forall|i: int| 0 < i < n ==> !(#[trigger] calls[i]).begins_a_round(),
        0 < n < calls.len(),
    ensures
        final(inners[0])@.pending_wakers.is_prefix_of(inners[n]@.pending_wakers),
    decreases n,
{
    if n > 1 {
        lemma_pending_wakers_are_kept::<T, Fut>(inners, calls, n - 1);
    }
}

/// Whether the task of `waker` is woken by `wake`, in the person of a clone of `waker`, or such a
/// clone was found to wake the task of `polling`.
pub open spec fn is_woken(waker: Waker, wake: Seq<Waker>, polling: Waker) -> bool {
    exists|copy: Waker| #[trigger]
        call_ensures(Waker::clone, (&waker,), copy) && (wake.contains(copy) || call_ensures(
            Waker::will_wake,
            (&copy, &polling),
            true,
        ))
}

/// A task that emits a value is woken by the next request that makes the future be polled again,
/// unless it was found to be the one that polls the stream, or is the one that makes the request.
/// That holds whatever is emitted, waited for and handed out in between.
pub proof fn law_emitting_task_is_woken_by_a_request<'a, T, Fut: Future<Output = ()>>(
    inners: Seq<&'a mut Inner<T>>,
    calls: Seq<Call<'a, T, ()>>,
    n: int,
)
    requires
        inners.len() == calls.len(),
        forall|i: int| 0 <= i < calls.len() ==> called::<T, Fut>(#[trigger] inners[i], calls[i]),
        forall|i: int|
            0 <= i < calls.len() - 1 ==> final(#[trigger] inners[i])@ == inners[i + 1]@,
        forall|i: int| 0 < i < n ==> !(#[trigger] calls[i]).begins_a_round(),
        0 < n < calls.len(),
        calls[0].emitted() is Some,
        calls[n].begins_a_round(),
    ensures
        ({
            ||| inners[0]@.stream_waker is Some && call_ensures(
                Waker::will_wake,
                (&inners[0]@.stream_waker->0, &calls[0]->Polled_waker),
                true,
            )
            ||| is_woken(
                calls[0]->Polled_waker,
                calls[n]->start->PollFuture_0@,
                calls[n]->Started_waker,
            )
        }),
{
    lemma_pending_wakers_are_kept::<T, Fut>(inners, calls, n);
    lemma_woken(
        inners[0]@,
        calls[0].emitted()->0,
        calls[0]->Polled_waker,
        final(inners[0])@,
        inners[n]@,
        calls[n]->Started_waker,
        calls[n]->start->PollFuture_0@,
        final(inners[n])@,
        calls[0]->emission.registration(),
        final(calls[0]->emission).registration(),
        calls[0]->r,
    );
}

proof fn lemma_woken<T>(
    before: InnerView<T>,
    value: T,
    waker: Waker,
    emitted: InnerView<T>,
    asked: InnerView<T>,
    polling: Waker,
    wake: Seq<Waker>,
    ready: InnerView<T>,
    registration: Registration,
    now: Registration,
    r: Poll<()>,
)
    requires
        before.emission_polled(Some(value), registration, waker, emitted, now, r),
        emitted.pending_wakers.is_prefix_of(asked.pending_wakers),
        asked.readied(polling, wake, ready),
    ensures
        ({
            ||| before.stream_waker is Some && call_ensures(
                Waker::will_wake,
                (&before.stream_waker->0, &waker),
                true,
            )
            ||| is_woken(waker, wake, polling)
        }),
{
    let same = choose|same: bool|
        {
            &&& crate::task::is_same_task(before.stream_waker, waker, same)
            &&& #[trigger] before.took_in(value, same, waker, emitted, now)
        };
    if !same {
        let index = before.pending_wakers.len() as int;
        let copy = emitted.pending_wakers[index];
        assert(asked.all_wakers()[index] == copy);
        crate::laws::wakers::law_no_waker_is_forgotten(asked, polling, wake, ready);
    }
}

proof fn lemma_try_pending_wakers_are_kept<'a, T, E, Fut: Future<Output = Result<(), E>>>(
    errs: Seq<&'a mut bool>,
    inners: Seq<&'a mut Inner<Result<T, E>>>,
    calls: Seq<Call<'a, Result<T, E>, Result<(), E>>>,
    n: int,
)
    requires
        inners.len() == calls.len(),
        errs.len() == calls.len(),
        forall|i: int|
            0 <= i < calls.len() ==> try_called::<T, E, Fut>(
                errs[i],
                #[trigger] inners[i],
                calls[i],
            ),
        forall|i: int|
            0 <= i < calls.len() - 1 ==> final(#[trigger] inners[i])@ == inners[i + 1]@,
        forall|i: int| 0 < i < n ==> !(#[trigger] calls[i]).begins_a_round(),
        0 < n < calls.len(),
    ensures
        final(inners[0])@.pending_wakers.is_prefix_of(inners[n]@.pending_wakers),
    decreases n,
{
    if n > 1 {
        lemma_try_pending_wakers_are_kept::<T, E, Fut>(errs, inners, calls, n - 1);
    }
}

/// The same of a stream that may fail: a task that emits a value or a transient error is woken by
/// the next request that makes the future be polled again, unless it was found to be the one that
/// polls the stream, or is the one that makes the request.
pub proof fn law_emitting_task_is_woken_by_a_fallible_request<
    'a,
    T,
    E,
    Fut: Future<Output = Result<(), E>>,
>(
    errs: Seq<&'a mut bool>,
    inners: Seq<&'a mut Inner<Result<T, E>>>,
    calls: Seq<Call<'a, Result<T, E>, Result<(), E>>>,
    n: int,
)
    requires
        inners.len() == calls.len(),
        errs.len() == calls.len(),
        forall|i: int|
            0 <= i < calls.len() ==> try_called::<T, E, Fut>(
                errs[i],
                #[trigger] inners[i],
                calls[i],
            ),
        forall|i: int|
            0 <= i < calls.len() - 1 ==> final(#[trigger] inners[i])@ == inners[i + 1]@,
        forall|i: int| 0 < i < n ==> !(#[trigger] calls[i]).begins_a_round(),
        0 < n < calls.len(),
        calls[0].emitted() is Some,
        calls[n].begins_a_round(),
    ensures
        ({
            ||| inners[0]@.stream_waker is Some && call_ensures(
                Waker::will_wake,
                (&inners[0]@.stream_waker->0, &calls[0]->Polled_waker),
                true,
            )
            ||| is_woken(
                calls[0]->Polled_waker,
                calls[n]->start->PollFuture_0@,
                calls[n]->Started_waker,
            )
        }),
{
    lemma_try_pending_wakers_are_kept::<T, E, Fut>(errs, inners, calls, n);
    lemma_woken(
        inners[0]@,
        calls[0].emitted()->0,
        calls[0]->Polled_waker,
        final(inners[0])@,
        inners[n]@,
        calls[n]->Started_waker,
        calls[n]->start->PollFuture_0@,
        final(inners[n])@,
        calls[0]->emission.registration(),
        final(calls[0]->emission).registration(),
        calls[0]->r,
    );
}

/// Requests in a row hand out all values that are pending, the last one first, and the future is
/// not polled before all of them are out.
pub proof fn law_values_come_out_before_the_future_is_polled<'a, T, Fut: Future<Output = ()>>(
    inners: Seq<&'a mut Inner<T>>,
    calls: Seq<Call<'a, T, ()>>,
    n: int,
)
    requires
        inners.len() == calls.len(),
        forall|i: int| 0 <= i < calls.len() ==> called::<T, Fut>(#[trigger] inners[i], calls[i]),
        forall|i: int|
            0 <= i < calls.len() - 1 ==> final(#[trigger] inners[i])@ == inners[i + 1]@,
        forall|i: int| 0 <= i < calls.len() ==> #[trigger] calls[i] is Started,
        0 <= n < calls.len(),
        n <= inners[0]@.pending_values.len(),
    ensures
        inners[n]@.pending_values == inners[0]@.pending_values.take(
            inners[0]@.pending_values.len() - n,
        ),
        n < inners[0]@.pending_values.len() ==> calls[n].answer() == Some(
            Poll::Ready(Some(inners[0]@.pending_values[inners[0]@.pending_values.len() - 1 - n])),
        ),
        n == inners[0]@.pending_values.len() <==> calls[n].begins_a_round(),
    decreases n,
{
    if n > 0 {
        law_values_come_out_before_the_future_is_polled::<T, Fut>(inners, calls, n - 1);
    }
}

/// The same of a stream that may fail and has not failed: requests in a row hand out all values
/// that are pending, the last one first, and the future is not polled before all of them are out.
pub proof fn law_values_come_out_before_a_fallible_future_is_polled<
    'a,
    T,
    E,
    Fut: Future<Output = Result<(), E>>,
>(
    errs: Seq<&'a mut bool>,
    inners: Seq<&'a mut Inner<Result<T, E>>>,
    calls: Seq<Call<'a, Result<T, E>, Result<(), E>>>,
    n: int,
)
    requires
        inners.len() == calls.len(),
        errs.len() == calls.len(),
        forall|i: int| 0 <= i < errs.len() ==> !*#[trigger] errs[i],
        forall|i: int|
            0 <= i < calls.len() ==> try_called::<T, E, Fut>(
                errs[i],
                #[trigger] inners[i],
                calls[i],
            ),
        forall|i: int|
            0 <= i < calls.len() - 1 ==> final(#[trigger] inners[i])@ == inners[i + 1]@,
        forall|i: int| 0 <= i < calls.len() ==> #[trigger] calls[i] is Started,
        0 <= n < calls.len(),
        n <= inners[0]@.pending_values.len(),
    ensures
        inners[n]@.pending_values == inners[0]@.pending_values.take(
            inners[0]@.pending_values.len() - n,
        ),
        n < inners[0]@.pending_values.len() ==> calls[n].answer() == Some(
            Poll::Ready(Some(inners[0]@.pending_values[inners[0]@.pending_values.len() - 1 - n])),
        ),
        n == inners[0]@.pending_values.len() <==> calls[n].begins_a_round(),
    decreases n,
{
    if n > 0 {
        law_values_come_out_before_a_fallible_future_is_polled::<T, E, Fut>(
            errs,
            inners,
            calls,
            n - 1,
        );
    }
}

} // verus!
