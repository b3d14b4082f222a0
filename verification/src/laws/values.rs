//! Values: what goes into a stream comes out of it.

use core::task::{Poll, Waker};

use crate::inner::{InnerView, Registration};
use crate::stream::PollStart;

use vstd::prelude::*;

verus! {

/// A value that was just emitted is the next to be handed out, and handing it out leaves what was
/// pending before.
pub proof fn law_emitted_value_comes_out<T>(
    before: InnerView<T>,
    value: T,
    same: bool,
    waker: Waker,
    after: InnerView<T>,
    now: Registration,
)
    requires
        before.took_in(value, same, waker, after, now),
    ensures
        after.handed_out() == Poll::Ready(Some(value)),
        after.after_hand_out().pending_values == before.pending_values,
{
}

impl<T> InnerView<T> {
    /// The state after `n` values were handed out.
    pub open spec fn after_hand_outs(self, n: nat) -> Self
        decreases n,
    {
        if n == 0 {
            self
        } else {
            self.after_hand_outs((n - 1) as nat).after_hand_out()
        }
    }
}

proof fn lemma_after_hand_outs<T>(state: InnerView<T>, n: nat)
    requires
        n <= state.pending_values.len(),
    ensures
        state.after_hand_outs(n) == (InnerView {
            pending_values: state.pending_values.take(state.pending_values.len() - n),
            ..state
        }),
    decreases n,
{
    if n > 0 {
        lemma_after_hand_outs(state, (n - 1) as nat);
    }
}

/// The values that were emitted during one poll of the future are handed out one by one, the
/// last one first, and the future is not polled before all of them are out.
pub proof fn law_pending_values_come_out_before_the_future_is_polled<T>(
    state: InnerView<T>,
    n: nat,
    waker: Waker,
    after: InnerView<T>,
    start: PollStart<T>,
)
    requires
        n <= state.pending_values.len(),
        state.after_hand_outs(n).poll_started(waker, after, start),
    ensures
        n < state.pending_values.len() ==> {
            &&& start == PollStart::Done(
                Poll::Ready(Some(state.pending_values[state.pending_values.len() - 1 - n])),
            )
            &&& after == state.after_hand_outs(n + 1)
        },
        n == state.pending_values.len() ==> start is PollFuture && after.pending_values.len() == 0,
{
    lemma_after_hand_outs(state, n);
}

/// What can happen to the state that a stream shares with its emitters.
pub enum Event<T> {
    /// A value was emitted.
    Emitted(T),
    /// A value was handed out.
    HandedOut(T),
    /// An emission that waits was polled again.
    Waited,
    /// The future is about to be polled.
    Readied,
}

/// Whether `event` leads from the state `before` to the state `after`.
pub open spec fn happened<T>(before: InnerView<T>, event: Event<T>, after: InnerView<T>) -> bool {
    match event {
        Event::Emitted(value) => exists|same: bool, waker: Waker, now: Registration|
            before.took_in(value, same, waker, after, now),
        Event::HandedOut(value) => {
            &&& before.handed_out() == Poll::Ready(Some(value))
            &&& after == before.after_hand_out()
        },
        Event::Waited => exists|
            registration: Registration,
            known: bool,
            waker: Waker,
            now: Registration,
        |
            before.waited(registration, known, waker, after, now),
        Event::Readied => exists|waker: Waker, wake: Seq<Waker>|
            before.readied(waker, wake, after),
    }
}

/// The values that were emitted, in their order.
pub open spec fn values_emitted<T>(events: Seq<Event<T>>) -> Seq<T>
    decreases events.len(),
{
    if events.len() == 0 {
        Seq::empty()
    } else {
        match events.last() {
            Event::Emitted(value) => values_emitted(events.drop_last()).push(value),
            _ => values_emitted(events.drop_last()),
        }
    }
}

/// The values that were handed out, in their order.
pub open spec fn values_handed_out<T>(events: Seq<Event<T>>) -> Seq<T>
    decreases events.len(),
{
    if events.len() == 0 {
        Seq::empty()
    } else {
        match events.last() {
            Event::HandedOut(value) => values_handed_out(events.drop_last()).push(value),
            _ => values_handed_out(events.drop_last()),
        }
    }
}

/// No value is lost and none is handed out twice: over any history of a stream, what was pending
/// at first and what was emitted is what was handed out and what is pending in the end.
pub proof fn law_values_are_neither_lost_nor_doubled<T>(
    states: Seq<InnerView<T>>,
    events: Seq<Event<T>>,
)
    requires
        states.len() == events.len() + 1,
        forall|i: int|
            0 <= i < events.len() ==> #[trigger] happened(states[i], events[i], states[i + 1]),
    ensures
        states.first().pending_values.to_multiset().add(values_emitted(events).to_multiset())
            == values_handed_out(events).to_multiset().add(
            states.last().pending_values.to_multiset(),
        ),
    decreases events.len(),
{
    broadcast use vstd::seq_lib::group_to_multiset_ensures;
    broadcast use vstd::multiset::group_multiset_axioms;

    let n = events.len() as int;
    let start = states.first().pending_values.to_multiset();
    if n > 0 {
        let earlier = events.drop_last();
        law_values_are_neither_lost_nor_doubled(states.drop_last(), earlier);
        assert(happened(states[n - 1], events[n - 1], states[n - 1 + 1]));
        match events.last() {
            Event::Emitted(value) => {
                assert(start.add(values_emitted(events).to_multiset()) =~= start.add(
                    values_emitted(earlier).to_multiset(),
                ).insert(value));
            },
            Event::HandedOut(value) => {
                assert(states[n - 1].pending_values =~= states.last().pending_values.push(value));
            },
            Event::Waited => {},
            Event::Readied => {},
        }
    }
}

/// Whatever happens, the stream is known by the same address.
pub proof fn law_address_never_changes<T>(states: Seq<InnerView<T>>, events: Seq<Event<T>>)
    requires
        states.len() == events.len() + 1,
        forall|i: int|
            0 <= i < events.len() ==> #[trigger] happened(states[i], events[i], states[i + 1]),
    ensures
        states.last().ptr == states.first().ptr,
    decreases events.len(),
{
    let n = events.len() as int;
    if n > 0 {
        law_address_never_changes(states.drop_last(), events.drop_last());
        assert(happened(states[n - 1], events[n - 1], states[n - 1 + 1]));
    }
}

} // verus!
