//! Wakers: no task that waits for its value to be taken is forgotten.

use core::future::Future;
use core::task::{Poll, Waker};

use crate::active::ActiveStreamInner;
use crate::emitter::EmitFuture;
use crate::inner::{Inner, InnerView, Place, Registration};
use crate::stream::{FnStream, PollStart, TryFnStream};
use crate::task;

use vstd::prelude::*;

verus! {

pub(crate) proof fn lemma_unmatched<W>(wakers: Seq<W>, same: Seq<bool>)
    requires
        same.len() == wakers.len(),
    ensures
        forall|i: int|
            0 <= i < wakers.len() && !same[i] ==> task::unmatched(wakers, same).contains(
                #[trigger] wakers[i],
            ),
        forall|w: W| #[trigger]
            task::unmatched(wakers, same).contains(w) ==> exists|i: int|
                0 <= i < wakers.len() && !same[i] && #[trigger] wakers[i] == w,
    decreases wakers.len(),
{
    if wakers.len() > 0 {
        let n = wakers.len() - 1;
        let before = task::unmatched(wakers.drop_last(), same.drop_last());
        let all = task::unmatched(wakers, same);
        lemma_unmatched(wakers.drop_last(), same.drop_last());
        assert forall|i: int| 0 <= i < wakers.len() && !same[i] implies all.contains(
            #[trigger] wakers[i],
        ) by {
            if i < n {
                assert(wakers.drop_last()[i] == wakers[i]);
                let j = choose|j: int| 0 <= j < before.len() && before[j] == wakers[i];
                assert(all[j] == wakers[i]);
            } else {
                assert(all.last() == wakers[i]);
            }
        }
        assert forall|w: W| #[trigger] all.contains(w) implies exists|i: int|
            0 <= i < wakers.len() && !same[i] && #[trigger] wakers[i] == w by {
            let j = choose|j: int| 0 <= j < all.len() && all[j] == w;
            if j < before.len() {
                assert(before.contains(w));
                let i = choose|i: int|
                    0 <= i < wakers.drop_last().len() && !same.drop_last()[i]
                        && #[trigger] wakers.drop_last()[i] == w;
                assert(wakers[i] == w);
            }
        }
    }
}

/// Before the future is polled, each waker of a task that emitted or that waits is woken or was
/// found to wake the very task that polls; none is woken but those that were not found so, and
/// none stays behind.
pub proof fn law_no_waker_is_forgotten<T>(
    before: InnerView<T>,
    waker: Waker,
    wake: Seq<Waker>,
    after: InnerView<T>,
)
    requires
        before.readied(waker, wake, after),
    ensures
        forall|i: int|
            0 <= i < before.all_wakers().len() ==> {
                ||| wake.contains(#[trigger] before.all_wakers()[i])
                ||| task::will_wake_answer(before.all_wakers()[i], waker, true)
            },
        forall|w: Waker| #[trigger]
            wake.contains(w) ==> before.all_wakers().contains(w) && task::will_wake_answer(
                w,
                waker,
                false,
            ),
        after.all_wakers().len() == 0,
{
    let same = choose|same: Seq<bool>| before.made_ready(waker, same, wake, after);
    lemma_unmatched(before.all_wakers(), same);
}

/// A stream with the emissions that wait for it: the state, and where the tasks of each emission
/// are registered, by a number for each emission that was polled.
#[verifier::reject_recursive_types(T)]
pub struct System<T> {
    pub state: InnerView<T>,
    pub registrations: Map<int, Registration>,
}

/// What can happen to a stream and its emissions.
pub enum Step<T> {
    /// The task of this waker polled an emission that still held `value`, or had already given its
    /// value away, and `r` came of it.
    Polled { emission: int, value: Option<T>, waker: Waker, r: Poll<()> },
    /// A value was handed out.
    HandedOut,
    /// The future is about to be polled.
    Readied,
}

impl<T> System<T> {
    /// A new stream.
    pub open spec fn empty(ptr: usize) -> Self {
        System { state: InnerView::empty(ptr), registrations: Map::empty() }
    }

    /// Where the tasks of `emission` are registered.
    pub open spec fn registration(self, emission: int) -> Registration {
        if self.registrations.dom().contains(emission) {
            self.registrations[emission]
        } else {
            Registration::spec_none()
        }
    }

    /// The index of the task that emitted, among the pending wakers of this round.
    pub open spec fn emitting_index(self, emission: int) -> Option<int> {
        self.state.emitting_index(self.registration(emission))
    }

    /// The index of the task that waits for `emission`, among the waiting wakers of this round.
    pub open spec fn waiting_index(self, emission: int) -> Option<int> {
        self.state.waiting_index(self.registration(emission))
    }

    /// Whether `step` leads from here to `after`.
    pub open spec fn stepped(self, step: Step<T>, after: Self) -> bool {
        match step {
            Step::Polled { emission, value, waker, r } => {
                &&& value is None <==> self.registrations.dom().contains(emission)
                &&& self.state.emission_polled(
                    value,
                    self.registration(emission),
                    waker,
                    after.state,
                    after.registration(emission),
                    r,
                )
                &&& after.registrations == self.registrations.insert(
                    emission,
                    after.registration(emission),
                )
            },
            Step::HandedOut => {
                &&& after.state == self.state.after_hand_out()
                &&& after.registrations == self.registrations
            },
            Step::Readied => {
                &&& exists|waker: Waker, wake: Seq<Waker>|
                    self.state.readied(waker, wake, after.state)
                &&& after.registrations == self.registrations
            },
        }
    }

    /// Whether the registration of `emission` is valid.
    pub open spec fn is_valid(self, emission: int) -> bool {
        &&& is_valid_place(
            self.registration(emission).emitting,
            self.state.round,
            self.state.pending_wakers.len(),
        )
        &&& is_valid_place(
            self.registration(emission).waiting,
            self.state.round,
            self.state.waiting_wakers.len(),
        )
    }

    /// Whether all registrations are valid, and no two emissions have the same place.
    pub open spec fn is_consistent(self) -> bool {
        &&& forall|emission: int| #[trigger] self.is_valid(emission)
        &&& forall|a: int, b: int|
            a != b && #[trigger] self.emitting_index(a) is Some && #[trigger] self.emitting_index(
                b,
            ) is Some ==> self.emitting_index(a) != self.emitting_index(b)
        &&& forall|a: int, b: int|
            a != b && #[trigger] self.waiting_index(a) is Some && #[trigger] self.waiting_index(
                b,
            ) is Some ==> self.waiting_index(a) != self.waiting_index(b)
    }
}

/// Whether `place`, if there is one, is not of a round that is still to come, and is in the list
/// of `len` wakers if it is of this round.
pub open spec fn is_valid_place(place: Option<Place>, round: u64, len: nat) -> bool {
    match place {
        Some(place) => {
            &&& place.round <= round
            &&& place.round < u64::MAX
            &&& place.round == round ==> place.index < len
        },
        None => true,
    }
}

/// Whether `steps` lead through `systems`.
pub open spec fn is_history<T>(systems: Seq<System<T>>, steps: Seq<Step<T>>) -> bool {
    &&& systems.len() == steps.len() + 1
    &&& forall|i: int|
        0 <= i < steps.len() ==> #[trigger] systems[i].stepped(steps[i], systems[i + 1])
}

/// Whether `steps` all belong to one poll of the future and to what is handed out after it.
pub open spec fn is_one_round<T>(steps: Seq<Step<T>>) -> bool {
    forall|i: int| 0 <= i < steps.len() ==> !(#[trigger] steps[i] is Readied)
}

/// Whether none of `steps` polls `emission`.
pub open spec fn leaves_alone<T>(steps: Seq<Step<T>>, emission: int) -> bool {
    forall|i: int|
        0 <= i < steps.len() ==> !(#[trigger] steps[i] is Polled && steps[i]->emission == emission)
}

proof fn lemma_step_is_consistent<T>(before: System<T>, step: Step<T>, after: System<T>)
    requires
        before.is_consistent(),
        before.stepped(step, after),
    ensures
        after.is_consistent(),
{
    assert forall|e: int| #[trigger] after.is_valid(e) by {
        assert(before.is_valid(e));
    }
    assert forall|a: int, b: int|
        a != b && #[trigger] after.emitting_index(a) is Some && #[trigger] after.emitting_index(
            b,
        ) is Some implies after.emitting_index(a) != after.emitting_index(b) by {
        assert(before.is_valid(a) && before.is_valid(b));
        assert(before.emitting_index(a) is Some && before.emitting_index(b) is Some
            ==> before.emitting_index(a) != before.emitting_index(b));
    }
    assert forall|a: int, b: int|
        a != b && #[trigger] after.waiting_index(a) is Some && #[trigger] after.waiting_index(
            b,
        ) is Some implies after.waiting_index(a) != after.waiting_index(b) by {
        assert(before.is_valid(a) && before.is_valid(b));
        assert(before.waiting_index(a) is Some && before.waiting_index(b) is Some
            ==> before.waiting_index(a) != before.waiting_index(b));
    }
}

/// No two emissions ever have the same place among the pending wakers, nor among the waiting ones.
pub proof fn law_registrations_are_consistent<T>(
    ptr: usize,
    systems: Seq<System<T>>,
    steps: Seq<Step<T>>,
)
    requires
        is_history(systems, steps),
        systems.first() == System::<T>::empty(ptr),
    ensures
        systems.last().is_consistent(),
    decreases steps.len(),
{
    let n = steps.len() as int;
    if n > 0 {
        law_registrations_are_consistent(ptr, systems.drop_last(), steps.drop_last());
        lemma_step_is_consistent(systems[n - 1], steps[n - 1], systems.last());
    }
}

proof fn lemma_pending_wakers_stay<T>(systems: Seq<System<T>>, steps: Seq<Step<T>>)
    requires
        is_history(systems, steps),
        is_one_round(steps),
    ensures
        systems.first().state.pending_wakers.is_prefix_of(systems.last().state.pending_wakers),
    decreases steps.len(),
{
    let n = steps.len() as int;
    if n > 0 {
        lemma_pending_wakers_stay(systems.drop_last(), steps.drop_last());
        assert(systems[n - 1].stepped(steps[n - 1], systems[n - 1 + 1]));
    }
}

/// A task that emits a value is woken before the future is polled again, unless it was found to be
/// the one that polls the stream, or is found to be the one that polls it then. That holds
/// whatever is emitted, waited for and handed out in between, and whatever other tasks poll the
/// same emission.
pub proof fn law_emitting_task_is_woken<T>(
    before: System<T>,
    emission: int,
    value: T,
    waker: Waker,
    systems: Seq<System<T>>,
    steps: Seq<Step<T>>,
    polling: Waker,
    wake: Seq<Waker>,
    ready: InnerView<T>,
)
    requires
        before.stepped(
            Step::Polled { emission, value: Some(value), waker, r: Poll::Pending },
            systems.first(),
        ),
        is_history(systems, steps),
        is_one_round(steps),
        systems.last().state.readied(polling, wake, ready),
    ensures
        ({
            ||| task::is_same_task(before.state.stream_waker, waker, true)
                && systems.first().state.all_wakers() == before.state.all_wakers()
            ||| exists|copy: Waker| #[trigger]
                task::is_clone(waker, copy) && (wake.contains(copy) || task::will_wake_answer(
                    copy,
                    polling,
                    true,
                ))
        }),
{
    let first = systems.first().state;
    if first.pending_wakers != before.state.pending_wakers {
        let last = systems.last().state;
        let index = before.state.pending_wakers.len() as int;
        let copy = first.pending_wakers[index];
        lemma_pending_wakers_stay(systems, steps);
        assert(last.all_wakers()[index] == copy);
        law_no_waker_is_forgotten(last, polling, wake, ready);
    }
}

/// Whether `copy` waits at `index`, and no emission but this one has that place.
spec fn waits_at<T>(system: System<T>, emission: int, index: int, copy: Waker) -> bool {
    &&& 0 <= index < system.state.waiting_wakers.len()
    &&& system.state.waiting_wakers[index] == copy
    &&& forall|other: int|
        other != emission ==> #[trigger] system.waiting_index(other) != Some(index)
}

proof fn lemma_waiting_waker_stays<T>(
    systems: Seq<System<T>>,
    steps: Seq<Step<T>>,
    emission: int,
    index: int,
    copy: Waker,
)
    requires
        is_history(systems, steps),
        is_one_round(steps),
        leaves_alone(steps, emission),
        waits_at(systems.first(), emission, index, copy),
    ensures
        waits_at(systems.last(), emission, index, copy),
    decreases steps.len(),
{
    let n = steps.len() as int;
    if n > 0 {
        lemma_waiting_waker_stays(systems.drop_last(), steps.drop_last(), emission, index, copy);
        let before = systems[n - 1];
        let step = steps[n - 1];
        let after = systems.last();
        assert(before.stepped(step, systems[n - 1 + 1]));
        assert forall|other: int| other != emission implies #[trigger] after.waiting_index(other)
            != Some(index) by {
            assert(before.waiting_index(other) != Some(index));
        }
        if step is Polled {
            assert(before.waiting_index(step->emission) != Some(index));
        }
    }
}

/// Whether `copy` stands for the task of `waker`: it is a clone of it, or was found to wake the
/// same task.
pub open spec fn stands_for(copy: Waker, waker: Waker) -> bool {
    task::is_clone(waker, copy) || task::will_wake_answer(copy, waker, true)
}

/// A task that polls an emission again and finds it pending is woken before the future is polled
/// again, unless it was found to be the one that polls the stream, or is found to be the one that
/// polls it then. That holds whatever is emitted, waited for and handed out in between. If the
/// emission is polled once more before that, it holds of the task of that poll.
pub proof fn law_waiting_task_is_woken<T>(
    before: System<T>,
    emission: int,
    waker: Waker,
    systems: Seq<System<T>>,
    steps: Seq<Step<T>>,
    polling: Waker,
    wake: Seq<Waker>,
    ready: InnerView<T>,
)
    requires
        before.is_consistent(),
        before.stepped(
            Step::Polled { emission, value: None, waker, r: Poll::Pending },
            systems.first(),
        ),
        is_history(systems, steps),
        is_one_round(steps),
        leaves_alone(steps, emission),
        systems.last().state.readied(polling, wake, ready),
    ensures
        ({
            ||| task::is_same_task(before.state.stream_waker, waker, true)
                && systems.first().state == before.state
            ||| exists|copy: Waker| #[trigger]
                stands_for(copy, waker) && (wake.contains(copy) || task::will_wake_answer(
                    copy,
                    polling,
                    true,
                ))
        }),
{
    let first = systems.first().state;
    let last = systems.last().state;
    let registration = before.registration(emission);
    let now = systems.first().registration(emission);
    let known = choose|known: bool|
        {
            &&& before.state.is_known_task(registration, waker, known)
            &&& #[trigger] before.state.waited(registration, known, waker, first, now)
        };
    law_no_waker_is_forgotten(last, polling, wake, ready);
    if known {
        if !task::is_same_task(before.state.stream_waker, waker, true) {
            let index = before.emitting_index(emission)->0;
            let copy = before.state.pending_wakers[index];
            assert(stands_for(copy, waker));
            lemma_pending_wakers_stay(systems, steps);
            assert(last.all_wakers()[index] == copy);
        }
    } else {
        let index = match before.waiting_index(emission) {
            Some(index) => index,
            None => first.waiting_wakers.len() - 1,
        };
        let copy = first.waiting_wakers[index];
        assert(stands_for(copy, waker));
        assert forall|other: int| other != emission implies #[trigger]
            systems.first().waiting_index(other) != Some(index) by {
            assert(before.is_valid(other));
            assert(before.waiting_index(emission) is Some && before.waiting_index(other) is Some
                ==> before.waiting_index(emission) != before.waiting_index(other));
        }
        lemma_waiting_waker_stays(systems, steps, emission, index, copy);
        assert(last.all_wakers()[last.pending_wakers.len() + index] == copy);
    }
}

/// How many pending wakers the polls of `emission` have added.
pub open spec fn pending_wakers_added_by<T>(
    systems: Seq<System<T>>,
    steps: Seq<Step<T>>,
    emission: int,
) -> int
    decreases steps.len(),
{
    if steps.len() == 0 {
        0
    } else {
        let earlier = pending_wakers_added_by(systems.drop_last(), steps.drop_last(), emission);
        let step = steps.last();
        if step is Polled && step->emission == emission {
            earlier + systems.last().state.pending_wakers.len()
                - systems[systems.len() - 2].state.pending_wakers.len()
        } else {
            earlier
        }
    }
}

proof fn lemma_pending_wakers_added<T>(systems: Seq<System<T>>, steps: Seq<Step<T>>, emission: int)
    requires
        is_history(systems, steps),
    ensures
        0 <= pending_wakers_added_by(systems, steps, emission) <= 1,
        pending_wakers_added_by(systems, steps, emission) == 1
            ==> systems.last().registrations.dom().contains(emission),
    decreases steps.len(),
{
    let n = steps.len() as int;
    if n > 0 {
        lemma_pending_wakers_added(systems.drop_last(), steps.drop_last(), emission);
        assert(systems[n - 1].stepped(steps[n - 1], systems[n - 1 + 1]));
    }
}

/// However often an emission is polled, it adds at most one pending waker over its whole life.
pub proof fn law_emission_adds_at_most_one_pending_waker<T>(
    systems: Seq<System<T>>,
    steps: Seq<Step<T>>,
    emission: int,
)
    requires
        is_history(systems, steps),
    ensures
        0 <= pending_wakers_added_by(systems, steps, emission) <= 1,
{
    lemma_pending_wakers_added(systems, steps, emission);
}

/// How many waiting wakers the polls of `emission` have added.
pub open spec fn waiting_wakers_added_by<T>(
    systems: Seq<System<T>>,
    steps: Seq<Step<T>>,
    emission: int,
) -> int
    decreases steps.len(),
{
    if steps.len() == 0 {
        0
    } else {
        let earlier = waiting_wakers_added_by(systems.drop_last(), steps.drop_last(), emission);
        let step = steps.last();
        if step is Polled && step->emission == emission {
            earlier + systems.last().state.waiting_wakers.len()
                - systems[systems.len() - 2].state.waiting_wakers.len()
        } else {
            earlier
        }
    }
}

proof fn lemma_waiting_wakers_added<T>(systems: Seq<System<T>>, steps: Seq<Step<T>>, emission: int)
    requires
        is_history(systems, steps),
        is_one_round(steps),
        systems.first().state.round < u64::MAX,
        forall|i: int|
            0 <= i < systems.len() ==> (#[trigger] systems[i]).state.waiting_wakers.len()
                < usize::MAX,
    ensures
        systems.last().state.round == systems.first().state.round,
        0 <= waiting_wakers_added_by(systems, steps, emission) <= 1,
        waiting_wakers_added_by(systems, steps, emission) == 1
            ==> systems.last().registrations.dom().contains(emission)
            && systems.last().waiting_index(emission) is Some,
    decreases steps.len(),
{
    let n = steps.len() as int;
    if n > 0 {
        lemma_waiting_wakers_added(systems.drop_last(), steps.drop_last(), emission);
        assert(systems[n - 1].stepped(steps[n - 1], systems[n - 1 + 1]));
    }
}

/// However often an emission is polled during one poll of the future, it adds at most one waiting
/// waker, as long as the rounds can be counted.
pub proof fn law_emission_adds_at_most_one_waiting_waker_per_round<T>(
    systems: Seq<System<T>>,
    steps: Seq<Step<T>>,
    emission: int,
)
    requires
        is_history(systems, steps),
        is_one_round(steps),
        systems.first().state.round < u64::MAX,
        forall|i: int|
            0 <= i < systems.len() ==> (#[trigger] systems[i]).state.waiting_wakers.len()
                < usize::MAX,
    ensures
        0 <= waiting_wakers_added_by(systems, steps, emission) <= 1,
{
    lemma_waiting_wakers_added(systems, steps, emission);
}

/// Whether `steps` are polls of `emission` and nothing else.
pub open spec fn only_polls<T>(steps: Seq<Step<T>>, emission: int) -> bool {
    forall|i: int|
        0 <= i < steps.len() ==> #[trigger] steps[i] is Polled && steps[i]->emission == emission
}

/// An emission that is polled any number of times in a row, by whatever tasks, is pending each
/// time. Its value is added to the pending values once, and the pending wakers stay as they are or
/// get a clone of the waker that it was polled with first.
pub proof fn law_emission_polled_in_a_row_emits_once<T>(
    systems: Seq<System<T>>,
    steps: Seq<Step<T>>,
    emission: int,
)
    requires
        is_history(systems, steps),
        steps.len() > 0,
        only_polls(steps, emission),
        !systems.first().registrations.dom().contains(emission),
    ensures
        steps.first()->value is Some,
        forall|i: int| 0 <= i < steps.len() ==> #[trigger] steps[i]->r == Poll::<()>::Pending,
        systems.last().state.pending_values == systems.first().state.pending_values.push(
            steps.first()->value->0,
        ),
        ({
            ||| systems.last().state.pending_wakers == systems.first().state.pending_wakers
            ||| crate::inner::added(
                systems.first().state.pending_wakers,
                steps.first()->waker,
                systems.last().state.pending_wakers,
            )
        }),
        systems.last().registrations.dom().contains(emission),
    decreases steps.len(),
{
    let n = steps.len() as int;
    assert(systems[n - 1].stepped(steps[n - 1], systems[n - 1 + 1]));
    if n > 1 {
        let earlier = steps.drop_last();
        law_emission_polled_in_a_row_emits_once(systems.drop_last(), earlier, emission);
        assert forall|i: int| 0 <= i < steps.len() implies #[trigger] steps[i]->r == Poll::<
            (),
        >::Pending by {
            if i < n - 1 {
                assert(earlier[i]->r == Poll::<()>::Pending);
            }
        }
    }
}

/// Whether none of `steps` emits a value.
pub open spec fn emits_nothing<T>(steps: Seq<Step<T>>) -> bool {
    forall|i: int|
        0 <= i < steps.len() ==> !(#[trigger] steps[i] is Polled && steps[i]->value is Some)
}

proof fn lemma_within_a_round<T>(systems: Seq<System<T>>, steps: Seq<Step<T>>)
    requires
        is_history(systems, steps),
        is_one_round(steps),
    ensures
        systems.last().state.stream_waker == systems.first().state.stream_waker,
        emits_nothing(steps) && systems.first().state.pending_values.len() == 0
            ==> systems.last().state.pending_values.len() == 0,
    decreases steps.len(),
{
    let n = steps.len() as int;
    if n > 0 {
        lemma_within_a_round(systems.drop_last(), steps.drop_last());
        assert(systems[n - 1].stepped(steps[n - 1], systems[n - 1 + 1]));
    }
}

/// An emission that waits is ready when the future is polled again, which happens only once the
/// consumer has taken everything, unless another emission came first in that poll. In that case it
/// stays pending, and the task that polls it is registered or is found to be the one that polls
/// the stream.
pub proof fn law_waiting_emission_is_ready_or_its_task_is_registered<T>(
    state: InnerView<T>,
    consumer: Waker,
    wake: Vec<Waker>,
    systems: Seq<System<T>>,
    steps: Seq<Step<T>>,
    emission: int,
    waker: Waker,
    r: Poll<()>,
    after: System<T>,
)
    requires
        state.poll_started(consumer, systems.first().state, PollStart::PollFuture(wake)),
        is_history(systems, steps),
        is_one_round(steps),
        systems.last().stepped(Step::Polled { emission, value: None, waker, r }, after),
    ensures
        systems.first().state.pending_values.len() == 0,
        task::remembered(state.stream_waker, consumer, systems.first().state.stream_waker),
        emits_nothing(steps) ==> r == Poll::Ready(()),
        r == Poll::Ready(()) <==> systems.last().state.pending_values.len() == 0,
        r == Poll::Ready(()) ==> after.state == systems.last().state,
        r == Poll::<()>::Pending ==> {
            &&& after.state.pending_values == systems.last().state.pending_values
            &&& after.state.pending_wakers == systems.last().state.pending_wakers
            &&& {
                ||| task::is_same_task(systems.first().state.stream_waker, waker, true)
                    && after.state == systems.last().state
                ||| exists|i: int|
                    0 <= i < after.state.all_wakers().len() && stands_for(
                        #[trigger] after.state.all_wakers()[i],
                        waker,
                    )
            }
        },
{
    lemma_within_a_round(systems, steps);
    if r == Poll::<()>::Pending {
        let state = systems.last().state;
        let registration = systems.last().registration(emission);
        let now = after.registration(emission);
        let known = choose|known: bool|
            {
                &&& state.is_known_task(registration, waker, known)
                &&& #[trigger] state.waited(registration, known, waker, after.state, now)
            };
        let wakers = after.state.all_wakers();
        if !known {
            let index = match state.waiting_index(registration) {
                Some(index) => index,
                None => after.state.waiting_wakers.len() - 1,
            };
            assert(stands_for(wakers[state.pending_wakers.len() + index], waker));
        } else if !task::is_same_task(state.stream_waker, waker, true) {
            let index = state.emitting_index(registration)->0;
            assert(stands_for(wakers[index], waker));
        }
    }
}

/// A poll of an emission is such a step of the stream and its emissions: what holds of every
/// history of steps holds of the polls that were made.
pub proof fn law_poll_of_an_emission_is_a_step<T>(
    before: System<T>,
    number: int,
    emission: &mut EmitFuture<T>,
    inner: &mut Inner<T>,
    active: ActiveStreamInner,
    waker: Waker,
    r: Poll<()>,
)
    requires
        before.state == old(inner)@,
        before.registration(number) == old(emission).registration(),
        old(emission).value() is None <==> before.registrations.dom().contains(number),
        call_ensures(EmitFuture::<T>::poll, (emission, inner, &active, &waker), r),
    ensures
        before.stepped(
            Step::Polled { emission: number, value: old(emission).value(), waker, r },
            System {
                state: final(inner)@,
                registrations: before.registrations.insert(
                    number,
                    final(emission).registration(),
                ),
            },
        ),
{
}

/// So is a request: it hands out a value, or makes the state ready for the future to be polled,
/// with the wakers that it returns to be woken first.
pub proof fn law_request_is_a_step<T, Fut: Future<Output = ()>>(
    before: System<T>,
    inner: &mut Inner<T>,
    waker: Waker,
    start: PollStart<T>,
)
    requires
        before.state == old(inner)@,
        call_ensures(FnStream::<T, Fut>::poll_next_start, (inner, &waker), start),
    ensures
        match start {
            PollStart::Done(_) => before.stepped(
                Step::HandedOut,
                System { state: final(inner)@, ..before },
            ),
            PollStart::PollFuture(wake) => {
                &&& before.state.readied(waker, wake@, final(inner)@)
                &&& before.stepped(Step::Readied, System { state: final(inner)@, ..before })
            },
        },
{
}

/// So is a request to a stream that may fail and has not failed.
pub proof fn law_fallible_request_is_a_step<T, E, Fut: Future<Output = Result<(), E>>>(
    before: System<Result<T, E>>,
    inner: &mut Inner<Result<T, E>>,
    waker: Waker,
    start: PollStart<Result<T, E>>,
)
    requires
        before.state == old(inner)@,
        call_ensures(TryFnStream::<T, E, Fut>::poll_next_start, (false, inner, &waker), start),
    ensures
        match start {
            PollStart::Done(_) => before.stepped(
                Step::HandedOut,
                System { state: final(inner)@, ..before },
            ),
            PollStart::PollFuture(wake) => {
                &&& before.state.readied(waker, wake@, final(inner)@)
                &&& before.stepped(Step::Readied, System { state: final(inner)@, ..before })
            },
        },
{
}

} // verus!
