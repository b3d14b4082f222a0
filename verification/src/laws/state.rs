//! The shared state: what each function that reads or changes it does.

use core::task::{Poll, Waker};

use crate::inner::{Inner, InnerView, Place, Registration};
use crate::laws::{emissions, requests};
use crate::task;

use vstd::prelude::*;

verus! {

/// The state of a new stream is empty, and is found so.
pub proof fn law_new_state_is_empty<T>(ptr: usize, inner: Inner<T>, found: usize, drained: bool)
    requires
        call_ensures(Inner::<T>::new, (ptr,), inner),
        call_ensures(Inner::<T>::ptr, (&inner,), found),
        call_ensures(Inner::<T>::is_drained, (&inner,), drained),
    ensures
        found == ptr,
        drained,
        inner@ == (InnerView {
            ptr,
            stream_waker: None,
            pending_values: Seq::<T>::empty(),
            pending_wakers: Seq::empty(),
            waiting_wakers: Seq::empty(),
            round: 0,
        }),
{
}

/// The pending value that came last is handed out, if there is one, and only that is taken away;
/// the state is found drained if and only if there is none.
pub proof fn law_last_value_is_handed_out<T>(
    inner: &mut Inner<T>,
    drained: bool,
    r: Poll<Option<T>>,
)
    requires
        call_ensures(Inner::<T>::is_drained, (old(inner),), drained),
        call_ensures(Inner::<T>::hand_out, (inner,), r),
    ensures
        drained <==> old(inner)@.pending_values.len() == 0,
        drained ==> r == Poll::<Option<T>>::Pending && final(inner)@ == old(inner)@,
        !drained ==> {
            &&& r == Poll::Ready(Some(old(inner)@.pending_values.last()))
            &&& final(inner)@ == (InnerView {
                pending_values: old(inner)@.pending_values.drop_last(),
                ..old(inner)@
            })
        },
{
}

/// A value that is taken in is the next to be handed out, and handing it out gives back the values
/// that were pending before.
pub proof fn law_taken_in_value_is_handed_out_next<T>(
    inner: &mut Inner<T>,
    value: T,
    same: bool,
    waker: Waker,
    now: Registration,
    later: &mut Inner<T>,
    r: Poll<Option<T>>,
)
    requires
        call_ensures(Inner::<T>::take_in, (inner, value, same, &waker), now),
        old(later)@ == final(inner)@,
        call_ensures(Inner::<T>::hand_out, (later,), r),
    ensures
        r == Poll::Ready(Some(value)),
        final(later)@.pending_values == old(inner)@.pending_values,
{
}

/// Taking in a value changes nothing but what is pending. The task of `waker` is registered if and
/// only if it is another one than the one that polls the stream: by a clone of `waker` after the
/// pending wakers, whose place is returned as long as rounds and places can be counted.
pub proof fn law_taking_in_registers_another_task<T>(
    inner: &mut Inner<T>,
    value: T,
    same: bool,
    waker: Waker,
    now: Registration,
)
    requires
        call_ensures(Inner::<T>::take_in, (inner, value, same, &waker), now),
    ensures
        final(inner)@ == (InnerView {
            pending_values: old(inner)@.pending_values.push(value),
            pending_wakers: final(inner)@.pending_wakers,
            ..old(inner)@
        }),
        same ==> final(inner)@.pending_wakers == old(inner)@.pending_wakers && now.emitting is None,
        !same ==> {
            &&& final(inner)@.pending_wakers == old(inner)@.pending_wakers.push(
                final(inner)@.pending_wakers.last(),
            )
            &&& call_ensures(Waker::clone, (&waker,), final(inner)@.pending_wakers.last())
            &&& old(inner)@.round < u64::MAX && old(inner)@.pending_wakers.len() < usize::MAX
                ==> now.emitting == Some(
                Place {
                    round: old(inner)@.round,
                    index: old(inner)@.pending_wakers.len() as usize,
                },
            )
        },
        now.waiting is None,
{
}

/// Waiting for an emission changes nothing but the waiting wakers, and not even these if the task
/// is known. Else a clone of `waker` is among them afterwards: at the place that the emission has
/// there in this round, with all others left where they are, or at the end, where its place is
/// returned as long as rounds and places can be counted. The place of the task that emitted stays.
pub proof fn law_waiting_registers_an_unknown_task<T>(
    inner: &mut Inner<T>,
    registration: Registration,
    known: bool,
    waker: Waker,
    now: Registration,
)
    requires
        call_ensures(Inner::<T>::wait, (inner, registration, known, &waker), now),
    ensures
        final(inner)@ == (InnerView {
            waiting_wakers: final(inner)@.waiting_wakers,
            ..old(inner)@
        }),
        now.emitting == registration.emitting,
        known ==> final(inner)@ == old(inner)@ && now == registration,
        !known ==> match registration.waiting {
            Some(place) if place.round == old(inner)@.round && place.index
                < old(inner)@.waiting_wakers.len() => {
                let copy = final(inner)@.waiting_wakers[place.index as int];
                &&& call_ensures(Waker::clone, (&waker,), copy)
                &&& final(inner)@.waiting_wakers == old(inner)@.waiting_wakers.update(
                    place.index as int,
                    copy,
                )
                &&& now == registration
            },
            _ => {
                let copy = final(inner)@.waiting_wakers.last();
                &&& call_ensures(Waker::clone, (&waker,), copy)
                &&& final(inner)@.waiting_wakers == old(inner)@.waiting_wakers.push(copy)
                &&& old(inner)@.round < u64::MAX && old(inner)@.waiting_wakers.len() < usize::MAX
                    ==> now.waiting == Some(
                    Place {
                        round: old(inner)@.round,
                        index: old(inner)@.waiting_wakers.len() as usize,
                    },
                )
            },
        },
{
}

/// However often one emission is waited for in one round, it has one waiting waker: the second time
/// the clone of the first waker gives way to one of the second.
pub proof fn law_waiting_again_adds_no_waker<T>(
    inner: &mut Inner<T>,
    registration: Registration,
    first: Waker,
    now: Registration,
    later: &mut Inner<T>,
    second: Waker,
    then: Registration,
)
    requires
        call_ensures(Inner::<T>::wait, (inner, registration, false, &first), now),
        old(later)@ == final(inner)@,
        call_ensures(Inner::<T>::wait, (later, now, false, &second), then),
        old(inner)@.round < u64::MAX,
        old(inner)@.waiting_wakers.len() < usize::MAX,
    ensures
        final(later)@.waiting_wakers.len() == old(later)@.waiting_wakers.len(),
        then == now,
        exists|i: int|
            0 <= i < final(later)@.waiting_wakers.len() && call_ensures(
                Waker::clone,
                (&second,),
                #[trigger] final(later)@.waiting_wakers[i],
            ),
        forall|i: int|
            0 <= i < old(inner)@.waiting_wakers.len() && !(now.waiting is Some
                && now.waiting->0.index == i) ==> final(later)@.waiting_wakers[i]
                == #[trigger] old(inner)@.waiting_wakers[i],
{
}

/// A task is known to an emission if it is found to be the one that polls the stream, or the one
/// whose waker has the place of the task that emitted in this round; it is not known if it is found
/// to be neither.
pub proof fn law_known_task_is_found_among_the_wakers<T>(
    inner: Inner<T>,
    registration: Registration,
    waker: Waker,
    known: bool,
)
    requires
        call_ensures(Inner::<T>::knows_waker, (&inner, registration, &waker), known),
    ensures
        ({
            let polling = inner@.stream_waker;
            let has_place = registration.emitting is Some && registration.emitting->0.round
                == inner@.round && registration.emitting->0.index < inner@.pending_wakers.len();
            let emitting = inner@.pending_wakers[registration.emitting->0.index as int];
            if known {
                ||| polling is Some && call_ensures(
                    Waker::will_wake,
                    (&polling->0, &waker),
                    true,
                )
                ||| has_place && call_ensures(Waker::will_wake, (&emitting, &waker), true)
            } else {
                &&& polling is Some ==> call_ensures(
                    Waker::will_wake,
                    (&polling->0, &waker),
                    false,
                )
                &&& has_place ==> call_ensures(Waker::will_wake, (&emitting, &waker), false)
            }
        }),
{
}

/// A task is found to be the one that polls the stream if the waker that the stream remembers says
/// so; as long as the stream was not polled, no task is.
pub proof fn law_polling_task_is_the_remembered_one<T>(inner: Inner<T>, waker: Waker, same: bool)
    requires
        call_ensures(Inner::<T>::is_same_waker, (&inner, &waker), same),
    ensures
        inner@.stream_waker is None ==> !same,
        inner@.stream_waker is Some ==> call_ensures(
            Waker::will_wake,
            (&inner@.stream_waker->0, &waker),
            same,
        ),
{
}

/// Before the future is polled, all wakers are given back to be woken, in order and once, except
/// those found to wake the polling task; none stays behind. The polling task is remembered, a new
/// round begins, and the pending values stay.
pub proof fn law_ready_state_has_no_wakers<T>(inner: &mut Inner<T>, waker: Waker, wake: Vec<Waker>)
    requires
        call_ensures(Inner::<T>::make_ready, (inner, &waker), wake),
    ensures
        exists|at: Seq<int>|
            requests::wakes_all_but(
                old(inner)@.pending_wakers + old(inner)@.waiting_wakers,
                waker,
                wake@,
                at,
            ),
        requests::remembers(old(inner)@, waker, final(inner)@),
        final(inner)@ == (InnerView {
            stream_waker: final(inner)@.stream_waker,
            pending_wakers: Seq::empty(),
            waiting_wakers: Seq::empty(),
            round: if old(inner)@.round < u64::MAX {
                (old(inner)@.round + 1) as u64
            } else {
                u64::MAX
            },
            ..old(inner)@
        }),
{
    requests::lemma_readied(old(inner)@, waker, wake@, final(inner)@);
}

/// Whether a list of `len` items of type `U` can take one more: it is empty, or can double without
/// outgrowing what can be allocated.
pub open spec fn has_room<U>(len: nat) -> bool {
    len == 0 || (len < usize::MAX && emissions::can_double::<U>(len))
}

/// Where room is found for a value it can be taken in, and where room is found to wait a task can
/// wait. There is room for a value if and only if the pending values and the pending wakers have
/// room for one more, and to wait if and only if the waiting wakers have, or the emission already
/// has its place among them.
pub proof fn law_there_is_room_as_long_as_lists_can_double<T>(
    inner: &mut Inner<T>,
    value: T,
    same: bool,
    registration: Registration,
    known: bool,
    waker: Waker,
    value_room: bool,
    waiting_room: bool,
)
    requires
        call_ensures(Inner::<T>::has_room_for_value, (old(inner),), value_room),
        call_ensures(
            Inner::<T>::has_room_for_waiting,
            (old(inner), registration),
            waiting_room,
        ),
    ensures
        value_room ==> call_requires(Inner::<T>::take_in, (inner, value, same, &waker)),
        waiting_room ==> call_requires(Inner::<T>::wait, (inner, registration, known, &waker)),
        value_room <==> has_room::<T>(old(inner)@.pending_values.len()) && has_room::<Waker>(
            old(inner)@.pending_wakers.len(),
        ),
        waiting_room <==> has_room::<Waker>(old(inner)@.waiting_wakers.len()) || (
        registration.waiting is Some && registration.waiting->0.round == old(inner)@.round
            && registration.waiting->0.index < old(inner)@.waiting_wakers.len()),
{
}

/// Comparing and cloning wakers is left to the wakers themselves.
pub proof fn law_wakers_speak_for_themselves(
    waker: Waker,
    other: Waker,
    answer: bool,
    copy: Waker,
    polling: Option<Waker>,
    same: bool,
)
    requires
        call_ensures(task::will_wake, (&waker, &other), answer),
        call_ensures(task::clone_waker, (&waker,), copy),
        call_ensures(task::same_task, (&polling, &waker), same),
    ensures
        call_ensures(Waker::will_wake, (&waker, &other), answer),
        call_ensures(Waker::clone, (&waker,), copy),
        polling is None ==> !same,
        polling is Some ==> call_ensures(Waker::will_wake, (&polling->0, &waker), same),
{
}

/// What the contracts say of comparing and cloning is what the wakers themselves answer.
pub proof fn law_answers_are_those_of_the_wakers(
    waker: Waker,
    other: Waker,
    answer: bool,
    polling: Option<Waker>,
)
    ensures
        task::will_wake_answer(waker, other, answer) <==> call_ensures(
            Waker::will_wake,
            (&waker, &other),
            answer,
        ),
        task::is_clone(waker, other) <==> call_ensures(Waker::clone, (&waker,), other),
        task::is_same_task(polling, other, answer) <==> match polling {
            Some(waker) => call_ensures(Waker::will_wake, (&waker, &other), answer),
            None => !answer,
        },
{
}

/// The task that polls with `current` is remembered: by a clone of `current`, or by the waker that
/// was remembered before if that was found to wake the same task.
pub proof fn law_polling_task_is_remembered(slot: &mut Option<Waker>, current: Waker)
    requires
        call_ensures(task::remember, (slot, &current), ()),
    ensures
        *final(slot) is Some,
        call_ensures(Waker::clone, (&current,), final(slot)->0) || (*final(slot) == *old(slot)
            && call_ensures(Waker::will_wake, (&final(slot)->0, &current), true)),
{
}

/// Of any wakers that are compared with one, those are picked to be woken that were not found to
/// wake its task: each once, and in their order.
pub proof fn law_wakers_not_found_are_picked(
    wakers: Vec<Waker>,
    current: Waker,
    same: Vec<bool>,
    wake: Vec<Waker>,
)
    requires
        call_ensures(task::compare_wakers, (&wakers, &current), same),
        call_ensures(task::wakers_to_wake, (wakers, &same), wake),
    ensures
        exists|at: Seq<int>| requests::wakes_all_but(wakers@, current, wake@, at),
        same@.len() == wakers@.len(),
        forall|i: int|
            0 <= i < wakers@.len() ==> call_ensures(
                Waker::will_wake,
                (&#[trigger] wakers@[i], &current),
                same@[i],
            ),
        forall|i: int|
            0 <= i < wakers@.len() && !#[trigger] same@[i] ==> wake@.contains(wakers@[i]),
{
    requests::lemma_picked(wakers@, current, same@);
    crate::laws::wakers::lemma_unmatched(wakers@, same@);
}

} // verus!
