//! The state that a stream shares with its emitters.

use core::task::{Poll, Waker};

use crate::active::{ActiveStreamInner, ActiveStreamPointerGuard};
use crate::pending::Pending;
use crate::task;

use vstd::prelude::*;

verus! {

/// A place in a list of wakers, which holds for one round only: the list is emptied before the
/// next.
#[derive(Clone, Copy, Debug)]
pub struct Place {
    pub round: u64,
    pub index: usize,
}

/// Where the tasks of one emission are registered to be woken.
#[derive(Clone, Copy, Debug)]
pub struct Registration {
    /// The place of the task that emitted the value, among the pending wakers.
    pub emitting: Option<Place>,
    /// The place of the task that polled the emission last, among the waiting wakers.
    pub waiting: Option<Place>,
}

impl Registration {
    /// The registration of an emission that was not polled yet.
    pub fn none() -> (registration: Self)
        ensures
            registration == Self::spec_none(),
    {
        Registration { emitting: None, waiting: None }
    }

    /// The registration of an emission that was not polled yet.
    pub open spec fn spec_none() -> Self {
        Registration { emitting: None, waiting: None }
    }
}

/// The index that `place` has in a list of `len` wakers, if it is of this round.
pub open spec fn index_of(place: Option<Place>, round: u64, len: nat) -> Option<int> {
    match place {
        Some(place) => if place.round == round && place.index < len {
            Some(place.index as int)
        } else {
            None
        },
        None => None,
    }
}

/// The place of a waker that is added to a list of `len` wakers. There is none in the last round
/// that can be counted, which does not end.
pub open spec fn place_at_end(round: u64, len: nat) -> Option<Place> {
    if round < u64::MAX && len < usize::MAX {
        Some(Place { round, index: len as usize })
    } else {
        None
    }
}

/// Whether `after` is the list `before` with a clone of `waker` added at the end.
pub open spec fn added(before: Seq<Waker>, waker: Waker, after: Seq<Waker>) -> bool {
    &&& after.len() == before.len() + 1
    &&& after.drop_last() == before
    &&& task::is_clone(waker, after.last())
}

/// Whether `after` is the list `before` with a clone of `waker` at `index`.
pub open spec fn replaced(
    before: Seq<Waker>,
    index: int,
    waker: Waker,
    after: Seq<Waker>,
) -> bool {
    &&& after == before.update(index, after[index])
    &&& task::is_clone(waker, after[index])
}

/// What a stream and its emitters share.
#[verifier::reject_recursive_types(T)]
pub struct Inner<T> {
    ptr: usize,
    stream_waker: Option<Waker>,
    pending_values: Pending<T>,
    pending_wakers: Pending<Waker>,
    waiting_wakers: Pending<Waker>,
    round: u64,
}

/// The contents of an [`Inner`].
#[verifier::ext_equal]
#[verifier::reject_recursive_types(T)]
pub struct InnerView<T> {
    /// The address by which the stream is known.
    pub ptr: usize,
    /// The waker of the task that polled the stream last.
    pub stream_waker: Option<Waker>,
    /// The values that were emitted and not yet handed out. The last one goes first.
    pub pending_values: Seq<T>,
    /// The wakers of other tasks that emitted these values.
    pub pending_wakers: Seq<Waker>,
    /// The wakers of other tasks that polled an emission again while a value was pending.
    pub waiting_wakers: Seq<Waker>,
    /// How often the future was about to be polled, as far as that can be counted.
    pub round: u64,
}

impl<T> InnerView<T> {
    /// The state of a new stream.
    pub open spec fn empty(ptr: usize) -> Self {
        InnerView {
            ptr,
            stream_waker: None,
            pending_values: Seq::empty(),
            pending_wakers: Seq::empty(),
            waiting_wakers: Seq::empty(),
            round: 0,
        }
    }

    /// What the consumer gets if it is handed a pending value now.
    pub open spec fn handed_out(self) -> Poll<Option<T>> {
        if self.pending_values.len() > 0 {
            Poll::Ready(Some(self.pending_values.last()))
        } else {
            Poll::Pending
        }
    }

    /// The state once that value is handed out.
    pub open spec fn after_hand_out(self) -> Self {
        if self.pending_values.len() > 0 {
            InnerView { pending_values: self.pending_values.drop_last(), ..self }
        } else {
            self
        }
    }

    /// Whether the slot holds `after` and a guard keeps `kept` once this stream was made the active
    /// one, the slot having held `before`.
    pub open spec fn activated(self, before: usize, after: usize, kept: usize) -> bool {
        &&& after == self.ptr
        &&& kept == before
    }

    /// The index of the task that emitted, among the pending wakers of this round.
    pub open spec fn emitting_index(self, registration: Registration) -> Option<int> {
        index_of(registration.emitting, self.round, self.pending_wakers.len())
    }

    /// The index of the task that waits, among the waiting wakers of this round.
    pub open spec fn waiting_index(self, registration: Registration) -> Option<int> {
        index_of(registration.waiting, self.round, self.waiting_wakers.len())
    }

    /// Whether `after` is this state once it has taken in `value`, emitted by the task of
    /// `waker`, and `now` is the registration of the emission; `same` says whether that task was
    /// found to be the one that polls the stream. Unless it was, a clone of `waker` is added to
    /// the pending wakers.
    pub open spec fn took_in(
        self,
        value: T,
        same: bool,
        waker: Waker,
        after: Self,
        now: Registration,
    ) -> bool {
        &&& after == (InnerView {
            pending_values: self.pending_values.push(value),
            pending_wakers: after.pending_wakers,
            ..self
        })
        &&& if same {
            &&& after.pending_wakers == self.pending_wakers
            &&& now == Registration::spec_none()
        } else {
            &&& added(self.pending_wakers, waker, after.pending_wakers)
            &&& now == (Registration {
                emitting: place_at_end(self.round, self.pending_wakers.len()),
                waiting: None,
            })
        }
    }

    /// Whether `known` says if the task of `waker`, which polls an emission again, needs no waker
    /// of its own: it is found to be the one that polls the stream, or the one that emitted the
    /// value in this round.
    pub open spec fn is_known_task(
        self,
        registration: Registration,
        waker: Waker,
        known: bool,
    ) -> bool {
        ||| known && task::is_same_task(self.stream_waker, waker, true)
        ||| task::is_same_task(self.stream_waker, waker, false) && match self.emitting_index(
            registration,
        ) {
            Some(index) => task::will_wake_answer(self.pending_wakers[index], waker, known),
            None => !known,
        }
    }

    /// Whether `after` is this state once the task of `waker` waits for an emission whose value
    /// was taken in, and `now` is the registration of the emission, having been `registration`.
    ///
    /// Unless `known` holds, a clone of `waker` is among the waiting wakers: at the index that the
    /// emission already has there in this round, or at the end.
    pub open spec fn waited(
        self,
        registration: Registration,
        known: bool,
        waker: Waker,
        after: Self,
        now: Registration,
    ) -> bool {
        &&& after == (InnerView { waiting_wakers: after.waiting_wakers, ..self })
        &&& if known {
            &&& after.waiting_wakers == self.waiting_wakers
            &&& now == registration
        } else {
            match self.waiting_index(registration) {
                Some(index) => {
                    &&& replaced(self.waiting_wakers, index, waker, after.waiting_wakers)
                    &&& now == registration
                },
                None => {
                    &&& added(self.waiting_wakers, waker, after.waiting_wakers)
                    &&& now == (Registration {
                        waiting: place_at_end(self.round, self.waiting_wakers.len()),
                        ..registration
                    })
                },
            }
        }
    }

    /// All wakers that are to be woken: those of the tasks that emitted, then those of the tasks
    /// that polled an emission again.
    pub open spec fn all_wakers(self) -> Seq<Waker> {
        self.pending_wakers + self.waiting_wakers
    }

    /// Whether `after` is this state made ready for the future to be polled by the task of
    /// `waker`, given that `same` are the answers of comparing all wakers with it and `wake`
    /// are the wakers that are woken first.
    pub open spec fn made_ready(
        self,
        waker: Waker,
        same: Seq<bool>,
        wake: Seq<Waker>,
        after: Self,
    ) -> bool {
        &&& task::will_wake_answers(self.all_wakers(), waker, same)
        &&& wake == task::unmatched(self.all_wakers(), same)
        &&& after.ptr == self.ptr
        &&& after.pending_values == self.pending_values
        &&& after.pending_wakers == Seq::<Waker>::empty()
        &&& after.waiting_wakers == Seq::<Waker>::empty()
        &&& after.round == (if self.round < u64::MAX {
            (self.round + 1) as u64
        } else {
            self.round
        })
        &&& task::remembered(self.stream_waker, waker, after.stream_waker)
    }
}

impl<T> InnerView<T> {
    /// Whether `after` is this state made ready for the future to be polled by the task of
    /// `waker`, with `wake` to be woken first, whatever the comparisons of the wakers came to.
    pub open spec fn readied(self, waker: Waker, wake: Seq<Waker>, after: Self) -> bool {
        exists|same: Seq<bool>| self.made_ready(waker, same, wake, after)
    }
}

impl<T> View for Inner<T> {
    type V = InnerView<T>;

    closed spec fn view(&self) -> InnerView<T> {
        InnerView {
            ptr: self.ptr,
            stream_waker: self.stream_waker,
            pending_values: self.pending_values@,
            pending_wakers: self.pending_wakers@,
            waiting_wakers: self.waiting_wakers@,
            round: self.round,
        }
    }
}

impl<T> Inner<T> {
    /// The shared state of a new stream that is known by the address `ptr`.
    pub fn new(ptr: usize) -> (inner: Self)
        ensures
            inner@ == InnerView::<T>::empty(ptr),
    {
        Inner {
            ptr,
            stream_waker: None,
            pending_values: Pending::new(),
            pending_wakers: Pending::new(),
            waiting_wakers: Pending::new(),
            round: 0,
        }
    }

    /// The address by which the stream is known.
    pub fn ptr(&self) -> (ptr: usize)
        ensures
            ptr == self@.ptr,
    {
        self.ptr
    }

    /// Whether nothing waits to be handed out.
    pub fn is_drained(&self) -> (drained: bool)
        ensures
            drained == (self@.pending_values.len() == 0),
    {
        self.pending_values.is_empty()
    }

    /// Hands out the pending value that was emitted last.
    pub fn hand_out(&mut self) -> (r: Poll<Option<T>>)
        ensures
            r == old(self)@.handed_out(),
            final(self)@ == old(self)@.after_hand_out(),
    {
        match self.pending_values.pop() {
            Some(value) => Poll::Ready(Some(value)),
            None => Poll::Pending,
        }
    }

    /// Makes the state ready for the future to be polled by the task of `waker`, and returns the
    /// wakers that have to be woken before: those that do not wake this very task.
    pub fn make_ready(&mut self, waker: &Waker) -> (wake: Vec<Waker>)
        ensures
            old(self)@.readied(*waker, wake@, final(self)@),
    {
        let mut wakers = self.pending_wakers.drain();
        let mut waiting = self.waiting_wakers.drain();
        wakers.append(&mut waiting);
        let same = task::compare_wakers(&wakers, waker);
        let wake = task::wakers_to_wake(wakers, &same);
        task::remember(&mut self.stream_waker, waker);
        if self.round < u64::MAX {
            self.round += 1;
        }
        assert(old(self)@.made_ready(*waker, same@, wake@, self@));
        wake
    }

    /// Takes in `value`, which the task of `waker` emits. Unless that task is the one that polls
    /// the stream, which `same` says, it is woken before the future is polled again. Returns the
    /// registration of the emission.
    pub fn take_in(&mut self, value: T, same: bool, waker: &Waker) -> (now: Registration)
        requires
            crate::pending::can_grow::<T>(old(self)@.pending_values.len()),
            !same ==> crate::pending::can_grow::<Waker>(old(self)@.pending_wakers.len()),
        ensures
            old(self)@.took_in(value, same, *waker, final(self)@, now),
    {
        self.pending_values.push(value);
        if same {
            return Registration::none();
        }
        let copy = task::clone_waker(waker);
        let index = self.pending_wakers.len();
        self.pending_wakers.push(copy);
        assert(self@.pending_wakers.drop_last() =~= old(self)@.pending_wakers);
        Registration { emitting: self.place_at(index), waiting: None }
    }

    /// Lets the task of `waker` wait for an emission whose value was taken in. Unless `known`
    /// says that it needs no waker of its own, it is woken before the future is polled again; a
    /// task that polled the emission again earlier in this round gives way to it. Returns the
    /// registration of the emission, which was `registration`.
    pub fn wait(&mut self, registration: Registration, known: bool, waker: &Waker) -> (now:
        Registration)
        requires
            !known && old(self)@.waiting_index(registration) is None
                ==> crate::pending::can_grow::<Waker>(old(self)@.waiting_wakers.len()),
        ensures
            old(self)@.waited(registration, known, *waker, final(self)@, now),
    {
        if known {
            return registration;
        }
        let copy = task::clone_waker(waker);
        let len = self.waiting_wakers.len();
        match self.index(registration.waiting, len) {
            Some(index) => {
                self.waiting_wakers.replace(index, copy);
                registration
            },
            None => {
                self.waiting_wakers.push(copy);
                assert(self@.waiting_wakers.drop_last() =~= old(self)@.waiting_wakers);
                Registration { emitting: registration.emitting, waiting: self.place_at(len) }
            },
        }
    }

    /// The index that `place` has in a list of `len` wakers, if it is of this round.
    fn index(&self, place: Option<Place>, len: usize) -> (index: Option<usize>)
        ensures
            index_of(place, self@.round, len as nat) == (match index {
                Some(index) => Some(index as int),
                None => None,
            }),
    {
        match place {
            Some(place) => if place.round == self.round && place.index < len {
                Some(place.index)
            } else {
                None
            },
            None => None,
        }
    }

    /// The place in this round of a waker that is added to a list of `len` wakers.
    fn place_at(&self, len: usize) -> (place: Option<Place>)
        requires
            len < usize::MAX,
        ensures
            place == place_at_end(self@.round, len as nat),
    {
        if self.round < u64::MAX {
            Some(Place { round: self.round, index: len })
        } else {
            None
        }
    }

    /// Whether one more value, and the waker of the task that emits it, can be pending.
    pub fn has_room_for_value(&self) -> (room: bool)
        ensures
            room == (crate::pending::can_grow::<T>(self@.pending_values.len())
                && crate::pending::can_grow::<Waker>(self@.pending_wakers.len())),
    {
        self.pending_values.has_room() && self.pending_wakers.has_room()
    }

    /// Whether a task can wait for an emission that has this `registration`.
    pub fn has_room_for_waiting(&self, registration: Registration) -> (room: bool)
        ensures
            room == (self@.waiting_index(registration) is Some
                || crate::pending::can_grow::<Waker>(self@.waiting_wakers.len())),
    {
        self.index(registration.waiting, self.waiting_wakers.len()).is_some()
            || self.waiting_wakers.has_room()
    }

    /// Whether the task of `waker`, which polls an emission again, is found to be the one that
    /// polls the stream, or the one that emitted the value in this round.
    pub fn knows_waker(&self, registration: Registration, waker: &Waker) -> (known: bool)
        ensures
            self@.is_known_task(registration, *waker, known),
    {
        if self.is_same_waker(waker) {
            return true;
        }
        match self.index(registration.emitting, self.pending_wakers.len()) {
            Some(index) => task::will_wake(self.pending_wakers.get(index), waker),
            None => false,
        }
    }

    /// Whether the task of `waker` is found to be the one that polled the stream last.
    pub fn is_same_waker(&self, waker: &Waker) -> (same: bool)
        ensures
            task::is_same_task(self@.stream_waker, *waker, same),
    {
        task::same_task(&self.stream_waker, waker)
    }

    /// Makes this stream the active one.
    pub fn activate(&self, slot: &mut ActiveStreamInner) -> (guard: ActiveStreamPointerGuard)
        ensures
            self@.activated(old(slot)@, final(slot)@, guard@),
    {
        ActiveStreamPointerGuard::set_active_ptr(slot, self.ptr)
    }
}

} // verus!
