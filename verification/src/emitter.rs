//! The emitters, through which a future returns values from its stream.

use core::marker::PhantomData;
use core::task::{Poll, Waker};

use crate::active::ActiveStreamInner;
use crate::inner::{Inner, InnerView, Registration};
use crate::task;

use vstd::prelude::*;

verus! {

/// An intermediary that transfers values from a stream to its consumer.
pub struct StreamEmitter<T> {
    ptr: usize,
    values: PhantomData<T>,
}

/// An intermediary that transfers values and errors from a stream to its consumer.
pub struct TryStreamEmitter<T, E> {
    ptr: usize,
    values: PhantomData<Result<T, E>>,
}

/// The future of one emission. It is pending until the consumer has taken the value and asked for
/// more.
pub struct EmitFuture<T> {
    ptr: usize,
    value: Option<T>,
    registration: Registration,
}

impl<T> StreamEmitter<T> {
    /// The address of the stream that the values go to.
    pub closed spec fn ptr(self) -> usize {
        self.ptr
    }

    /// The emitter of the stream at `ptr`.
    pub(crate) fn new(ptr: usize) -> (emitter: Self)
        ensures
            emitter.ptr() == ptr,
    {
        StreamEmitter { ptr, values: PhantomData }
    }

    /// Emits a value. Nothing happens until the future is polled.
    #[must_use]
    pub fn emit(&self, value: T) -> (future: EmitFuture<T>)
        ensures
            future.ptr() == self.ptr(),
            future.value() == Some(value),
            future.registration() == Registration::spec_none(),
    {
        EmitFuture::new(self.ptr, value)
    }
}

impl<T, E> TryStreamEmitter<T, E> {
    /// The address of the stream that the values go to.
    pub closed spec fn ptr(self) -> usize {
        self.ptr
    }

    /// The emitter of the stream at `ptr`.
    pub(crate) fn new(ptr: usize) -> (emitter: Self)
        ensures
            emitter.ptr() == ptr,
    {
        TryStreamEmitter { ptr, values: PhantomData }
    }

    /// Emits a value. Nothing happens until the future is polled.
    #[must_use]
    pub fn emit(&self, value: T) -> (future: EmitFuture<Result<T, E>>)
        ensures
            future.ptr() == self.ptr(),
            future.value() == Some(Ok::<T, E>(value)),
            future.registration() == Registration::spec_none(),
    {
        EmitFuture::new(self.ptr, Ok(value))
    }

    /// Emits an error without ending the stream. Nothing happens until the future is polled.
    #[must_use]
    pub fn emit_err(&self, err: E) -> (future: EmitFuture<Result<T, E>>)
        ensures
            future.ptr() == self.ptr(),
            future.value() == Some(Err::<T, E>(err)),
            future.registration() == Registration::spec_none(),
    {
        EmitFuture::new(self.ptr, Err(err))
    }
}

impl<T> InnerView<T> {
    /// Whether the poll of an emission by the task of `waker` cannot outgrow what can be
    /// allocated. The emission still holds `value`, or has already given its value away.
    pub open spec fn has_room_for(
        self,
        value: Option<T>,
        registration: Registration,
        waker: Waker,
    ) -> bool {
        match value {
            Some(_) => {
                &&& crate::pending::can_grow::<T>(self.pending_values.len())
                &&& task::is_same_task(self.stream_waker, waker, false)
                    ==> crate::pending::can_grow::<Waker>(self.pending_wakers.len())
            },
            None => self.pending_values.len() > 0 && self.waiting_index(registration) is None
                && self.is_known_task(registration, waker, false)
                ==> crate::pending::can_grow::<Waker>(self.waiting_wakers.len()),
        }
    }

    /// The same, whatever task polls.
    pub open spec fn has_room_for_any(self, value: Option<T>, registration: Registration) -> bool {
        match value {
            Some(_) => {
                &&& crate::pending::can_grow::<T>(self.pending_values.len())
                &&& crate::pending::can_grow::<Waker>(self.pending_wakers.len())
            },
            None => self.pending_values.len() > 0 && self.waiting_index(registration) is None
                ==> crate::pending::can_grow::<Waker>(self.waiting_wakers.len()),
        }
    }

    /// Whether `after`, `now` and `r` are what comes of this state, of the registration of an
    /// emission, and of its poll by the task of `waker`. The emission still holds `value`, or has
    /// already given its value away.
    ///
    /// As long as anything is pending, so is the emission, and the task is registered to be woken
    /// unless it is found to be the one that polls the stream, or to be registered already.
    pub open spec fn emission_polled(
        self,
        value: Option<T>,
        registration: Registration,
        waker: Waker,
        after: Self,
        now: Registration,
        r: Poll<()>,
    ) -> bool {
        match value {
            Some(value) => {
                &&& r == Poll::<()>::Pending
                &&& exists|same: bool|
                    {
                        &&& task::is_same_task(self.stream_waker, waker, same)
                        &&& #[trigger] self.took_in(value, same, waker, after, now)
                    }
            },
            None => if self.pending_values.len() == 0 {
                &&& r == Poll::Ready(())
                &&& after == self
                &&& now == registration
            } else {
                &&& r == Poll::<()>::Pending
                &&& exists|known: bool|
                    {
                        &&& self.is_known_task(registration, waker, known)
                        &&& #[trigger] self.waited(registration, known, waker, after, now)
                    }
            },
        }
    }
}

impl<T> EmitFuture<T> {
    /// The address of the stream that the value goes to.
    pub closed spec fn ptr(self) -> usize {
        self.ptr
    }

    /// The value, until the stream has it.
    pub closed spec fn value(self) -> Option<T> {
        self.value
    }

    /// Where the tasks of this emission are registered.
    pub closed spec fn registration(self) -> Registration {
        self.registration
    }

    /// Whether this emission may be polled while `active` is the active stream.
    pub open spec fn in_context(self, active: ActiveStreamInner) -> bool {
        active@ == self.ptr()
    }

    /// Whether this emission goes to the stream whose state is `inner`.
    pub open spec fn goes_to(self, inner: InnerView<T>) -> bool {
        inner.ptr == self.ptr()
    }

    fn new(ptr: usize, value: T) -> (future: Self)
        ensures
            future.ptr() == ptr,
            future.value() == Some(value),
            future.registration() == Registration::spec_none(),
    {
        EmitFuture { ptr, value: Some(value), registration: Registration::none() }
    }

    /// Whether this emission is polled in the context of its own stream.
    pub fn is_in_context(&self, active: &ActiveStreamInner) -> (r: bool)
        ensures
            r == self.in_context(*active),
    {
        active.get() == self.ptr
    }

    /// Whether this emission can be polled without outgrowing what can be allocated, whatever
    /// task polls it.
    pub fn has_room(&self, inner: &Inner<T>) -> (room: bool)
        ensures
            room == inner@.has_room_for_any(self.value(), self.registration()),
    {
        if self.value.is_some() {
            inner.has_room_for_value()
        } else {
            inner.is_drained() || inner.has_room_for_waiting(self.registration)
        }
    }

    /// Polls the emission: the first time its value goes to the stream, and from then on it is
    /// ready as soon as the stream has handed out everything. The task that emitted the value, and
    /// the one that polled the emission last, are woken before the future is polled again.
    pub fn poll(
        &mut self,
        inner: &mut Inner<T>,
        active: &ActiveStreamInner,
        waker: &Waker,
    ) -> (r: Poll<()>)
        requires
            old(self).in_context(*active),
            old(self).goes_to(old(inner)@),
            old(inner)@.has_room_for(old(self).value(), old(self).registration(), *waker),
        ensures
            final(self).ptr() == old(self).ptr(),
            final(self).value() is None,
            old(inner)@.emission_polled(
                old(self).value(),
                old(self).registration(),
                *waker,
                final(inner)@,
                final(self).registration(),
                r,
            ),
    {
        match self.value.take() {
            Some(value) => {
                let same = inner.is_same_waker(waker);
                self.registration = inner.take_in(value, same, waker);
                Poll::Pending
            },
            None => if inner.is_drained() {
                Poll::Ready(())
            } else {
                let known = inner.knows_waker(self.registration, waker);
                self.registration = inner.wait(self.registration, known, waker);
                Poll::Pending
            },
        }
    }
}

} // verus!
