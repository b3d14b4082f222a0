//! The streams, each made of a future and of what it shares with its emitters.

use core::future::Future;
use core::task::{Poll, Waker};

use crate::active::{ActiveStreamInner, ActiveStreamPointerGuard};
use crate::emitter::{StreamEmitter, TryStreamEmitter};
use crate::inner::{Inner, InnerView};

use vstd::prelude::*;

verus! {

/// The stream that [`fn_stream`] makes.
#[verifier::reject_recursive_types(T)]
pub struct FnStream<T, Fut: Future<Output = ()>> {
    pub fut: Fut,
    pub inner: Inner<T>,
}

/// The stream that [`try_fn_stream`] makes.
#[verifier::reject_recursive_types(T)]
#[verifier::reject_recursive_types(E)]
pub struct TryFnStream<T, E, Fut: Future<Output = Result<(), E>>> {
    /// Whether the future has returned an error, which ends the stream.
    pub is_err: bool,
    pub fut: Fut,
    pub inner: Inner<Result<T, E>>,
}

/// What is to be done when the consumer asks a stream for its next item.
pub enum PollStart<T> {
    /// Return this to the consumer.
    Done(Poll<Option<T>>),
    /// Wake these wakers, one after the other, then poll the future.
    PollFuture(Vec<Waker>),
}

impl<T> InnerView<T> {
    /// Whether `after` and `start` are what comes of this state when the task of `waker` asks for
    /// the next item: a pending value if there is one, else a poll of the future.
    pub open spec fn poll_started(self, waker: Waker, after: Self, start: PollStart<T>) -> bool {
        if self.pending_values.len() > 0 {
            &&& start == PollStart::Done(self.handed_out())
            &&& after == self.after_hand_out()
        } else {
            match start {
                PollStart::Done(_) => false,
                PollStart::PollFuture(wake) => self.readied(waker, wake@, after),
            }
        }
    }
}

fn start_poll<T>(inner: &mut Inner<T>, waker: &Waker) -> (start: PollStart<T>)
    ensures
        old(inner)@.poll_started(*waker, final(inner)@, start),
{
    match inner.hand_out() {
        Poll::Ready(item) => PollStart::Done(Poll::Ready(item)),
        Poll::Pending => {
            let wake = inner.make_ready(waker);
            PollStart::PollFuture(wake)
        },
    }
}

/// Creates a stream that is implemented by `func`.
///
/// `func` gets the emitter of the stream and returns the future that emits the items. `ptr` is
/// the address by which the stream is known while its future is polled; no other stream may have
/// it at that time.
pub fn fn_stream<T, Fut: Future<Output = ()>, F: FnOnce(StreamEmitter<T>) -> Fut>(
    ptr: usize,
    func: F,
) -> (stream: FnStream<T, Fut>)
    requires
        ptr != crate::active::NULL,
        forall|emitter: StreamEmitter<T>|
            emitter.ptr() == ptr ==> #[trigger] call_requires(func, (emitter,)),
    ensures
        stream.inner@ == InnerView::<T>::empty(ptr),
        exists|emitter: StreamEmitter<T>|
            emitter.ptr() == ptr && #[trigger] call_ensures(func, (emitter,), stream.fut),
{
    FnStream::new(ptr, func)
}

/// Creates a stream that is implemented by `func` and may fail.
///
/// `func` gets the emitter of the stream and returns the future that emits the items, and the
/// transient errors among them; an error that the future returns ends the stream. `ptr` is the
/// address by which the stream is known while its future is polled; no other stream may have it
/// at that time.
pub fn try_fn_stream<
    T,
    E,
    Fut: Future<Output = Result<(), E>>,
    F: FnOnce(TryStreamEmitter<T, E>) -> Fut,
>(ptr: usize, func: F) -> (stream: TryFnStream<T, E, Fut>)
    requires
        ptr != crate::active::NULL,
        forall|emitter: TryStreamEmitter<T, E>|
            emitter.ptr() == ptr ==> #[trigger] call_requires(func, (emitter,)),
    ensures
        !stream.is_err,
        stream.inner@ == InnerView::<Result<T, E>>::empty(ptr),
        exists|emitter: TryStreamEmitter<T, E>|
            emitter.ptr() == ptr && #[trigger] call_ensures(func, (emitter,), stream.fut),
{
    TryFnStream::new(ptr, func)
}

impl<T> InnerView<T> {
    /// What the consumer of a stream gets once the future was polled and `r` came of it.
    pub open spec fn poll_result(self, r: Poll<()>) -> Poll<Option<T>> {
        match r {
            Poll::Ready(()) => Poll::Ready(None),
            Poll::Pending => self.handed_out(),
        }
    }

    /// The state once the consumer has that.
    pub open spec fn after_poll<R>(self, r: Poll<R>) -> Self {
        match r {
            Poll::Ready(_) => self,
            Poll::Pending => self.after_hand_out(),
        }
    }
}

impl<T, Fut: Future<Output = ()>> FnStream<T, Fut> {
    fn new<F: FnOnce(StreamEmitter<T>) -> Fut>(ptr: usize, func: F) -> (stream: Self)
        requires
            forall|emitter: StreamEmitter<T>|
                emitter.ptr() == ptr ==> #[trigger] call_requires(func, (emitter,)),
        ensures
            stream.inner@ == InnerView::<T>::empty(ptr),
            exists|emitter: StreamEmitter<T>|
                emitter.ptr() == ptr && #[trigger] call_ensures(func, (emitter,), stream.fut),
    {
        let inner = Inner::new(ptr);
        let emitter = StreamEmitter::new(ptr);
        let fut = func(emitter);
        let stream = FnStream { fut, inner };
        assert(emitter.ptr() == ptr && call_ensures(func, (emitter,), stream.fut));
        stream
    }

    /// The first half of asking for the next item, before the future is polled.
    pub fn poll_next_start(inner: &mut Inner<T>, waker: &Waker) -> (start: PollStart<T>)
        ensures
            old(inner)@.poll_started(*waker, final(inner)@, start),
    {
        start_poll(inner, waker)
    }

    /// The second half of asking for the next item, after the future was polled with the outcome
    /// `r` while the stream was active.
    pub fn poll_next_finish(
        inner: &mut Inner<T>,
        slot: &mut ActiveStreamInner,
        guard: ActiveStreamPointerGuard,
        r: Poll<()>,
    ) -> (item: Poll<Option<T>>)
        ensures
            final(slot)@ == guard@,
            item == old(inner)@.poll_result(r),
            final(inner)@ == old(inner)@.after_poll(r),
    {
        guard.restore(slot);
        match r {
            Poll::Ready(()) => Poll::Ready(None),
            Poll::Pending => inner.hand_out(),
        }
    }
}

impl<T, E> InnerView<Result<T, E>> {
    /// Whether `after` and `start` are what comes of this state when the task of `waker` asks a
    /// stream that may fail for the next item. After an error of its future there is none.
    pub open spec fn try_poll_started(
        self,
        is_err: bool,
        waker: Waker,
        after: Self,
        start: PollStart<Result<T, E>>,
    ) -> bool {
        if is_err {
            &&& start == PollStart::<Result<T, E>>::Done(Poll::Ready(None))
            &&& after == self
        } else {
            self.poll_started(waker, after, start)
        }
    }

    /// What the consumer of a stream that may fail gets once the future was polled and `r` came
    /// of it.
    pub open spec fn try_poll_result(self, r: Poll<Result<(), E>>) -> Poll<Option<Result<T, E>>> {
        match r {
            Poll::Ready(Ok(())) => Poll::Ready(None),
            Poll::Ready(Err(e)) => Poll::Ready(Some(Err(e))),
            Poll::Pending => self.handed_out(),
        }
    }
}

/// Whether a poll of the future with the outcome `r` ends the stream with an error.
pub open spec fn is_fatal<E>(r: Poll<Result<(), E>>) -> bool {
    r matches Poll::Ready(Err(_))
}

impl<T, E, Fut: Future<Output = Result<(), E>>> TryFnStream<T, E, Fut> {
    fn new<F: FnOnce(TryStreamEmitter<T, E>) -> Fut>(ptr: usize, func: F) -> (stream: Self)
        requires
            forall|emitter: TryStreamEmitter<T, E>|
                emitter.ptr() == ptr ==> #[trigger] call_requires(func, (emitter,)),
        ensures
            !stream.is_err,
            stream.inner@ == InnerView::<Result<T, E>>::empty(ptr),
            exists|emitter: TryStreamEmitter<T, E>|
                emitter.ptr() == ptr && #[trigger] call_ensures(func, (emitter,), stream.fut),
    {
        let inner = Inner::new(ptr);
        let emitter = TryStreamEmitter::new(ptr);
        let fut = func(emitter);
        let stream = TryFnStream { is_err: false, fut, inner };
        assert(emitter.ptr() == ptr && call_ensures(func, (emitter,), stream.fut));
        stream
    }

    /// The first half of asking for the next item, before the future is polled.
    pub fn poll_next_start(is_err: bool, inner: &mut Inner<Result<T, E>>, waker: &Waker) -> (start:
        PollStart<Result<T, E>>)
        ensures
            old(inner)@.try_poll_started(is_err, *waker, final(inner)@, start),
    {
        if is_err {
            return PollStart::Done(Poll::Ready(None));
        }
        start_poll(inner, waker)
    }

    /// The second half of asking for the next item, after the future was polled with the outcome
    /// `r` while the stream was active.
    pub fn poll_next_finish(
        is_err: &mut bool,
        inner: &mut Inner<Result<T, E>>,
        slot: &mut ActiveStreamInner,
        guard: ActiveStreamPointerGuard,
        r: Poll<Result<(), E>>,
    ) -> (item: Poll<Option<Result<T, E>>>)
        ensures
            final(slot)@ == guard@,
            item == old(inner)@.try_poll_result(r),
            final(inner)@ == old(inner)@.after_poll(r),
            *final(is_err) == (*old(is_err) || is_fatal(r)),
    {
        guard.restore(slot);
        match r {
            Poll::Ready(Ok(())) => Poll::Ready(None),
            Poll::Ready(Err(e)) => {
                *is_err = true;
                Poll::Ready(Some(Err(e)))
            },
            Poll::Pending => inner.hand_out(),
        }
    }
}

} // verus!
