//! Emissions: what an emitter makes, where its value goes, and when it is ready.

use core::future::Future;
use core::task::{Poll, Waker};

use crate::active::{ActiveStreamInner, NULL};
use crate::emitter::{EmitFuture, StreamEmitter, TryStreamEmitter};
use crate::inner::{Inner, InnerView, Registration};
use crate::stream::{fn_stream, try_fn_stream, FnStream, TryFnStream};

use vstd::prelude::*;

verus! {

/// Whether `after` is the list `before`, left alone because `waker` was found to wake the task that
/// polls the stream, or with a clone of `waker` at its end because it was not found so.
pub open spec fn registers_unless_polling(
    polling: Option<Waker>,
    before: Seq<Waker>,
    waker: Waker,
    after: Seq<Waker>,
) -> bool {
    ||| {
        &&& after == before
        &&& polling is Some
        &&& call_ensures(Waker::will_wake, (&polling->0, &waker), true)
    }
    ||| {
        &&& exists|copy: Waker| #[trigger]
            call_ensures(Waker::clone, (&waker,), copy) && after == before.push(copy)
        &&& polling is Some ==> call_ensures(Waker::will_wake, (&polling->0, &waker), false)
    }
}

/// Whether polling an emission with `waker` has added `value`, and nothing but it and the waker of
/// its task, to what is pending.
pub open spec fn has_emitted<T>(
    before: InnerView<T>,
    value: T,
    waker: Waker,
    after: InnerView<T>,
) -> bool {
    &&& after == (InnerView {
        pending_values: before.pending_values.push(value),
        pending_wakers: after.pending_wakers,
        ..before
    })
    &&& registers_unless_polling(
        before.stream_waker,
        before.pending_wakers,
        waker,
        after.pending_wakers,
    )
}

proof fn lemma_has_emitted<T>(
    before: InnerView<T>,
    value: T,
    waker: Waker,
    after: InnerView<T>,
    now: Registration,
    r: Poll<()>,
    registration: Registration,
)
    requires
        before.emission_polled(Some(value), registration, waker, after, now, r),
    ensures
        has_emitted(before, value, waker, after),
{
    let same = choose|same: bool|
        {
            &&& crate::task::is_same_task(before.stream_waker, waker, same)
            &&& #[trigger] before.took_in(value, same, waker, after, now)
        };
    if !same {
        let copy = after.pending_wakers.last();
        assert(after.pending_wakers =~= before.pending_wakers.push(copy));
    }
}

/// The first poll of what `emit` made gives the value to the stream, as the one to be handed out
/// next, and is pending. The task that polls is registered unless it is found to be the one that
/// polls the stream. The emission does not keep the value, so that it is given away once.
pub proof fn law_value_is_emitted_by_the_first_poll<T>(
    emitter: StreamEmitter<T>,
    value: T,
    emission: &mut EmitFuture<T>,
    inner: &mut Inner<T>,
    active: ActiveStreamInner,
    waker: Waker,
    r: Poll<()>,
)
    requires
        call_ensures(StreamEmitter::<T>::emit, (&emitter, value), *old(emission)),
        call_ensures(EmitFuture::<T>::poll, (emission, inner, &active, &waker), r),
    ensures
        r == Poll::<()>::Pending,
        has_emitted(old(inner)@, value, waker, final(inner)@),
        final(emission).value() is None,
        final(emission).ptr() == emitter.ptr(),
{
    lemma_has_emitted(
        old(inner)@,
        value,
        waker,
        final(inner)@,
        final(emission).registration(),
        r,
        old(emission).registration(),
    );
}

/// The same of a stream that may fail: what `emit` is given comes out as a value.
pub proof fn law_result_is_emitted_by_the_first_poll<T, E>(
    emitter: TryStreamEmitter<T, E>,
    value: T,
    emission: &mut EmitFuture<Result<T, E>>,
    inner: &mut Inner<Result<T, E>>,
    active: ActiveStreamInner,
    waker: Waker,
    r: Poll<()>,
)
    requires
        call_ensures(TryStreamEmitter::<T, E>::emit, (&emitter, value), *old(emission)),
        call_ensures(EmitFuture::<Result<T, E>>::poll, (emission, inner, &active, &waker), r),
    ensures
        r == Poll::<()>::Pending,
        has_emitted(old(inner)@, Ok(value), waker, final(inner)@),
        final(emission).value() is None,
        final(emission).ptr() == emitter.ptr(),
{
    lemma_has_emitted(
        old(inner)@,
        Ok(value),
        waker,
        final(inner)@,
        final(emission).registration(),
        r,
        old(emission).registration(),
    );
}

/// The same of a transient error: what `emit_err` is given comes out as an error.
pub proof fn law_error_is_emitted_by_the_first_poll<T, E>(
    emitter: TryStreamEmitter<T, E>,
    error: E,
    emission: &mut EmitFuture<Result<T, E>>,
    inner: &mut Inner<Result<T, E>>,
    active: ActiveStreamInner,
    waker: Waker,
    r: Poll<()>,
)
    requires
        call_ensures(TryStreamEmitter::<T, E>::emit_err, (&emitter, error), *old(emission)),
        call_ensures(EmitFuture::<Result<T, E>>::poll, (emission, inner, &active, &waker), r),
    ensures
        r == Poll::<()>::Pending,
        has_emitted(old(inner)@, Err(error), waker, final(inner)@),
        final(emission).value() is None,
        final(emission).ptr() == emitter.ptr(),
{
    lemma_has_emitted(
        old(inner)@,
        Err(error),
        waker,
        final(inner)@,
        final(emission).registration(),
        r,
        old(emission).registration(),
    );
}

/// Whether `after` is the list `before` with a clone of `waker` added at the end, or put in place
/// of one other.
pub open spec fn gets_one_clone(before: Seq<Waker>, waker: Waker, after: Seq<Waker>) -> bool {
    exists|copy: Waker| #[trigger]
        call_ensures(Waker::clone, (&waker,), copy) && {
            ||| after == before.push(copy)
            ||| exists|index: int|
                0 <= index < before.len() && after == #[trigger] before.update(index, copy)
        }
}

/// Whether there is no need to register `waker`: it was found to wake the task that polls the
/// stream, or the same task as one of the pending wakers.
pub open spec fn is_found<T>(state: InnerView<T>, waker: Waker) -> bool {
    ||| state.stream_waker is Some && call_ensures(
        Waker::will_wake,
        (&state.stream_waker->0, &waker),
        true,
    )
    ||| exists|i: int|
        0 <= i < state.pending_wakers.len() && call_ensures(
            Waker::will_wake,
            (&#[trigger] state.pending_wakers[i], &waker),
            true,
        )
}

/// An emission whose value was given away is ready if and only if everything that was pending has
/// been handed out, whatever was emitted meanwhile; that changes nothing. As long as it is pending,
/// no value and no pending waker comes or goes; the task that polls it has a waker among those that
/// wait, unless there is no need of it.
pub proof fn law_emission_is_ready_when_nothing_is_pending<T>(
    emission: &mut EmitFuture<T>,
    inner: &mut Inner<T>,
    active: ActiveStreamInner,
    waker: Waker,
    r: Poll<()>,
)
    requires
        old(emission).value() is None,
        call_ensures(EmitFuture::<T>::poll, (emission, inner, &active, &waker), r),
    ensures
        r is Ready <==> old(inner)@.pending_values.len() == 0,
        r is Ready ==> final(inner)@ == old(inner)@,
        final(inner)@ == (InnerView {
            waiting_wakers: final(inner)@.waiting_wakers,
            ..old(inner)@
        }),
        r is Pending ==> {
            ||| final(inner)@ == old(inner)@ && is_found(old(inner)@, waker)
            ||| gets_one_clone(
                old(inner)@.waiting_wakers,
                waker,
                final(inner)@.waiting_wakers,
            )
        },
        final(emission).value() is None,
        final(emission).ptr() == old(emission).ptr(),
{
    if r is Pending {
        let before = old(inner)@;
        let after = final(inner)@;
        let registration = old(emission).registration();
        let now = final(emission).registration();
        let known = choose|known: bool|
            {
                &&& before.is_known_task(registration, waker, known)
                &&& #[trigger] before.waited(registration, known, waker, after, now)
            };
        if !known {
            match before.waiting_index(registration) {
                Some(index) => {
                    let copy = after.waiting_wakers[index];
                    assert(after.waiting_wakers =~= before.waiting_wakers.update(index, copy));
                },
                None => {
                    let copy = after.waiting_wakers.last();
                    assert(after.waiting_wakers =~= before.waiting_wakers.push(copy));
                },
            }
        }
    }
}

/// A new stream has nothing to hand out and nobody to wake. The emitter that its function gets is
/// the emitter of this very stream: its emissions are found in context if and only if the stream
/// is active.
pub proof fn law_emitter_belongs_to_its_stream<
    T,
    Fut: Future<Output = ()>,
    F: FnOnce(StreamEmitter<T>) -> Fut,
>(ptr: usize, func: F, stream: FnStream<T, Fut>)
    requires
        call_ensures(fn_stream::<T, Fut, F>, (ptr, func), stream),
    ensures
        stream.inner@.ptr == ptr,
        stream.inner@.stream_waker is None,
        stream.inner@.pending_values.len() == 0,
        stream.inner@.pending_wakers.len() == 0,
        stream.inner@.waiting_wakers.len() == 0,
        exists|emitter: StreamEmitter<T>| #[trigger]
            call_ensures(func, (emitter,), stream.fut) && forall|
                value: T,
                emission: EmitFuture<T>,
                active: ActiveStreamInner,
                found: bool,
            |
                #[trigger] call_ensures(StreamEmitter::<T>::emit, (&emitter, value), emission)
                    && #[trigger] call_ensures(
                    EmitFuture::<T>::is_in_context,
                    (&emission, &active),
                    found,
                ) ==> found == (active@ == ptr),
{
}

/// The same of a stream that may fail, which has not failed when it is new.
pub proof fn law_fallible_emitter_belongs_to_its_stream<
    T,
    E,
    Fut: Future<Output = Result<(), E>>,
    F: FnOnce(TryStreamEmitter<T, E>) -> Fut,
>(ptr: usize, func: F, stream: TryFnStream<T, E, Fut>)
    requires
        call_ensures(try_fn_stream::<T, E, Fut, F>, (ptr, func), stream),
    ensures
        !stream.is_err,
        stream.inner@.ptr == ptr,
        stream.inner@.stream_waker is None,
        stream.inner@.pending_values.len() == 0,
        stream.inner@.pending_wakers.len() == 0,
        stream.inner@.waiting_wakers.len() == 0,
        exists|emitter: TryStreamEmitter<T, E>| #[trigger]
            call_ensures(func, (emitter,), stream.fut) && forall|
                value: T,
                error: E,
                emission: EmitFuture<Result<T, E>>,
                active: ActiveStreamInner,
                found: bool,
            |
                (#[trigger] call_ensures(
                    TryStreamEmitter::<T, E>::emit,
                    (&emitter, value),
                    emission,
                ) || #[trigger] call_ensures(
                    TryStreamEmitter::<T, E>::emit_err,
                    (&emitter, error),
                    emission,
                )) && #[trigger] call_ensures(
                    EmitFuture::<Result<T, E>>::is_in_context,
                    (&emission, &active),
                    found,
                ) ==> found == (active@ == ptr),
{
}

/// A stream can be made at any address but the one that no stream has, of any function that can
/// be called with an emitter.
pub proof fn law_stream_can_be_made_of_any_function<
    T,
    Fut: Future<Output = ()>,
    F: FnOnce(StreamEmitter<T>) -> Fut,
>(ptr: usize, func: F)
    requires
        ptr != NULL,
        forall|emitter: StreamEmitter<T>| #[trigger] call_requires(func, (emitter,)),
    ensures
        call_requires(fn_stream::<T, Fut, F>, (ptr, func)),
{
}

/// The same of a stream that may fail.
pub proof fn law_fallible_stream_can_be_made_of_any_function<
    T,
    E,
    Fut: Future<Output = Result<(), E>>,
    F: FnOnce(TryStreamEmitter<T, E>) -> Fut,
>(ptr: usize, func: F)
    requires
        ptr != NULL,
        forall|emitter: TryStreamEmitter<T, E>| #[trigger] call_requires(func, (emitter,)),
    ensures
        call_requires(try_fn_stream::<T, E, Fut, F>, (ptr, func)),
{
}

/// Whether a list of `len` items of type `U` can double without outgrowing what can be allocated.
pub open spec fn can_double<U>(len: nat) -> bool {
    2 * len * vstd::layout::size_of::<U>() + vstd::layout::align_of::<U>() <= isize::MAX
}

/// There is room for an emission as long as no list outgrows what can be allocated. An emission
/// that is found in context and for which there is room can be polled with the state of its stream
/// by any task.
pub proof fn law_emission_can_be_polled_in_context<T>(
    emission: &mut EmitFuture<T>,
    inner: &mut Inner<T>,
    active: ActiveStreamInner,
    waker: Waker,
    found: bool,
    ptr: usize,
    room: bool,
)
    requires
        call_ensures(EmitFuture::<T>::is_in_context, (old(emission), &active), found),
        call_ensures(Inner::<T>::ptr, (old(inner),), ptr),
        call_ensures(EmitFuture::<T>::has_room, (old(emission), old(inner)), room),
    ensures
        found && ptr == active@ && room ==> call_requires(
            EmitFuture::<T>::poll,
            (emission, inner, &active, &waker),
        ),
        ({
            &&& can_double::<T>(old(inner)@.pending_values.len())
            &&& can_double::<Waker>(old(inner)@.pending_wakers.len())
            &&& can_double::<Waker>(old(inner)@.waiting_wakers.len())
            &&& old(inner)@.pending_values.len() < usize::MAX
            &&& old(inner)@.pending_wakers.len() < usize::MAX
            &&& old(inner)@.waiting_wakers.len() < usize::MAX
        }) ==> room,
{
}

/// A value or an error can be emitted at any time, and an emission can always be asked whether it
/// is in context and whether there is room for it.
pub proof fn law_emissions_can_always_be_made<T, E>(
    emitter: StreamEmitter<T>,
    fallible: TryStreamEmitter<T, E>,
    value: T,
    error: E,
    emission: EmitFuture<T>,
    inner: Inner<T>,
    active: ActiveStreamInner,
)
    ensures
        call_requires(StreamEmitter::<T>::emit, (&emitter, value)),
        call_requires(TryStreamEmitter::<T, E>::emit, (&fallible, value)),
        call_requires(TryStreamEmitter::<T, E>::emit_err, (&fallible, error)),
        call_requires(EmitFuture::<T>::is_in_context, (&emission, &active)),
        call_requires(EmitFuture::<T>::has_room, (&emission, &inner)),
{
}

} // verus!
