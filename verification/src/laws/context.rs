//! The active stream: polls nest, and an emission is polled only in the context of its stream.

use core::future::Future;
use core::task::Poll;

use crate::active::{ActiveStreamInner, ActiveStreamPointerGuard, NULL};
use crate::emitter::EmitFuture;
use crate::inner::{Inner, InnerView};
use crate::stream::{FnStream, TryFnStream};

use vstd::prelude::*;

verus! {

/// A change of the active stream.
pub enum Step {
    /// The stream at this address becomes active, and a guard is kept.
    Enter(usize),
    /// The guard that was made last puts back what it keeps.
    Leave,
}

/// The slot and the guards, the last one made being the last, after `steps`.
pub open spec fn after_steps(slot: usize, guards: Seq<usize>, steps: Seq<Step>) -> (
    usize,
    Seq<usize>,
)
    decreases steps.len(),
{
    if steps.len() == 0 {
        (slot, guards)
    } else {
        let (slot, guards) = after_steps(slot, guards, steps.drop_last());
        match steps.last() {
            Step::Enter(ptr) => (ptr, guards.push(slot)),
            Step::Leave => (guards.last(), guards.drop_last()),
        }
    }
}

/// How many more streams were entered than left.
pub open spec fn depth(steps: Seq<Step>) -> int
    decreases steps.len(),
{
    if steps.len() == 0 {
        0
    } else {
        depth(steps.drop_last()) + match steps.last() {
            Step::Enter(_) => 1int,
            Step::Leave => -1int,
        }
    }
}

/// Whether none is left that was not entered.
pub open spec fn nested(steps: Seq<Step>) -> bool {
    forall|i: int| 0 <= i <= steps.len() ==> #[trigger] depth(steps.take(i)) >= 0
}

proof fn lemma_after_nested_steps(slot: usize, guards: Seq<usize>, steps: Seq<Step>)
    requires
        nested(steps),
    ensures
        ({
            let (slot_after, guards_after) = after_steps(slot, guards, steps);
            &&& depth(steps) >= 0
            &&& guards_after.len() == guards.len() + depth(steps)
            &&& guards_after.take(guards.len() as int) == guards
            &&& depth(steps) == 0 ==> slot_after == slot
            &&& depth(steps) > 0 ==> guards_after[guards.len() as int] == slot
        }),
    decreases steps.len(),
{
    assert(steps.take(steps.len() as int) =~= steps);
    if steps.len() > 0 {
        let earlier = steps.drop_last();
        assert forall|i: int| 0 <= i <= earlier.len() implies #[trigger] depth(earlier.take(i))
            >= 0 by {
            assert(earlier.take(i) =~= steps.take(i));
        }
        lemma_after_nested_steps(slot, guards, earlier);
    }
}

/// Once every stream that was entered is left again, the same stream is active as before, however
/// deep the polls were nested.
pub proof fn law_nested_polls_restore_the_active_stream(
    slot: usize,
    guards: Seq<usize>,
    steps: Seq<Step>,
)
    requires
        nested(steps),
        depth(steps) == 0,
    ensures
        after_steps(slot, guards, steps) == (slot, guards),
{
    lemma_after_nested_steps(slot, guards, steps);
}

/// A stream is active again when the polls that its future made of other streams are over.
pub proof fn law_stream_is_active_between_nested_polls(
    slot: usize,
    guards: Seq<usize>,
    ptr: usize,
    steps: Seq<Step>,
)
    requires
        nested(steps),
        depth(steps) == 0,
    ensures
        after_steps(ptr, guards.push(slot), steps).0 == ptr,
{
    law_nested_polls_restore_the_active_stream(ptr, guards.push(slot), steps);
}

/// Streams at different addresses do not mix: while one of them is active an emission of the other
/// is found out of context, it goes to the state of its own stream only, and it is in context
/// again when its own stream is made active. While no stream is active it is out of context.
pub proof fn law_streams_do_not_mix<T, U>(
    own: InnerView<T>,
    other: InnerView<T>,
    nested: InnerView<U>,
    emission: EmitFuture<T>,
    before: usize,
    active: ActiveStreamInner,
    kept: usize,
)
    requires
        own.ptr != NULL,
        own.ptr != other.ptr,
        own.ptr != nested.ptr,
        emission.goes_to(own),
    ensures
        !emission.goes_to(other),
        other.activated(before, active@, kept) ==> !emission.in_context(active),
        nested.activated(before, active@, kept) ==> !emission.in_context(active),
        own.activated(before, active@, kept) ==> emission.in_context(active),
        active@ == NULL ==> !emission.in_context(active),
{
}

/// What is put into the slot is what is found there.
pub proof fn law_slot_holds_what_is_put_there(ptr: usize, slot: ActiveStreamInner, found: usize)
    requires
        call_ensures(ActiveStreamInner::new, (ptr,), slot),
        call_ensures(ActiveStreamInner::get, (&slot,), found),
    ensures
        found == ptr,
        found == slot@,
{
}

/// A stream that is made active is found to be the active one, at the address that it has, whatever
/// was active before.
pub proof fn law_activated_stream_is_active<T>(
    inner: Inner<T>,
    slot: &mut ActiveStreamInner,
    guard: ActiveStreamPointerGuard,
    ptr: usize,
    found: usize,
)
    requires
        call_ensures(Inner::<T>::activate, (&inner, slot), guard),
        call_ensures(Inner::<T>::ptr, (&inner,), ptr),
        call_ensures(ActiveStreamInner::get, (final(slot),), found),
    ensures
        found == ptr,
        found == inner@.ptr,
{
}

/// Whatever the addresses: if a stream is made active while the slot holds some address, and the
/// guard so made is given back when the poll of its future is over, the slot holds that address
/// again, whatever it held meanwhile and whatever came of the poll.
pub proof fn law_finished_poll_restores_the_active_stream<T, Fut: Future<Output = ()>>(
    inner: Inner<T>,
    entered: &mut ActiveStreamInner,
    guard: ActiveStreamPointerGuard,
    polled: &mut Inner<T>,
    left: &mut ActiveStreamInner,
    r: Poll<()>,
    item: Poll<Option<T>>,
    before: usize,
    after: usize,
)
    requires
        call_ensures(ActiveStreamInner::get, (old(entered),), before),
        call_ensures(Inner::<T>::activate, (&inner, entered), guard),
        call_ensures(FnStream::<T, Fut>::poll_next_finish, (polled, left, guard, r), item),
        call_ensures(ActiveStreamInner::get, (final(left),), after),
    ensures
        after == before,
        final(left)@ == old(entered)@,
{
}

/// The same of a stream that may fail.
pub proof fn law_finished_fallible_poll_restores_the_active_stream<
    T,
    E,
    Fut: Future<Output = Result<(), E>>,
>(
    inner: Inner<Result<T, E>>,
    entered: &mut ActiveStreamInner,
    guard: ActiveStreamPointerGuard,
    is_err: &mut bool,
    polled: &mut Inner<Result<T, E>>,
    left: &mut ActiveStreamInner,
    r: Poll<Result<(), E>>,
    item: Poll<Option<Result<T, E>>>,
    before: usize,
    after: usize,
)
    requires
        call_ensures(ActiveStreamInner::get, (old(entered),), before),
        call_ensures(Inner::<Result<T, E>>::activate, (&inner, entered), guard),
        call_ensures(
            TryFnStream::<T, E, Fut>::poll_next_finish,
            (is_err, polled, left, guard, r),
            item,
        ),
        call_ensures(ActiveStreamInner::get, (final(left),), after),
    ensures
        after == before,
        final(left)@ == old(entered)@,
{
}

/// The same of a guard by itself: what was active before any stream was set active is active again
/// when the guard is given back.
pub proof fn law_guard_restores_the_active_stream(
    ptr: usize,
    entered: &mut ActiveStreamInner,
    guard: ActiveStreamPointerGuard,
    left: &mut ActiveStreamInner,
)
    requires
        call_ensures(ActiveStreamPointerGuard::set_active_ptr, (entered, ptr), guard),
        call_ensures(ActiveStreamPointerGuard::restore, (guard, left), ()),
    ensures
        final(entered)@ == ptr,
        final(left)@ == old(entered)@,
{
}

/// A change of the active stream by a call: a stream of items of type `T`, or one of items of type
/// `U` that may fail with an error of type `E`, is made active, or the poll of its future is over.
#[verifier::reject_recursive_types(T)]
#[verifier::reject_recursive_types(U)]
#[verifier::reject_recursive_types(E)]
pub enum Change<'a, T, U, E> {
    Entered {
        inner: Inner<T>,
        slot: &'a mut ActiveStreamInner,
        guard: ActiveStreamPointerGuard,
    },
    EnteredFallible {
        fallible: Inner<Result<U, E>>,
        slot: &'a mut ActiveStreamInner,
        guard: ActiveStreamPointerGuard,
    },
    Left {
        polled: &'a mut Inner<T>,
        slot: &'a mut ActiveStreamInner,
        guard: ActiveStreamPointerGuard,
        r: Poll<()>,
        item: Poll<Option<T>>,
    },
    LeftFallible {
        is_err: &'a mut bool,
        polled_fallible: &'a mut Inner<Result<U, E>>,
        slot: &'a mut ActiveStreamInner,
        guard: ActiveStreamPointerGuard,
        outcome: Poll<Result<(), E>>,
        result: Poll<Option<Result<U, E>>>,
    },
}

impl<'a, T, U, E> Change<'a, T, U, E> {
    /// Whether this call was made.
    pub open spec fn is_made<Fut: Future<Output = ()>, TryFut: Future<Output = Result<(), E>>>(
        self,
    ) -> bool {
        match self {
            Change::Entered { inner, slot, guard } => call_ensures(
                Inner::<T>::activate,
                (&inner, slot),
                guard,
            ),
            Change::EnteredFallible { fallible, slot, guard } => call_ensures(
                Inner::<Result<U, E>>::activate,
                (&fallible, slot),
                guard,
            ),
            Change::Left { polled, slot, guard, r, item } => call_ensures(
                FnStream::<T, Fut>::poll_next_finish,
                (polled, slot, guard, r),
                item,
            ),
            Change::LeftFallible { is_err, polled_fallible, slot, guard, outcome, result } =>
            call_ensures(
                TryFnStream::<U, E, TryFut>::poll_next_finish,
                (is_err, polled_fallible, slot, guard, outcome),
                result,
            ),
        }
    }

    /// Whether a stream is made active by this call.
    pub open spec fn enters(self) -> bool {
        self is Entered || self is EnteredFallible
    }

    /// The slot that this call changes.
    pub open spec fn slot(self) -> &'a mut ActiveStreamInner {
        match self {
            Change::Entered { slot, .. } => slot,
            Change::EnteredFallible { slot, .. } => slot,
            Change::Left { slot, .. } => slot,
            Change::LeftFallible { slot, .. } => slot,
        }
    }

    /// The guard that this call makes or gives back.
    pub open spec fn guard(self) -> ActiveStreamPointerGuard {
        match self {
            Change::Entered { guard, .. } => guard,
            Change::EnteredFallible { guard, .. } => guard,
            Change::Left { guard, .. } => guard,
            Change::LeftFallible { guard, .. } => guard,
        }
    }
}

/// The guards that were made and not given back, the one made last being the last.
pub open spec fn guards_left<'a, T, U, E>(changes: Seq<Change<'a, T, U, E>>) -> Seq<
    ActiveStreamPointerGuard,
>
    decreases changes.len(),
{
    if changes.len() == 0 {
        Seq::empty()
    } else {
        let guards = guards_left(changes.drop_last());
        if changes.last().enters() {
            guards.push(changes.last().guard())
        } else {
            guards.drop_last()
        }
    }
}

/// Whether every guard that is given back in `changes` is the one that was made last.
pub open spec fn are_nested<'a, T, U, E>(changes: Seq<Change<'a, T, U, E>>) -> bool {
    forall|i: int|
        0 <= i < changes.len() && !(#[trigger] changes[i]).enters() ==> {
            &&& guards_left(changes.take(i)).len() > 0
            &&& changes[i].guard() == guards_left(changes.take(i)).last()
        }
}

proof fn lemma_nested_changes<
    'a,
    T,
    U,
    E,
    Fut: Future<Output = ()>,
    TryFut: Future<Output = Result<(), E>>,
>(changes: Seq<Change<'a, T, U, E>>, n: int)
    requires
        forall|i: int|
            0 <= i < changes.len() ==> (#[trigger] changes[i]).is_made::<Fut, TryFut>(),
        forall|i: int|
            0 <= i < changes.len() - 1 ==> final((#[trigger] changes[i]).slot())@ == changes[i
                + 1].slot()@,
        are_nested(changes),
        0 <= n < changes.len(),
    ensures
        ({
            let guards = guards_left(changes.take(n + 1));
            if guards.len() == 0 {
                final(changes[n].slot())@ == changes[0].slot()@
            } else {
                guards[0]@ == changes[0].slot()@
            }
        }),
    decreases n,
{
    assert(changes.take(n + 1).drop_last() =~= changes.take(n));
    if n > 0 {
        lemma_nested_changes::<T, U, E, Fut, TryFut>(changes, n - 1);
    }
}

/// However deep polls of streams are nested in each other, of streams that may fail and of others:
/// once the guard of each stream that was made active is given back, the same stream is active as
/// before.
pub proof fn law_nested_calls_restore_the_active_stream<
    'a,
    T,
    U,
    E,
    Fut: Future<Output = ()>,
    TryFut: Future<Output = Result<(), E>>,
>(changes: Seq<Change<'a, T, U, E>>)
    requires
        changes.len() > 0,
        forall|i: int|
            0 <= i < changes.len() ==> (#[trigger] changes[i]).is_made::<Fut, TryFut>(),
        forall|i: int|
            0 <= i < changes.len() - 1 ==> final((#[trigger] changes[i]).slot())@ == changes[i
                + 1].slot()@,
        are_nested(changes),
        guards_left(changes).len() == 0,
    ensures
        final(changes.last().slot())@ == changes.first().slot()@,
{
    lemma_nested_changes::<T, U, E, Fut, TryFut>(changes, changes.len() - 1);
    assert(changes.take(changes.len() as int) =~= changes);
}

/// A stream whose future polls other streams, however deep, is the active one again when these
/// polls are over: its emissions are then found in context.
pub proof fn law_emissions_are_in_context_after_nested_calls<
    'a,
    S,
    T,
    U,
    E,
    Fut: Future<Output = ()>,
    TryFut: Future<Output = Result<(), E>>,
>(
    inner: Inner<S>,
    slot: &'a mut ActiveStreamInner,
    guard: ActiveStreamPointerGuard,
    changes: Seq<Change<'a, T, U, E>>,
    emission: EmitFuture<S>,
    found: bool,
)
    requires
        call_ensures(Inner::<S>::activate, (&inner, slot), guard),
        changes.len() > 0,
        changes.first().slot()@ == final(slot)@,
        forall|i: int|
            0 <= i < changes.len() ==> (#[trigger] changes[i]).is_made::<Fut, TryFut>(),
        forall|i: int|
            0 <= i < changes.len() - 1 ==> final((#[trigger] changes[i]).slot())@ == changes[i
                + 1].slot()@,
        are_nested(changes),
        guards_left(changes).len() == 0,
        emission.ptr() == inner@.ptr,
        call_ensures(
            EmitFuture::<S>::is_in_context,
            (&emission, final(changes.last().slot())),
            found,
        ),
    ensures
        found,
{
    law_nested_calls_restore_the_active_stream::<T, U, E, Fut, TryFut>(changes);
}

/// An emission of a stream is found in context if and only if that stream is the active one: not
/// while another one is, nor while none is.
pub proof fn law_emission_is_in_context_of_its_stream_only<S, T>(
    own: Inner<S>,
    other: Inner<T>,
    slot: &mut ActiveStreamInner,
    guard: ActiveStreamPointerGuard,
    emission: EmitFuture<S>,
    found: bool,
)
    requires
        emission.ptr() == own@.ptr,
        call_ensures(Inner::<T>::activate, (&other, slot), guard),
        call_ensures(EmitFuture::<S>::is_in_context, (&emission, final(slot)), found),
    ensures
        found <==> other@.ptr == own@.ptr,
{
}

} // verus!
