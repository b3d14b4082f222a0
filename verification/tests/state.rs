use std::sync::atomic::{AtomicUsize, Ordering};
use std::sync::Arc;
use std::task::{Poll, Wake, Waker};

use async_fn_stream::active::NULL;
use async_fn_stream::task::{compare_wakers, same_task, wakers_to_wake, will_wake};
use async_fn_stream::{
    fn_stream, try_fn_stream, ActiveStreamInner, ActiveStreamPointerGuard, EmitFuture, FnStream,
    Inner, PollStart, TryFnStream,
};

/// A task that counts how often it is woken.
struct Task {
    woken: AtomicUsize,
}

impl Wake for Task {
    fn wake(self: Arc<Self>) {
        self.woken.fetch_add(1, Ordering::SeqCst);
    }
}

impl Task {
    fn new() -> Arc<Task> {
        Arc::new(Task {
            woken: AtomicUsize::new(0),
        })
    }

    fn woken(&self) -> usize {
        self.woken.load(Ordering::SeqCst)
    }
}

type Done = std::future::Ready<()>;
type TryDone = std::future::Ready<Result<(), u8>>;

fn started(start: PollStart<u32>) -> Option<Vec<Waker>> {
    match start {
        PollStart::Done(_) => None,
        PollStart::PollFuture(wake) => Some(wake),
    }
}

#[test]
fn slot_keeps_what_was_active_before() {
    let mut slot = ActiveStreamInner::new(NULL);
    let outer = ActiveStreamPointerGuard::set_active_ptr(&mut slot, 10);
    assert_eq!(slot.get(), 10);
    let inner = ActiveStreamPointerGuard::set_active_ptr(&mut slot, 20);
    assert_eq!(slot.get(), 20);
    inner.restore(&mut slot);
    assert_eq!(slot.get(), 10);
    outer.restore(&mut slot);
    assert_eq!(slot.get(), NULL);
}

#[test]
fn values_are_handed_out_last_first() {
    let waker = Waker::from(Task::new());
    let mut inner: Inner<u32> = Inner::new(1);
    assert_eq!(inner.ptr(), 1);
    assert!(inner.is_drained());
    assert_eq!(inner.hand_out(), Poll::Pending);
    for value in 1..=3 {
        assert!(inner.has_room_for_value());
        inner.take_in(value, true, &waker);
    }
    assert!(!inner.is_drained());
    assert_eq!(inner.hand_out(), Poll::Ready(Some(3)));
    assert_eq!(inner.hand_out(), Poll::Ready(Some(2)));
    assert_eq!(inner.hand_out(), Poll::Ready(Some(1)));
    assert_eq!(inner.hand_out(), Poll::Pending);
    assert!(inner.is_drained());
}

#[test]
fn zero_sized_values_have_room() {
    let waker = Waker::from(Task::new());
    let mut inner: Inner<()> = Inner::new(1);
    for _ in 0..5 {
        assert!(inner.has_room_for_value());
        inner.take_in((), true, &waker);
    }
    for _ in 0..5 {
        assert_eq!(inner.hand_out(), Poll::Ready(Some(())));
    }
    assert_eq!(inner.hand_out(), Poll::Pending);
}

#[test]
fn wakers_are_picked_by_their_answers() {
    let tasks: Vec<Arc<Task>> = (0..3).map(|_| Task::new()).collect();
    let wakers: Vec<Waker> = tasks.iter().map(|t| Waker::from(Arc::clone(t))).collect();
    let wake = wakers_to_wake(wakers, &vec![false, true, false]);
    assert_eq!(wake.len(), 2);
    for waker in wake {
        waker.wake();
    }
    assert_eq!(tasks[0].woken(), 1);
    assert_eq!(tasks[1].woken(), 0);
    assert_eq!(tasks[2].woken(), 1);
}

#[test]
fn wakers_of_different_tasks_differ() {
    let a = Waker::from(Task::new());
    let b = Waker::from(Task::new());
    assert!(will_wake(&a, &a.clone()));
    assert!(!will_wake(&a, &b));
    assert_eq!(
        compare_wakers(&vec![a.clone(), b.clone(), a.clone()], &a),
        vec![true, false, true]
    );
    assert!(!same_task(&None, &a));
    assert!(same_task(&Some(a.clone()), &a));
    assert!(!same_task(&Some(b), &a));
}

#[test]
fn foreign_task_is_woken_before_the_future_is_polled_again() {
    let consumer = Task::new();
    let foreign = Task::new();
    let consumer_waker = Waker::from(Arc::clone(&consumer));
    let foreign_waker = Waker::from(Arc::clone(&foreign));
    let mut inner: Inner<u32> = Inner::new(1);
    let wake = inner.make_ready(&consumer_waker);
    assert!(wake.is_empty());

    // The task that polls the stream is not registered, the other one is.
    assert!(inner.is_same_waker(&consumer_waker));
    inner.take_in(1, true, &consumer_waker);
    assert!(!inner.is_same_waker(&foreign_waker));
    inner.take_in(2, false, &foreign_waker);

    // Nothing is woken while values are handed out.
    let start = FnStream::<u32, Done>::poll_next_start(&mut inner, &consumer_waker);
    assert!(matches!(start, PollStart::Done(Poll::Ready(Some(2)))));
    let start = FnStream::<u32, Done>::poll_next_start(&mut inner, &consumer_waker);
    assert!(matches!(start, PollStart::Done(Poll::Ready(Some(1)))));

    let start = FnStream::<u32, Done>::poll_next_start(&mut inner, &consumer_waker);
    let wake = started(start).unwrap();
    assert_eq!(wake.len(), 1);
    for waker in wake {
        waker.wake();
    }
    assert_eq!(foreign.woken(), 1);
    assert_eq!(consumer.woken(), 0);

    // It is woken once.
    let start = FnStream::<u32, Done>::poll_next_start(&mut inner, &consumer_waker);
    assert!(started(start).unwrap().is_empty());
}

#[test]
fn waiting_task_that_polls_the_stream_itself_is_not_woken() {
    let first = Waker::from(Task::new());
    let second = Waker::from(Task::new());
    let mut inner: Inner<u32> = Inner::new(1);
    assert!(inner.make_ready(&first).is_empty());
    inner.take_in(1, inner.is_same_waker(&second), &second);
    assert_eq!(inner.hand_out(), Poll::Ready(Some(1)));
    assert!(inner.make_ready(&second).is_empty());
    // From now on the second task is the one that polls.
    assert!(inner.is_same_waker(&second));
    assert!(!inner.is_same_waker(&first));
}

#[test]
fn emission_gives_its_value_away_once() {
    let waker = Waker::from(Task::new());
    let mut emission: Option<EmitFuture<u32>> = None;
    let stream = fn_stream(5, |emitter| {
        emission = Some(emitter.emit(42));
        std::future::ready(())
    });
    let mut inner = stream.inner;
    let mut emission = emission.unwrap();
    let mut slot = ActiveStreamInner::new(NULL);
    assert!(emission.has_room(&inner));
    assert!(inner.is_drained());
    assert!(!emission.is_in_context(&slot));

    let guard = inner.activate(&mut slot);
    assert!(emission.is_in_context(&slot));
    assert!(!emission.is_in_context(&ActiveStreamInner::new(6)));
    assert_eq!(emission.poll(&mut inner, &slot, &waker), Poll::Pending);
    assert_eq!(emission.poll(&mut inner, &slot, &waker), Poll::Pending);
    let item = FnStream::<u32, Done>::poll_next_finish(&mut inner, &mut slot, guard, Poll::Pending);
    assert_eq!(item, Poll::Ready(Some(42)));
    assert_eq!(slot.get(), NULL);

    let guard = inner.activate(&mut slot);
    assert_eq!(emission.poll(&mut inner, &slot, &waker), Poll::Ready(()));
    let item =
        FnStream::<u32, Done>::poll_next_finish(&mut inner, &mut slot, guard, Poll::Ready(()));
    assert_eq!(item, Poll::Ready(None));
}

/// Two emissions of one stream, which is active and polled by the task of `consumer`.
fn two_emissions(
    consumer: &Waker,
) -> (
    EmitFuture<u32>,
    EmitFuture<u32>,
    Inner<u32>,
    ActiveStreamInner,
) {
    let mut first: Option<EmitFuture<u32>> = None;
    let mut second: Option<EmitFuture<u32>> = None;
    let stream = fn_stream(5, |emitter| {
        first = Some(emitter.emit(1));
        second = Some(emitter.emit(2));
        std::future::ready(())
    });
    let mut inner = stream.inner;
    let start = FnStream::<u32, Done>::poll_next_start(&mut inner, consumer);
    assert!(started(start).unwrap().is_empty());
    let mut slot = ActiveStreamInner::new(NULL);
    inner.activate(&mut slot);
    (first.unwrap(), second.unwrap(), inner, slot)
}

#[test]
fn foreign_task_that_waits_for_another_value_is_woken() {
    let consumer = Waker::from(Task::new());
    let waiting = Task::new();
    let waiting_waker = Waker::from(Arc::clone(&waiting));
    let (mut first, mut second, mut inner, slot) = two_emissions(&consumer);
    assert_eq!(first.poll(&mut inner, &slot, &waiting_waker), Poll::Pending);
    assert_eq!(inner.hand_out(), Poll::Ready(Some(1)));
    let wake = inner.make_ready(&consumer);
    assert_eq!(wake.len(), 1);

    // In the next poll of the future the other emission comes first.
    assert_eq!(second.poll(&mut inner, &slot, &consumer), Poll::Pending);
    for _ in 0..10 {
        assert!(first.has_room(&inner));
        assert_eq!(first.poll(&mut inner, &slot, &waiting_waker), Poll::Pending);
    }
    assert_eq!(inner.hand_out(), Poll::Ready(Some(2)));
    let wake = inner.make_ready(&consumer);
    assert_eq!(wake.len(), 1);
    for waker in wake {
        waker.wake();
    }
    assert_eq!(waiting.woken(), 1);
    assert_eq!(first.poll(&mut inner, &slot, &waiting_waker), Poll::Ready(()));
    assert_eq!(second.poll(&mut inner, &slot, &consumer), Poll::Ready(()));
    assert!(inner.make_ready(&consumer).is_empty());
}

#[test]
fn tasks_that_polled_an_emission_first_and_last_are_woken() {
    let consumer = Waker::from(Task::new());
    let earlier = Task::new();
    let later = Task::new();
    let (mut first, mut second, mut inner, slot) = two_emissions(&consumer);
    let other = Task::new();
    let earlier_waker = Waker::from(Arc::clone(&earlier));
    let later_waker = Waker::from(Arc::clone(&later));
    let other_waker = Waker::from(Arc::clone(&other));
    assert_eq!(first.poll(&mut inner, &slot, &earlier_waker), Poll::Pending);
    assert_eq!(second.poll(&mut inner, &slot, &other_waker), Poll::Pending);
    assert_eq!(first.poll(&mut inner, &slot, &later_waker), Poll::Pending);
    let wake = inner.make_ready(&consumer);
    assert_eq!(wake.len(), 3);
    for waker in wake {
        waker.wake();
    }
    assert_eq!(earlier.woken(), 1);
    assert_eq!(later.woken(), 1);
    assert_eq!(other.woken(), 1);
}

#[test]
fn task_that_emitted_is_woken_once_however_often_it_polls() {
    let consumer = Waker::from(Task::new());
    let emitting = Task::new();
    let emitting_waker = Waker::from(Arc::clone(&emitting));
    let (mut first, _, mut inner, slot) = two_emissions(&consumer);
    for _ in 0..10 {
        assert!(first.has_room(&inner));
        assert_eq!(
            first.poll(&mut inner, &slot, &emitting_waker),
            Poll::Pending
        );
    }
    let wake = inner.make_ready(&consumer);
    assert_eq!(wake.len(), 1);
    for waker in wake {
        waker.wake();
    }
    assert_eq!(emitting.woken(), 1);
    assert_eq!(inner.hand_out(), Poll::Ready(Some(1)));
    assert_eq!(inner.hand_out(), Poll::Pending);
}

#[test]
fn task_that_emitted_is_woken_though_the_stream_polls_its_emission_too() {
    let consumer = Waker::from(Task::new());
    let emitting = Task::new();
    let emitting_waker = Waker::from(Arc::clone(&emitting));
    let (mut first, _, mut inner, slot) = two_emissions(&consumer);
    assert_eq!(
        first.poll(&mut inner, &slot, &emitting_waker),
        Poll::Pending
    );
    assert_eq!(first.poll(&mut inner, &slot, &consumer), Poll::Pending);
    let wake = inner.make_ready(&consumer);
    assert_eq!(wake.len(), 1);
    for waker in wake {
        waker.wake();
    }
    assert_eq!(emitting.woken(), 1);
}

#[test]
fn of_the_tasks_that_wait_for_one_emission_the_last_is_woken() {
    let consumer = Waker::from(Task::new());
    let tasks: Vec<Arc<Task>> = (0..3).map(|_| Task::new()).collect();
    let wakers: Vec<Waker> = tasks.iter().map(|t| Waker::from(Arc::clone(t))).collect();
    let (mut first, _, mut inner, slot) = two_emissions(&consumer);
    for waker in &wakers {
        assert_eq!(first.poll(&mut inner, &slot, waker), Poll::Pending);
    }
    let wake = inner.make_ready(&consumer);
    assert_eq!(wake.len(), 2);
    for waker in wake {
        waker.wake();
    }
    assert_eq!(tasks[0].woken(), 1);
    assert_eq!(tasks[1].woken(), 0);
    assert_eq!(tasks[2].woken(), 1);
}

#[test]
fn waiting_task_that_polls_the_stream_is_not_registered() {
    let consumer = Waker::from(Task::new());
    let (mut first, mut second, mut inner, slot) = two_emissions(&consumer);
    assert_eq!(first.poll(&mut inner, &slot, &consumer), Poll::Pending);
    assert_eq!(second.poll(&mut inner, &slot, &consumer), Poll::Pending);
    assert_eq!(inner.hand_out(), Poll::Ready(Some(2)));
    assert_eq!(second.poll(&mut inner, &slot, &consumer), Poll::Pending);
    assert!(inner.make_ready(&consumer).is_empty());
}

#[test]
fn registration_has_its_places_for_one_round() {
    let consumer = Waker::from(Task::new());
    let foreign = Waker::from(Task::new());
    let mut inner: Inner<u32> = Inner::new(1);
    let own = inner.take_in(1, true, &consumer);
    assert!(own.emitting.is_none());
    assert!(own.waiting.is_none());
    let a = inner.take_in(2, false, &foreign);
    let b = inner.take_in(3, false, &foreign);
    assert_eq!(a.emitting.unwrap().index, 0);
    assert_eq!(b.emitting.unwrap().index, 1);
    assert_eq!(a.emitting.unwrap().round, b.emitting.unwrap().round);
    assert!(inner.knows_waker(a, &foreign));
    assert!(!inner.knows_waker(own, &foreign));
    assert!(inner.wait(a, true, &foreign).waiting.is_none());

    let other = Waker::from(Task::new());
    assert!(!inner.knows_waker(a, &other));
    let a = inner.wait(a, false, &other);
    let b = inner.wait(b, false, &other);
    assert_eq!(a.waiting.unwrap().index, 0);
    assert_eq!(b.waiting.unwrap().index, 1);
    assert_eq!(b.emitting.unwrap().index, 1);
    assert!(inner.has_room_for_waiting(a));
    assert_eq!(inner.wait(a, false, &other).waiting.unwrap().index, 0);
    assert_eq!(inner.make_ready(&consumer).len(), 4);

    assert!(!inner.knows_waker(b, &foreign));
    assert!(inner.knows_waker(b, &consumer));
    let c = inner.wait(b, false, &foreign).waiting.unwrap();
    assert_eq!(c.index, 0);
    assert_eq!(c.round, b.waiting.unwrap().round + 1);
    assert_eq!(inner.make_ready(&consumer).len(), 1);
}

#[test]
fn emission_does_not_go_to_another_stream() {
    let waker = Waker::from(Task::new());
    let (first, _, inner, slot) = two_emissions(&waker);
    let other: Inner<u32> = Inner::new(6);
    let mut active = slot;
    assert!(first.is_in_context(&active));
    let guard = other.activate(&mut active);
    assert!(!first.is_in_context(&active));
    guard.restore(&mut active);
    assert!(first.is_in_context(&active));
    assert_eq!(inner.ptr(), active.get());
}

#[test]
fn future_that_ends_with_values_pending_ends_the_request_first() {
    let waker = Waker::from(Task::new());
    let mut slot = ActiveStreamInner::new(NULL);
    let mut inner: Inner<u32> = Inner::new(3);
    let guard = inner.activate(&mut slot);
    inner.take_in(8, true, &waker);
    let item =
        FnStream::<u32, Done>::poll_next_finish(&mut inner, &mut slot, guard, Poll::Ready(()));
    assert_eq!(item, Poll::Ready(None));
    let start = FnStream::<u32, Done>::poll_next_start(&mut inner, &waker);
    assert!(matches!(start, PollStart::Done(Poll::Ready(Some(8)))));
}

#[test]
fn pending_future_without_values_leaves_the_consumer_waiting() {
    let mut slot = ActiveStreamInner::new(NULL);
    let mut inner: Inner<u32> = Inner::new(3);
    let guard = inner.activate(&mut slot);
    let item = FnStream::<u32, Done>::poll_next_finish(&mut inner, &mut slot, guard, Poll::Pending);
    assert_eq!(item, Poll::Pending);
}

#[test]
fn fallible_outcomes() {
    let waker = Waker::from(Task::new());
    let mut slot = ActiveStreamInner::new(NULL);
    let stream = try_fn_stream::<u32, u8, TryDone, _>(4, |emitter| {
        let slot = ActiveStreamInner::new(4);
        assert!(emitter.emit(1).is_in_context(&slot));
        assert!(emitter.emit_err(2).is_in_context(&slot));
        std::future::ready(Ok(()))
    });
    let mut is_err = stream.is_err;
    let mut inner = stream.inner;
    assert!(!is_err);
    assert_eq!(inner.ptr(), 4);

    inner.take_in(Err(9), true, &waker);
    let guard = inner.activate(&mut slot);
    let item = TryFnStream::<u32, u8, TryDone>::poll_next_finish(
        &mut is_err,
        &mut inner,
        &mut slot,
        guard,
        Poll::Pending,
    );
    assert_eq!(item, Poll::Ready(Some(Err(9))));
    assert!(!is_err);

    let guard = inner.activate(&mut slot);
    let item = TryFnStream::<u32, u8, TryDone>::poll_next_finish(
        &mut is_err,
        &mut inner,
        &mut slot,
        guard,
        Poll::Ready(Ok(())),
    );
    assert_eq!(item, Poll::Ready(None));
    assert!(!is_err);

    inner.take_in(Ok(5), true, &waker);
    let guard = inner.activate(&mut slot);
    let item = TryFnStream::<u32, u8, TryDone>::poll_next_finish(
        &mut is_err,
        &mut inner,
        &mut slot,
        guard,
        Poll::Ready(Err(7)),
    );
    assert_eq!(item, Poll::Ready(Some(Err(7))));
    assert!(is_err);

    // What was pending is not handed out any more.
    let start = TryFnStream::<u32, u8, TryDone>::poll_next_start(is_err, &mut inner, &waker);
    assert!(matches!(start, PollStart::Done(Poll::Ready(None))));
    assert!(!inner.is_drained());
    assert_eq!(inner.ptr(), 4);
}
