use std::cell::{Cell, RefCell};
use std::future::Future;
use std::io::ErrorKind;
use std::pin::Pin;
use std::rc::Rc;
use std::task::{Context, Poll};

use async_fn_stream::active::NULL;
use async_fn_stream::{
    ActiveStreamInner, EmitFuture, FnStream, Inner, PollStart, StreamEmitter, TryFnStream,
    TryStreamEmitter,
};
use futures_executor::block_on;
use futures_util::future::{join3, join_all};
use futures_util::stream::{FuturesUnordered, Stream, StreamExt};

/// Runs streams on one thread: holds the slot of the active stream and gives out addresses.
struct Runner {
    slot: RefCell<ActiveStreamInner>,
    last_ptr: Cell<usize>,
    future_polls: Cell<usize>,
}

fn runner() -> Rc<Runner> {
    Rc::new(Runner {
        slot: RefCell::new(ActiveStreamInner::new(NULL)),
        last_ptr: Cell::new(0),
        future_polls: Cell::new(0),
    })
}

struct Emitter<T> {
    runner: Rc<Runner>,
    emitter: StreamEmitter<T>,
    inner: Rc<RefCell<Inner<T>>>,
}

struct TryEmitter<T, E> {
    runner: Rc<Runner>,
    emitter: TryStreamEmitter<T, E>,
    inner: Rc<RefCell<Inner<Result<T, E>>>>,
}

struct Emission<'a, T> {
    runner: &'a Runner,
    inner: &'a RefCell<Inner<T>>,
    emission: Option<EmitFuture<T>>,
}

impl<T> Unpin for Emission<'_, T> {}

impl<T> Future for Emission<'_, T> {
    type Output = ();

    fn poll(mut self: Pin<&mut Self>, cx: &mut Context<'_>) -> Poll<()> {
        let active = *self.runner.slot.borrow();
        let inner = self.inner;
        let emission = self.emission.as_mut().unwrap();
        assert!(
            emission.is_in_context(&active),
            "StreamEmitter::emit().await should only be called in the context of the corresponding `fn_stream()`/`try_fn_stream()`"
        );
        let mut inner = inner.borrow_mut();
        assert!(emission.has_room(&inner));
        emission.poll(&mut inner, &active, cx.waker())
    }
}

impl<T> Emitter<T> {
    fn emit(&self, value: T) -> Emission<'_, T> {
        Emission {
            runner: &self.runner,
            inner: &self.inner,
            emission: Some(self.emitter.emit(value)),
        }
    }
}

impl<T, E> TryEmitter<T, E> {
    fn emit(&self, value: T) -> Emission<'_, Result<T, E>> {
        Emission {
            runner: &self.runner,
            inner: &self.inner,
            emission: Some(self.emitter.emit(value)),
        }
    }

    fn emit_err(&self, err: E) -> Emission<'_, Result<T, E>> {
        Emission {
            runner: &self.runner,
            inner: &self.inner,
            emission: Some(self.emitter.emit_err(err)),
        }
    }
}

struct Running<T, Fut> {
    runner: Rc<Runner>,
    fut: Pin<Box<Fut>>,
    inner: Rc<RefCell<Inner<T>>>,
}

struct TryRunning<T, E, Fut> {
    runner: Rc<Runner>,
    is_err: bool,
    fut: Pin<Box<Fut>>,
    inner: Rc<RefCell<Inner<Result<T, E>>>>,
}

impl Runner {
    fn fresh_ptr(&self) -> usize {
        self.last_ptr.set(self.last_ptr.get() + 1);
        self.last_ptr.get()
    }
}

fn fn_stream<T, Fut: Future<Output = ()>>(
    runner: &Rc<Runner>,
    func: impl FnOnce(Emitter<T>) -> Fut,
) -> Running<T, Fut> {
    let ptr = runner.fresh_ptr();
    let shared = Rc::new(RefCell::new(Inner::new(ptr)));
    let stream = async_fn_stream::fn_stream(ptr, |emitter| {
        func(Emitter {
            runner: Rc::clone(runner),
            emitter,
            inner: Rc::clone(&shared),
        })
    });
    *shared.borrow_mut() = stream.inner;
    Running {
        runner: Rc::clone(runner),
        fut: Box::pin(stream.fut),
        inner: shared,
    }
}

fn try_fn_stream<T, E, Fut: Future<Output = Result<(), E>>>(
    runner: &Rc<Runner>,
    func: impl FnOnce(TryEmitter<T, E>) -> Fut,
) -> TryRunning<T, E, Fut> {
    let ptr = runner.fresh_ptr();
    let shared = Rc::new(RefCell::new(Inner::new(ptr)));
    let stream = async_fn_stream::try_fn_stream(ptr, |emitter| {
        func(TryEmitter {
            runner: Rc::clone(runner),
            emitter,
            inner: Rc::clone(&shared),
        })
    });
    *shared.borrow_mut() = stream.inner;
    TryRunning {
        runner: Rc::clone(runner),
        is_err: stream.is_err,
        fut: Box::pin(stream.fut),
        inner: shared,
    }
}

impl<T, Fut: Future<Output = ()>> Stream for Running<T, Fut> {
    type Item = T;

    fn poll_next(mut self: Pin<&mut Self>, cx: &mut Context<'_>) -> Poll<Option<T>> {
        let this = &mut *self;
        let start =
            FnStream::<T, Fut>::poll_next_start(&mut this.inner.borrow_mut(), cx.waker());
        let wake = match start {
            PollStart::Done(item) => return item,
            PollStart::PollFuture(wake) => wake,
        };
        for waker in wake {
            waker.wake();
        }
        let guard = this
            .inner
            .borrow()
            .activate(&mut this.runner.slot.borrow_mut());
        this.runner
            .future_polls
            .set(this.runner.future_polls.get() + 1);
        let r = this.fut.as_mut().poll(cx);
        FnStream::<T, Fut>::poll_next_finish(
            &mut this.inner.borrow_mut(),
            &mut this.runner.slot.borrow_mut(),
            guard,
            r,
        )
    }
}

impl<T, E, Fut: Future<Output = Result<(), E>>> Stream for TryRunning<T, E, Fut> {
    type Item = Result<T, E>;

    fn poll_next(mut self: Pin<&mut Self>, cx: &mut Context<'_>) -> Poll<Option<Result<T, E>>> {
        let this = &mut *self;
        let start = TryFnStream::<T, E, Fut>::poll_next_start(
            this.is_err,
            &mut this.inner.borrow_mut(),
            cx.waker(),
        );
        let wake = match start {
            PollStart::Done(item) => return item,
            PollStart::PollFuture(wake) => wake,
        };
        for waker in wake {
            waker.wake();
        }
        let guard = this
            .inner
            .borrow()
            .activate(&mut this.runner.slot.borrow_mut());
        this.runner
            .future_polls
            .set(this.runner.future_polls.get() + 1);
        let r = this.fut.as_mut().poll(cx);
        TryFnStream::<T, E, Fut>::poll_next_finish(
            &mut this.is_err,
            &mut this.inner.borrow_mut(),
            &mut this.runner.slot.borrow_mut(),
            guard,
            r,
        )
    }
}

#[test]
fn infallible_works() {
    block_on(async {
        let mut stream = fn_stream(&runner(), |emitter| async move {
            emitter.emit(1).await;
            emitter.emit(2).await;
        });
        assert_eq!(Some(1), stream.next().await);
        assert_eq!(Some(2), stream.next().await);
        assert_eq!(None, stream.next().await);
    });
}

#[test]
fn infallible_lifetime() {
    let a = 1;
    block_on(async {
        let b = 2;
        let a = &a;
        let b = &b;
        let mut stream = fn_stream(&runner(), |emitter| async move {
            emitter.emit(a).await;
            emitter.emit(b).await;
        });
        assert_eq!(Some(a), stream.next().await);
        assert_eq!(Some(b), stream.next().await);
        assert_eq!(None, stream.next().await);
    });
}

#[test]
fn infallible_unawaited_emit_is_ignored() {
    block_on(async {
        let mut stream = fn_stream(&runner(), |emitter| async move {
            let _ = emitter.emit(1);
            let _ = emitter.emit(2);
            emitter.emit(3).await;
        });
        assert_eq!(Some(3), stream.next().await);
        assert_eq!(None, stream.next().await);
    });
}

#[test]
fn fallible_works() {
    block_on(async {
        let mut stream = try_fn_stream(&runner(), |emitter| async move {
            emitter.emit(1).await;
            emitter.emit(2).await;
            Err(std::io::Error::from(ErrorKind::Other))
        });
        assert_eq!(1, stream.next().await.unwrap().unwrap());
        assert_eq!(2, stream.next().await.unwrap().unwrap());
        assert!(stream.next().await.unwrap().is_err());
        assert!(stream.next().await.is_none());
    });
}

#[test]
fn fallible_emit_err_works() {
    block_on(async {
        let mut stream = try_fn_stream(&runner(), |emitter| async move {
            emitter.emit(1).await;
            emitter.emit(2).await;
            emitter
                .emit_err(std::io::Error::from(ErrorKind::Other))
                .await;
            Err(std::io::Error::from(ErrorKind::Other))
        });
        assert_eq!(1, stream.next().await.unwrap().unwrap());
        assert_eq!(2, stream.next().await.unwrap().unwrap());
        assert!(stream.next().await.unwrap().is_err());
        assert!(stream.next().await.unwrap().is_err());
        assert!(stream.next().await.is_none());
    });
}

struct St {
    a: String,
}

impl St {
    async fn f1(&self) -> impl Stream<Item = &str> {
        self.f2().await
    }

    async fn f2(&self) -> impl Stream<Item = &str> {
        fn_stream(&runner(), |emitter| async move {
            emitter.emit(self.a.as_str()).await;
            emitter.emit(self.a.as_str()).await;
            emitter.emit(self.a.as_str()).await;
        })
    }
}

#[test]
fn method_async() {
    block_on(async {
        let l = St {
            a: "qwe".to_owned(),
        };
        let s = l.f1().await;
        let z: Vec<&str> = s.collect().await;
        assert_eq!(z, ["qwe", "qwe", "qwe"]);
    });
}

#[test]
fn tokio_join_one_works() {
    block_on(async {
        let mut stream = fn_stream(&runner(), |emitter| async move {
            join_all([async { emitter.emit(1).await }]).await;
            emitter.emit(2).await;
        });
        assert_eq!(Some(1), stream.next().await);
        assert_eq!(Some(2), stream.next().await);
        assert_eq!(None, stream.next().await);
    });
}

#[test]
fn tokio_join_many_works() {
    block_on(async {
        let mut stream = fn_stream(&runner(), |emitter| async move {
            join3(
                async { emitter.emit(1).await },
                async { emitter.emit(2).await },
                async { emitter.emit(3).await },
            )
            .await;
            emitter.emit(4).await;
        });
        for _ in 0..3 {
            let item = stream.next().await;
            assert!(matches!(item, Some(1..=3)));
        }
        assert_eq!(Some(4), stream.next().await);
        assert_eq!(None, stream.next().await);
    });
}

#[test]
fn tokio_futures_unordered_one_works() {
    block_on(async {
        let mut stream = fn_stream(&runner(), |emitter| async move {
            let mut futs: FuturesUnordered<_> = (1..=1)
                .map(|i| {
                    let emitter = &emitter;
                    async move { emitter.emit(i).await }
                })
                .collect();
            while futs.next().await.is_some() {}
            emitter.emit(2).await;
        });
        assert_eq!(Some(1), stream.next().await);
        assert_eq!(Some(2), stream.next().await);
        assert_eq!(None, stream.next().await);
    });
}

#[test]
fn tokio_futures_unordered_many_works() {
    block_on(async {
        let mut stream = fn_stream(&runner(), |emitter| async move {
            let mut futs: FuturesUnordered<_> = (1..=3)
                .map(|i| {
                    let emitter = &emitter;
                    async move { emitter.emit(i).await }
                })
                .collect();
            while futs.next().await.is_some() {}
            emitter.emit(4).await;
        });
        for _ in 1..=3 {
            let item = stream.next().await;
            assert!(matches!(item, Some(1..=3)));
        }
        assert_eq!(Some(4), stream.next().await);
        assert_eq!(None, stream.next().await);
    });
}

#[test]
fn infallible_nested_streams_work() {
    block_on(async {
        let runner = runner();
        let mut stream = fn_stream(&runner, |emitter| {
            let runner = Rc::clone(&runner);
            async move {
                for i in 0..3 {
                    let mut stream_2 = fn_stream(&runner, |emitter| async move {
                        for j in 0..3 {
                            emitter.emit(j).await;
                        }
                    });
                    while let Some(item) = stream_2.next().await {
                        emitter.emit(3 * i + item).await;
                    }
                }
            }
        });
        let mut sum = 0;
        while let Some(item) = stream.next().await {
            sum += item;
        }
        assert_eq!(sum, 36);
    });
}

#[test]
fn fallible_nested_streams_work() {
    block_on(async {
        let runner = runner();
        let mut stream = try_fn_stream(&runner, |emitter| {
            let runner = Rc::clone(&runner);
            async move {
                for i in 0..3 {
                    let mut stream_2 = try_fn_stream(&runner, |emitter| async move {
                        for j in 0..3 {
                            emitter.emit(j).await;
                        }
                        Ok::<_, ()>(())
                    });
                    while let Some(Ok(item)) = stream_2.next().await {
                        emitter.emit(3 * i + item).await;
                    }
                }
                Ok::<_, ()>(())
            }
        });
        let mut sum = 0;
        while let Some(Ok(item)) = stream.next().await {
            sum += item;
        }
        assert_eq!(sum, 36);
    });
}

#[test]
#[should_panic(
    expected = "StreamEmitter::emit().await should only be called in the context of the corresponding `fn_stream()`/`try_fn_stream()`"
)]
fn infallible_bad_nested_emit_detected() {
    block_on(async {
        let runner = runner();
        let mut stream = fn_stream(&runner, |emitter| {
            let runner = Rc::clone(&runner);
            async move {
                for i in 0..3 {
                    let emitter_ref = &emitter;
                    let mut stream_2 = fn_stream(&runner, |emitter_2| async move {
                        emitter_2.emit(0).await;
                        for j in 0..3 {
                            emitter_ref.emit(j).await;
                        }
                    });
                    while let Some(item) = stream_2.next().await {
                        emitter.emit(3 * i + item).await;
                    }
                }
            }
        });

        let mut sum = 0;
        while let Some(item) = stream.next().await {
            sum += item;
        }
        assert_eq!(sum, 36);
    });
}

#[test]
#[should_panic(
    expected = "StreamEmitter::emit().await should only be called in the context of the corresponding `fn_stream()`/`try_fn_stream()`"
)]
fn fallible_bad_nested_emit_detected() {
    block_on(async {
        let runner = runner();
        let mut stream = try_fn_stream(&runner, |emitter| {
            let runner = Rc::clone(&runner);
            async move {
                for i in 0..3 {
                    let emitter_ref = &emitter;
                    let mut stream_2 = try_fn_stream(&runner, |emitter_2| async move {
                        emitter_2.emit(0).await;
                        for j in 0..3 {
                            emitter_ref.emit(j).await;
                        }
                        Ok::<_, ()>(())
                    });
                    while let Some(Ok(item)) = stream_2.next().await {
                        emitter.emit(3 * i + item).await;
                    }
                }
                Ok::<_, ()>(())
            }
        });

        let mut sum = 0;
        while let Some(Ok(item)) = stream.next().await {
            sum += item;
        }
        assert_eq!(sum, 36);
    });
}

#[test]
fn items_emitted_together_come_out_last_first_before_the_future_is_polled_again() {
    block_on(async {
        let runner = runner();
        let mut stream = fn_stream(&runner, |emitter| async move {
            join3(emitter.emit(1), emitter.emit(2), emitter.emit(3)).await;
        });
        assert_eq!(Some(3), stream.next().await);
        assert_eq!(Some(2), stream.next().await);
        assert_eq!(Some(1), stream.next().await);
        assert_eq!(runner.future_polls.get(), 1);
        assert_eq!(None, stream.next().await);
        assert_eq!(runner.future_polls.get(), 2);
    });
}

#[test]
fn two_loops_in_one_future_lose_no_item() {
    block_on(async {
        let mut stream = fn_stream(&runner(), |emitter| async move {
            futures_util::future::join(
                async {
                    for i in 0..3 {
                        emitter.emit(i).await;
                    }
                },
                async {
                    for i in 10..13 {
                        emitter.emit(i).await;
                    }
                },
            )
            .await;
        });
        let mut numbers = Vec::new();
        while let Some(number) = stream.next().await {
            numbers.push(number);
        }
        numbers.sort_unstable();
        assert_eq!(numbers, vec![0, 1, 2, 10, 11, 12]);
    });
}

#[test]
fn emission_that_waits_for_another_value_is_resumed_by_a_sub_executor() {
    block_on(async {
        let mut stream = fn_stream(&runner(), |emitter| async move {
            let emitter = &emitter;
            let mut futs: FuturesUnordered<Pin<Box<dyn Future<Output = ()> + '_>>> =
                FuturesUnordered::new();
            futs.push(Box::pin(async move {
                emitter.emit(1).await;
                emitter.emit(3).await;
            }));
            futs.push(Box::pin(async move {
                emitter.emit(2).await;
            }));
            while futs.next().await.is_some() {}
            emitter.emit(4).await;
        });
        let mut numbers = Vec::new();
        while let Some(number) = stream.next().await {
            numbers.push(number);
        }
        assert_eq!(numbers.len(), 4);
        assert_eq!(numbers[3], 4);
        numbers.sort_unstable();
        assert_eq!(numbers, vec![1, 2, 3, 4]);
    });
}

#[test]
fn sub_executor_with_many_loops_loses_no_item() {
    block_on(async {
        let mut stream = fn_stream(&runner(), |emitter| async move {
            let mut futs: FuturesUnordered<_> = (0..4)
                .map(|i| {
                    let emitter = &emitter;
                    async move {
                        for j in 0..(i + 2) {
                            emitter.emit(10 * i + j).await;
                        }
                    }
                })
                .collect();
            while futs.next().await.is_some() {}
        });
        let mut numbers = Vec::new();
        while let Some(number) = stream.next().await {
            numbers.push(number);
        }
        numbers.sort_unstable();
        assert_eq!(numbers, vec![0, 1, 10, 11, 12, 20, 21, 22, 23, 30, 31, 32, 33, 34]);
    });
}

#[test]
fn failed_stream_stays_at_its_end_without_polling_the_future() {
    block_on(async {
        let runner = runner();
        let mut stream = try_fn_stream(&runner, |emitter| async move {
            emitter.emit_err("transient").await;
            emitter.emit(7).await;
            Err("fatal")
        });
        assert_eq!(Some(Err("transient")), stream.next().await);
        assert_eq!(Some(Ok(7)), stream.next().await);
        assert_eq!(Some(Err("fatal")), stream.next().await);
        let polls = runner.future_polls.get();
        assert_eq!(None, stream.next().await);
        assert_eq!(None, stream.next().await);
        assert_eq!(runner.future_polls.get(), polls);
    });
}

#[test]
fn slot_is_null_again_after_nested_polls() {
    block_on(async {
        let runner = runner();
        let mut stream = fn_stream(&runner, |emitter| {
            let runner = Rc::clone(&runner);
            async move {
                let outer = runner.slot.borrow().get();
                let mut nested = fn_stream(&runner, |emitter| async move {
                    emitter.emit(runner_slot(&emitter.runner)).await;
                });
                let inside = nested.next().await.unwrap();
                assert_ne!(inside, outer);
                assert_eq!(runner.slot.borrow().get(), outer);
                emitter.emit(outer).await;
            }
        });
        assert_eq!(Some(1), stream.next().await);
        assert_eq!(runner.slot.borrow().get(), NULL);
        assert_eq!(None, stream.next().await);
        assert_eq!(runner.slot.borrow().get(), NULL);
    });
}

fn runner_slot(runner: &Runner) -> usize {
    runner.slot.borrow().get()
}
