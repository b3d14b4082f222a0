//! Streams that are implemented by asynchronous functions.
//!
//! A stream is made by [`fn_stream`], or by [`try_fn_stream`] if it may fail. The function that
//! implements it gets an emitter, emits the items one by one, and awaits each emission until the
//! consumer has taken the item and asks for the next.
//!
//! This library decides what becomes of every request and of every emission. Polling a future,
//! waking a task, and sharing an [`Inner`] between a stream and its emitters are left to the
//! caller. For each request it calls `poll_next_start` and, if the future is to be polled, wakes
//! the wakers that it got, calls [`Inner::activate`], polls the future, and calls
//! `poll_next_finish`. An emission is polled with [`EmitFuture::poll`] while its stream is active.

pub mod active;
pub mod emitter;
pub mod inner;
pub mod laws;
pub mod pending;
pub mod stream;
pub mod task;

pub use active::{ActiveStreamInner, ActiveStreamPointerGuard};
pub use emitter::{EmitFuture, StreamEmitter, TryStreamEmitter};
pub use inner::{Inner, Place, Registration};
pub use stream::{fn_stream, try_fn_stream, FnStream, PollStart, TryFnStream};
