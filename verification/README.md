# async-fn-stream

Streams that are implemented by asynchronous functions, without macros. The function that
implements a stream gets an emitter, calls `emit(value)` on it and awaits the result, which is
ready once the consumer has taken the value and asks for the next. A stream made by
`try_fn_stream` may also emit transient errors with `emit_err`, and ends when its function returns
an error.

The bookkeeping is verified with [Verus](https://github.com/verus-lang/verus):

- `src/stream.rs`: the streams, and what becomes of a request before and after the future is polled
- `src/emitter.rs`: the emitters and the emissions
- `src/inner.rs`: the state that a stream shares with its emitters
- `src/active.rs`: which stream is being polled
- `src/task.rs`: task wakers, and which of them are to be woken
- `src/pending.rs`: the stack of what waits to be handed out, kept in a `SmallVec`
- `src/laws/`: what holds of all of these taken together

`app/lib.rs` is the crate that users see: it implements `futures_util::Stream` and `Future` on top
of the library, polls the futures and wakes the tasks.
