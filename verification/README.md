# reactor_runtime

A task runtime with several executors and several reactors, and a few types
that illustrate pinning, written in Verus and verified.

- `src/types.rs` — identifiers, `Waker`, `PollState`.
- `src/task.rs` — the `Future` trait and the network, file and timer tasks.
- `src/reactor.rs` — the `Reactor` trait, the three reactors, `ReactorManager`.
- `src/executor.rs` — `Executor`, `TaskExecutor`, `ExecutorRegistry` (including
  `fire_event`, which wakes every waker of a reactor), `Waker::wake`.
- `src/pinning.rs` — self-referential and not-`Unpin` example types.
- `src/keyed.rs` — association lists with distinct keys, the model behind the
  reactor manager, which keeps registration order.
- `src/text.rs` — decimal text and string comparison used by the above.
- `src/laws.rs` — properties that span several operations.
- `app/` — the demonstrations (`runtime`, `pin-unpin`, `pin-unpin-basic`,
  `pin-methods`): threads, sleeps and printing around the library.
- `tests/` — executable tests.
