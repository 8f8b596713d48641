# pinned_scope

Scopes for asynchronous tasks. The body of a scope spawns child tasks that borrow what the body
owns; the future of the scope ends only when every task that was started has ended.

- `src/` is the verified library. `holder` counts the guards of running tasks and keeps the waker of
  whoever waits for them. `history` states what holds of a holder over every order in which tasks
  act on it. `scoped_future` is the future of a whole scope, cut into the steps between which the
  body is polled or a thread sleeps. `task` starts a task with the guard that it holds until it
  ended. `scope` holds the scopes themselves. `run` states what holds of the tasks of a scope, from
  the first spawn to the result. `combinators` holds the parts of the `futures` crate that scopes
  are built from.
- `app/` makes futures of it: it shares the holder between threads, polls the body in place, gives
  guards back when they are dropped, blocks the thread that drops a scope early, and starts tasks on
  Tokio.
- `tests/` runs the library.

A scope that is dropped before it ended waits for the tasks that were started. Tasks that were not
started are never run.
