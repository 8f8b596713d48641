//! Scopes for asynchronous tasks: child tasks that borrow what the body of a scope owns, and a
//! future for the whole scope that does not end before they do.
//!
//! - [`holder`] counts the guards of running tasks and keeps the waker of whoever waits for them.
//! - [`history`] states what holds of a holder that many tasks share, in whatever order they act.
//! - [`scoped_future`] is the future of a whole scope, as steps between which a caller polls the
//!   body, sleeps or wakes.
//! - [`task`] starts a task, with the guard that it holds until it ended.
//! - [`scope`] is what the body of a scope spawns its tasks with.
//! - [`run`] states what holds of the tasks of a scope, from the first spawn to the result.
//! - [`combinators`] are the parts of the `futures` crate that scopes are built from.
mod calls;
pub mod combinators;
pub mod history;
pub mod holder;
pub mod poll;
pub mod run;
pub mod scope;
pub mod scoped_future;
pub mod task;

pub use combinators::{MayCount, MayStart, Polled};
pub use holder::{CompletenessGuard, CompletenessHolder};
pub use poll::Poll;
pub use scope::{generic_scope, Enter, Finish, Scope, Spawnable};
pub use scoped_future::{
    AsyncClosure, BlockStep, ChildStep, DropAction, DropMode, FutureState, PollStep, ScopedFuture,
};
pub use task::{CountedGuard, Guard, SharedHolder, Task, TaskSpawner};
