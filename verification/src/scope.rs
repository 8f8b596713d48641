//! Scopes: values through which a body spawns child tasks that may borrow what the body owns.
use core::future::{Future, IntoFuture};
use core::marker::PhantomData;

use futures::future::{Flatten, Join, Ready};
use futures::task::FutureObj;
use vstd::future::FutureAdditionalSpecFns;
use vstd::prelude::*;

use crate::calls;
use crate::combinators;
use crate::combinators::Polled;
use crate::poll::Poll;
use crate::scoped_future;
use crate::scoped_future::{ChildStep, FutureState, ScopedFuture};
use crate::task;
use crate::task::{Guard, SharedHolder, TaskSpawner};

verus! {

/// A scope in this state can spawn a task.
pub trait Spawnable {

}

impl Spawnable for Enter {

}

impl<F: Future> Spawnable for F {

}

/// State of a scope none of whose tasks is left to wait for.
#[derive(Debug)]
pub struct Enter;

/// State of a scope that ended with a result.
#[derive(Debug)]
pub struct Finish<R> {
    result: R,
}

impl<R> Finish<R> {
    /// The result that the scope ended with.
    pub closed spec fn value(&self) -> R {
        self.result
    }

    pub fn new(result: R) -> (finish: Self)
        ensures
            finish.value() == result,
    {
        Finish { result }
    }
}

impl vstd::std_specs::convert::FromSpecImpl<Enter> for Finish<()> {
    open spec fn obeys_from_spec() -> bool {
        true
    }

    closed spec fn from_spec(enter: Enter) -> Self {
        Finish { result: () }
    }
}

impl From<Enter> for Finish<()> {
    /// A scope that ends without a value.
    fn from(enter: Enter) -> (finish: Self) {
        Self::new(())
    }
}

/// A scope in the state `Env`: [`Enter`], [`Finish`], or a future of tasks to wait for. There is
/// one at a time: spawning a task uses the scope up, and awaiting the task gives it back.
#[derive(Debug)]
#[verifier::reject_recursive_types(Spawner)]
pub struct Scope<H, Env, Spawner: TaskSpawner> {
    env: Env,
    guard: Guard<H>,
    _spawner: PhantomData<Spawner>,
}

impl<H, Env, Spawner: TaskSpawner> Scope<H, Env, Spawner> {
    /// The state of the scope.
    pub closed spec fn env(&self) -> Env {
        self.env
    }

    /// What the scope makes guards with.
    pub closed spec fn guard(&self) -> Guard<H> {
        self.guard
    }

    fn new(env: Env, guard: Guard<H>) -> (scope: Self)
        ensures
            scope.env() == env,
            scope.guard() == guard,
    {
        Scope { env, guard, _spawner: PhantomData }
    }
}

impl<H, Spawner: TaskSpawner> Scope<H, Enter, Spawner> {
    /// The scope that a body starts with, which makes guards with `guard`.
    pub closed spec fn entered(guard: Guard<H>) -> Self {
        Scope { env: Enter, guard, _spawner: PhantomData }
    }

    fn enter(guard: Guard<H>) -> (scope: Self)
        ensures
            scope == Self::entered(guard),
            scope.env() == Enter,
            scope.guard() == guard,
    {
        Self::new(Enter, guard)
    }

    /// Ends the scope with `value`. Only a scope none of whose tasks is left to wait for ends.
    pub fn finish<R>(self, value: R) -> (scope: Scope<H, Finish<R>, Spawner>)
        ensures
            scope.env().value() == value,
            scope.guard() == self.guard(),
    {
        Scope::new(Finish::new(value), self.guard)
    }
}

impl<H, R, Spawner: TaskSpawner> Scope<H, Finish<R>, Spawner> {
    /// The result that the scope ended with.
    pub fn into_result(self) -> (result: R)
        ensures
            result == self.env().value(),
    {
        self.env.result
    }
}

/// The future of a task: it starts the task when it is first polled, then waits for it.
pub type TaskFuture<'a, R> = Flatten<FutureObj<'a, FutureObj<'a, R>>>;

impl<H: SharedHolder + Send, Env: Spawnable + Future, Spawner: TaskSpawner> Scope<H, Env, Spawner> {
    /// Adds a task to those to wait for: awaiting the scope runs all of them at once.
    pub fn with<'a, R: Send + 'static, F: Future<Output = R> + Send + 'a>(self, future: F) -> (scope:
        Scope<H, Join<Env, TaskFuture<'a, R>>, Spawner>) where H: 'a, H::Guard: 'a, Spawner: 'a
        ensures
            scope.guard() == self.guard(),
            exists|task: TaskFuture<'a, R>, late: FutureObj<'a, FutureObj<'a, R>>|
                {
                    &&& #[trigger] combinators::joins(&scope.env(), &self.env(), &task)
                    &&& #[trigger] combinators::flattens(&task, &late)
                    &&& combinators::calls_when_polled(
                        &late,
                        &task::start::<H, Spawner, R, F>,
                        &self.guard(),
                        &future,
                    )
                },
            exists|task: TaskFuture<'a, R>|
                {
                    &&& #[trigger] combinators::joins(&scope.env(), &self.env(), &task)
                    &&& task::starts_when_polled::<H, Spawner, R, F>(&task, &self.guard(), &future)
                },
            scope.env().awaited() ==> {
                &&& self.env().awaited()
                &&& future.awaited()
                &&& scope.env()@ == (self.env()@, future@)
                &&& exists|now: Polled, handle: FutureObj<'a, R>, made: H::Guard|
                    {
                        &&& #[trigger] task::starts::<H, Spawner, R, F>(
                            &handle,
                            &now,
                            &self.guard(),
                            &future,
                            made,
                        )
                        &&& handle.awaited()
                        &&& handle@ == future@
                        &&& task::released(made)
                    }
            },
    {
        let guard_clone = self.guard.clone();
        let Scope { env, guard, .. } = self;
        assert(env == self.env());
        let task = Self::make_guarded_task(guard_clone, future);
        let handle = combinators::make_join(env, task);
        Scope::new(handle, guard)
    }
}

impl<H: SharedHolder + Send, Env: Spawnable, Spawner: TaskSpawner> Scope<H, Env, Spawner> {
    /// Makes `future` a task to wait for. Awaiting the scope runs the task, and gives this scope
    /// back together with the task's value.
    pub fn spawn<'a, R: Send + 'static, F: Future<Output = R> + Send + 'a>(self, future: F) -> (scope:
        Scope<H, Join<Ready<Self>, TaskFuture<'a, R>>, Spawner>) where
        H: 'a,
        H::Guard: 'a,
        Spawner: 'a,

        ensures
            scope.guard() == self.guard(),
            exists|back: Ready<Self>, task: TaskFuture<'a, R>, late: FutureObj<'a, FutureObj<'a, R>>|
                {
                    &&& combinators::is_ready(&back, &self)
                    &&& #[trigger] combinators::joins(&scope.env(), &back, &task)
                    &&& #[trigger] combinators::flattens(&task, &late)
                    &&& combinators::calls_when_polled(
                        &late,
                        &task::start::<H, Spawner, R, F>,
                        &self.guard(),
                        &future,
                    )
                },
            exists|back: Ready<Self>, task: TaskFuture<'a, R>|
                {
                    &&& combinators::is_ready(&back, &self)
                    &&& #[trigger] combinators::joins(&scope.env(), &back, &task)
                    &&& task::starts_when_polled::<H, Spawner, R, F>(&task, &self.guard(), &future)
                },
            scope.env().awaited() ==> {
                &&& future.awaited()
                &&& scope.env()@ == (self, future@)
                &&& exists|now: Polled, handle: FutureObj<'a, R>, made: H::Guard|
                    {
                        &&& #[trigger] task::starts::<H, Spawner, R, F>(
                            &handle,
                            &now,
                            &self.guard(),
                            &future,
                            made,
                        )
                        &&& handle.awaited()
                        &&& handle@ == future@
                        &&& task::released(made)
                    }
            },
    {
        let (task_guard, scope_guard) = (self.guard.clone(), self.guard.clone());
        let task = Self::make_guarded_task(task_guard, future);
        let back = combinators::make_ready(self);
        let handle = combinators::make_join(back, task);
        Scope::new(handle, scope_guard)
    }

    /// A future that starts `future` as a task when it is first polled, and gives the task's value
    /// once the task gave its guard back. To start a task takes a [`Polled`], which is used up, and
    /// there is none before that poll. So a scope that is dropped waits for the tasks that were
    /// started, and for no others.
    fn make_guarded_task<'a, R: Send + 'static, F: Future<Output = R> + Send + 'a>(
        guard: Guard<H>,
        future: F,
    ) -> (task: TaskFuture<'a, R>) where H: 'a, H::Guard: 'a, Spawner: 'a
        ensures
            exists|late: FutureObj<'a, FutureObj<'a, R>>|
                {
                    &&& #[trigger] combinators::flattens(&task, &late)
                    &&& combinators::calls_when_polled(
                        &late,
                        &task::start::<H, Spawner, R, F>,
                        &guard,
                        &future,
                    )
                },
            task::starts_when_polled::<H, Spawner, R, F>(&task, &guard, &future),
            task.awaited() ==> {
                &&& future.awaited()
                &&& task@ == future@
                &&& exists|now: Polled, handle: FutureObj<'a, R>, made: H::Guard|
                    {
                        &&& #[trigger] task::starts::<H, Spawner, R, F>(
                            &handle,
                            &now,
                            &guard,
                            &future,
                            made,
                        )
                        &&& handle.awaited()
                        &&& handle@ == future@
                        &&& task::released(made)
                    }
            },
    {
        let late = combinators::make_lazy(task::start::<H, Spawner, R, F>, guard, future);
        combinators::make_flatten(late)
    }
}

impl<H, Env: Future, Spawner: TaskSpawner> IntoFuture for Scope<H, Env, Spawner> {
    type Output = Env::Output;

    type IntoFuture = Env;

    /// Awaiting a scope awaits the tasks that it has to wait for.
    fn into_future(self) -> (future: Env)
        ensures
            future == self.env(),
    {
        self.env
    }
}

/// What spawning did: nothing was started. The scope that came of it waits for a future that calls
/// [`task::start`] with the spawned future in its first poll, and gives back the scope that was used up,
/// as it was, together with the value of that future.
pub proof fn law_spawned_task_waits_to_be_awaited<'a, H, Env, R, F, Spawner>(
    scope: Scope<H, Env, Spawner>,
    future: F,
    spawned: Scope<H, Join<Ready<Scope<H, Env, Spawner>>, TaskFuture<'a, R>>, Spawner>,
) where
    H: SharedHolder + Send + 'a,
    H::Guard: 'a,
    Env: Spawnable,
    R: Send + 'static,
    F: Future<Output = R> + Send + 'a,
    Spawner: TaskSpawner + 'a,

    requires
        call_ensures(Scope::<H, Env, Spawner>::spawn::<R, F>, (scope, future), spawned),
    ensures
        spawned.guard() == scope.guard(),
        exists|
            back: Ready<Scope<H, Env, Spawner>>,
            task: TaskFuture<'a, R>,
            late: FutureObj<'a, FutureObj<'a, R>>,
        |
            {
                &&& combinators::is_ready(&back, &scope)
                &&& #[trigger] combinators::joins(&spawned.env(), &back, &task)
                &&& #[trigger] combinators::flattens(&task, &late)
                &&& combinators::calls_when_polled(
                    &late,
                    &task::start::<H, Spawner, R, F>,
                    &scope.guard(),
                    &future,
                )
            },
        spawned.env().awaited() ==> future.awaited() && spawned.env()@ == (scope, future@),
{
}

/// What adding a task did: nothing was started. The scope that came of it waits at once for what it
/// waited for before and for a future that calls [`task::start`] with the added future in its first
/// poll, and gives the values of both.
pub proof fn law_added_task_runs_at_the_same_time<'a, H, Env, R, F, Spawner>(
    scope: Scope<H, Env, Spawner>,
    future: F,
    joined: Scope<H, Join<Env, TaskFuture<'a, R>>, Spawner>,
) where
    H: SharedHolder + Send + 'a,
    H::Guard: 'a,
    Env: Spawnable + Future,
    R: Send + 'static,
    F: Future<Output = R> + Send + 'a,
    Spawner: TaskSpawner + 'a,

    requires
        call_ensures(Scope::<H, Env, Spawner>::with::<R, F>, (scope, future), joined),
    ensures
        joined.guard() == scope.guard(),
        exists|task: TaskFuture<'a, R>, late: FutureObj<'a, FutureObj<'a, R>>|
            {
                &&& #[trigger] combinators::joins(&joined.env(), &scope.env(), &task)
                &&& #[trigger] combinators::flattens(&task, &late)
                &&& combinators::calls_when_polled(
                    &late,
                    &task::start::<H, Spawner, R, F>,
                    &scope.guard(),
                    &future,
                )
            },
        joined.env().awaited() ==> {
            &&& scope.env().awaited()
            &&& future.awaited()
            &&& joined.env()@ == (scope.env()@, future@)
        },
{
}

/// The scope that a body starts with waits for nothing, and makes guards with what it was given.
pub proof fn law_entered_scope_waits_for_nothing<H, Spawner: TaskSpawner>(guard: Guard<H>)
    ensures
        Scope::<H, Enter, Spawner>::entered(guard).env() == Enter,
        Scope::<H, Enter, Spawner>::entered(guard).guard() == guard,
{
}

/// Tasks run at once give all their values, and the scope back as it was: let `scope` spawn `first`
/// (that gives `spawned`), and let that scope take `second` in addition (that gives `joined`).
/// Awaiting the latter gives both values and the scope, which it can do only when both tasks ended.
pub proof fn law_with_after_spawn<H, Env, Env1, Env2, A, B, Spawner: TaskSpawner>(
    scope: Scope<H, Env, Spawner>,
    first: A,
    second: B,
    spawned: Scope<H, Env1, Spawner>,
    joined: Scope<H, Env2, Spawner>,
) where
    A: Future,
    B: Future,
    Env1: Future<Output = (Scope<H, Env, Spawner>, A::Output)>,
    Env2: Future<Output = ((Scope<H, Env, Spawner>, A::Output), B::Output)>,

    requires
        spawned.guard() == scope.guard(),
        spawned.env().awaited() ==> first.awaited() && spawned.env()@ == (scope, first@),
        joined.guard() == spawned.guard(),
        joined.env().awaited() ==> {
            &&& spawned.env().awaited()
            &&& second.awaited()
            &&& joined.env()@ == (spawned.env()@, second@)
        },
    ensures
        joined.guard() == scope.guard(),
        joined.env().awaited() ==> {
            &&& first.awaited()
            &&& second.awaited()
            &&& joined.env()@ == ((scope, first@), second@)
        },
{
}

/// Tasks spawned one on top of the other come back one after the other: let `scope` spawn `first`
/// (that gives `outer`), and let that scope spawn `second` (that gives `nested`). Awaiting the latter
/// gives the value of `second` and `outer` as it was, with `first` still to be awaited. Awaiting that
/// gives the value of `first` and the scope as it was. So a scope that can be finished comes back
/// only when each task spawned on it was awaited.
pub proof fn law_spawn_after_spawn<H, Env, Env1, Env2, A, B, Spawner: TaskSpawner>(
    scope: Scope<H, Env, Spawner>,
    first: A,
    second: B,
    outer: Scope<H, Env1, Spawner>,
    nested: Scope<H, Env2, Spawner>,
) where
    A: Future,
    B: Future,
    Env1: Future<Output = (Scope<H, Env, Spawner>, A::Output)>,
    Env2: Future<Output = (Scope<H, Env1, Spawner>, B::Output)>,

    requires
        outer.guard() == scope.guard(),
        outer.env().awaited() ==> first.awaited() && outer.env()@ == (scope, first@),
        nested.guard() == outer.guard(),
        nested.env().awaited() ==> second.awaited() && nested.env()@ == (outer, second@),
    ensures
        nested.guard() == scope.guard(),
        nested.env().awaited() ==> {
            &&& second.awaited()
            &&& nested.env()@ == (outer, second@)
            &&& nested.env()@.0.env().awaited() ==> {
                &&& first.awaited()
                &&& nested.env()@.0.env()@ == (scope, first@)
            }
        },
{
}

/// What a body ends its scope with is what comes out of the scope, both when no task runs at that
/// moment and when the result has to wait, however often it is asked for meanwhile. `ended` is the
/// scope that the body ended with `value`.
pub proof fn law_finished_value_comes_out<H, Spawner, R, Fut, C>(
    state: FutureState<H, Fut, C>,
    ended: Scope<H, Finish<R>, Spawner>,
    value: R,
    times: nat,
) where
    Spawner: TaskSpawner,
    Fut: Future<Output = Scope<H, Finish<R>, Spawner>>,
    C: FnOnce(H) -> Fut,

    requires
        ended.env().value() == value,
    ensures
        scoped_future::child_step(Poll::Ready(ended), true) matches ChildStep::Return(
            Poll::Ready(out),
        ) && out.env().value() == value,
        state.after_child(Poll::Ready(ended), false).after_waiting(times).drain_outcome(true)
            matches Poll::Ready(out) && out.env().value() == value,
{
    scoped_future::law_result_survives_waiting(state, ended, times);
}

/// `scoped` has not started, and its body can be started with `holder`.
pub open spec fn can_start<H, Fut: Future, C: FnOnce(H) -> Fut>(
    scoped: &ScopedFuture<H, Fut, C>,
    holder: H,
) -> bool {
    &&& scoped.state matches FutureState::NotEntered(Some(body))
    &&& body.requires((holder,))
}

/// `scoped` has not started, and `future` may run its body when it is started with `holder`.
pub open spec fn may_run<H, Fut: Future, C: FnOnce(H) -> Fut>(
    scoped: &ScopedFuture<H, Fut, C>,
    holder: H,
    future: Fut,
) -> bool {
    &&& scoped.state matches FutureState::NotEntered(Some(body))
    &&& body.ensures((holder,), future)
}

/// A scope that has not started can be started when the body that it holds can, and runs what that
/// body gives.
pub proof fn law_start_of_a_scope_is_its_body<H, Fut: Future, C: FnOnce(H) -> Fut>(
    scoped: ScopedFuture<H, Fut, C>,
    body: C,
    holder: H,
    future: Fut,
)
    requires
        scoped.state == FutureState::<H, Fut, C>::NotEntered(Some(body)),
    ensures
        can_start(&scoped, holder) <==> body.requires((holder,)),
        may_run(&scoped, holder, future) <==> body.ensures((holder,), future),
{
}

/// A scope whose body is `closure`. The body gets the scope to spawn tasks with, and has to end it:
/// see [`Scope::into_result`] for the result.
pub fn generic_scope<H, Spawner, R, Fut, C>(closure: C) -> (scoped: ScopedFuture<
    H,
    Fut,
    impl FnOnce(H) -> Fut,
>) where
    Spawner: TaskSpawner,
    Fut: Future<Output = Scope<H, Finish<R>, Spawner>>,
    C: FnOnce(Scope<H, Enter, Spawner>) -> Fut,

    ensures
        scoped.state matches FutureState::NotEntered(Some(_)),
        forall|holder: H|
            combinators::accepts(&closure, Scope::entered(Guard::of(holder))) ==> #[trigger] can_start(
                &scoped,
                holder,
            ),
        forall|holder: H, future: Fut| #[trigger]
            may_run(&scoped, holder, future) ==> combinators::yields(
                &closure,
                Scope::entered(Guard::of(holder)),
                future,
            ),
{
    ScopedFuture::new(
        move |holder: H| -> (future: Fut)
            requires combinators::accepts(&closure, Scope::entered(Guard::of(holder)))
            ensures combinators::yields(&closure, Scope::entered(Guard::of(holder)), future)
        { closure(Scope::enter(Guard::new(holder))) },
    )
}

} // verus!
