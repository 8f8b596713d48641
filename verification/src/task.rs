//! Child tasks: how they are started, and the guard that each holds until it ended.
use core::future::Future;

use futures::future::{Flatten, Join, Ready};
use futures::task::FutureObj;
use vstd::future::FutureAdditionalSpecFns;
use vstd::prelude::*;

use crate::calls;
use crate::combinators;
use crate::combinators::{MayCount, MayStart, Polled};

verus! {

/// A future that a runtime is to run as a task, together with the guard that it holds until it ended.
/// Only [`start`] makes one. So what the future borrows stays in place until the task ended.
#[derive(Debug)]
pub struct Task<F> {
    child: F,
    _now: MayStart,
}

impl<F> Task<F> {
    /// The task that runs `child`, started by leave of `now`.
    pub closed spec fn of(now: MayStart, child: F) -> Self {
        Task { child, _now: now }
    }

    /// The future to run.
    pub closed spec fn future(&self) -> F {
        self.child
    }

    fn new(now: MayStart, child: F) -> (task: Self)
        ensures
            task == Self::of(now, child),
            task.future() == child,
    {
        Task { child, _now: now }
    }

    /// The future to run. It has to be dropped when it ended, and also when it panicked: then its
    /// guard goes back with it.
    pub fn into_future(self) -> (future: F)
        ensures
            future == self.future(),
    {
        self.child
    }
}

/// Starts tasks on a runtime, so that scopes can be used with it.
pub trait TaskSpawner {
    /// Starts the future of `task` as a task of its own. The future that comes back gives the task's
    /// value once the task ended.
    ///
    /// The task may borrow for less than the whole run of the program. A runtime that takes no such
    /// task may lengthen the time: only a scope makes a [`Task`], and it keeps what the task borrows
    /// in place until the task's guard is given back.
    fn spawn<'a, R: Send + 'static, F: Future<Output = R> + Send + 'a>(task: Task<F>) -> (handle:
        FutureObj<'a, R>)
        ensures
            handle.awaited() ==> {
                &&& task.future().awaited()
                &&& handle@ == task.future()@
            },
    ;
}

/// A guard that is counted by the holder of a scope.
pub trait CountedGuard: Sized {
    /// Gives the guard back: it is counted no more.
    fn release(self);
}

/// A handle through which the tasks of a scope reach the one
/// [`CompletenessHolder`](crate::holder::CompletenessHolder) that counts them.
pub trait SharedHolder: Copy {
    /// Stands for a counted [`CompletenessGuard`](crate::holder::CompletenessGuard). Where it is not
    /// released, for its task was dropped on its way, it gives itself back when it is dropped.
    type Guard: CountedGuard + Send;

    /// Makes a guard of the holder, in the poll in which a task is started.
    fn make_guard(&self, now: MayCount) -> Self::Guard;
}

/// Lets a scope make guards.
#[derive(Debug)]
pub struct Guard<H> {
    completeness_holder: H,
}

impl<H: Copy> Clone for Guard<H> {
    fn clone(&self) -> (guard: Self)
        ensures
            guard == *self,
    {
        Guard { completeness_holder: self.completeness_holder }
    }
}

impl<H> Guard<H> {
    /// The handle that guards are made through.
    pub closed spec fn holder(&self) -> H {
        self.completeness_holder
    }

    /// The guard of a scope whose holder `holder` reaches.
    pub closed spec fn of(holder: H) -> Self {
        Guard { completeness_holder: holder }
    }

    pub(crate) fn new(completeness_holder: H) -> (guard: Self)
        ensures
            guard == Self::of(completeness_holder),
            guard.holder() == completeness_holder,
    {
        Guard { completeness_holder }
    }
}

/// The guard was given back.
pub open spec fn released<G: CountedGuard>(guard: G) -> bool {
    call_ensures(G::release, (guard,), ())
}

/// The last thing that a task does: its future ended with a value, and its guard is given back.
pub fn give_back<R, G: CountedGuard>(ended: (R, G)) -> (out: R)
    ensures
        out == ended.0,
        released(ended.1),
        call_ensures(G::release, (ended.1,), ()),
{
    let (out, guard) = ended;
    calls::call_one(G::release, guard);
    out
}

/// `made` is a guard of the holder that `guard` reaches, made in a poll. `now` does not tell which:
/// see [`Polled`].
pub open spec fn makes<H: SharedHolder>(guard: &Guard<H>, now: &Polled, made: H::Guard) -> bool {
    call_ensures(H::make_guard, (&guard.holder(), now.may_count()), made)
}

/// `child` waits for `future`, has `guard` with it meanwhile, and hands both the value of `future`
/// and `guard` over to `last`.
pub open spec fn guarded<R, G, F: Future<Output = R>, L: FnOnce((R, G)) -> R>(
    child: &futures::future::Map<Join<F, Ready<G>>, L>,
    future: &F,
    guard: &G,
    last: &L,
) -> bool {
    exists|kept: Ready<G>, both: Join<F, Ready<G>>|
        {
            &&& combinators::is_ready(&kept, guard)
            &&& #[trigger] combinators::joins(&both, future, &kept)
            &&& combinators::maps(child, &both, last)
        }
}

/// `handle` is what the runtime gave when `child` was started as a task, in a poll. `now` does not
/// tell which: see [`Polled`].
pub open spec fn runs<
    'a,
    Spawner: TaskSpawner,
    R: Send + 'static,
    F: Future<Output = R> + Send + 'a,
>(handle: &FutureObj<'a, R>, now: &Polled, child: &F) -> bool {
    call_ensures(Spawner::spawn::<R, F>, (Task::of(now.may_start(), *child),), *handle)
}

/// `future` was started as a task, in a poll: `made` is a guard of the holder that `guard` reaches, the
/// runtime was handed a future that has it along and gives it back when `future` ended, and `handle` is
/// what the runtime gave. `now` does not tell the poll from others: see [`Polled`].
pub open spec fn starts<
    'a,
    H: SharedHolder,
    Spawner: TaskSpawner,
    R: Send + 'static,
    F: Future<Output = R> + Send + 'a,
>(
    handle: &FutureObj<'a, R>,
    now: &Polled,
    guard: &Guard<H>,
    future: &F,
    made: H::Guard,
) -> bool where H::Guard: 'a {
    &&& makes(guard, now, made)
    &&& exists|child|
        {
            &&& #[trigger] guarded(&child, future, &made, &give_back::<R, H::Guard>)
            &&& runs::<Spawner, R, _>(handle, now, &child)
        }
}

/// Hands `task` over to the runtime.
fn hand_over<'a, Spawner: TaskSpawner, R: Send + 'static, F: Future<Output = R> + Send + 'a>(
    task: Task<F>,
) -> (handle: FutureObj<'a, R>)
    ensures
        call_ensures(Spawner::spawn::<R, F>, (task,), handle),
        handle.awaited() ==> {
            &&& task.future().awaited()
            &&& handle@ == task.future()@
        },
{
    calls::call_one(Spawner::spawn::<R, F>, task)
}

/// Starts `future` as a task, in the poll `now`: makes a guard first, and sends it along with the
/// task, to be given back when the task's future ended. The poll is used up, so it makes one guard
/// and starts one task.
///
/// When the task's future does not end, for it panicked or the runtime drops it on its way, the
/// guard goes back when the runtime drops what it was handed, after `future`.
pub fn start<
    'a,
    H: SharedHolder,
    Spawner: TaskSpawner,
    R: Send + 'static,
    F: Future<Output = R> + Send + 'a,
>(now: Polled, guard: Guard<H>, future: F) -> (handle: FutureObj<'a, R>) where H::Guard: 'a
    ensures
        // The runtime runs a future that waits for `future` with the guard at its side, and releases
        // the guard when it has the value of `future` in hand.
        exists|made: H::Guard, kept: Ready<H::Guard>, both: Join<F, Ready<H::Guard>>, child|
            {
                &&& call_ensures(H::make_guard, (&guard.holder(), now.may_count()), made)
                &&& #[trigger] combinators::is_ready(&kept, &made)
                &&& #[trigger] combinators::joins(&both, &future, &kept)
                &&& #[trigger] combinators::maps(&child, &both, &give_back::<R, H::Guard>)
                &&& call_ensures(
                    Spawner::spawn::<R, _>,
                    (Task::of(now.may_start(), child),),
                    handle,
                )
                &&& handle.awaited() ==> call_ensures(H::Guard::release, (made,), ())
            },
        exists|made: H::Guard|
            {
                &&& #[trigger] starts::<H, Spawner, R, F>(&handle, &now, &guard, &future, made)
                &&& handle.awaited() ==> released(made)
            },
        handle.awaited() ==> {
            &&& future.awaited()
            &&& handle@ == future@
        },
{
    let ghost poll = now;
    let (may_count, may_start) = now.split();
    let made = calls::call_two(H::make_guard, &guard.completeness_holder, may_count);
    let ghost shown = made;
    assert(makes(&guard, &poll, shown));
    let kept = combinators::make_ready(made);
    let both = combinators::make_join(future, kept);
    let child = combinators::make_map(both, give_back::<R, H::Guard>);
    assert(guarded(&child, &future, &shown, &give_back::<R, H::Guard>));
    let ghost task_future = child;
    let handle = hand_over::<Spawner, R, _>(Task::new(may_start, child));
    assert(runs::<Spawner, R, _>(&handle, &poll, &task_future));
    assert(starts::<H, Spawner, R, F>(&handle, &poll, &guard, &future, shown));
    handle
}

/// `task` starts `future` as a task when it is first polled, by [`start`] and with a guard of `guard`,
/// and waits for the handle that comes of it.
pub open spec fn starts_when_polled<
    'a,
    H: SharedHolder + Send + 'a,
    Spawner: TaskSpawner + 'a,
    R: Send + 'static,
    F: Future<Output = R> + Send + 'a,
>(task: &Flatten<FutureObj<'a, FutureObj<'a, R>>>, guard: &Guard<H>, future: &F) -> bool where
    H::Guard: 'a,
 {
    exists|late: FutureObj<'a, FutureObj<'a, R>>|
        {
            &&& #[trigger] combinators::flattens(task, &late)
            &&& combinators::calls_when_polled(&late, &start::<H, Spawner, R, F>, guard, future)
        }
}

/// A guard counts as given back when it was released, and as made when the holder made it.
pub proof fn law_guard_is_made_and_released_by_its_holder<H: SharedHolder>(
    guard: Guard<H>,
    now: Polled,
    made: H::Guard,
)
    ensures
        released(made) ==> call_ensures(H::Guard::release, (made,), ()),
        makes(&guard, &now, made) ==> call_ensures(
            H::make_guard,
            (&guard.holder(), now.may_count()),
            made,
        ),
{
}

/// What a scope makes guards with reaches the holder that it was made with.
pub proof fn law_guard_reaches_its_holder<H>(holder: H)
    ensures
        Guard::of(holder).holder() == holder,
{
}

/// The runtime gets the future that it is to run, and no other.
pub proof fn law_task_carries_its_future<F>(now: MayStart, child: F)
    ensures
        Task::of(now, child).future() == child,
{
}

/// Where a guard was made for a task and the runtime was handed the task, what the runtime runs is this:
/// it waits for the task's future with the guard at its side, and hands both the value of that future
/// and the guard over to [`give_back`]. So the guard is released with the value in hand, and not
/// before, whatever the task's value and future are.
pub proof fn law_started_task_owns_its_guard<
    'a,
    H: SharedHolder,
    Spawner: TaskSpawner,
    R: Send + 'static,
    F: Future<Output = R> + Send + 'a,
>(handle: FutureObj<'a, R>, now: Polled, guard: Guard<H>, future: F, made: H::Guard) where H::Guard: 'a
    requires
        starts::<H, Spawner, R, F>(&handle, &now, &guard, &future, made),
    ensures
        call_ensures(H::make_guard, (&guard.holder(), now.may_count()), made),
        exists|kept: Ready<H::Guard>, both: Join<F, Ready<H::Guard>>, child|
            {
                &&& combinators::is_ready(&kept, &made)
                &&& #[trigger] combinators::joins(&both, &future, &kept)
                &&& #[trigger] combinators::maps(&child, &both, &give_back::<R, H::Guard>)
                &&& call_ensures(
                    Spawner::spawn::<R, _>,
                    (Task::of(now.may_start(), child),),
                    handle,
                )
            },
{
}

/// What [`start`] did, whatever the task's value and future are: it made a guard, and the runtime was
/// handed a future that owns it. When the handle gave the value, the future ended, that value is the
/// future's own, and the very guard that the runtime was handed is released.
pub proof fn law_start_hands_the_guard_over<
    'a,
    H: SharedHolder,
    Spawner: TaskSpawner,
    R: Send + 'static,
    F: Future<Output = R> + Send + 'a,
>(handle: FutureObj<'a, R>, now: Polled, guard: Guard<H>, future: F) where H::Guard: 'a
    requires
        call_ensures(start::<H, Spawner, R, F>, (now, guard, future), handle),
    ensures
        exists|made: H::Guard, kept: Ready<H::Guard>, both: Join<F, Ready<H::Guard>>, child|
            {
                &&& call_ensures(H::make_guard, (&guard.holder(), now.may_count()), made)
                &&& #[trigger] combinators::is_ready(&kept, &made)
                &&& #[trigger] combinators::joins(&both, &future, &kept)
                &&& #[trigger] combinators::maps(&child, &both, &give_back::<R, H::Guard>)
                &&& call_ensures(
                    Spawner::spawn::<R, _>,
                    (Task::of(now.may_start(), child),),
                    handle,
                )
                &&& handle.awaited() ==> call_ensures(H::Guard::release, (made,), ())
            },
        handle.awaited() ==> future.awaited() && handle@ == future@,
{
}

/// A future that has a guard with it ends when its own future ended, with its value, and then the guard
/// is released.
pub proof fn law_guarded_future_releases_at_its_end<R, G: CountedGuard, F: Future<Output = R>, L>(
    child: futures::future::Map<Join<F, Ready<G>>, L>,
    future: F,
    guard: G,
    last: L,
) where L: FnOnce((R, G)) -> R
    requires
        guarded(&child, &future, &guard, &last),
        forall|ended: (R, G), out: R| #[trigger]
            last.ensures((ended,), out) ==> out == ended.0 && call_ensures(
                G::release,
                (ended.1,),
                (),
            ),
    ensures
        child.awaited() ==> {
            &&& future.awaited()
            &&& child@ == future@
            &&& call_ensures(G::release, (guard,), ())
        },
{
    let (kept, both) = choose|kept: Ready<G>, both: Join<F, Ready<G>>|
        {
            &&& combinators::is_ready(&kept, &guard)
            &&& #[trigger] combinators::joins(&both, &future, &kept)
            &&& combinators::maps(&child, &both, &last)
        };
    combinators::law_ready_gives_its_value(kept, guard);
    combinators::law_join_waits_for_both(both, future, kept);
    combinators::law_map_calls_with_the_value(child, both, last);
}

/// The future of a task does nothing but call [`start`], with the guard and the future that it was made
/// with, in its first poll, and wait for what comes of it.
pub proof fn law_task_is_started_in_a_poll<
    'a,
    H: SharedHolder + Send + 'a,
    Spawner: TaskSpawner + 'a,
    R: Send + 'static,
    F: Future<Output = R> + Send + 'a,
>(task: Flatten<FutureObj<'a, FutureObj<'a, R>>>, guard: Guard<H>, future: F) where H::Guard: 'a
    requires
        starts_when_polled::<H, Spawner, R, F>(&task, &guard, &future),
    ensures
        exists|late: FutureObj<'a, FutureObj<'a, R>>|
            {
                &&& #[trigger] combinators::flattens(&task, &late)
                &&& combinators::calls_when_polled(
                    &late,
                    &start::<H, Spawner, R, F>,
                    &guard,
                    &future,
                )
            },
{
}

} // verus!
