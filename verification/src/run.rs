//! What holds over every run of a scope: its body spawns tasks and awaits them, the tasks start and
//! end, and somebody waits for them.
//!
//! Tasks are told apart by numbers. The steps of a run come in any order that [`legal`] allows, which
//! is what the contracts of [`Scope`](crate::scope::Scope) and [`start`](crate::task::start) leave
//! open.
use core::future::Future;

use vstd::prelude::*;

use crate::history;
use crate::history::Event;
use crate::holder::{Ledger, MAX_REFCOUNT};
use crate::poll::Poll;
use crate::scoped_future;
use crate::scoped_future::{AsyncClosure, BlockStep, ChildStep, DropAction, DropMode, FutureState};

verus! {

/// One step of a run.
pub enum Step<W> {
    /// The body uses its scope up for one that waits for the task, and then gives the scope back.
    Spawn(nat),
    /// The body lets its scope wait for the task in addition, at the same time.
    With(nat),
    /// The body gets the scope back that it spawned on: what it awaited has come to an end.
    GetBack,
    /// In the first poll of what waits for it, the task is started: its guard is made.
    Start(nat),
    /// The future of the task ended, or was dropped.
    End(nat),
    /// The guard of the task is given back: the count goes down.
    GiveBack(nat),
    /// The body drops the scope that it has, with what was spawned on it, awaited in part or not at
    /// all. It gets no scope back after that.
    Abandon,
    /// The whole scope is dropped: its body is polled no more, however far it has come.
    Drop,
    /// A waker waits, in place of whoever waited before.
    Register(W),
    /// A guard is given back: the due waker, if there is one, is called.
    Settle,
}

/// What the holder sees of a run.
pub open spec fn events<W>(steps: Seq<Step<W>>) -> Seq<Event<W>>
    decreases steps.len(),
{
    if steps.len() == 0 {
        Seq::empty()
    } else {
        let earlier = events(steps.drop_last());
        match steps.last() {
            Step::Start(_) => earlier.push(Event::Inc),
            Step::GiveBack(_) => earlier.push(Event::Dec),
            Step::Register(waker) => earlier.push(Event::Register(waker)),
            Step::Settle => earlier.push(Event::Settle),
            _ => earlier,
        }
    }
}

/// The ledger of the scope's holder after a run.
pub open spec fn ledger<W>(steps: Seq<Step<W>>) -> Ledger<W> {
    history::replay(Ledger::fresh(), events(steps))
}

/// The tasks that the body's scope has to wait for. The last set is what awaiting the scope runs, all
/// at once; awaiting what comes back then runs the set before it, and so on.
pub open spec fn awaiting<W>(steps: Seq<Step<W>>) -> Seq<Set<nat>>
    decreases steps.len(),
{
    if steps.len() == 0 {
        Seq::empty()
    } else {
        let sets = awaiting(steps.drop_last());
        match steps.last() {
            Step::Spawn(task) => sets.push(set![task]),
            Step::With(task) => sets.drop_last().push(sets.last().insert(task)),
            Step::GetBack => sets.drop_last(),
            _ => sets,
        }
    }
}

/// The body's scope is in the state [`Enter`](crate::scope::Enter), the only one that can be finished.
pub open spec fn can_finish<W>(steps: Seq<Step<W>>) -> bool {
    awaiting(steps).len() == 0 && !abandoned(steps)
}

/// The body dropped the scope that it had.
pub open spec fn abandoned<W>(steps: Seq<Step<W>>) -> bool {
    steps.contains(Step::Abandon)
}

/// The whole scope was dropped.
pub open spec fn dropped<W>(steps: Seq<Step<W>>) -> bool {
    steps.contains(Step::Drop)
}

/// The body made `task` a task to wait for.
pub open spec fn spawned<W>(steps: Seq<Step<W>>, task: nat) -> bool {
    steps.contains(Step::Spawn(task)) || steps.contains(Step::With(task))
}

/// `task` was started.
pub open spec fn started<W>(steps: Seq<Step<W>>, task: nat) -> bool {
    steps.contains(Step::Start(task))
}

/// `task` ended.
pub open spec fn ended<W>(steps: Seq<Step<W>>, task: nat) -> bool {
    steps.contains(Step::End(task))
}

/// `task` gave its guard back.
pub open spec fn gave_back<W>(steps: Seq<Step<W>>, task: nat) -> bool {
    steps.contains(Step::GiveBack(task))
}

/// The body has a scope, and is polled.
pub open spec fn goes_on<W>(steps: Seq<Step<W>>) -> bool {
    !abandoned(steps) && !dropped(steps)
}

/// `step` may follow `steps`.
pub open spec fn may_follow<W>(steps: Seq<Step<W>>, step: Step<W>) -> bool {
    match step {
        Step::Spawn(task) => goes_on(steps) && !spawned(steps, task),
        // `Scope::with` is there for scopes that wait for a task.
        Step::With(task) => {
            &&& goes_on(steps)
            &&& !spawned(steps, task)
            &&& awaiting(steps).len() > 0
        },
        // The contracts of `Scope::spawn` and `Scope::with`: a scope comes back when all that it
        // waited for was awaited, and of each task that was awaited the guard was given back
        // (`task::released`).
        Step::GetBack => {
            &&& goes_on(steps)
            &&& awaiting(steps).len() > 0
            &&& forall|task: nat|
                awaiting(steps).last().contains(task) ==> #[trigger] gave_back(steps, task)
        },
        // Only awaiting polls. `task::start` uses the first poll up and makes one guard, and
        // `CompletenessHolder::make_guard` admits it.
        Step::Start(task) => {
            &&& goes_on(steps)
            &&& awaiting(steps).len() > 0
            &&& awaiting(steps).last().contains(task)
            &&& !started(steps, task)
            &&& ledger(steps).count <= MAX_REFCOUNT
        },
        Step::End(task) => started(steps, task),
        // The task has its guard with it (`task::guarded`) and releases it in `task::give_back`,
        // or drops it, after its future. Either uses the guard up.
        Step::GiveBack(task) => ended(steps, task) && !gave_back(steps, task),
        Step::Abandon => goes_on(steps),
        Step::Drop => !dropped(steps),
        Step::Register(_) => true,
        Step::Settle => true,
    }
}

/// Every step of the run may follow those before it.
pub open spec fn legal<W>(steps: Seq<Step<W>>) -> bool
    decreases steps.len(),
{
    steps.len() > 0 ==> {
        &&& legal(steps.drop_last())
        &&& may_follow(steps.drop_last(), steps.last())
    }
}

/// Every task that was started has ended, and given its guard back.
pub open spec fn all_over<W>(steps: Seq<Step<W>>) -> bool {
    forall|task: nat| #[trigger]
        started(steps, task) ==> ended(steps, task) && gave_back(steps, task)
}

/// The tasks that were started and have not given their guards back.
pub open spec fn running<W>(steps: Seq<Step<W>>) -> Set<nat>
    decreases steps.len(),
{
    if steps.len() == 0 {
        Set::empty()
    } else {
        let earlier = running(steps.drop_last());
        match steps.last() {
            Step::Start(task) => earlier.insert(task),
            Step::GiveBack(task) => earlier.remove(task),
            _ => earlier,
        }
    }
}

/// What a run did is what it did before its last step, and its last step.
proof fn lemma_last_step<W>(steps: Seq<Step<W>>)
    requires
        steps.len() > 0,
    ensures
        forall|task: nat| #[trigger]
            spawned(steps, task) <==> spawned(steps.drop_last(), task) || steps.last() == Step::<
                W,
            >::Spawn(task) || steps.last() == Step::<W>::With(task),
        forall|task: nat| #[trigger]
            started(steps, task) <==> started(steps.drop_last(), task) || steps.last() == Step::<
                W,
            >::Start(task),
        forall|task: nat| #[trigger]
            ended(steps, task) <==> ended(steps.drop_last(), task) || steps.last() == Step::<W>::End(
                task,
            ),
        forall|task: nat| #[trigger]
            gave_back(steps, task) <==> gave_back(steps.drop_last(), task) || steps.last() == Step::<
                W,
            >::GiveBack(task),
        abandoned(steps) <==> abandoned(steps.drop_last()) || steps.last() == Step::<W>::Abandon,
        dropped(steps) <==> dropped(steps.drop_last()) || steps.last() == Step::<W>::Drop,
{
    let rest = steps.drop_last();
    assert forall|step: Step<W>| #[trigger]
        steps.contains(step) == (rest.contains(step) || step == steps.last()) by {
        assert(steps[steps.len() - 1] == steps.last());
        if steps.contains(step) && step != steps.last() {
            let i = choose|i: int| 0 <= i < steps.len() && steps[i] == step;
            assert(rest[i] == step);
        }
        if rest.contains(step) {
            let i = choose|i: int| 0 <= i < rest.len() && rest[i] == step;
            assert(steps[i] == step);
        }
    }
}

/// A task is spawned before it is started, ends after that, and gives its guard back at last. The
/// scope waits for each task that was spawned, until the task gave its guard back.
proof fn lemma_order<W>(steps: Seq<Step<W>>)
    requires
        legal(steps),
    ensures
        forall|task: nat| #[trigger] gave_back(steps, task) ==> ended(steps, task),
        forall|task: nat| #[trigger] ended(steps, task) ==> started(steps, task),
        forall|task: nat| #[trigger] started(steps, task) ==> spawned(steps, task),
        forall|task: nat| #[trigger]
            spawned(steps, task) ==> gave_back(steps, task) || exists|i: int|
                0 <= i < awaiting(steps).len() && (#[trigger] awaiting(steps)[i]).contains(task),
        forall|i: int, task: nat|
            0 <= i < awaiting(steps).len() && #[trigger] awaiting(steps)[i].contains(task) ==> spawned(
                steps,
                task,
            ),
    decreases steps.len(),
{
    if steps.len() > 0 {
        let rest = steps.drop_last();
        lemma_order(rest);
        lemma_last_step(steps);
        let old_sets = awaiting(rest);
        let new_sets = awaiting(steps);
        assert forall|task: nat| #[trigger] spawned(steps, task) implies gave_back(steps, task)
            || exists|i: int| 0 <= i < new_sets.len() && (#[trigger] new_sets[i]).contains(task) by {
            if spawned(rest, task) {
                if !gave_back(rest, task) {
                    let i = choose|i: int|
                        0 <= i < old_sets.len() && (#[trigger] old_sets[i]).contains(task);
                    if i < new_sets.len() {
                        assert(new_sets[i].contains(task));
                    } else {
                        assert(old_sets.last().contains(task));
                        assert(gave_back(rest, task));
                    }
                }
            } else {
                assert(new_sets[new_sets.len() - 1].contains(task));
            }
        }
        assert forall|i: int, task: nat|
            0 <= i < new_sets.len() && #[trigger] new_sets[i].contains(task) implies spawned(
            steps,
            task,
        ) by {
            if i < old_sets.len() && old_sets[i].contains(task) {
                assert(spawned(rest, task));
            }
        }
    }
}

/// The count is the number of running tasks.
proof fn lemma_count_is_running<W>(steps: Seq<Step<W>>)
    requires
        legal(steps),
    ensures
        running(steps).finite(),
        running(steps).len() == ledger(steps).count,
        forall|task: nat| #[trigger]
            running(steps).contains(task) <==> started(steps, task) && !gave_back(steps, task),
    decreases steps.len(),
{
    if steps.len() > 0 {
        let rest = steps.drop_last();
        lemma_count_is_running(rest);
        lemma_last_step(steps);
        lemma_order(rest);
        if events(steps) != events(rest) {
            assert(events(steps).drop_last() =~= events(rest));
        }
    }
}

/// Once no guard is out, and not before, every started task is over.
proof fn lemma_completed_means_all_over<W>(steps: Seq<Step<W>>)
    requires
        legal(steps),
    ensures
        ledger(steps).completed() <==> all_over(steps),
{
    lemma_count_is_running(steps);
    lemma_order(steps);
    if ledger(steps).completed() {
        assert(running(steps) =~= Set::empty());
        assert forall|task: nat| #[trigger] started(steps, task) implies ended(steps, task)
            && gave_back(steps, task) by {
            assert(!running(steps).contains(task));
        }
    } else if all_over(steps) {
        let task = running(steps).choose();
        assert(running(steps).contains(task));
    }
}

/// A scope hands out its result only when every task that was started has ended, both when its body
/// just ended and when the result was kept. A task that was not started is not waited for: when all
/// started ones are over, the result is handed out.
pub proof fn law_result_comes_after_every_task<W, H, Fut: Future, C: AsyncClosure<H, Fut>>(
    steps: Seq<Step<W>>,
    state: FutureState<H, Fut, C>,
    polled: Poll<<C::OutputFuture as Future>::Output>,
)
    requires
        legal(steps),
    ensures
        ({
            let completed = ledger(steps).completed();
            &&& polled is Ready ==> (scoped_future::child_step(polled, completed)
                == ChildStep::Return(polled) <==> all_over(steps))
            &&& state.drain_outcome(completed) is Ready <==> all_over(steps)
            &&& polled is Pending ==> scoped_future::child_step(polled, completed)
                == ChildStep::Return(polled)
        }),
{
    lemma_completed_means_all_over(steps);
}

/// A scope is gone only when every task that was started has ended: that is when it is dropped
/// without further ado, and when a thread that waits for its tasks goes on. A task that was not started
/// is not waited for. While a started task is not over, a blocking drop waits, and the other refuses
/// and reports how many tasks are running.
pub proof fn law_drop_comes_after_every_task<W>(steps: Seq<Step<W>>, mode: DropMode)
    requires
        legal(steps),
    ensures
        scoped_future::drop_action(ledger(steps), mode) is Proceed <==> all_over(steps),
        scoped_future::block_step(ledger(steps)) == BlockStep::Return <==> all_over(steps),
        !all_over(steps) && mode == DropMode::Blocking ==> scoped_future::drop_action(
            ledger(steps),
            mode,
        ) == DropAction::BlockThread,
        !all_over(steps) && mode == DropMode::AsyncDrop ==> scoped_future::drop_action(
            ledger(steps),
            mode,
        ) is Refuse,
        scoped_future::drop_action(ledger(steps), mode) matches DropAction::Refuse(count) ==> count
            == running(steps).len(),
        forall|task: nat| #[trigger]
            running(steps).contains(task) <==> started(steps, task) && !gave_back(steps, task),
{
    lemma_completed_means_all_over(steps);
    lemma_count_is_running(steps);
}

/// A scope that can be finished has no task left, whatever was spawned on it before and in whatever
/// way: each task was started, has ended and gave its guard back, and no guard is out.
pub proof fn law_finish_leaves_no_task<W>(steps: Seq<Step<W>>)
    requires
        legal(steps),
        can_finish(steps),
    ensures
        forall|task: nat| #[trigger]
            spawned(steps, task) ==> started(steps, task) && ended(steps, task) && gave_back(
                steps,
                task,
            ),
        ledger(steps).completed(),
{
    lemma_order(steps);
    lemma_completed_means_all_over(steps);
}

/// A scope that is dropped starts nothing more, whether its body drops the scope that it has or the
/// whole scope goes: only tasks that ran at that moment are waited for. A body
/// that dropped the scope that it had has none to finish.
pub proof fn law_nothing_starts_after_drop<W>(steps: Seq<Step<W>>, at: int)
    requires
        legal(steps),
        0 <= at < steps.len(),
        steps[at] is Drop || steps[at] is Abandon,
    ensures
        forall|task: nat| #[trigger] started(steps, task) ==> started(steps.take(at), task),
        running(steps).subset_of(running(steps.take(at))),
        all_over(steps.take(at)) ==> ledger(steps).completed(),
        steps[at] is Abandon ==> !can_finish(steps),
    decreases steps.len(),
{
    assert(steps.contains(steps[at]));
    let rest = steps.drop_last();
    lemma_last_step(steps);
    lemma_order(rest);
    if at < steps.len() - 1 {
        assert(rest[at] == Step::<W>::Drop || rest[at] == Step::<W>::Abandon);
        assert(!goes_on(rest));
        law_nothing_starts_after_drop(rest, at);
        assert(rest.take(at) =~= steps.take(at));
    } else {
        assert(rest =~= steps.take(at));
        lemma_completed_means_all_over(rest);
    }
    lemma_completed_means_all_over(steps);
}

/// In a run no guard is given back that is not out, and the count never runs over the top. So what
/// holds of every paired history of a holder holds of what the holder sees of a run: see [`history`].
pub proof fn law_run_is_paired<W>(steps: Seq<Step<W>>)
    requires
        legal(steps),
    ensures
        history::paired(Ledger::<W>::fresh(), events(steps)),
    decreases steps.len(),
{
    if steps.len() > 0 {
        let fresh = Ledger::<W>::fresh();
        let rest = steps.drop_last();
        let earlier = events(rest);
        let all = events(steps);
        law_run_is_paired(rest);
        lemma_count_is_running(rest);
        lemma_order(rest);
        assert forall|i: int| 0 <= i < all.len() implies {
            &&& #[trigger] all[i] is Dec ==> history::before(fresh, all, i).count > 0
            &&& all[i] is Inc ==> history::before(fresh, all, i).count < usize::MAX
        } by {
            if i < earlier.len() {
                assert(all.take(i) =~= earlier.take(i));
                assert(all[i] == earlier[i]);
            } else {
                assert(all.take(i) =~= earlier);
                if let Step::GiveBack(task) = steps.last() {
                    assert(running(rest).contains(task));
                }
            }
        }
    }
}

/// Tasks that are not polled count nothing. However many tasks a body spawns, and whether it drops
/// them unpolled or the whole scope goes: as long as it awaits nothing, no task is started and the count
/// is what it was, whatever it was. `from` is where that begins.
pub proof fn law_unpolled_tasks_count_nothing<W>(steps: Seq<Step<W>>, from: int)
    requires
        0 <= from <= steps.len(),
        forall|i: int|
            from <= i < steps.len() ==> #[trigger] steps[i] is Spawn || steps[i] is With || steps[i]
                is Abandon || steps[i] is Drop,
    ensures
        forall|task: nat| #[trigger]
            started(steps, task) <==> started(steps.take(from), task),
        ledger(steps) == ledger(steps.take(from)),
    decreases steps.len(),
{
    if from < steps.len() {
        let rest = steps.drop_last();
        assert forall|i: int| from <= i < rest.len() implies #[trigger] rest[i] is Spawn || rest[i]
            is With || rest[i] is Abandon || rest[i] is Drop by {
            assert(rest[i] == steps[i]);
        }
        law_unpolled_tasks_count_nothing(rest, from);
        lemma_last_step(steps);
        assert(rest.take(from) =~= steps.take(from));
        assert(steps[steps.len() - 1] == steps.last());
    } else {
        assert(steps.take(from) =~= steps);
    }
}

} // verus!
