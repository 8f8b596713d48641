//! The future of a whole scope: it runs the scope's body, and hands out the body's result only
//! when no child task is left.
use core::future::Future;

use vstd::prelude::*;

use crate::history;
use crate::history::Event;
use crate::holder::{CompletenessHolder, Ledger};
use crate::poll::Poll;

verus! {

/// A body of a scope that has not started: called once with a handle on the holder, it gives the
/// future that runs the body.
pub trait AsyncClosure<H, Fut: Future>: Sized {
    type OutputFuture: Future;

    type Output;

    /// Whether the body can be called with `arg`.
    spec fn accepts(self, arg: H) -> bool;

    /// Whether `future` is what the body may give when called with `arg`.
    spec fn yields(self, arg: H, future: Self::OutputFuture) -> bool;

    fn call(self, arg: H) -> (future: Self::OutputFuture)
        requires
            self.accepts(arg),
        ensures
            self.yields(arg, future),
    ;
}

impl<H, Fut: Future, F: FnOnce(H) -> Fut> AsyncClosure<H, Fut> for F {
    type OutputFuture = Fut;

    type Output = Fut::Output;

    open spec fn accepts(self, arg: H) -> bool {
        self.requires((arg,))
    }

    open spec fn yields(self, arg: H, future: Fut) -> bool {
        self.ensures((arg,), future)
    }

    fn call(self, arg: H) -> (future: Fut) {
        self(arg)
    }
}

/// How far the body of a scope has come.
#[verifier::reject_recursive_types(H)]
#[verifier::reject_recursive_types(Fut)]
#[verifier::reject_recursive_types(C)]
pub enum FutureState<H, Fut: Future, C: AsyncClosure<H, Fut>> {
    /// Not started. The closure is gone once it was called.
    NotEntered(Option<C>),
    /// The body runs.
    Pending(C::OutputFuture),
    /// The body ended while child tasks ran. The result is gone once it was handed out.
    Completed(Option<<C::OutputFuture as Future>::Output>),
}

impl<H, Fut: Future, C: AsyncClosure<H, Fut>> FutureState<H, Fut, C> {
    /// Position in the order in which the states are passed through.
    pub open spec fn phase(self) -> int {
        match self {
            FutureState::NotEntered(_) => 0,
            FutureState::Pending(_) => 1,
            FutureState::Completed(_) => 2,
        }
    }

    /// The state after the body was polled: a result that comes while child tasks run is kept.
    pub open spec fn after_child(
        self,
        polled: Poll<<C::OutputFuture as Future>::Output>,
        completed: bool,
    ) -> Self {
        match polled {
            Poll::Ready(result) => if completed {
                self
            } else {
                FutureState::Completed(Some(result))
            },
            Poll::Pending => self,
        }
    }

    /// What the kept result is worth to a caller: it is handed out when no child task runs.
    pub open spec fn drain_outcome(self, completed: bool) -> Poll<<C::OutputFuture as Future>::Output> {
        if completed {
            Poll::Ready(self->Completed_0->0)
        } else {
            Poll::Pending
        }
    }

    /// The state after the kept result was asked for: it is gone once it was handed out.
    pub open spec fn after_drain(self, completed: bool) -> Self {
        if completed {
            FutureState::Completed(None)
        } else {
            self
        }
    }

    /// `next` is the state after one step of a poll: the body is started, is polled, or what came of
    /// the poll is taken in, or the kept result is asked for.
    pub open spec fn steps_to(self, next: Self) -> bool {
        match self {
            FutureState::NotEntered(_) => next is Pending,
            FutureState::Pending(_) => {
                ||| next is Pending
                ||| exists|polled: Poll<<C::OutputFuture as Future>::Output>, completed: bool|
                    next == #[trigger] self.after_child(polled, completed)
            },
            FutureState::Completed(_) => exists|completed: bool|
                next == #[trigger] self.after_drain(completed),
        }
    }

    /// The state after the kept result was asked for `times` times while child tasks ran.
    pub open spec fn after_waiting(self, times: nat) -> Self
        decreases times,
    {
        if times == 0 {
            self
        } else {
            self.after_waiting((times - 1) as nat).after_drain(false)
        }
    }
}

/// What is left to do when the body was polled: a result that comes while child tasks run is kept,
/// and has to be asked for.
pub open spec fn child_step<T>(polled: Poll<T>, completed: bool) -> ChildStep<T> {
    if polled is Ready && !completed {
        ChildStep::Drain
    } else {
        ChildStep::Return(polled)
    }
}

/// What is left to do in a poll of a scope after [`ScopedFuture::begin_poll`].
#[derive(Debug, PartialEq, Eq, Structural, Clone, Copy)]
pub enum PollStep {
    /// Poll the future that [`ScopedFuture::child_mut`] gives, and tell
    /// [`ScopedFuture::child_polled`] what came of it.
    PollChild,
    /// Call [`ScopedFuture::drain`].
    Drain,
}

/// What is left to do in a poll of a scope after [`ScopedFuture::child_polled`].
#[derive(Debug, PartialEq, Eq)]
pub enum ChildStep<T> {
    /// Return this.
    Return(Poll<T>),
    /// Call [`ScopedFuture::drain`].
    Drain,
}

/// What a thread does that waits for the child tasks.
#[derive(Debug, PartialEq, Eq, Structural, Clone, Copy)]
pub enum BlockStep {
    /// Nothing is left to wait for.
    Return,
    /// Sleep until woken, then ask [`ScopedFuture::resume_blocked`].
    Park,
}

/// How a scope that is dropped early gets its child tasks finished.
#[derive(Debug, PartialEq, Eq, Structural, Clone, Copy)]
pub enum DropMode {
    /// The dropping thread waits for them.
    Blocking,
    /// They were waited for before, without blocking a thread.
    AsyncDrop,
}

/// What happens when a scope is dropped.
#[derive(Debug, PartialEq, Eq, Structural, Clone, Copy)]
pub enum DropAction {
    /// No child task runs: nothing to wait for.
    Proceed,
    /// Child tasks run: the thread waits, see [`ScopedFuture::block_sync_thread`].
    BlockThread,
    /// So many child tasks run, though all should have been waited for: a panic.
    Refuse(usize),
}

/// A thread that waits goes on once no guard is out.
pub open spec fn block_step<W>(ledger: Ledger<W>) -> BlockStep {
    if ledger.completed() {
        BlockStep::Return
    } else {
        BlockStep::Park
    }
}

/// A scope may go once no guard is out. Before that, its child tasks are waited for, or their number
/// is reported when that was to happen earlier.
pub open spec fn drop_action<W>(ledger: Ledger<W>, mode: DropMode) -> DropAction {
    if ledger.completed() {
        DropAction::Proceed
    } else {
        match mode {
            DropMode::Blocking => DropAction::BlockThread,
            DropMode::AsyncDrop => DropAction::Refuse(ledger.count),
        }
    }
}

/// The future of a whole scope. The holder that counts its child tasks is shared with them, so it
/// is kept elsewhere and lent for one step at a time.
#[verifier::reject_recursive_types(H)]
#[verifier::reject_recursive_types(Fut)]
#[verifier::reject_recursive_types(C)]
pub struct ScopedFuture<H, Fut: Future, C: AsyncClosure<H, Fut>> {
    pub state: FutureState<H, Fut, C>,
}

impl<H, Fut: Future, C: AsyncClosure<H, Fut>> ScopedFuture<H, Fut, C> {
    /// A scope that has not started.
    pub fn new(closure: C) -> (scoped: Self)
        ensures
            scoped.state == FutureState::<H, Fut, C>::NotEntered(Some(closure)),
    {
        ScopedFuture { state: FutureState::NotEntered(Some(closure)) }
    }

    /// First step of a poll: starts the body on the first poll, with `handle` to reach the holder.
    pub fn begin_poll(&mut self, handle: H) -> (step: PollStep)
        requires
            old(self).state matches FutureState::NotEntered(closure) ==> closure is Some
                && closure->0.accepts(handle),
        ensures
            match old(self).state {
                FutureState::NotEntered(closure) => {
                    &&& final(self).state is Pending
                    &&& closure->0.yields(handle, final(self).state->Pending_0)
                    &&& step == PollStep::PollChild
                },
                FutureState::Pending(_) => {
                    &&& final(self).state == old(self).state
                    &&& step == PollStep::PollChild
                },
                FutureState::Completed(_) => {
                    &&& final(self).state == old(self).state
                    &&& step == PollStep::Drain
                },
            },
            old(self).state.steps_to(final(self).state),
    {
        assert(self.state is Completed ==> self.state == self.state.after_drain(false));
        match &mut self.state {
            FutureState::NotEntered(closure) => {
                let future = closure.take().unwrap().call(handle);
                self.state = FutureState::Pending(future);
                PollStep::PollChild
            },
            FutureState::Pending(_) => PollStep::PollChild,
            FutureState::Completed(_) => PollStep::Drain,
        }
    }

    /// The future that runs the body.
    pub fn child_mut(&mut self) -> (child: &mut C::OutputFuture)
        requires
            old(self).state is Pending,
        ensures
            *child == old(self).state->Pending_0,
            final(self).state == FutureState::<H, Fut, C>::Pending(*final(child)),
            old(self).state.steps_to(final(self).state),
    {
        match &mut self.state {
            FutureState::Pending(child) => child,
            _ => vstd::pervasive::unreached(),
        }
    }

    /// Step of a poll after the body was polled. `completed` is what
    /// [`CompletenessHolder::is_completed`] said since: a result is handed out when no child task
    /// runs, otherwise it is kept.
    ///
    /// The future of a body that ended is dropped here, and may give guards back. So the holder is
    /// not lent to this step.
    pub fn child_polled(
        &mut self,
        polled: Poll<<C::OutputFuture as Future>::Output>,
        completed: bool,
    ) -> (step: ChildStep<<C::OutputFuture as Future>::Output>)
        requires
            old(self).state is Pending,
        ensures
            step == child_step(polled, completed),
            final(self).state == old(self).state.after_child(polled, completed),
            match polled {
                Poll::Ready(result) => if completed {
                    &&& step == ChildStep::Return(Poll::Ready(result))
                    &&& final(self).state == old(self).state
                } else {
                    &&& step == ChildStep::<<C::OutputFuture as Future>::Output>::Drain
                    &&& final(self).state == FutureState::<H, Fut, C>::Completed(Some(result))
                },
                Poll::Pending => {
                    &&& step == ChildStep::<<C::OutputFuture as Future>::Output>::Return(Poll::Pending)
                    &&& final(self).state == old(self).state
                },
            },
            old(self).state.steps_to(final(self).state),
    {
        match polled {
            Poll::Ready(result) => {
                if completed {
                    ChildStep::Return(Poll::Ready(result))
                } else {
                    self.state = FutureState::Completed(Some(result));
                    ChildStep::Drain
                }
            },
            Poll::Pending => ChildStep::Return(Poll::Pending),
        }
    }

    /// Last step of a poll of a scope whose body ended. The kept result is handed out when no child
    /// task runs; otherwise `waker` waits for the last of them.
    pub fn drain<W>(&mut self, holder: &mut CompletenessHolder<W>, waker: W) -> (outcome: Poll<
        <C::OutputFuture as Future>::Output,
    >)
        requires
            old(self).state is Completed,
            old(holder)@.completed() ==> old(self).state->Completed_0 is Some,
        ensures
            old(holder)@.count == 0 ==> {
                &&& outcome == Poll::Ready(old(self).state->Completed_0->0)
                &&& final(self).state == FutureState::<H, Fut, C>::Completed(None)
            },
            old(holder)@.count > 0 ==> outcome is Pending && final(self).state == old(self).state,
            outcome == old(self).state.drain_outcome(old(holder)@.completed()),
            final(self).state == old(self).state.after_drain(old(holder)@.completed()),
            old(self).state.steps_to(final(self).state),
            final(holder)@ == if old(holder)@.completed() {
                old(holder)@
            } else {
                old(holder)@.register(waker)
            },
    {
        match &mut self.state {
            FutureState::Completed(result) => {
                if holder.is_completed() {
                    Poll::Ready(result.take().unwrap())
                } else {
                    holder.register(waker);
                    Poll::Pending
                }
            },
            _ => vstd::pervasive::unreached(),
        }
    }

    /// A thread begins to wait for the child tasks: it returns at once when none runs, otherwise
    /// `waker`, which wakes the thread, waits for the last of them and the thread sleeps.
    pub fn block_sync_thread<W>(&self, holder: &mut CompletenessHolder<W>, waker: W) -> (step: BlockStep)
        ensures
            step == block_step(old(holder)@),
            step == BlockStep::Return <==> old(holder)@.count == 0,
            final(holder)@ == if old(holder)@.completed() {
                old(holder)@
            } else {
                old(holder)@.register(waker)
            },
    {
        if holder.is_completed() {
            return BlockStep::Return;
        }
        holder.register(waker);
        self.resume_blocked(holder)
    }

    /// A thread that waits for the child tasks woke up: it goes on sleeping while one runs.
    pub fn resume_blocked<W>(&self, holder: &CompletenessHolder<W>) -> (step: BlockStep)
        ensures
            step == block_step(holder@),
            step == BlockStep::Return <==> holder@.count == 0,
    {
        if !holder.is_completed() {
            BlockStep::Park
        } else {
            BlockStep::Return
        }
    }

    /// What to do when the scope is dropped, however far its body has come.
    pub fn on_drop<W>(&self, holder: &CompletenessHolder<W>, mode: DropMode) -> (action: DropAction)
        ensures
            action == drop_action(holder@, mode),
            holder@.count == 0 ==> action == DropAction::Proceed,
            holder@.count > 0 && mode == DropMode::Blocking ==> action == DropAction::BlockThread,
            holder@.count > 0 && mode == DropMode::AsyncDrop ==> action == DropAction::Refuse(
                holder@.count,
            ),
    {
        if !holder.is_completed() {
            match mode {
                DropMode::Blocking => DropAction::BlockThread,
                DropMode::AsyncDrop => DropAction::Refuse(holder.child_task_count()),
            }
        } else {
            DropAction::Proceed
        }
    }
}

/// What the body gave is neither lost nor made up. While the body goes on, the scope does too, with
/// that body. Whatever is returned is what the body gave, and a result is returned only when no child
/// task runs. Otherwise it is kept, to be asked for: then there is something to ask for. A body that has
/// not ended is never given up.
pub proof fn law_scope_follows_its_body<H, Fut: Future, C: AsyncClosure<H, Fut>>(
    state: FutureState<H, Fut, C>,
    polled: Poll<<C::OutputFuture as Future>::Output>,
    completed: bool,
)
    ensures
        polled is Pending ==> {
            &&& child_step(polled, completed) == ChildStep::Return(polled)
            &&& state.after_child(polled, completed) == state
        },
        child_step(polled, completed) matches ChildStep::Return(out) ==> {
            &&& out == polled
            &&& out is Ready ==> completed
            &&& state.after_child(polled, completed) == state
        },
        child_step(polled, completed) is Drain ==> {
            &&& !completed
            &&& polled is Ready
            &&& state.after_child(polled, completed) == FutureState::<H, Fut, C>::Completed(
                Some(polled->Ready_0),
            )
        },
        state is Pending && state.after_child(polled, completed) is Completed ==> polled is Ready,
{
}

/// A kept result is handed out as it is, once, and not before the last child task ended. Until then
/// nothing changes, even when the result is gone.
pub proof fn law_kept_result_is_handed_out_once<H, Fut: Future, C: AsyncClosure<H, Fut>>(
    kept: Option<<C::OutputFuture as Future>::Output>,
)
    ensures
        ({
            let state = FutureState::<H, Fut, C>::Completed(kept);
            let gone = FutureState::<H, Fut, C>::Completed(None);
            &&& state.drain_outcome(false) is Pending
            &&& state.after_drain(false) == state
            &&& kept matches Some(result) ==> state.drain_outcome(true) == Poll::Ready(result)
            &&& state.after_drain(true) == gone
        }),
{
}

/// A thread that waits for child tasks goes on exactly when a drop would not have had to wait, which is
/// when no guard is out. Who waits has no part in it.
pub proof fn law_waiting_ends_with_the_last_guard<W>(ledger: Ledger<W>, waker: W, mode: DropMode)
    ensures
        ledger.count == 0 ==> block_step(ledger) == BlockStep::Return,
        ledger.count > 0 ==> block_step(ledger) == BlockStep::Park,
        block_step(ledger) == BlockStep::Return <==> drop_action(ledger, mode)
            == DropAction::Proceed,
        block_step(ledger.register(waker)) == block_step(ledger),
        drop_action(ledger.register(waker), mode) == drop_action(ledger, mode),
{
}

/// When guards are out, the mode alone decides what a drop does, however many they are: a blocking
/// drop waits and never refuses; the other refuses, and says how many they are. When none is out, a
/// drop goes on in either mode.
pub proof fn law_mode_decides_how_a_drop_waits<W>(ledger: Ledger<W>)
    ensures
        ledger.count > 0 ==> {
            &&& drop_action(ledger, DropMode::Blocking) == DropAction::BlockThread
            &&& drop_action(ledger, DropMode::AsyncDrop) == DropAction::Refuse(ledger.count)
        },
        ledger.count == 0 ==> {
            &&& drop_action(ledger, DropMode::Blocking) == DropAction::Proceed
            &&& drop_action(ledger, DropMode::AsyncDrop) == DropAction::Proceed
        },
{
}

/// In every run of steps (`states` are the states between them) a body that runs is left for a result
/// only, and that result is kept. A kept result stays what it is until it is gone, and then none
/// comes again.
pub proof fn law_body_is_left_for_its_result_only<H, Fut: Future, C: AsyncClosure<H, Fut>>(
    states: Seq<FutureState<H, Fut, C>>,
    i: int,
)
    requires
        forall|k: int| 0 <= k < states.len() - 1 ==> (#[trigger] states[k]).steps_to(states[k + 1]),
        0 <= i < states.len() - 1,
    ensures
        states[i] is NotEntered ==> states[i + 1] is Pending,
        states[i] is Pending ==> {
            ||| states[i + 1] is Pending
            ||| states[i + 1] is Completed && states[i + 1]->Completed_0 is Some
        },
        states[i] is Completed ==> {
            ||| states[i + 1] == states[i]
            ||| states[i + 1] == FutureState::<H, Fut, C>::Completed(None)
        },
{
    assert(states[i].steps_to(states[i + 1]));
}

/// A body that is a function is called with the handle that it is given, and what runs is what it
/// gave.
pub proof fn law_body_is_what_the_closure_gave<H, Fut: Future, F: FnOnce(H) -> Fut>(
    closure: F,
    handle: H,
    future: Fut,
)
    ensures
        closure.accepts(handle) <==> closure.requires((handle,)),
        closure.yields(handle, future) <==> closure.ensures((handle,), future),
{
}

/// A result that had to wait is the body's own result: however often it is asked for while child
/// tasks run, it is handed out unchanged once none runs, and only once.
pub proof fn law_result_survives_waiting<H, Fut: Future, C: AsyncClosure<H, Fut>>(
    state: FutureState<H, Fut, C>,
    result: <C::OutputFuture as Future>::Output,
    times: nat,
)
    ensures
        ({
            let kept = state.after_child(Poll::Ready(result), false).after_waiting(times);
            &&& kept == FutureState::<H, Fut, C>::Completed(Some(result))
            &&& kept.drain_outcome(false) is Pending
            &&& kept.drain_outcome(true) == Poll::Ready(result)
            &&& kept.after_drain(true) == FutureState::<H, Fut, C>::Completed(None)
        }),
    decreases times,
{
    if times > 0 {
        law_result_survives_waiting::<H, Fut, C>(state, result, (times - 1) as nat);
    }
}

/// A poll never takes a scope back. In every run of steps (`states` are the states between them) the
/// body is started by the first step or not at all, and once it ended it is not polled again.
pub proof fn law_state_only_advances<H, Fut: Future, C: AsyncClosure<H, Fut>>(
    states: Seq<FutureState<H, Fut, C>>,
    i: int,
    j: int,
)
    requires
        forall|k: int| 0 <= k < states.len() - 1 ==> (#[trigger] states[k]).steps_to(states[k + 1]),
        0 <= i < j < states.len(),
    ensures
        states[i].phase() <= states[j].phase(),
        !(states[j] is NotEntered),
        states[i] is Completed ==> states[j] is Completed,
    decreases j - i,
{
    if i + 1 < j {
        law_state_only_advances(states, i, j - 1);
    }
    assert(states[j - 1].steps_to(states[j - 1 + 1]));
}

proof fn lemma_before_shifts<W>(ledger: Ledger<W>, first: Event<W>, rest: Seq<Event<W>>, i: int)
    requires
        0 <= i <= rest.len(),
    ensures
        history::before(ledger, seq![first] + rest, i + 1) == history::before(
            history::after(ledger, first),
            rest,
            i,
        ),
    decreases i,
{
    let whole = seq![first] + rest;
    if i == 0 {
        assert(whole.take(1) =~= seq![first]);
        assert(seq![first].drop_last() =~= Seq::<Event<W>>::empty());
        assert(rest.take(0) =~= Seq::<Event<W>>::empty());
        reveal_with_fuel(history::replay, 2);
    } else {
        lemma_before_shifts(ledger, first, rest, i - 1);
        assert(whole.take(i + 1).drop_last() =~= whole.take(i));
        assert(rest.take(i).drop_last() =~= rest.take(i - 1));
        assert(whole.take(i + 1).last() == rest.take(i).last());
    }
}

/// A waker that registers before a history leaves it paired.
proof fn lemma_register_keeps_paired<W>(ledger: Ledger<W>, waker: W, rest: Seq<Event<W>>)
    requires
        history::paired(ledger.register(waker), rest),
    ensures
        history::paired(ledger, seq![Event::Register(waker)] + rest),
{
    let first = Event::Register(waker);
    let whole = seq![first] + rest;
    assert forall|i: int| 0 <= i < whole.len() implies {
        &&& #[trigger] whole[i] is Dec ==> history::before(ledger, whole, i).count > 0
        &&& whole[i] is Inc ==> history::before(ledger, whole, i).count < usize::MAX
    } by {
        if i > 0 {
            lemma_before_shifts(ledger, first, rest, i - 1);
            assert(whole[i] == rest[i - 1]);
        }
    }
}

/// A waker that registers before a history leaves it settled.
proof fn lemma_register_keeps_settled<W>(waker: W, rest: Seq<Event<W>>)
    requires
        history::settled(rest),
    ensures
        history::settled(seq![Event::Register(waker)] + rest),
{
    let whole = seq![Event::Register(waker)] + rest;
    assert forall|i: int| 0 <= i < whole.len() && #[trigger] whole[i] is Dec implies exists|k: int|
        i < k < whole.len() && #[trigger] whole[k] is Settle by {
        assert(rest[i - 1] is Dec);
        let k = choose|k: int| i - 1 < k < rest.len() && #[trigger] rest[k] is Settle;
        assert(whole[k + 1] is Settle);
    }
}

/// Whoever is told to wait while child tasks run is woken: once all guards are given back, and
/// every task that gave one back went on to call the due waker, the waker left behind has been
/// called, or another that took its place. `rest` is what happened after the waker was left.
#[verifier::spinoff_prover]
pub proof fn law_pending_is_woken<W>(ledger: Ledger<W>, waker: W, rest: Seq<Event<W>>) -> (woken_at: int)
    requires
        !ledger.completed(),
        history::paired(ledger.register(waker), rest),
        history::settled(rest),
        history::replay(ledger.register(waker), rest).completed(),
    ensures
        0 <= woken_at < rest.len(),
        history::woken(ledger.register(waker), rest, woken_at) is Some,
        history::registers_within(rest, 0, woken_at) || history::woken(ledger.register(waker), rest, woken_at)
            == Some(waker),
{
    let first = Event::Register(waker);
    let whole = seq![first] + rest;
    assert(whole.take(0) =~= Seq::<Event<W>>::empty());
    assert(rest.take(rest.len() as int) =~= rest);
    assert(whole.take(whole.len() as int) =~= whole);
    lemma_before_shifts(ledger, first, rest, rest.len() as int);
    lemma_register_keeps_paired(ledger, waker, rest);
    lemma_register_keeps_settled(waker, rest);
    let at = history::law_waiting_is_woken(ledger, whole, 0, 0);
    lemma_before_shifts(ledger, first, rest, at - 1);
    assert(whole[at] == rest[at - 1]);
    if history::registers_within(whole, 1, at) {
        let m = choose|m: int| 1 <= m < at && #[trigger] whole[m] is Register;
        assert(rest[m - 1] is Register);
    }
    at - 1
}

} // verus!
