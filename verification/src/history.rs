//! What holds of a holder over every order in which the tasks that share it take their steps.
//!
//! Giving a guard back is two steps, [`Event::Dec`] and [`Event::Settle`], and other tasks may
//! take theirs in between; so may they between a check of the count and [`Event::Register`].
use vstd::prelude::*;

use crate::holder::{Ledger, MAX_REFCOUNT};

verus! {

/// One step that a task takes on a shared holder.
pub enum Event<W> {
    /// A guard is made.
    Inc,
    /// A guard is given back: the count goes down.
    Dec,
    /// A waker waits, in place of whoever waited before.
    Register(W),
    /// A guard is given back: the due waker, if there is one, is called.
    Settle,
}

/// The ledger after one step.
pub open spec fn after<W>(ledger: Ledger<W>, event: Event<W>) -> Ledger<W> {
    match event {
        Event::Inc => ledger.inc(),
        Event::Dec => ledger.dec(),
        Event::Register(waker) => ledger.register(waker),
        Event::Settle => ledger.settle(),
    }
}

/// The ledger after all steps of `history`, in order.
pub open spec fn replay<W>(ledger: Ledger<W>, history: Seq<Event<W>>) -> Ledger<W>
    decreases history.len(),
{
    if history.len() == 0 {
        ledger
    } else {
        after(replay(ledger, history.drop_last()), history.last())
    }
}

/// The ledger just before step `i`.
pub open spec fn before<W>(ledger: Ledger<W>, history: Seq<Event<W>>, i: int) -> Ledger<W> {
    replay(ledger, history.take(i))
}

/// The waker that step `i` calls, if it calls one.
pub open spec fn woken<W>(ledger: Ledger<W>, history: Seq<Event<W>>, i: int) -> Option<W> {
    if history[i] is Settle {
        before(ledger, history, i).due()
    } else {
        None
    }
}

/// How many guards were made.
pub open spec fn guards_made<W>(history: Seq<Event<W>>) -> nat
    decreases history.len(),
{
    if history.len() == 0 {
        0
    } else {
        guards_made(history.drop_last()) + if history.last() is Inc {
            1nat
        } else {
            0nat
        }
    }
}

/// How many guards were given back.
pub open spec fn guards_given_back<W>(history: Seq<Event<W>>) -> nat
    decreases history.len(),
{
    if history.len() == 0 {
        0
    } else {
        guards_given_back(history.drop_last()) + if history.last() is Dec {
            1nat
        } else {
            0nat
        }
    }
}

/// No guard is given back that is not out, and the count never runs over the top.
pub open spec fn paired<W>(ledger: Ledger<W>, history: Seq<Event<W>>) -> bool {
    forall|i: int|
        #![trigger history[i]]
        0 <= i < history.len() ==> {
            &&& history[i] is Dec ==> before(ledger, history, i).count > 0
            &&& history[i] is Inc ==> before(ledger, history, i).count < usize::MAX
        }
}

/// Whoever takes the count down goes on to call the waker that is due.
pub open spec fn settled<W>(history: Seq<Event<W>>) -> bool {
    forall|i: int|
        0 <= i < history.len() && #[trigger] history[i] is Dec ==> exists|k: int|
            i < k < history.len() && #[trigger] history[k] is Settle
}

/// A waker is registered at a step from `from` on and before `to`.
pub open spec fn registers_within<W>(history: Seq<Event<W>>, from: int, to: int) -> bool {
    exists|i: int| from <= i < to && #[trigger] history[i] is Register
}

proof fn lemma_before_next<W>(ledger: Ledger<W>, history: Seq<Event<W>>, i: int)
    requires
        0 <= i < history.len(),
    ensures
        before(ledger, history, i + 1) == after(before(ledger, history, i), history[i]),
{
    assert(history.take(i + 1).drop_last() =~= history.take(i));
    assert(history.take(i + 1).last() == history[i]);
}

/// Without a guard given back the count does not go down.
proof fn lemma_count_grows<W>(ledger: Ledger<W>, history: Seq<Event<W>>, from: int, to: int)
    requires
        paired(ledger, history),
        0 <= from <= to <= history.len(),
        forall|i: int| from <= i < to ==> !(#[trigger] history[i] is Dec),
    ensures
        before(ledger, history, from).count <= before(ledger, history, to).count,
    decreases to - from,
{
    if from < to {
        lemma_count_grows(ledger, history, from, to - 1);
        lemma_before_next(ledger, history, to - 1);
        assert(!(history[to - 1] is Dec));
    }
}

/// Which of the steps in a range is the last with a guard given back.
proof fn lemma_last_dec<W>(history: Seq<Event<W>>, from: int, to: int) -> (last: int)
    requires
        0 <= from <= to <= history.len(),
        exists|i: int| from <= i < to && #[trigger] history[i] is Dec,
    ensures
        from <= last < to,
        history[last] is Dec,
        forall|i: int| last < i < to ==> !(#[trigger] history[i] is Dec),
    decreases to - from,
{
    if history[to - 1] is Dec {
        to - 1
    } else {
        lemma_last_dec(history, from, to - 1)
    }
}

/// A registered waker waits until a step calls it, unless another takes its place.
proof fn lemma_slot_kept<W>(ledger: Ledger<W>, history: Seq<Event<W>>, i: int, to: int)
    requires
        0 <= i < to <= history.len(),
        history[i] is Register,
        forall|k: int|
            i < k < to && #[trigger] history[k] is Settle ==> before(ledger, history, k).count != 0,
    ensures
        before(ledger, history, to).waker is Some,
        !registers_within(history, i + 1, to) ==> before(ledger, history, to).waker == Some(
            history[i]->Register_0,
        ),
    decreases to - i,
{
    lemma_before_next(ledger, history, to - 1);
    if i + 1 < to {
        lemma_slot_kept(ledger, history, i, to - 1);
        if registers_within(history, i + 1, to - 1) {
            let m = choose|m: int| i + 1 <= m < to - 1 && #[trigger] history[m] is Register;
            assert(i + 1 <= m < to && history[m] is Register);
        }
        if history[to - 1] is Register {
            assert(i + 1 <= to - 1 < to && history[to - 1] is Register);
        }
    }
}

/// Of the steps in a range that settle at a count of zero, the first calls the waker that
/// registered before the range.
proof fn lemma_first_settle_wakes<W>(
    ledger: Ledger<W>,
    history: Seq<Event<W>>,
    i: int,
    k: int,
) -> (first: int)
    requires
        0 <= i < k < history.len(),
        history[i] is Register,
        history[k] is Settle,
        before(ledger, history, k).count == 0,
    ensures
        i < first <= k,
        woken(ledger, history, first) is Some,
        registers_within(history, i + 1, first) || woken(ledger, history, first) == Some(
            history[i]->Register_0,
        ),
    decreases k,
{
    if exists|j: int|
        i < j < k && #[trigger] history[j] is Settle && before(ledger, history, j).count == 0 {
        let j = choose|j: int|
            i < j < k && #[trigger] history[j] is Settle && before(ledger, history, j).count == 0;
        lemma_first_settle_wakes(ledger, history, i, j)
    } else {
        lemma_slot_kept(ledger, history, i, k);
        k
    }
}

/// The count is the number of guards that are out, as long as no guard is given back that is not
/// out and the count does not run over the top. So a holder is completed exactly when every guard
/// that was made has been given back.
pub proof fn law_count_is_guards_out<W>(history: Seq<Event<W>>)
    requires
        paired(Ledger::<W>::fresh(), history),
    ensures
        replay(Ledger::<W>::fresh(), history).count == guards_made(history) - guards_given_back(
            history,
        ),
        replay(Ledger::<W>::fresh(), history).completed() <==> guards_made(history)
            == guards_given_back(history),
    decreases history.len(),
{
    if history.len() > 0 {
        let fresh = Ledger::<W>::fresh();
        let rest = history.drop_last();
        assert forall|i: int| 0 <= i < rest.len() implies {
            &&& #[trigger] rest[i] is Dec ==> before(fresh, rest, i).count > 0
            &&& rest[i] is Inc ==> before(fresh, rest, i).count < usize::MAX
        } by {
            assert(rest.take(i) =~= history.take(i));
            assert(rest[i] == history[i]);
        }
        law_count_is_guards_out(rest);
        assert(history.take(history.len() - 1) =~= rest);
        assert(history[history.len() - 1] == history.last());
    }
}

/// Nobody who waits is forgotten. Let a waker register, and let a guard be out at that moment or
/// at a later one (`checked`): once every guard is given back, and every task that gave one back
/// went on to call the due waker, that waker has been called, or another that took its place.
///
/// A waker that registers when the last guard is gone already, with no guard made later, waits in
/// vain. So whoever waits either registers in one step with the check of the count, or checks the
/// count once more after it registered.
pub proof fn law_waiting_is_woken<W>(
    ledger: Ledger<W>,
    history: Seq<Event<W>>,
    registered: int,
    checked: int,
) -> (woken_at: int)
    requires
        paired(ledger, history),
        settled(history),
        0 <= registered <= checked < history.len(),
        history[registered] is Register,
        before(ledger, history, checked).count > 0,
        replay(ledger, history).completed(),
    ensures
        registered < woken_at < history.len(),
        woken(ledger, history, woken_at) is Some,
        registers_within(history, registered + 1, woken_at) || woken(ledger, history, woken_at)
            == Some(history[registered]->Register_0),
{
    let len = history.len() as int;
    assert(history.take(len) =~= history);
    if !(exists|i: int| checked <= i < len && #[trigger] history[i] is Dec) {
        lemma_count_grows(ledger, history, checked, len);
    }
    let last = lemma_last_dec(history, checked, len);
    let k = choose|k: int| last < k < len && #[trigger] history[k] is Settle;
    lemma_count_grows(ledger, history, k, len);
    lemma_first_settle_wakes(ledger, history, registered, k)
}

/// Nobody is called early: whoever is called, is called when no guard is out.
pub proof fn law_no_early_wake<W>(ledger: Ledger<W>, history: Seq<Event<W>>, i: int)
    requires
        0 <= i < history.len(),
        woken(ledger, history, i) is Some,
    ensures
        before(ledger, history, i).completed(),
        history[i] is Settle,
{
}

/// A slot that is empty stays empty until a waker registers.
proof fn lemma_slot_stays_empty<W>(ledger: Ledger<W>, history: Seq<Event<W>>, from: int, to: int)
    requires
        0 <= from <= to <= history.len(),
        before(ledger, history, from).waker is None,
        !registers_within(history, from, to),
    ensures
        before(ledger, history, to).waker is None,
    decreases to - from,
{
    if from < to {
        assert(!(history[to - 1] is Register));
        if registers_within(history, from, to - 1) {
            let m = choose|m: int| from <= m < to - 1 && #[trigger] history[m] is Register;
            assert(from <= m < to && history[m] is Register);
        }
        lemma_slot_stays_empty(ledger, history, from, to - 1);
        lemma_before_next(ledger, history, to - 1);
    }
}

/// Each registered waker is called at most once: between two steps that call a waker, another waker
/// registered.
pub proof fn law_one_wake_per_registration<W>(
    ledger: Ledger<W>,
    history: Seq<Event<W>>,
    i: int,
    j: int,
)
    requires
        0 <= i < j < history.len(),
        woken(ledger, history, i) is Some,
        woken(ledger, history, j) is Some,
    ensures
        registers_within(history, i + 1, j),
{
    lemma_before_next(ledger, history, i);
    if !registers_within(history, i + 1, j) {
        lemma_slot_stays_empty(ledger, history, i + 1, j);
    }
}

/// What a task does to a holder that it has to itself meanwhile.
pub enum Operation<W> {
    /// Makes a guard.
    MakeGuard,
    /// Gives a guard back.
    Release,
    /// Asks whether a guard is out, and leaves a waker if so.
    Poll(W),
}

/// The ledger after one operation.
pub open spec fn after_operation<W>(ledger: Ledger<W>, operation: Operation<W>) -> Ledger<W> {
    match operation {
        Operation::MakeGuard => ledger.inc(),
        Operation::Release => ledger.dec().settle(),
        Operation::Poll(waker) => if ledger.completed() {
            ledger
        } else {
            ledger.register(waker)
        },
    }
}

/// The ledger after all `operations`, in order.
pub open spec fn after_operations<W>(ledger: Ledger<W>, operations: Seq<Operation<W>>) -> Ledger<W>
    decreases operations.len(),
{
    if operations.len() == 0 {
        ledger
    } else {
        after_operation(after_operations(ledger, operations.drop_last()), operations.last())
    }
}

/// Every guard that is made is admitted, and every guard that is given back is out.
pub open spec fn legal<W>(ledger: Ledger<W>, operations: Seq<Operation<W>>) -> bool {
    forall|i: int|
        #![trigger operations[i]]
        0 <= i < operations.len() ==> {
            let count = after_operations(ledger, operations.take(i)).count;
            &&& operations[i] is MakeGuard ==> count <= MAX_REFCOUNT
            &&& operations[i] is Release ==> count > 0
        }
}

/// When tasks take turns at a holder, nobody waits at a completed one: whoever left a waker was
/// handed over to be called by the operation that gave the last guard back.
pub proof fn law_nobody_waits_at_a_completed_holder<W>(operations: Seq<Operation<W>>)
    requires
        legal(Ledger::<W>::fresh(), operations),
    ensures
        after_operations(Ledger::<W>::fresh(), operations).completed() ==> after_operations(
            Ledger::<W>::fresh(),
            operations,
        ).waker is None,
    decreases operations.len(),
{
    if operations.len() > 0 {
        let fresh = Ledger::<W>::fresh();
        let rest = operations.drop_last();
        assert forall|i: int| 0 <= i < rest.len() implies {
            let count = after_operations(fresh, rest.take(i)).count;
            &&& #[trigger] rest[i] is MakeGuard ==> count <= MAX_REFCOUNT
            &&& rest[i] is Release ==> count > 0
        } by {
            assert(rest.take(i) =~= operations.take(i));
            assert(rest[i] == operations[i]);
        }
        law_nobody_waits_at_a_completed_holder(rest);
        assert(operations.take(operations.len() - 1) =~= rest);
        assert(operations[operations.len() - 1] == operations.last());
    }
}

} // verus!
