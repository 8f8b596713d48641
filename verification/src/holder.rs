//! Counting the guards of running child tasks, and the waker of whoever waits for them.
use vstd::prelude::*;

use crate::poll::Poll;

verus! {

/// Largest guard count that a holder takes one more guard on top of: `isize::MAX` as a `usize`.
pub const MAX_REFCOUNT: usize = usize::MAX / 2;

/// What a holder remembers: how many guards are out, and the waker to call once none is.
pub struct Ledger<W> {
    pub count: usize,
    pub waker: Option<W>,
}

impl<W> Ledger<W> {
    /// No guard out, nobody waiting.
    pub open spec fn fresh() -> Self {
        Ledger { count: 0, waker: None }
    }

    /// No guard is out.
    pub open spec fn completed(self) -> bool {
        self.count == 0
    }

    /// One more guard is out. The count wraps around at the top, as an atomic addition does.
    pub open spec fn inc(self) -> Self {
        Ledger {
            count: if self.count == usize::MAX { 0 } else { (self.count + 1) as usize },
            ..self
        }
    }

    /// One guard fewer is out. The count wraps around at zero, as an atomic subtraction does.
    pub open spec fn dec(self) -> Self {
        Ledger {
            count: if self.count == 0 { usize::MAX } else { (self.count - 1) as usize },
            ..self
        }
    }

    /// `waker` waits now, in place of whoever waited before.
    pub open spec fn register(self, waker: W) -> Self {
        Ledger { waker: Some(waker), ..self }
    }

    /// The waker that is due: the one that waits, provided that no guard is out.
    pub open spec fn due(self) -> Option<W> {
        if self.completed() {
            self.waker
        } else {
            None
        }
    }

    /// The due waker, if there is one, has been taken away to be called.
    pub open spec fn settle(self) -> Self {
        Ledger { waker: if self.completed() { None } else { self.waker }, ..self }
    }
}

/// Proof that a guard was counted: made by [`CompletenessHolder::make_guard`], used up by
/// [`CompletenessGuard::release`]. It cannot be copied.
#[derive(Debug)]
pub struct CompletenessGuard {
    _counted: (),
}

/// Counts the guards of the tasks that still run, and keeps the waker of whoever waits for the
/// last of them.
#[derive(Debug)]
pub struct CompletenessHolder<W> {
    ref_count: usize,
    waker: Option<W>,
}

impl<W> View for CompletenessHolder<W> {
    type V = Ledger<W>;

    closed spec fn view(&self) -> Ledger<W> {
        Ledger { count: self.ref_count, waker: self.waker }
    }
}

impl<W> Default for CompletenessHolder<W> {
    /// A holder with no guard out and nobody waiting.
    fn default() -> (holder: Self)
        ensures
            holder@ == Ledger::<W>::fresh(),
            holder@.count == 0,
            holder@.waker is None,
    {
        CompletenessHolder { ref_count: 0, waker: None }
    }
}

impl<W> CompletenessHolder<W> {
    /// Counts one guard more. Says whether the count was small enough to take it: after `false`
    /// the caller has to abort, for the count can no longer be relied on.
    pub fn inc(&mut self) -> (admitted: bool)
        ensures
            final(self)@ == old(self)@.inc(),
            admitted <==> old(self)@.count <= MAX_REFCOUNT,
    {
        let old_size: usize = self.ref_count;
        self.ref_count = old_size.wrapping_add(1);
        old_size <= MAX_REFCOUNT
    }

    /// Counts one guard fewer.
    pub fn dec(&mut self)
        ensures
            final(self)@ == old(self)@.dec(),
    {
        self.ref_count = self.ref_count.wrapping_sub(1);
    }

    /// Whether no guard is out.
    pub fn is_completed(&self) -> (completed: bool)
        ensures
            completed == self@.completed(),
            completed <==> self@.count == 0,
    {
        self.ref_count == 0
    }

    /// How many guards are out.
    pub fn child_task_count(&self) -> (count: usize)
        ensures
            count == self@.count,
    {
        self.ref_count
    }

    /// Counts one guard more and hands it out. `None` means what a `false` of
    /// [`CompletenessHolder::inc`] means.
    pub fn make_guard(&mut self) -> (guard: Option<CompletenessGuard>)
        ensures
            final(self)@ == old(self)@.inc(),
            guard is Some <==> old(self)@.count <= MAX_REFCOUNT,
    {
        if self.inc() {
            Some(CompletenessGuard { _counted: () })
        } else {
            None
        }
    }

    /// Lets `waker` wait, in place of whoever waited before.
    pub fn register(&mut self, waker: W)
        ensures
            final(self)@ == old(self)@.register(waker),
    {
        self.waker = Some(waker);
    }

    /// Takes the waker that is due, if no guard is out and somebody waits. The caller calls it.
    pub fn settle(&mut self) -> (due: Option<W>)
        ensures
            due == old(self)@.due(),
            final(self)@ == old(self)@.settle(),
    {
        if self.is_completed() {
            self.waker.take()
        } else {
            None
        }
    }

    /// Ready once no guard is out. Until then `waker` waits for the last guard.
    pub fn poll(&mut self, waker: W) -> (outcome: Poll<()>)
        ensures
            outcome is Ready <==> old(self)@.completed(),
            final(self)@ == if old(self)@.completed() {
                old(self)@
            } else {
                old(self)@.register(waker)
            },
    {
        if self.is_completed() {
            Poll::Ready(())
        } else {
            self.register(waker);
            Poll::Pending
        }
    }
}

impl CompletenessGuard {
    /// Gives the guard back to the holder it came from. Hands out the waker to call when this was
    /// the last guard and somebody waits.
    pub fn release<W>(self, holder: &mut CompletenessHolder<W>) -> (due: Option<W>)
        ensures
            due == old(holder)@.dec().due(),
            final(holder)@ == old(holder)@.dec().settle(),
    {
        holder.dec();
        holder.settle()
    }
}

/// A guard is admitted on top of `isize::MAX` guards at most.
pub proof fn law_largest_admitted_count()
    ensures
        MAX_REFCOUNT == isize::MAX,
{
}

/// A new holder counts no guard and knows nobody who waits. A holder is completed exactly when it
/// counts none.
pub proof fn law_completed_means_no_guard<W>(ledger: Ledger<W>)
    ensures
        Ledger::<W>::fresh().count == 0,
        Ledger::<W>::fresh().waker is None,
        ledger.completed() <==> ledger.count == 0,
{
}

/// Each guard that is made is counted once, and each that is given back once: the one undoes the
/// other at every count, and nobody who waits is forgotten on the way.
pub proof fn law_count_moves_by_one<W>(ledger: Ledger<W>)
    ensures
        ledger.count < usize::MAX ==> ledger.inc().count == ledger.count + 1,
        ledger.count > 0 ==> ledger.dec().count == ledger.count - 1,
        ledger.inc().dec() == ledger,
        ledger.dec().inc() == ledger,
        ledger.inc().waker == ledger.waker,
        ledger.dec().waker == ledger.waker,
{
}

/// Whoever registers last waits, whoever waited before, and is not counted as a guard.
pub proof fn law_last_to_register_waits<W>(ledger: Ledger<W>, earlier: W, waker: W)
    ensures
        ledger.register(waker).waker == Some(waker),
        ledger.register(waker).count == ledger.count,
        ledger.register(earlier).register(waker) == ledger.register(waker),
{
}

/// A waker is handed out exactly when somebody waits and no guard is out. Then it is the one that
/// waits, and it is gone; otherwise all stays as it was. The count does not change either way.
pub proof fn law_due_waker_is_taken_once<W>(ledger: Ledger<W>)
    ensures
        ledger.due() is Some <==> ledger.count == 0 && ledger.waker is Some,
        ledger.due() is Some ==> ledger.due() == ledger.waker && ledger.settle().waker is None,
        ledger.due() is None ==> ledger.settle() == ledger,
        ledger.settle().count == ledger.count,
        ledger.settle().due() is None,
{
}

/// Giving a guard back undoes the count of the guard that was made, whatever else is counted.
pub proof fn law_release_undoes_make_guard<W>(ledger: Ledger<W>)
    ensures
        ledger.inc().dec() == ledger,
        ledger.inc().dec().settle().count == ledger.count,
{
}

} // verus!
