use vstd::prelude::*;

verus! {

/// Outcome of one attempt to finish a piece of work.
#[derive(Debug, PartialEq, Eq)]
pub enum Poll<T> {
    /// The work is finished and this is its value.
    Ready(T),
    /// The work is not finished; whoever registered a waker hears about it later.
    Pending,
}

} // verus!
