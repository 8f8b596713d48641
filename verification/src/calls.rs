//! Calls that can be spoken of. Of a value that came from one of these, `call_ensures` holds: a
//! contract can say that it came from a call of a given function with given arguments.
use vstd::prelude::*;

verus! {

/// Calls `f` with one argument.
pub(crate) fn call_one<A, T, F: FnOnce(A) -> T>(f: F, a: A) -> (out: T)
    requires
        f.requires((a,)),
    ensures
        f.ensures((a,), out),
{
    f(a)
}

/// Calls `f` with two arguments.
pub(crate) fn call_two<A, B, T, F: FnOnce(A, B) -> T>(f: F, a: A, b: B) -> (out: T)
    requires
        f.requires((a, b)),
    ensures
        f.ensures((a, b), out),
{
    f(a, b)
}

/// Calls `f` with three arguments.
pub(crate) fn call_three<A, B, C, T, F: FnOnce(A, B, C) -> T>(f: F, a: A, b: B, c: C) -> (out: T)
    requires
        f.requires((a, b, c)),
    ensures
        f.ensures((a, b, c), out),
{
    f(a, b, c)
}

} // verus!
