//! The combinators of the `futures` crate that scopes are built from.
//!
//! Of a future `f`, `f.awaited()` says that it is driven to completion, and `f@` is the value that it
//! gives then. What a future does before that is told by what it was made of: [`joins`], [`is_ready`],
//! [`maps`], [`calls_when_polled`] and [`flattens`].
use core::future::Future;

use futures::future::{Flatten, Join, Ready};
use futures::task::FutureObj;
use futures::FutureExt;
use vstd::future::FutureAdditionalSpecFns;
use vstd::prelude::*;

use crate::calls;

verus! {

/// `futures::future::Join`, the future that [`join`] gives.
#[verifier::external_type_specification]
#[verifier::external_body]
#[verifier::reject_recursive_types(Fut1)]
#[verifier::reject_recursive_types(Fut2)]
pub struct ExJoin<Fut1: Future, Fut2: Future>(Join<Fut1, Fut2>);

/// `futures::future::Ready`, the future that [`ready`] gives.
#[verifier::external_type_specification]
#[verifier::external_body]
#[verifier::reject_recursive_types(T)]
pub struct ExReady<T>(Ready<T>);

/// `futures::future::Map`, the future that [`map_output`] gives.
#[verifier::external_type_specification]
#[verifier::external_body]
#[verifier::reject_recursive_types(Fut)]
#[verifier::reject_recursive_types(F)]
pub struct ExMap<Fut, F>(futures::future::Map<Fut, F>);

/// `futures::future::Flatten`, the future that [`flatten`] gives.
#[verifier::external_type_specification]
#[verifier::external_body]
#[verifier::reject_recursive_types(F)]
pub struct ExFlatten<F: Future>(Flatten<F>);

/// `futures::task::FutureObj`, a boxed future that can be sent to another thread.
#[verifier::external_type_specification]
#[verifier::external_body]
#[verifier::reject_recursive_types(T)]
pub struct ExFutureObj<'a, T>(FutureObj<'a, T>);

/// `f` can be called with `arg`.
pub open spec fn accepts<A, T, F: FnOnce(A) -> T>(f: &F, arg: A) -> bool {
    f.requires((arg,))
}

/// `out` is what `f` may give when called with `arg`.
pub open spec fn yields<A, T, F: FnOnce(A) -> T>(f: &F, arg: A, out: T) -> bool {
    f.ensures((arg,), out)
}

/// Stands for the first poll of a future, while it lasts. Only [`lazy`] hands one out, and one only.
///
/// That a poll makes one guard at most, and starts one task, rests on the types: neither this nor
/// what it is split into can be copied. As values all polls are equal, so a contract that speaks of a
/// poll does not tell it from another.
#[derive(Debug)]
pub struct Polled {
    _now: (),
}

/// Lets one guard be made, in the poll that it comes from.
#[derive(Debug)]
pub struct MayCount {
    _now: (),
}

/// Lets one task be started, in the poll that it comes from.
#[derive(Debug)]
pub struct MayStart {
    _now: (),
}

impl Polled {
    /// What lets one guard be made in this poll. It is the same value for every poll.
    pub closed spec fn may_count(&self) -> MayCount {
        MayCount { _now: () }
    }

    /// What lets one task be started in this poll. It is the same value for every poll.
    pub closed spec fn may_start(&self) -> MayStart {
        MayStart { _now: () }
    }

    /// Uses the poll up, for one guard and one task.
    pub(crate) fn split(self) -> (both: (MayCount, MayStart))
        ensures
            both == (self.may_count(), self.may_start()),
    {
        (MayCount { _now: () }, MayStart { _now: () })
    }
}

/// `futures::future::join`: a future that waits for both futures, and gives both their values as
/// a pair in the order of the arguments. Each time it is polled it polls each of the two that has not
/// ended; no clause says so.
#[verifier::external_body]
fn join<U, V, A: Future<Output = U>, B: Future<Output = V>>(first: A, second: B) -> (both: Join<A, B>)
    ensures
        both.awaited() ==> {
            &&& first.awaited()
            &&& second.awaited()
            &&& both@ == (first@, second@)
        },
{
    futures::future::join(first, second)
}

/// `futures::future::ready`: a future that gives `value` when it is first polled.
#[verifier::external_body]
fn ready<T>(value: T) -> (future: Ready<T>)
    ensures
        future.awaited() ==> future@ == value,
{
    futures::future::ready(value)
}

/// `futures::FutureExt::map`: a future that waits for `future`, calls `f` with its value, and gives
/// what `f` gave.
#[verifier::external_body]
fn map_output<V, T, A: Future<Output = V>, F: FnOnce(V) -> T>(future: A, f: F) -> (mapped:
    futures::future::Map<A, F>)
    requires
        accepts(&f, future@),
    ensures
        mapped.awaited() ==> {
            &&& future.awaited()
            &&& yields(&f, future@, mapped@)
        },
{
    future.map(f)
}

/// `futures::future::lazy`, boxed as a `FutureObj`: a future that calls `f` with `a` and `b` when it
/// is first polled, and gives at once what `f` gave. In place of the task context of that poll, which
/// `f` would not read, `f` gets the token that stands for the poll.
#[verifier::external_body]
fn lazy<
    'a,
    A: Send + 'a,
    B: Send + 'a,
    T: 'a,
    F: FnOnce(Polled, A, B) -> T + Send + 'a,
>(f: F, a: A, b: B) -> (future: FutureObj<'a, T>)
    requires
        forall|now: Polled| f.requires((now, a, b)),
    ensures
        future.awaited() ==> exists|now: Polled| f.ensures((now, a, b), future@),
{
    FutureObj::new(Box::new(futures::future::lazy(move |_| f(Polled { _now: () }, a, b))))
}

/// `futures::FutureExt::flatten`: a future that waits for `future`, then for the future that came
/// of it, and gives the value of the latter. It polls the latter in the poll in which that came; no
/// clause says so.
#[verifier::external_body]
fn flatten<V, T: Future<Output = V>, A: Future<Output = T>>(future: A) -> (flat: Flatten<A>)
    ensures
        flat.awaited() ==> {
            &&& future.awaited()
            &&& future@.awaited()
            &&& flat@ == future@@
        },
{
    future.flatten()
}

/// `both` is the future that waits for `first` and `second` at once.
pub closed spec fn joins<U, V, A: Future<Output = U>, B: Future<Output = V>>(
    both: &Join<A, B>,
    first: &A,
    second: &B,
) -> bool {
    call_ensures(join::<U, V, A, B>, (*first, *second), *both)
}

/// `future` is the future that gives `value` at once.
pub closed spec fn is_ready<T>(future: &Ready<T>, value: &T) -> bool {
    call_ensures(ready::<T>, (*value,), *future)
}

/// `mapped` is the future that waits for `future` and hands its value over to `f`.
pub closed spec fn maps<V, T, A: Future<Output = V>, F: FnOnce(V) -> T>(
    mapped: &futures::future::Map<A, F>,
    future: &A,
    f: &F,
) -> bool {
    call_ensures(map_output::<V, T, A, F>, (*future, *f), *mapped)
}

/// `future` is the future that calls `f` with `a` and `b` when it is first polled.
pub closed spec fn calls_when_polled<
    'a,
    A: Send + 'a,
    B: Send + 'a,
    T: 'a,
    F: FnOnce(Polled, A, B) -> T + Send + 'a,
>(future: &FutureObj<'a, T>, f: &F, a: &A, b: &B) -> bool {
    call_ensures(lazy::<A, B, T, F>, (*f, *a, *b), *future)
}

/// `flat` is the future that waits for `future`, then for the future that came of it.
pub closed spec fn flattens<V, T: Future<Output = V>, A: Future<Output = T>>(
    flat: &Flatten<A>,
    future: &A,
) -> bool {
    call_ensures(flatten::<V, T, A>, (*future,), *flat)
}

/// Waits for both futures at once.
pub(crate) fn make_join<U, V, A: Future<Output = U>, B: Future<Output = V>>(
    first: A,
    second: B,
) -> (both: Join<A, B>)
    ensures
        joins(&both, &first, &second),
        both.awaited() ==> {
            &&& first.awaited()
            &&& second.awaited()
            &&& both@ == (first@, second@)
        },
{
    calls::call_two(join::<U, V, A, B>, first, second)
}

/// Gives `value` at once.
pub(crate) fn make_ready<T>(value: T) -> (future: Ready<T>)
    ensures
        is_ready(&future, &value),
        future.awaited() ==> future@ == value,
{
    calls::call_one(ready::<T>, value)
}

/// Waits for `future` and hands its value over to `f`.
pub(crate) fn make_map<V, T, A: Future<Output = V>, F: FnOnce(V) -> T>(future: A, f: F) -> (mapped:
    futures::future::Map<A, F>)
    requires
        accepts(&f, future@),
    ensures
        maps(&mapped, &future, &f),
        mapped.awaited() ==> {
            &&& future.awaited()
            &&& yields(&f, future@, mapped@)
            &&& f.ensures((future@,), mapped@)
        },
{
    calls::call_two(map_output::<V, T, A, F>, future, f)
}

/// Calls `f` with `a` and `b` when first polled.
pub(crate) fn make_lazy<
    'a,
    A: Send + 'a,
    B: Send + 'a,
    T: 'a,
    F: FnOnce(Polled, A, B) -> T + Send + 'a,
>(f: F, a: A, b: B) -> (future: FutureObj<'a, T>)
    requires
        forall|now: Polled| f.requires((now, a, b)),
    ensures
        calls_when_polled(&future, &f, &a, &b),
        future.awaited() ==> exists|now: Polled| f.ensures((now, a, b), future@),
{
    calls::call_three(lazy::<A, B, T, F>, f, a, b)
}

/// Waits for `future`, then for the future that came of it.
pub(crate) fn make_flatten<V, T: Future<Output = V>, A: Future<Output = T>>(future: A) -> (flat:
    Flatten<A>)
    ensures
        flattens(&flat, &future),
        flat.awaited() ==> {
            &&& future.awaited()
            &&& future@.awaited()
            &&& flat@ == future@@
        },
{
    calls::call_one(flatten::<V, T, A>, future)
}

/// What a function accepts and yields is what its own contract says.
pub proof fn law_function_contract<A, T, F: FnOnce(A) -> T>(f: F, arg: A, out: T)
    ensures
        accepts(&f, arg) <==> f.requires((arg,)),
        yields(&f, arg, out) <==> f.ensures((arg,), out),
{
}

/// A joined future ends when both futures ended, and gives their values in their order.
pub proof fn law_join_waits_for_both<U, V, A: Future<Output = U>, B: Future<Output = V>>(
    both: Join<A, B>,
    first: A,
    second: B,
)
    requires
        joins(&both, &first, &second),
    ensures
        both.awaited() ==> first.awaited() && second.awaited() && both@ == (first@, second@),
{
    lemma_joins(both, first, second);
}

/// A ready future gives the value that it was made with.
pub proof fn law_ready_gives_its_value<T>(future: Ready<T>, value: T)
    requires
        is_ready(&future, &value),
    ensures
        future.awaited() ==> future@ == value,
{
    lemma_is_ready(future, value);
}

/// A mapped future ends when its future ended, and gives what the function gave for the value.
pub proof fn law_map_calls_with_the_value<V, T, A: Future<Output = V>, F: FnOnce(V) -> T>(
    mapped: futures::future::Map<A, F>,
    future: A,
    f: F,
)
    requires
        maps(&mapped, &future, &f),
    ensures
        mapped.awaited() ==> future.awaited() && f.ensures((future@,), mapped@),
{
    lemma_maps(mapped, future, f);
}

/// A lazy future gives what the function gave in a first poll, for the values kept for it.
pub proof fn law_lazy_calls_in_a_poll<
    'a,
    A: Send + 'a,
    B: Send + 'a,
    T: 'a,
    F: FnOnce(Polled, A, B) -> T + Send + 'a,
>(future: FutureObj<'a, T>, f: F, a: A, b: B)
    requires
        calls_when_polled(&future, &f, &a, &b),
    ensures
        future.awaited() ==> exists|now: Polled| f.ensures((now, a, b), future@),
{
    lemma_calls_when_polled(future, f, a, b);
}

/// A flattened future ends when its future and the one that came of it ended, and gives the value of
/// the latter.
pub proof fn law_flatten_waits_for_what_came<V, T: Future<Output = V>, A: Future<Output = T>>(
    flat: Flatten<A>,
    future: A,
)
    requires
        flattens(&flat, &future),
    ensures
        flat.awaited() ==> future.awaited() && future@.awaited() && flat@ == future@@,
{
    lemma_flattens(flat, future);
}

proof fn lemma_joins<U, V, A: Future<Output = U>, B: Future<Output = V>>(
    both: Join<A, B>,
    first: A,
    second: B,
)
    requires
        joins(&both, &first, &second),
    ensures
        call_ensures(join::<U, V, A, B>, (first, second), both),
{
}

proof fn lemma_is_ready<T>(future: Ready<T>, value: T)
    requires
        is_ready(&future, &value),
    ensures
        call_ensures(ready::<T>, (value,), future),
{
}

proof fn lemma_maps<V, T, A: Future<Output = V>, F: FnOnce(V) -> T>(
    mapped: futures::future::Map<A, F>,
    future: A,
    f: F,
)
    requires
        maps(&mapped, &future, &f),
    ensures
        call_ensures(map_output::<V, T, A, F>, (future, f), mapped),
{
}

proof fn lemma_calls_when_polled<
    'a,
    A: Send + 'a,
    B: Send + 'a,
    T: 'a,
    F: FnOnce(Polled, A, B) -> T + Send + 'a,
>(future: FutureObj<'a, T>, f: F, a: A, b: B)
    requires
        calls_when_polled(&future, &f, &a, &b),
    ensures
        call_ensures(lazy::<A, B, T, F>, (f, a, b), future),
{
}

proof fn lemma_flattens<V, T: Future<Output = V>, A: Future<Output = T>>(
    flat: Flatten<A>,
    future: A,
)
    requires
        flattens(&flat, &future),
    ensures
        call_ensures(flatten::<V, T, A>, (future,), flat),
{
}

} // verus!
