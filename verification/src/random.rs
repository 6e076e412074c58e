//! The one source of randomness: the thread-local generator of the `rand` crate.

use rand::Rng;
use vstd::prelude::*;

verus! {

/// Calls `rand::Rng::gen_range(low, high)` on `rand::thread_rng()`.
///
/// In rand 0.5 the integer sampler asserts `low < high` and returns `low` plus an offset
/// drawn below `high - low`, so the result lies in `[low, high)`. Which value comes out
/// depends on the generator's state; nothing more is stated of it.
#[verifier::external_body]
pub(crate) fn gen_range(low: usize, high: usize) -> (r: usize)
    requires
        low < high,
    ensures
        low <= r < high,
{
    rand::thread_rng().gen_range(low, high)
}

} // verus!

verus! {

/// Calls `rand::Rng::gen_iter::<u8>()` on `rand::thread_rng()` and collects the first `n`
/// bytes it yields (the iterator is endless, so exactly `n` come out). Their values depend
/// on the generator's state; only their number is stated.
#[verifier::external_body]
#[allow(deprecated)]
pub(crate) fn gen_bytes(n: usize) -> (v: Vec<u8>)
    ensures
        v@.len() == n,
{
    rand::thread_rng().gen_iter::<u8>().take(n).collect()
}

} // verus!

verus! {

/// Calls `rand::Rng::choose` on `rand::thread_rng()` with `values`, copying out the element.
///
/// In rand 0.5 it returns `None` for an empty slice, and otherwise the element at an index
/// drawn by `gen_range(0, len)`, so one of the slice's elements. Which one depends on the
/// generator's state; nothing more is stated of it.
#[verifier::external_body]
pub(crate) fn pick<T: Copy>(values: &[T]) -> (r: Option<T>)
    ensures
        values@.len() == 0 <==> r is None,
        r matches Some(c) ==> values@.contains(c),
{
    rand::thread_rng().choose(values).copied()
}

} // verus!
