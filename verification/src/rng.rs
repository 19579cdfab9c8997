//! The library's draws from `rand`'s thread-local generator.

use rand::seq::IndexedRandom;
use vstd::prelude::*;

verus! {

/// Calls `rand::random_range(low..=high)` on `u64`. The value is random; what
/// is promised is only what holds of every draw: it lies in the inclusive
/// range. `random_range` panics on an empty range, which `requires` rules out.
#[verifier::external_body]
pub(crate) fn random_u64_inclusive(low: u64, high: u64) -> (r: u64)
    requires
        low <= high,
    ensures
        low <= r <= high,
{
    rand::random_range(low..=high)
}

/// Calls `IndexedRandom::choose` on a slice with `rand::rng()`. The source
/// returns `None` exactly for an empty slice, and otherwise a reference to one
/// of its elements, chosen at random; which element is not stated.
#[verifier::external_body]
pub(crate) fn choose_one<T: Copy>(items: &[T]) -> (r: Option<T>)
    ensures
        r is Some <==> items@.len() > 0,
        r matches Some(x) ==> items@.contains(x),
{
    items.choose(&mut rand::rng()).copied()
}

} // verus!
