//! A batch of simulated work items run with bounded concurrency.

use vstd::prelude::*;
use vstd::string::*;
use crate::rng::random_u64_inclusive;
use crate::text::{decimal, decimal_string};

verus! {

/// How many items may run at once.
pub const MAX_CONCURRENT: usize = 5;

/// How many work items there are.
pub const NUM_TASKS: usize = 20;

/// The shortest simulated work, in milliseconds.
pub const MIN_SLEEP_MS: u64 = 100;

/// The longest simulated work, in milliseconds.
pub const MAX_SLEEP_MS: u64 = 500;

/// How long one item's simulated work takes: a random number of milliseconds
/// from 100 to 500.
pub fn work_duration_ms() -> (ms: u64)
    ensures
        MIN_SLEEP_MS <= ms <= MAX_SLEEP_MS,
{
    random_u64_inclusive(MIN_SLEEP_MS, MAX_SLEEP_MS)
}

/// How many items are running when `available_permits` of the
/// `MAX_CONCURRENT` permits are free.
pub fn in_flight(available_permits: usize) -> (n: usize)
    requires
        available_permits <= MAX_CONCURRENT,
    ensures
        n == MAX_CONCURRENT - available_permits,
{
    MAX_CONCURRENT - available_permits
}

/// The result of item `id`: `Task {id} completed`.
pub open spec fn completion_line(id: nat) -> Seq<char> {
    seq!['T', 'a', 's', 'k', ' '] + decimal(id) + seq![' ', 'c', 'o', 'm', 'p', 'l', 'e', 't', 'e', 'd']
}

/// The result of item `id`.
pub fn completion_text(id: u64) -> (text: String)
    ensures
        text@ == completion_line(id as nat),
{
    proof {
        reveal_strlit("Task ");
        reveal_strlit(" completed");
    }
    assert("Task "@ =~= seq!['T', 'a', 's', 'k', ' ']);
    assert(" completed"@ =~= seq![' ', 'c', 'o', 'm', 'p', 'l', 'e', 't', 'e', 'd']);
    let mut text = String::from_str("Task ");
    let digits = decimal_string(id);
    text.append(digits.as_str());
    text.append(" completed");
    text
}

} // verus!
