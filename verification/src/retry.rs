//! Retry with exponential backoff: the decision taken after each attempt.
//!
//! Each attempt's outcome goes to [`retry_step`], which either finishes with a
//! result or asks the caller to wait `delay_ms` milliseconds and call again.
//! The delay before retry number `attempt + 1` is `100ms * 2^attempt`, with a
//! random jitter of plus or minus a quarter, saturating at `u64::MAX`.

use vstd::prelude::*;
use crate::rng::random_u64_inclusive;

verus! {

/// `2^n`.
pub open spec fn exp2(n: nat) -> nat
    decreases n,
{
    if n == 0 {
        1
    } else {
        2 * exp2((n - 1) as nat)
    }
}

/// `x`, capped at `u64::MAX`.
pub open spec fn saturate(x: nat) -> nat {
    if x > u64::MAX {
        u64::MAX as nat
    } else {
        x
    }
}

/// The shortest wait after failed attempt `attempt`: 75% of `100 * 2^attempt` ms.
pub open spec fn backoff_floor_ms(attempt: nat) -> nat {
    saturate(75 * exp2(attempt))
}

/// The longest wait after failed attempt `attempt`: 125% of `100 * 2^attempt` ms.
pub open spec fn backoff_ceiling_ms(attempt: nat) -> nat {
    saturate(125 * exp2(attempt))
}

proof fn lemma_exp2_positive(n: nat)
    ensures
        exp2(n) >= 1,
    decreases n,
{
    if n > 0 {
        lemma_exp2_positive((n - 1) as nat);
    }
}

proof fn lemma_exp2_monotone(a: nat, b: nat)
    requires
        a <= b,
    ensures
        exp2(a) <= exp2(b),
    decreases b,
{
    if a < b {
        lemma_exp2_monotone(a, (b - 1) as nat);
        lemma_exp2_positive((b - 1) as nat);
    }
}

/// The doubling step of a saturated product: from `saturate(c * 2^i)` to
/// `saturate(c * 2^(i + 1))`.
fn saturating_double(x: u64, c: Ghost<nat>, i: Ghost<nat>) -> (y: u64)
    requires
        x == saturate(c@ * exp2(i@)),
    ensures
        y == saturate(c@ * exp2(i@ + 1)),
{
    proof {
        assert(exp2(i@ + 1) == 2 * exp2(i@));
        assert(c@ * exp2(i@ + 1) == 2 * (c@ * exp2(i@))) by (nonlinear_arith)
            requires exp2(i@ + 1) == 2 * exp2(i@);
    }
    if x > u64::MAX / 2 {
        u64::MAX
    } else {
        2 * x
    }
}

/// The range in which the wait after failed attempt `attempt` falls.
pub fn backoff_bounds(attempt: u32) -> (bounds: (u64, u64))
    ensures
        bounds.0 == backoff_floor_ms(attempt as nat),
        bounds.1 == backoff_ceiling_ms(attempt as nat),
{
    let mut low: u64 = 75;
    let mut high: u64 = 125;
    let mut i: u32 = 0;
    while i < attempt && low < u64::MAX
        invariant
            i <= attempt,
            low == backoff_floor_ms(i as nat),
            high == backoff_ceiling_ms(i as nat),
        decreases attempt - i,
    {
        low = saturating_double(low, Ghost(75), Ghost(i as nat));
        high = saturating_double(high, Ghost(125), Ghost(i as nat));
        i = i + 1;
    }
    proof {
        if i < attempt {
            lemma_exp2_monotone(i as nat, attempt as nat);
            assert(75 * exp2(i as nat) <= 75 * exp2(attempt as nat));
            assert(125 * exp2(i as nat) <= 125 * exp2(attempt as nat));
        }
    }
    (low, high)
}

/// The wait, in milliseconds, after failed attempt `attempt` (counting from
/// 0): `100 * 2^attempt` scaled by a random factor between 0.75 and 1.25.
pub fn calculate_backoff(attempt: u32) -> (delay_ms: u64)
    ensures
        backoff_floor_ms(attempt as nat) <= delay_ms <= backoff_ceiling_ms(attempt as nat),
{
    let (low, high) = backoff_bounds(attempt);
    proof {
        lemma_exp2_positive(attempt as nat);
    }
    random_u64_inclusive(low, high)
}

/// What follows an attempt.
pub enum RetryStep<T, E> {
    /// Stop and return this.
    Finished(Result<T, E>),
    /// The attempt failed with `error`; wait `delay_ms` milliseconds, then
    /// make retry number `attempt`.
    Backoff { error: E, attempt: u32, delay_ms: u64 },
}

/// The result that an attempt's outcome settles, if it settles one: a success
/// always does, and so does a failure once `max_retries` retries have been made.
pub open spec fn step_verdict<T, E>(attempt: nat, max_retries: nat, outcome: Result<T, E>) -> Option<Result<T, E>> {
    match outcome {
        Ok(v) => Some(Ok(v)),
        Err(e) => if attempt >= max_retries {
            Some(Err(e))
        } else {
            None
        },
    }
}

/// Decides what follows an attempt, `attempt` retries having been made so far
/// out of `max_retries`: a success is returned at once; a failure is returned
/// once no retry is left; otherwise the caller waits the backoff for `attempt`
/// and makes retry `attempt + 1`.
pub fn retry_step<T, E>(attempt: u32, max_retries: u32, outcome: Result<T, E>) -> (step: RetryStep<T, E>)
    requires
        attempt <= max_retries,
    ensures
        match step {
            RetryStep::Finished(r) => step_verdict(attempt as nat, max_retries as nat, outcome) == Some(r),
            RetryStep::Backoff { error, attempt: next, delay_ms } => {
                &&& step_verdict(attempt as nat, max_retries as nat, outcome) is None
                &&& outcome == Err::<T, E>(error)
                &&& next == attempt + 1
                &&& backoff_floor_ms(attempt as nat) <= delay_ms <= backoff_ceiling_ms(attempt as nat)
            },
        },
{
    match outcome {
        Ok(v) => RetryStep::Finished(Ok(v)),
        Err(e) => {
            if attempt == max_retries {
                RetryStep::Finished(Err(e))
            } else {
                let delay_ms = calculate_backoff(attempt);
                RetryStep::Backoff { error: e, attempt: attempt + 1, delay_ms }
            }
        },
    }
}

/// Feeds the outcomes `outcomes[0]`, `outcomes[1]`, ... to the retry
/// decision, starting after `attempt` retries: how many outcomes are consumed
/// (calls made) and the result returned, if any.
pub open spec fn run_retry<T, E>(attempt: nat, max_retries: nat, outcomes: Seq<Result<T, E>>) -> (nat, Option<Result<T, E>>)
    decreases outcomes.len(),
{
    if outcomes.len() == 0 {
        (0, None)
    } else {
        match step_verdict(attempt, max_retries, outcomes[0]) {
            Some(r) => (1, Some(r)),
            None => {
                let rest = run_retry(attempt + 1, max_retries, outcomes.drop_first());
                (rest.0 + 1, rest.1)
            },
        }
    }
}

/// Index `k` is where a run of `max_retries` retries stops: the first success,
/// or the last allowed attempt when every attempt up to it failed.
pub open spec fn stops_at<T, E>(max_retries: nat, outcomes: Seq<Result<T, E>>, k: nat) -> bool {
    &&& k <= max_retries
    &&& k < outcomes.len()
    &&& (outcomes[k as int] is Ok || k == max_retries)
    &&& forall|j: int| 0 <= j < k ==> outcomes[j] is Err
}

proof fn lemma_run_retry_from<T, E>(attempt: nat, max_retries: nat, outcomes: Seq<Result<T, E>>, k: nat)
    requires
        attempt + k <= max_retries,
        k < outcomes.len(),
        outcomes[k as int] is Ok || attempt + k == max_retries,
        forall|j: int| 0 <= j < k ==> outcomes[j] is Err,
    ensures
        run_retry(attempt, max_retries, outcomes) == (k + 1, Some(outcomes[k as int])),
    decreases k,
{
    if k > 0 {
        assert(outcomes[0] is Err);
        let rest = outcomes.drop_first();
        assert forall|j: int| 0 <= j < k - 1 implies rest[j] is Err by {
            assert(rest[j] == outcomes[j + 1]);
        }
        lemma_run_retry_from(attempt + 1, max_retries, rest, (k - 1) as nat);
    }
}

proof fn lemma_run_retry_bounded<T, E>(attempt: nat, max_retries: nat, outcomes: Seq<Result<T, E>>)
    requires
        attempt <= max_retries,
    ensures
        run_retry(attempt, max_retries, outcomes).0 <= max_retries - attempt + 1,
        run_retry(attempt, max_retries, outcomes).0 <= outcomes.len(),
    decreases outcomes.len(),
{
    if outcomes.len() > 0 && step_verdict(attempt, max_retries, outcomes[0]) is None {
        lemma_run_retry_bounded(attempt + 1, max_retries, outcomes.drop_first());
    }
}

/// Retrying makes at most `max_retries + 1` calls; it returns the first
/// success, or, when all `max_retries + 1` calls fail, the last error.
pub proof fn lemma_retry_outcome<T, E>(max_retries: nat, outcomes: Seq<Result<T, E>>, k: nat)
    requires
        stops_at(max_retries, outcomes, k),
    ensures
        run_retry(0, max_retries, outcomes) == (k + 1, Some(outcomes[k as int])),
        run_retry(0, max_retries, outcomes).0 <= max_retries + 1,
{
    lemma_run_retry_from(0, max_retries, outcomes, k);
}

/// Retrying never makes more than `max_retries + 1` calls, whatever the outcomes.
pub proof fn lemma_retry_call_limit<T, E>(max_retries: nat, outcomes: Seq<Result<T, E>>)
    ensures
        run_retry(0, max_retries, outcomes).0 <= max_retries + 1,
{
    lemma_run_retry_bounded(0, max_retries, outcomes);
}

/// The shortest total wait over the first `n` backoffs.
pub open spec fn total_floor_ms(n: nat) -> nat
    decreases n,
{
    if n == 0 {
        0
    } else {
        total_floor_ms((n - 1) as nat) + backoff_floor_ms((n - 1) as nat)
    }
}

/// The longest total wait over the first `n` backoffs.
pub open spec fn total_ceiling_ms(n: nat) -> nat
    decreases n,
{
    if n == 0 {
        0
    } else {
        total_ceiling_ms((n - 1) as nat) + backoff_ceiling_ms((n - 1) as nat)
    }
}

/// The backoff grows exponentially: below saturation, each wait range is
/// twice the previous one, and the total wait over the first `n` backoffs lies
/// between `75 * (2^n - 1)` and `125 * (2^n - 1)` milliseconds.
pub proof fn lemma_backoff_exponential(n: nat)
    requires
        125 * exp2(n) <= u64::MAX,
    ensures
        total_floor_ms(n) == 75 * (exp2(n) - 1),
        total_ceiling_ms(n) == 125 * (exp2(n) - 1),
        n > 0 ==> backoff_floor_ms(n) == 2 * backoff_floor_ms((n - 1) as nat),
        n > 0 ==> backoff_ceiling_ms(n) == 2 * backoff_ceiling_ms((n - 1) as nat),
    decreases n,
{
    if n > 0 {
        let m = (n - 1) as nat;
        assert(exp2(n) == 2 * exp2(m));
        lemma_exp2_positive(m);
        lemma_backoff_exponential(m);
    }
}

} // verus!
