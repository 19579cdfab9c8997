//! A deliberately CPU-heavy workload: the sum of the primes up to a bound.

use vstd::prelude::*;
use vstd::arithmetic::div_mod::{lemma_fundamental_div_mod, lemma_fundamental_div_mod_converse_mod};

verus! {

/// `n` is prime: at least 2 and divisible by no number strictly between 1 and `n`.
pub open spec fn prime(n: nat) -> bool {
    n >= 2 && forall|d: nat| 2 <= d < n ==> #[trigger] (n % d) != 0
}

/// The sum of the primes in `2..=max`.
pub open spec fn sum_primes(max: nat) -> nat
    decreases max,
{
    if max < 2 {
        0
    } else {
        sum_primes((max - 1) as nat) + if prime(max) { max } else { 0 }
    }
}

/// A divisor `k` of `n` with `k >= d` and `d * d > n` has a cofactor below `d`.
proof fn lemma_small_cofactor(n: nat, k: nat, d: nat)
    requires
        2 <= d <= k < n,
        n % k == 0,
        d > n / d,
    ensures
        2 <= n / k < d,
        n % (n / k) == 0,
{
    let q = n / k;
    lemma_fundamental_div_mod(n as int, k as int);
    assert(n == k * q);
    if q < 2 {
        assert(q == 0 || q == 1);
        assert(k * q <= k) by (nonlinear_arith)
            requires q <= 1;
    }
    assert(q * d <= q * k) by (nonlinear_arith)
        requires d <= k;
    lemma_fundamental_div_mod(n as int, d as int);
    if q >= d {
        assert(d * d <= q * d) by (nonlinear_arith)
            requires q >= d;
        assert(n % d < d);
        assert(d * (n / d) + n % d == n);
        assert(d * (n / d) + d <= d * d) by (nonlinear_arith)
            requires n / d + 1 <= d, d >= 0;
        assert(false);
    }
    lemma_fundamental_div_mod_converse_mod(n as int, q as int, k as int, 0);
}

/// Whether `n` is prime, by trial division up to its square root.
pub fn is_prime(n: u64) -> (b: bool)
    ensures
        b == prime(n as nat),
{
    if n < 2 {
        return false;
    }
    let mut d: u64 = 2;
    while d <= n / d
        invariant
            2 <= d,
            n >= 2,
            forall|k: nat| 2 <= k < d ==> #[trigger] ((n as nat) % k) != 0,
        decreases n - d,
    {
        if n % d == 0 {
            assert(d < n) by (nonlinear_arith)
                requires d <= n / d, d >= 2, n >= 2;
            assert((n as nat) % (d as nat) == 0);
            return false;
        }
        assert(d < n) by (nonlinear_arith)
            requires d <= n / d, d >= 2, n >= 2;
        d = d + 1;
    }
    assert forall|k: nat| 2 <= k < n implies #[trigger] ((n as nat) % k) != 0 by {
        if k >= d && (n as nat) % k == 0 {
            lemma_small_cofactor(n as nat, k, d as nat);
            let q = (n as nat) / k;
            assert((n as nat) % q != 0);
        }
    }
    true
}

proof fn lemma_sum_primes_monotone(a: nat, b: nat)
    requires
        a <= b,
    ensures
        sum_primes(a) <= sum_primes(b),
    decreases b,
{
    if a < b {
        lemma_sum_primes_monotone(a, (b - 1) as nat);
    }
}

/// The sum of the primes in `2..=max`. The sum must fit in a `u64`.
pub fn do_expensive_thing(max: u64) -> (total: u64)
    requires
        sum_primes(max as nat) <= u64::MAX,
    ensures
        total == sum_primes(max as nat),
{
    if max < 2 {
        return 0;
    }
    let mut total: u64 = 0;
    let mut n: u64 = 1;
    while n < max
        invariant
            1 <= n <= max,
            total == sum_primes(n as nat),
            sum_primes(max as nat) <= u64::MAX,
        decreases max - n,
    {
        n = n + 1;
        proof {
            lemma_sum_primes_monotone(n as nat, max as nat);
        }
        if is_prime(n) {
            total = total + n;
        }
    }
    total
}

} // verus!
