use async_patterns::retry::{backoff_bounds, calculate_backoff, retry_step, RetryStep};

/// Fails with the current count until the count reaches `expected`, counting
/// each failure.
fn test_function(c: &mut u32, expected: u32) -> Result<u32, u32> {
    let count = *c;
    if count == expected {
        Ok(count)
    } else {
        *c += 1;
        Err(count)
    }
}

/// Drives the retry decision the way the async retry loop does, recording the
/// number of calls and the waits asked for.
fn run<T, E>(mut f: impl FnMut() -> Result<T, E>, max_retries: u32) -> (Result<T, E>, u32, Vec<u64>) {
    let mut attempt = 0;
    let mut calls = 0;
    let mut waits = Vec::new();
    loop {
        calls += 1;
        match retry_step(attempt, max_retries, f()) {
            RetryStep::Finished(r) => return (r, calls, waits),
            RetryStep::Backoff { error: _, attempt: next, delay_ms } => {
                attempt = next;
                waits.push(delay_ms);
            }
        }
    }
}

#[test]
fn succeed_first_try() {
    let mut attempts = 0;
    let expected = 0;
    let max_retries = 0;
    let (result, calls, waits) = run(|| test_function(&mut attempts, 0), max_retries);
    assert_eq!(Ok(expected), result);
    assert_eq!(calls, 1);
    assert!(waits.is_empty());
}

#[test]
fn succeed_on_third_try() {
    let mut attempts = 0;
    let expected = 2;
    let max_retries = 2;
    let (result, calls, _) = run(|| test_function(&mut attempts, expected), max_retries);
    assert_eq!(Ok(expected), result);
    assert_eq!(calls, 3);
}

#[test]
fn fail_after_max_retries() {
    let mut attempts = 0;
    let expected = 2;
    let max_retries = 1;
    let (result, calls, _) = run(|| test_function(&mut attempts, expected), max_retries);
    assert_eq!(Err(1), result);
    assert_eq!(calls, 2);
}

#[test]
fn check_expected_attempts() {
    let mut attempts = 0;
    let expected = 3;
    let max_retries = 5;
    let (result, _, _) = run(|| test_function(&mut attempts, expected), max_retries);
    assert_eq!(Ok(expected), result);
    assert_eq!(attempts, expected);
}

#[test]
fn verify_exponential_backoff_consistency() {
    let lower_bound_ms: f64 = (0..5).map(|i| 100.0 * 2_f64.powi(i) * 0.75).sum();
    let upper_bound_ms: f64 = (0..5).map(|i| 100.0 * 2_f64.powi(i) * 1.25).sum();
    let mut attempts = 0;
    let expected = 5;
    let max_retries = 5;
    let (result, _, waits) = run(|| test_function(&mut attempts, expected), max_retries);
    assert_eq!(Ok(expected), result);
    let elapsed_ms: f64 = waits.iter().map(|w| *w as f64).sum();
    assert!(elapsed_ms >= lower_bound_ms, "Too fast: {elapsed_ms}ms < {lower_bound_ms}ms");
    assert!(elapsed_ms <= upper_bound_ms, "Too slow: {elapsed_ms}ms > {upper_bound_ms}ms");
}

#[test]
fn backoff_bounds_double_each_attempt() {
    assert_eq!(backoff_bounds(0), (75, 125));
    assert_eq!(backoff_bounds(1), (150, 250));
    assert_eq!(backoff_bounds(3), (600, 1000));
    assert_eq!(backoff_bounds(10), (76800, 128000));
}

#[test]
fn backoff_bounds_saturate() {
    // 125 * 2^57 still fits a u64; 75 * 2^58 no longer does.
    assert_eq!(backoff_bounds(57), (75u64 << 57, 125u64 << 57));
    assert_eq!(backoff_bounds(58), (u64::MAX, u64::MAX));
    assert_eq!(backoff_bounds(64), (u64::MAX, u64::MAX));
    assert_eq!(backoff_bounds(u32::MAX), (u64::MAX, u64::MAX));
}

#[test]
fn backoff_is_jittered_within_a_quarter() {
    let mut seen = std::collections::BTreeSet::new();
    for _ in 0..200 {
        let d = calculate_backoff(2);
        assert!((300..=500).contains(&d));
        seen.insert(d);
    }
    assert!(seen.len() > 1, "the jitter should vary the delay");
}

#[test]
fn retry_step_reports_the_error_and_next_attempt() {
    match retry_step::<u8, &str>(1, 3, Err("boom")) {
        RetryStep::Backoff { error, attempt, delay_ms } => {
            assert_eq!(error, "boom");
            assert_eq!(attempt, 2);
            assert!((150..=250).contains(&delay_ms));
        }
        RetryStep::Finished(_) => panic!("a retry was left"),
    }
    assert!(matches!(retry_step::<u8, &str>(3, 3, Err("last")), RetryStep::Finished(Err("last"))));
    assert!(matches!(retry_step::<u8, &str>(3, 3, Ok(7)), RetryStep::Finished(Ok(7))));
}

#[test]
fn always_failing_makes_max_retries_plus_one_calls() {
    let (result, calls, waits) = run(|| Err::<(), u32>(9), 4);
    assert_eq!(result, Err(9));
    assert_eq!(calls, 5);
    assert_eq!(waits.len(), 4);
}
