use async_patterns::primes::{do_expensive_thing, is_prime};

#[test]
fn small_primes() {
    let primes: Vec<u64> = (0..30).filter(|&n| is_prime(n)).collect();
    assert_eq!(primes, vec![2, 3, 5, 7, 11, 13, 17, 19, 23, 29]);
}

#[test]
fn squares_and_large_values() {
    assert!(!is_prime(49));
    assert!(!is_prime(121));
    assert!(is_prime(7919));
    assert!(is_prime(4_294_967_291)); // largest prime below 2^32
    assert!(!is_prime(4_294_967_291 * 3));
    assert!(!is_prime(u64::MAX));
}

#[test]
fn sum_of_primes() {
    assert_eq!(do_expensive_thing(0), 0);
    assert_eq!(do_expensive_thing(1), 0);
    assert_eq!(do_expensive_thing(2), 2);
    assert_eq!(do_expensive_thing(10), 17);
    assert_eq!(do_expensive_thing(100), 1060);
    assert_eq!(do_expensive_thing(50_000), 121_013_308);
}
