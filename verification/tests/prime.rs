use cyclebench::prime::{isqrt, num_primes_until, primality_test_v1, primality_test_v2};

#[test]
fn test_v1() {
    assert_eq!(primality_test_v1(0), None);
    assert_eq!(primality_test_v1(1), None);
    assert_eq!(primality_test_v1(2), Some(true));
    assert_eq!(primality_test_v1(3), Some(true));
    assert_eq!(primality_test_v1(4), Some(false));
    assert_eq!(primality_test_v1(5), Some(true));
    assert_eq!(primality_test_v1(6), Some(false));
    assert_eq!(primality_test_v1(7), Some(true));
    assert_eq!(primality_test_v1(8), Some(false));
    assert_eq!(primality_test_v1(9), Some(false));
    assert_eq!(primality_test_v1(451), Some(false));
    assert_eq!(primality_test_v1(599), Some(true));
    assert_eq!(primality_test_v1(600), Some(false));
    assert_eq!(primality_test_v1(601), Some(true));
    assert_eq!(primality_test_v1(99991), Some(true));
    assert_eq!(primality_test_v1(99997), Some(false));
    assert_eq!(primality_test_v1(9007199254740881), Some(true));
    assert_eq!(primality_test_v1(9007199254740991), Some(false));
}

#[test]
fn test_v2() {
    assert_eq!(primality_test_v2(0), None);
    assert_eq!(primality_test_v2(1), None);
    assert_eq!(primality_test_v2(2), Some(true));
    assert_eq!(primality_test_v2(3), Some(true));
    assert_eq!(primality_test_v2(4), Some(false));
    assert_eq!(primality_test_v2(5), Some(true));
    assert_eq!(primality_test_v2(6), Some(false));
    assert_eq!(primality_test_v2(7), Some(true));
    assert_eq!(primality_test_v2(8), Some(false));
    assert_eq!(primality_test_v2(9), Some(false));
    assert_eq!(primality_test_v2(451), Some(false));
    assert_eq!(primality_test_v2(599), Some(true));
    assert_eq!(primality_test_v2(600), Some(false));
    assert_eq!(primality_test_v2(601), Some(true));
    assert_eq!(primality_test_v2(99991), Some(true));
    assert_eq!(primality_test_v2(99997), Some(false));
    assert_eq!(primality_test_v2(9007199254740881), Some(true));
    assert_eq!(primality_test_v2(9007199254740991), Some(false));
}

#[test]
fn square_numbers_are_composite() {
    assert_eq!(primality_test_v1(25), Some(false));
    assert_eq!(primality_test_v2(25), Some(false));
    assert_eq!(primality_test_v1(49), Some(false));
    assert_eq!(primality_test_v2(121), Some(false));
}

#[test]
fn prime_counts() {
    assert_eq!(num_primes_until(0), 0);
    assert_eq!(num_primes_until(2), 0);
    assert_eq!(num_primes_until(3), 1);
    assert_eq!(num_primes_until(10), 4);
    assert_eq!(num_primes_until(100), 25);
    assert_eq!(num_primes_until(1000), 168);
}

#[test]
fn integer_square_roots() {
    assert_eq!(isqrt(0), 0);
    assert_eq!(isqrt(1), 1);
    assert_eq!(isqrt(24), 4);
    assert_eq!(isqrt(25), 5);
    assert_eq!(isqrt(26), 5);
    assert_eq!(isqrt(u64::MAX), 4294967295);
}
