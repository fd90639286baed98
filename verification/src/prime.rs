//! Primality-testing workloads.
//!
//! These routines are the benchmarked workload: two near-identical variants
//! of a trial-division primality test (the second saves one addition in its
//! inner loop), and a counting loop that drives one of them.

use vstd::arithmetic::div_mod::*;
use vstd::arithmetic::mul::*;
use vstd::prelude::*;

verus! {

/// A number is prime when it is at least 2 and no number strictly between
/// 1 and itself divides it.
pub open spec fn is_prime(n: int) -> bool {
    n >= 2 && forall|d: int| 2 <= d < n ==> #[trigger] (n % d) != 0
}

/// How many primes lie strictly below `n`.
pub open spec fn count_primes_below(n: int) -> int
    decreases n,
{
    if n <= 2 {
        0
    } else {
        count_primes_below(n - 1) + if is_prime(n - 1) {
            1int
        } else {
            0int
        }
    }
}

/// `r` is the integer square root of `n`.
pub open spec fn is_int_sqrt(n: int, r: int) -> bool {
    0 <= r && r * r <= n < (r + 1) * (r + 1)
}

/// Integer square root by binary search.
pub fn isqrt(n: u64) -> (r: u64)
    ensures
        is_int_sqrt(n as int, r as int),
        r < 4294967296,
{
    let mut lo: u64 = 0;
    let mut hi: u64 = 4294967296;
    assert((4294967296int) * (4294967296int) > u64::MAX as int);
    while lo + 1 < hi
        invariant
            lo < hi <= 4294967296,
            (lo as int) * (lo as int) <= n as int,
            (n as int) < (hi as int) * (hi as int),
        decreases hi - lo,
    {
        let mid: u64 = lo + (hi - lo) / 2;
        assert(lo < mid < hi);
        proof {
            lemma_mul_upper_bound(mid as int, 4294967296int, mid as int, 4294967296int);
        }
        let sq: u128 = (mid as u128) * (mid as u128);
        if sq <= n as u128 {
            lo = mid;
        } else {
            hi = mid;
        }
    }
    lo
}

/// If `p` divides `d` and `d` divides `n`, then `p` divides `n`.
proof fn lemma_factor_of_factor(n: int, d: int, p: int)
    requires
        n >= 0,
        d >= 1,
        p >= 1,
        n % d == 0,
        d % p == 0,
    ensures
        n % p == 0,
{
    let q = n / d;
    let m = d / p;
    lemma_fundamental_div_mod(n, d);
    lemma_fundamental_div_mod(d, p);
    assert(n == (p * m) * q);
    lemma_mul_is_associative(p, m, q);
    assert(n == (m * q) * p) by {
        lemma_mul_is_commutative(p, m * q);
    }
    lemma_mod_multiples_basic(m * q, p);
}

/// A composite number has a divisor no larger than its square root.
proof fn lemma_composite_has_small_factor(n: int)
    requires
        n >= 2,
        !is_prime(n),
    ensures
        exists|d: int| 2 <= d && d * d <= n && #[trigger] (n % d) == 0,
{
    let d = choose|d: int| 2 <= d < n && #[trigger] (n % d) == 0;
    assert(2 <= d < n && n % d == 0);
    let q = n / d;
    lemma_fundamental_div_mod(n, d);
    assert(n == d * q);
    assert(q >= 1) by (nonlinear_arith)
        requires
            n == d * q,
            n >= 2,
            d >= 2,
    ;
    if q == 1 {
        assert(n == d) by {
            lemma_mul_basics(d);
        }
        assert(false);
    }
    if d * d <= n {
        assert(2 <= d && d * d <= n && n % d == 0);
    } else {
        assert(d * d > d * q);
        assert(d > q) by {
            lemma_mul_strict_inequality_converse(q, d, d);
        }
        assert(q * q < d * q) by {
            lemma_mul_strict_inequality(q, d, q);
        }
        lemma_mul_is_commutative(d, q);
        assert(q * q <= n);
        assert(n % q == 0) by {
            lemma_mod_multiples_basic(d, q);
        }
        assert(2 <= q && q * q <= n && n % q == 0);
    }
}

/// A composite number with no factor of 2 or 3 has a divisor of the form
/// 6k+1 or 6k+5, no larger than its square root.
proof fn lemma_composite_has_residue_factor(n: int)
    requires
        n >= 5,
        n % 2 != 0,
        n % 3 != 0,
        !is_prime(n),
    ensures
        exists|d: int|
            5 <= d && d * d <= n && #[trigger] (n % d) == 0 && (d % 6 == 1 || d % 6 == 5),
{
    lemma_composite_has_small_factor(n);
    let d = choose|d: int| 2 <= d && d * d <= n && #[trigger] (n % d) == 0;
    assert(d % 2 != 0) by {
        if d % 2 == 0 {
            lemma_factor_of_factor(n, d, 2);
        }
    }
    assert(d % 3 != 0) by {
        if d % 3 == 0 {
            lemma_factor_of_factor(n, d, 3);
        }
    }
    assert(d != 2 && d != 3 && d != 4);
    assert(d >= 5);
    let r = d % 6;
    lemma_mod_bound(d, 6);
    assert((d % 6) % 2 == d % 2) by {
        lemma_mod_mod(d, 2, 3);
    }
    assert((d % 6) % 3 == d % 3) by {
        lemma_mod_mod(d, 3, 2);
        assert(d % (3int * 2int) == d % (2int * 3int));
    }
    assert(r == 1 || r == 5);
    assert(5 <= d && d * d <= n && n % d == 0 && (d % 6 == 1 || d % 6 == 5));
}

/// A number at least its own square root squared, with no factor among
/// 2, 3, and the 6k±1 candidates up to the square root, is prime.
proof fn lemma_no_candidate_factor_v1(n: int, s: int, bound: int)
    requires
        n >= 5,
        n % 2 != 0,
        n % 3 != 0,
        is_int_sqrt(n, s),
        bound >= s + 2,
        forall|j: int|
            6 <= j < bound && #[trigger] (j % 6) == 0 ==> n % (j - 1) != 0 && n % (j + 1) != 0,
    ensures
        is_prime(n),
{
    if !is_prime(n) {
        lemma_composite_has_residue_factor(n);
        let d = choose|d: int|
            5 <= d && d * d <= n && #[trigger] (n % d) == 0 && (d % 6 == 1 || d % 6 == 5);
        assert(d <= s) by {
            if d >= s + 1 {
                lemma_mul_inequality(s + 1, d, s + 1);
                lemma_mul_inequality(s + 1, d, d);
                lemma_mul_is_commutative(s + 1, d);
                assert((s + 1) * (s + 1) <= d * d);
            }
        }
        if d % 6 == 5 {
            let j = d + 1;
            assert(j % 6 == 0) by {
                lemma_add_mod_noop(d, 1, 6);
            }
            assert(6 <= j < bound);
            assert(n % (j - 1) != 0);
            assert(false);
        } else {
            let j = d - 1;
            assert(j % 6 == 0) by {
                lemma_sub_mod_noop(d, 1, 6);
            }
            assert(d != 1 && d % 6 == 1);
            assert(d >= 7);
            assert(6 <= j < bound);
            assert(n % (j + 1) != 0);
            assert(false);
        }
    }
}

/// Like `lemma_no_candidate_factor_v1`, with candidates enumerated as
/// j and j+2 for j ≡ 5 (mod 6).
proof fn lemma_no_candidate_factor_v2(n: int, s: int, bound: int)
    requires
        n >= 5,
        n % 2 != 0,
        n % 3 != 0,
        is_int_sqrt(n, s),
        bound >= s + 1,
        forall|j: int|
            5 <= j < bound && #[trigger] (j % 6) == 5 ==> n % j != 0 && n % (j + 2) != 0,
    ensures
        is_prime(n),
{
    if !is_prime(n) {
        lemma_composite_has_residue_factor(n);
        let d = choose|d: int|
            5 <= d && d * d <= n && #[trigger] (n % d) == 0 && (d % 6 == 1 || d % 6 == 5);
        assert(d <= s) by {
            if d >= s + 1 {
                lemma_mul_inequality(s + 1, d, s + 1);
                lemma_mul_inequality(s + 1, d, d);
                lemma_mul_is_commutative(s + 1, d);
                assert((s + 1) * (s + 1) <= d * d);
            }
        }
        if d % 6 == 5 {
            let j = d;
            assert(5 <= j < bound);
            assert(n % j != 0);
            assert(false);
        } else {
            let j = d - 2;
            assert(j % 6 == 5) by {
                lemma_sub_mod_noop(d, 2, 6);
            }
            assert(d != 1 && d % 6 == 1);
            assert(d >= 7);
            assert(5 <= j < bound);
            assert(n % (j + 2) != 0);
            assert(false);
        }
    }
}

/// Trial division over the 6k±1 candidates up to the square root.
///
/// Numbers below 2 have no defined answer; for the rest the result states
/// primality exactly.
pub fn primality_test_v1(n: u64) -> (r: Option<bool>)
    ensures
        n < 2 <==> r is None,
        n >= 2 ==> r == Some(is_prime(n as int)),
{
    if n == 0 || n == 1 {
        return None;
    }
    if n == 2 || n == 3 {
        return Some(true);
    }
    if n % 2 == 0 {
        assert((n as int) % 2 == 0 && 2 < n as int);
        return Some(false);
    }
    if n % 3 == 0 {
        assert((n as int) % 3 == 0 && 3 < n as int);
        return Some(false);
    }
    let s = isqrt(n);
    let limit = s + 2;
    let mut i: u64 = 6;
    while i < limit
        invariant
            n >= 5,
            n % 2 != 0,
            n % 3 != 0,
            is_int_sqrt(n as int, s as int),
            limit == s + 2,
            i >= 6,
            i % 6 == 0,
            forall|j: int|
                6 <= j < i && #[trigger] (j % 6) == 0 ==> (n as int) % (j - 1) != 0 && (n as int)
                    % (j + 1) != 0,
        decreases limit + 6 - i,
    {
        proof {
            assert(s >= 5);
            assert(s < s * s) by {
                lemma_mul_strictly_increases(s as int, s as int);
            }
            assert(5 * s <= s * s) by {
                lemma_mul_inequality(5, s as int, s as int);
            }
        }
        if n % (i - 1) == 0 {
            assert(2 <= i - 1 < n && (n as int) % (i as int - 1) == 0);
            return Some(false);
        }
        if n % (i + 1) == 0 {
            assert(2 <= i + 1 < n && (n as int) % (i as int + 1) == 0);
            return Some(false);
        }
        proof {
            assert forall|j: int| 6 <= j < i + 6 && #[trigger] (j % 6) == 0 implies (n as int) % (
            j - 1) != 0 && (n as int) % (j + 1) != 0 by {
                if j >= i {
                    assert((j - i) % 6 == 0) by {
                        lemma_sub_mod_noop(j, i as int, 6);
                    }
                    assert(j - i < 6);
                    lemma_small_mod((j - i) as nat, 6);
                    assert(j == i);
                }
            }
        }
        i = i + 6;
    }
    proof {
        lemma_no_candidate_factor_v1(n as int, s as int, i as int);
    }
    Some(true)
}

/// Same as `primality_test_v1`, but with a minor optimization that avoids
/// one subtraction inside the loop: candidates are enumerated as i and i+2
/// for i = 5, 11, 17, ...
pub fn primality_test_v2(n: u64) -> (r: Option<bool>)
    ensures
        n < 2 <==> r is None,
        n >= 2 ==> r == Some(is_prime(n as int)),
{
    if n == 0 || n == 1 {
        return None;
    }
    if n == 2 || n == 3 {
        return Some(true);
    }
    if n % 2 == 0 {
        assert((n as int) % 2 == 0 && 2 < n as int);
        return Some(false);
    }
    if n % 3 == 0 {
        assert((n as int) % 3 == 0 && 3 < n as int);
        return Some(false);
    }
    let s = isqrt(n);
    let limit = s + 1;
    let mut i: u64 = 5;
    while i < limit
        invariant
            n >= 5,
            n % 2 != 0,
            n % 3 != 0,
            is_int_sqrt(n as int, s as int),
            limit == s + 1,
            i >= 5,
            i % 6 == 5,
            forall|j: int|
                5 <= j < i && #[trigger] (j % 6) == 5 ==> (n as int) % j != 0 && (n as int) % (j
                    + 2) != 0,
        decreases limit + 6 - i,
    {
        proof {
            assert(s >= 5);
            assert(s < s * s) by {
                lemma_mul_strictly_increases(s as int, s as int);
            }
            assert(5 * s <= s * s) by {
                lemma_mul_inequality(5, s as int, s as int);
            }
        }
        if n % i == 0 {
            assert(2 <= i < n && (n as int) % (i as int) == 0);
            return Some(false);
        }
        if n % (i + 2) == 0 {
            assert(2 <= i + 2 < n && (n as int) % (i as int + 2) == 0);
            return Some(false);
        }
        proof {
            assert forall|j: int| 5 <= j < i + 6 && #[trigger] (j % 6) == 5 implies (n as int) % j
                != 0 && (n as int) % (j + 2) != 0 by {
                if j >= i {
                    assert((j - i) % 6 == 0) by {
                        lemma_sub_mod_noop(j, i as int, 6);
                    }
                    assert(j - i < 6);
                    lemma_small_mod((j - i) as nat, 6);
                    assert(j == i);
                }
            }
        }
        i = i + 6;
    }
    proof {
        lemma_no_candidate_factor_v2(n as int, s as int, i as int);
    }
    Some(true)
}

/// There are at most n - 2 primes below n.
proof fn lemma_count_primes_bound(n: int)
    requires
        n >= 2,
    ensures
        0 <= count_primes_below(n) <= n - 2,
    decreases n,
{
    if n > 2 {
        lemma_count_primes_bound(n - 1);
    }
}

/// Count the primes strictly below `n`.
pub fn num_primes_until(n: u64) -> (r: u64)
    ensures
        r as int == count_primes_below(n as int),
{
    let mut count: u64 = 0;
    let mut i: u64 = 2;
    if n < 2 {
        return 0;
    }
    while i < n
        invariant
            2 <= i <= n,
            count as int == count_primes_below(i as int),
        decreases n - i,
    {
        proof {
            lemma_count_primes_bound(i as int);
        }
        match primality_test_v1(i) {
            Some(true) => {
                count = count + 1;
            },
            _ => {},
        }
        i = i + 1;
    }
    count
}

} // verus!
