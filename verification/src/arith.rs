//! Fixed-point (basis-point) arithmetic with integer truncation.
//!
//! Percentage-like splits are taken as `amount * num / den` with flooring
//! division. Computing that product naively can exceed the 128-bit range even
//! when the final quotient fits, so the executable path splits the amount
//! into `den * quotient + remainder` first; the lemmas here justify that the
//! split computes the exact mathematical quotient.

use vstd::arithmetic::div_mod::{
    lemma_div_is_ordered, lemma_div_multiples_vanish, lemma_fundamental_div_mod,
    lemma_hoist_over_denominator,
};
use vstd::arithmetic::mul::{lemma_mul_inequality, lemma_mul_is_commutative,
    lemma_mul_is_distributive_add_other_way, lemma_mul_nonnegative};
use vstd::prelude::*;

verus! {

/// Flooring division distributes over addition of the numerators, up to
/// rounding: `a/d + b/d <= (a+b)/d`.
pub proof fn lemma_div_sum_le(a: int, b: int, d: int)
    requires
        0 <= a,
        0 <= b,
        0 < d,
    ensures
        a / d + b / d <= (a + b) / d,
{
    let qa = a / d;
    let qb = b / d;
    lemma_fundamental_div_mod(a, d);
    lemma_fundamental_div_mod(b, d);
    let r = a % d + b % d;
    assert(a + b == r + (qa + qb) * d) by {
        lemma_mul_is_distributive_add_other_way(d, qa, qb);
        lemma_mul_is_commutative(qa + qb, d);
    }
    lemma_hoist_over_denominator(r, qa + qb, d as nat);
    assert(r / d + (qa + qb) == (a + b) / d);
    assert(r / d >= 0) by {
        lemma_div_is_ordered(0, r, d);
    }
}

/// A basis-point share never exceeds the amount it is taken from:
/// `r * n / d <= r` when `n <= d`.
pub proof fn lemma_mul_div_le(r: int, n: int, d: int)
    requires
        0 <= r,
        0 <= n <= d,
        0 < d,
    ensures
        r * n / d <= r,
{
    lemma_mul_inequality(n, d, r);
    lemma_mul_is_commutative(n, r);
    lemma_mul_is_commutative(d, r);
    assert(r * n <= r * d);
    lemma_div_is_ordered(r * n, r * d, d);
    lemma_mul_is_commutative(r, d);
    lemma_div_multiples_vanish(r, d);
    assert(r * d / d == r);
}

/// Splitting the amount at the denominator computes the exact quotient:
/// `(r/d)*n + (r%d)*n/d == r*n/d`.
pub proof fn lemma_mul_div_split(r: int, n: int, d: int)
    requires
        0 <= r,
        0 <= n,
        0 < d,
    ensures
        (r / d) * n + (r % d) * n / d == r * n / d,
{
    let q = r / d;
    let s = r % d;
    lemma_fundamental_div_mod(r, d);
    assert(r == d * q + s);
    assert(r * n == s * n + (q * n) * d) by {
        assert((d * q + s) * n == (d * q) * n + s * n) by {
            lemma_mul_is_distributive_add_other_way(n, d * q, s);
        }
        assert((d * q) * n == (q * n) * d) by (nonlinear_arith);
    }
    lemma_mul_nonnegative(s, n);
    lemma_hoist_over_denominator(s * n, q * n, d as nat);
}

/// Takes the `num`/`den` fraction of `amount` with flooring division,
/// exactly, for every 128-bit amount.
pub fn mul_frac(amount: u128, num: u64, den: u64) -> (r: u128)
    requires
        0 < den,
        num <= den,
    ensures
        r == amount as int * num as int / den as int,
        r <= amount,
{
    let d = den as u128;
    let n = num as u128;
    let q = amount / d;
    let s = amount % d;
    proof {
        // The high part fits: q * n <= q * d <= amount.
        lemma_fundamental_div_mod(amount as int, d as int);
        lemma_mul_inequality(n as int, d as int, q as int);
        lemma_mul_is_commutative(n as int, q as int);
        lemma_mul_is_commutative(d as int, q as int);
        assert(q * d <= amount) by {
            lemma_mul_is_commutative(q as int, d as int);
        }
        // The low part fits: s * n < d * d fits far below the 128-bit range.
        assert(s * n < u128::MAX) by {
            lemma_mul_inequality(s as int, d as int - 1, n as int);
            lemma_mul_is_commutative(d as int - 1, n as int);
            lemma_mul_inequality(n as int, d as int, d as int - 1);
            lemma_mul_is_commutative(n as int, d as int - 1);
            lemma_mul_is_commutative(d as int, d as int - 1);
            assert(d * (d as int - 1) < u128::MAX) by (nonlinear_arith)
                requires
                    0 < d <= u64::MAX,
            ;
        }
        // The sum is the exact quotient, and a fraction of at most one.
        lemma_mul_div_split(amount as int, n as int, d as int);
        lemma_mul_div_le(amount as int, n as int, d as int);
        lemma_mul_nonnegative(s as int, n as int);
        lemma_div_is_ordered(0, s * n as int, d as int);
    }
    let hi = q * n;
    let lo = (s * n) / d;
    hi + lo
}

} // verus!
