//! Fixed-point scale and the small arithmetic kit the physics is built on:
//! truncating division, clamping, and an integer square root.

use vstd::arithmetic::div_mod::{
    lemma_div_is_ordered, lemma_div_is_ordered_by_denominator, lemma_div_nonincreasing,
    lemma_div_pos_is_pos,
};
use vstd::prelude::*;

verus! {

/// Fixed-point scale: the integer representing the real value `1.0`.
/// A quantity `q` stands for the real number `q / SCALE`.
pub const SCALE: i128 = 1_000_000;

/// `SCALE * SCALE`, the representation of `1.0` in squared units
/// (squared distances, squared speeds).
pub const SCALE_SQ: i128 = 1_000_000_000_000;

/// Division that rounds toward zero, as Rust's `/` does on machine integers.
/// (The spec-level `/` on `int` is Euclidean, which differs on negative
/// dividends; the physics uses truncation so that negating a dividend
/// negates the quotient exactly.)
pub open spec fn tdiv(a: int, b: int) -> int
    recommends
        b > 0,
{
    if a >= 0 {
        a / b
    } else {
        -((-a) / b)
    }
}

/// Restrict `x` to the closed interval `[lo, hi]`.
pub open spec fn clamp_spec(x: int, lo: int, hi: int) -> int {
    if x < lo {
        lo
    } else if x > hi {
        hi
    } else {
        x
    }
}

/// `r` is the integer square root of `n`: the greatest integer whose square
/// does not exceed `n`.
pub open spec fn is_isqrt(n: int, r: int) -> bool {
    &&& 0 <= r
    &&& r * r <= n
    &&& n < (r + 1) * (r + 1)
}

/// The integer square root of `n`, as a total spec-level function
/// (zero for negative arguments).
pub open spec fn isqrt_spec(n: int) -> int
    decreases n,
{
    if n <= 0 {
        0
    } else {
        let r = isqrt_spec(n - 1);
        if (r + 1) * (r + 1) <= n {
            r + 1
        } else {
            r
        }
    }
}

/// `isqrt_spec` satisfies the defining property of the integer square root.
pub proof fn lemma_isqrt_spec_is_isqrt(n: int)
    requires
        n >= 0,
    ensures
        is_isqrt(n, isqrt_spec(n)),
    decreases n,
{
    if n == 0 {
        assert(isqrt_spec(0) == 0);
    } else {
        lemma_isqrt_spec_is_isqrt(n - 1);
        let r = isqrt_spec(n - 1);
        if (r + 1) * (r + 1) <= n {
            assert(n - 1 < (r + 1) * (r + 1));
            assert(n < (r + 2) * (r + 2)) by (nonlinear_arith)
                requires
                    0 <= r,
                    n <= (r + 1) * (r + 1),
            ;
        } else {
            assert(r * r <= n - 1 <= n);
        }
    }
}

/// The integer square root is unique, so any `r` with `is_isqrt(n, r)`
/// equals `isqrt_spec(n)`.
pub proof fn lemma_isqrt_unique(n: int, r: int)
    requires
        n >= 0,
        is_isqrt(n, r),
    ensures
        r == isqrt_spec(n),
{
    lemma_isqrt_spec_is_isqrt(n);
    let s = isqrt_spec(n);
    if r < s {
        assert((r + 1) * (r + 1) <= s * s) by (nonlinear_arith)
            requires
                0 <= r,
                r + 1 <= s,
        ;
    } else if s < r {
        assert((s + 1) * (s + 1) <= r * r) by (nonlinear_arith)
            requires
                0 <= s,
                s + 1 <= r,
        ;
    }
}

/// An upper bound on the square root: if `n` is at most `b * b` then its
/// root is at most `b`.
pub proof fn lemma_isqrt_le(n: int, r: int, b: int)
    requires
        is_isqrt(n, r),
        0 <= b,
        n <= b * b,
    ensures
        r <= b,
{
    if b < r {
        assert((b + 1) * (b + 1) <= r * r) by (nonlinear_arith)
            requires
                0 <= b,
                b + 1 <= r,
        ;
        assert(b * b < (b + 1) * (b + 1)) by (nonlinear_arith)
            requires
                0 <= b,
        ;
    }
}

/// Bounds on a product from bounds on its factors.
pub proof fn lemma_abs_mul_le(x: int, y: int, xb: int, yb: int)
    by (nonlinear_arith)
    requires
        -xb <= x <= xb,
        -yb <= y <= yb,
    ensures
        -(xb * yb) <= x * y <= xb * yb,
{
}

/// A bound on a truncating quotient from a bound on the dividend and a
/// lower bound on the divisor.
pub proof fn lemma_tdiv_ratio_bound(a: int, b: int, abound: int, dmin: int)
    requires
        1 <= dmin <= b,
        -abound <= a <= abound,
    ensures
        -(abound / dmin) <= tdiv(a, b) <= abound / dmin,
{
    if a >= 0 {
        lemma_div_pos_is_pos(a, b);
        lemma_div_is_ordered_by_denominator(a, dmin, b);
        lemma_div_is_ordered(a, abound, dmin);
    } else {
        lemma_div_pos_is_pos(-a, b);
        lemma_div_is_ordered_by_denominator(-a, dmin, b);
        lemma_div_is_ordered(-a, abound, dmin);
    }
}

/// Negating the dividend negates a truncating quotient.
pub proof fn lemma_tdiv_neg(a: int, b: int)
    requires
        b > 0,
    ensures
        tdiv(-a, b) == -tdiv(a, b),
{
}

/// Truncating division of `a` by positive `b`, proved against [`tdiv`].
pub fn tdiv_i128(a: i128, b: i128) -> (q: i128)
    requires
        0 < b,
        i128::MIN < a,
    ensures
        q == tdiv(a as int, b as int),
{
    proof {
        if a >= 0 {
            lemma_div_pos_is_pos(a as int, b as int);
            lemma_div_nonincreasing(a as int, b as int);
        } else {
            lemma_div_pos_is_pos(-(a as int), b as int);
            lemma_div_nonincreasing(-(a as int), b as int);
        }
    }
    match a.checked_div(b) {
        Some(q) => q,
        None => unreached(),
    }
}

/// Restrict `x` to `[lo, hi]`, proved against [`clamp_spec`].
pub fn clamp_i128(x: i128, lo: i128, hi: i128) -> (r: i128)
    requires
        lo <= hi,
    ensures
        r == clamp_spec(x as int, lo as int, hi as int),
{
    if x < lo {
        lo
    } else if x > hi {
        hi
    } else {
        x
    }
}

/// Integer square root by bisection, proved against [`is_isqrt`] and
/// [`isqrt_spec`].
pub fn isqrt_u128(n: u128) -> (r: u128)
    ensures
        is_isqrt(n as int, r as int),
        r == isqrt_spec(n as int),
{
    let mut lo: u128 = 0;
    let mut hi: u128 = 0x1_0000_0000_0000_0000;
    proof {
        assert((hi as int) * (hi as int) > n as int) by (nonlinear_arith)
            requires
                hi == 0x1_0000_0000_0000_0000u128,
                n <= u128::MAX,
        ;
    }
    while lo + 1 < hi
        invariant
            lo < hi <= 0x1_0000_0000_0000_0000u128,
            (lo as int) * (lo as int) <= n as int,
            (n as int) < (hi as int) * (hi as int),
        decreases hi - lo,
    {
        let mid = lo + (hi - lo) / 2;
        proof {
            assert((mid as int) * (mid as int) <= (0xffff_ffff_ffff_ffffu128 as int) * (
            0xffff_ffff_ffff_ffffu128 as int)) by (nonlinear_arith)
                requires
                    mid <= 0xffff_ffff_ffff_ffffu128,
            ;
        }
        if mid * mid <= n {
            lo = mid;
        } else {
            hi = mid;
        }
    }
    proof {
        lemma_isqrt_unique(n as int, lo as int);
    }
    lo
}

} // verus!
