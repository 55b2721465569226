//! Fixed-point scalars.
//!
//! A real quantity (meters, radians, seconds, probabilities) is stored as an
//! `i64` holding the quantity times [`FP_ONE`].  Multiplication and division
//! rescale with truncation toward zero, and every executable operation
//! carries an exact contract over the spec-level counterparts [`fp_mul`],
//! [`fp_div`] and [`fp_sqrt_spec`].

use vstd::prelude::*;
use vstd::arithmetic::div_mod::{
    lemma_div_is_ordered, lemma_div_nonincreasing, lemma_div_pos_is_pos,
};
use vstd::arithmetic::mul::lemma_mul_inequality;
use vstd::math::abs;

verus! {

/// The number of fixed-point units in 1.0.
pub const FP_ONE: i64 = 1_000_000;

/// Pi in fixed-point units, rounded to the nearest unit.
pub const FP_PI: i64 = 3_141_593;

/// Two pi in fixed-point units; kept exactly twice [`FP_PI`] so that angle
/// wrapping identities hold without rounding.
pub const FP_TWO_PI: i64 = 6_283_186;

/// Pi over two in fixed-point units.
pub const FP_HALF_PI: i64 = 1_570_796;

/// Truncating (round-toward-zero) integer division, the rounding that `i64`
/// and `i128` division perform.  The case split mirrors the one vstd uses to
/// specify `checked_div`.
pub open spec fn sdiv(x: int, d: int) -> int {
    if x == 0 {
        0
    } else if x > 0 && d > 0 {
        x / d
    } else if x < 0 && d < 0 {
        (x * -1) / (d * -1)
    } else if x < 0 {
        ((x * -1) / d) * -1
    } else {
        (x / (d * -1)) * -1
    }
}

/// The product of two fixed-point scalars: `a * b` rescaled by [`FP_ONE`].
pub open spec fn fp_mul(a: int, b: int) -> int {
    sdiv(a * b, FP_ONE as int)
}

/// The quotient of two fixed-point scalars: `a / b` prescaled by [`FP_ONE`].
pub open spec fn fp_div(a: int, b: int) -> int {
    sdiv(a * FP_ONE, b)
}

/// For a positive divisor, the magnitude of a truncating quotient is the
/// Euclidean quotient of the magnitudes; in particular division never grows
/// a value.
pub proof fn lemma_sdiv_mag(x: int, d: int)
    requires
        d > 0,
    ensures
        abs(sdiv(x, d)) == abs(x) as int / d,
        abs(sdiv(x, d)) <= abs(x),
{
    if x == 0 {
    } else if x > 0 {
        lemma_div_pos_is_pos(x, d);
        lemma_div_nonincreasing(x, d);
    } else {
        assert(x * -1 == -x);
        lemma_div_pos_is_pos(-x, d);
        lemma_div_nonincreasing(-x, d);
    }
}

/// Magnitude bound for a truncating quotient: if `|x| <= m` then
/// `|sdiv(x, d)| <= m / d`.
pub proof fn lemma_sdiv_bound(x: int, d: int, m: int)
    requires
        d > 0,
        abs(x) <= m,
    ensures
        abs(sdiv(x, d)) <= m / d,
        abs(sdiv(x, d)) <= m,
{
    lemma_sdiv_mag(x, d);
    lemma_div_is_ordered(abs(x) as int, m, d);
    lemma_div_nonincreasing(m, d);
}

/// The magnitude of a product is the product of the magnitudes.
pub proof fn lemma_abs_mul(a: int, b: int)
    ensures
        abs(a * b) == abs(a) * abs(b),
{
    if a >= 0 && b >= 0 {
        assert(a * b >= 0) by (nonlinear_arith)
            requires
                a >= 0,
                b >= 0,
        ;
    } else if a >= 0 && b < 0 {
        assert(a * b <= 0 && a * (-b) == -(a * b)) by (nonlinear_arith)
            requires
                a >= 0,
                b < 0,
        ;
    } else if a < 0 && b >= 0 {
        assert(a * b <= 0 && (-a) * b == -(a * b)) by (nonlinear_arith)
            requires
                a < 0,
                b >= 0,
        ;
    } else {
        assert(a * b >= 0 && (-a) * (-b) == a * b) by (nonlinear_arith)
            requires
                a < 0,
                b < 0,
        ;
    }
}

/// Magnitude bound for a fixed-point product from magnitude bounds on the
/// factors.
pub proof fn lemma_fp_mul_bound(a: int, b: int, ab: int, bb: int)
    requires
        abs(a) <= ab,
        abs(b) <= bb,
    ensures
        abs(fp_mul(a, b)) <= ab * bb / (FP_ONE as int),
        fp_mul(a, b) <= ab * bb / (FP_ONE as int),
        -(ab * bb / (FP_ONE as int)) <= fp_mul(a, b),
{
    lemma_abs_mul(a, b);
    lemma_mul_inequality(abs(a) as int, ab, abs(b) as int);
    lemma_mul_inequality(abs(b) as int, bb, ab);
    lemma_sdiv_bound(a * b, FP_ONE as int, ab * bb);
}

/// A fixed-point square is never negative.
pub proof fn lemma_fp_square_nonneg(a: int)
    ensures
        fp_mul(a, a) >= 0,
{
    assert(a * a >= 0) by (nonlinear_arith);
    if a * a > 0 {
        lemma_div_pos_is_pos(a * a, FP_ONE as int);
    }
}

/// A zero factor gives a zero fixed-point product.
pub proof fn lemma_fp_mul_zero(a: int)
    ensures
        fp_mul(a, 0) == 0,
        fp_mul(0, a) == 0,
{
    assert(a * 0 == 0) by (nonlinear_arith);
    assert(0 * a == 0) by (nonlinear_arith);
}

/// Fixed-point multiplication, truncating toward zero.
pub fn mul_fp(a: i64, b: i64) -> (r: i64)
    requires
        i64::MIN <= fp_mul(a as int, b as int) <= i64::MAX,
    ensures
        r == fp_mul(a as int, b as int),
{
    let p: i128 = (a as i128) * (b as i128);
    proof {
        lemma_sdiv_mag(p as int, FP_ONE as int);
        lemma_div_nonincreasing(abs(p as int) as int, FP_ONE as int);
    }
    let q: i128 = p.checked_div(FP_ONE as i128).unwrap();
    q as i64
}

/// Fixed-point division, truncating toward zero.
pub fn div_fp(a: i64, b: i64) -> (r: i64)
    requires
        b != 0,
        i64::MIN <= fp_div(a as int, b as int) <= i64::MAX,
    ensures
        r == fp_div(a as int, b as int),
{
    let n: i128 = (a as i128) * (FP_ONE as i128);
    proof {
        if b > 0 {
            lemma_sdiv_mag(n as int, b as int);
            lemma_div_nonincreasing(abs(n as int) as int, b as int);
        } else {
            lemma_sdiv_mag(n as int, -b as int);
            lemma_div_nonincreasing(abs(n as int) as int, -b as int);
            assert(sdiv(n as int, b as int) == -sdiv(n as int, -b as int));
        }
    }
    let q: i128 = n.checked_div(b as i128).unwrap();
    q as i64
}

/// Truncating division of a fixed-point scalar by a positive plain integer
/// (used to divide by the constant coefficients of a polynomial).
pub fn idiv(a: i64, b: i64) -> (r: i64)
    requires
        b > 0,
    ensures
        r == sdiv(a as int, b as int),
{
    proof {
        lemma_sdiv_mag(a as int, b as int);
        lemma_div_nonincreasing(abs(a as int) as int, b as int);
    }
    a.checked_div(b).unwrap()
}

/// Absolute value of a fixed-point scalar.
pub fn fp_abs(a: i64) -> (r: i64)
    requires
        a > i64::MIN,
    ensures
        r == abs(a as int),
{
    if a < 0 {
        -a
    } else {
        a
    }
}

/// The floor of the square root of a natural number, as a spec-level
/// recurrence.
pub open spec fn isqrt_rec(n: nat) -> nat
    decreases n,
{
    if n == 0 {
        0
    } else {
        let r = isqrt_rec((n - 1) as nat);
        if (r + 1) * (r + 1) <= n {
            r + 1
        } else {
            r
        }
    }
}

/// `isqrt_rec(n)` really is the floor of the square root: its square is at
/// most `n` and the next square is beyond `n`.
pub proof fn lemma_isqrt_rec_bounds(n: nat)
    ensures
        isqrt_rec(n) * isqrt_rec(n) <= n,
        n < (isqrt_rec(n) + 1) * (isqrt_rec(n) + 1),
    decreases n,
{
    if n > 0 {
        let m = (n - 1) as nat;
        lemma_isqrt_rec_bounds(m);
        let r = isqrt_rec(m);
        assert(r * r <= m);
        assert(m < (r + 1) * (r + 1));
        if (r + 1) * (r + 1) <= n {
            assert(isqrt_rec(n) == r + 1);
            assert(n < (r + 2) * (r + 2)) by (nonlinear_arith)
                requires
                    m < (r + 1) * (r + 1),
                    n == m + 1,
            ;
            assert(n < (isqrt_rec(n) + 1) * (isqrt_rec(n) + 1));
        } else {
            assert(isqrt_rec(n) == r);
            assert(n < (isqrt_rec(n) + 1) * (isqrt_rec(n) + 1));
        }
    } else {
        assert(isqrt_rec(n) == 0);
        assert(1 * 1 == 1) by (nonlinear_arith);
    }
}

/// Any value whose square is at most `n` while the next square exceeds `n`
/// is `isqrt_rec(n)`.
pub proof fn lemma_isqrt_unique(n: nat, r: nat)
    requires
        r * r <= n,
        n < (r + 1) * (r + 1),
    ensures
        r == isqrt_rec(n),
{
    let s = isqrt_rec(n) as int;
    lemma_isqrt_rec_bounds(n);
    if r < s {
        lemma_mul_inequality(r as int + 1, s, r as int + 1);
        lemma_mul_inequality(r as int + 1, s, s);
    }
    if s < r {
        lemma_mul_inequality(s + 1, r as int, s + 1);
        lemma_mul_inequality(s + 1, r as int, r as int);
    }
}

/// The square root of a non-negative fixed-point scalar: the floor of the
/// square root of `x` rescaled so the result is again a fixed-point scalar.
pub open spec fn fp_sqrt_spec(x: int) -> int
    recommends
        x >= 0,
{
    isqrt_rec((x * FP_ONE) as nat) as int
}

/// An upper bound used by the square root search: 2 to the 42nd power.
pub const ISQRT_CAP: u128 = 4_398_046_511_104;

/// Binary search for the floor of the square root of `n`.
fn isqrt_u128(n: u128) -> (r: u128)
    requires
        n < ISQRT_CAP * ISQRT_CAP,
    ensures
        r * r <= n < (r + 1) * (r + 1),
        r == isqrt_rec(n as nat),
{
    let mut lo: u128 = 0;
    let mut hi: u128 = ISQRT_CAP;
    while lo + 1 < hi
        invariant
            lo < hi <= ISQRT_CAP,
            lo * lo <= n,
            n < hi * hi,
        decreases hi - lo,
    {
        let mid: u128 = lo + (hi - lo) / 2;
        assert(lo < mid < hi);
        proof {
            lemma_mul_inequality(mid as int, ISQRT_CAP as int, mid as int);
            lemma_mul_inequality(mid as int, ISQRT_CAP as int, ISQRT_CAP as int);
        }
        if mid * mid <= n {
            lo = mid;
        } else {
            hi = mid;
        }
    }
    proof {
        lemma_isqrt_unique(n as nat, lo as nat);
    }
    lo
}

/// Fixed-point square root, truncating toward zero.
pub fn sqrt_fp(x: i64) -> (r: i64)
    requires
        x >= 0,
    ensures
        r == fp_sqrt_spec(x as int),
        r >= 0,
        r * r <= x * FP_ONE < (r + 1) * (r + 1),
{
    let n: u128 = (x as u128) * (FP_ONE as u128);
    proof {
        lemma_mul_inequality(x as int, i64::MAX as int, FP_ONE as int);
        assert(n < ISQRT_CAP * ISQRT_CAP);
    }
    let r: u128 = isqrt_u128(n);
    proof {
        if r > 3_100_000_000_000u128 {
            lemma_mul_inequality(3_100_000_000_001, r as int, 3_100_000_000_001);
            lemma_mul_inequality(3_100_000_000_001, r as int, r as int);
        }
    }
    r as i64
}

} // verus!
