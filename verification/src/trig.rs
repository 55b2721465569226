//! Angle wrapping and fixed-point trigonometry.
//!
//! Angles are fixed-point radians.  [`wrap_angle`] reduces any angle into
//! `(-pi, pi]`; [`sin_fp`] and [`cos_fp`] evaluate degree-seven Taylor
//! polynomials after folding the wrapped angle into `[-pi/2, pi/2]`;
//! [`atan2_fp`] reduces to a first-octant arctangent with a half-angle
//! substitution.  Every function returns exactly the value of its spec-level
//! mirror, so callers reason about the computation symbolically.

use vstd::prelude::*;
use vstd::arithmetic::div_mod::{
    lemma_div_is_ordered, lemma_div_is_ordered_by_denominator, lemma_div_multiples_vanish,
    lemma_div_nonincreasing, lemma_div_pos_is_pos, lemma_fundamental_div_mod,
    lemma_mod_division_less_than_divisor,
};
use vstd::arithmetic::mul::lemma_mul_inequality;
use vstd::math::abs;

use crate::fixed::{
    div_fp, fp_abs, fp_div, fp_mul, fp_sqrt_spec, idiv, lemma_fp_mul_bound, lemma_sdiv_bound,
    lemma_sdiv_mag, mul_fp, sdiv, sqrt_fp, FP_HALF_PI, FP_ONE, FP_PI, FP_TWO_PI,
};

verus! {

/// A bound on the magnitude of every value the trigonometric polynomials can
/// produce; real sine and cosine stay within 1.0, the truncated polynomials
/// stay within 3.0.
pub const FP_TRIG_BOUND: i64 = 3_000_000;

/// Angle arguments are kept well clear of the `i64` boundary so that adding
/// or subtracting a few turns can never overflow.
pub const FP_ANGLE_LIMIT: i64 = 1_000_000_000_000_000_000;

/// The angle congruent to `a` in the half-open interval `(-pi, pi]`:
/// first remove whole turns with a truncating division, then shift the
/// remainder by at most one more turn.
pub open spec fn wrap_spec(a: int) -> int {
    let m = a - sdiv(a, FP_TWO_PI as int) * (FP_TWO_PI as int);
    if m > FP_PI {
        m - FP_TWO_PI
    } else if m <= -FP_PI {
        m + FP_TWO_PI
    } else {
        m
    }
}

/// The remainder `a - sdiv(a, d) * d` of a truncating division has the sign
/// of `a` and magnitude below `d`.
pub proof fn lemma_sdiv_remainder(a: int, d: int)
    requires
        d > 0,
    ensures
        a >= 0 ==> 0 <= a - sdiv(a, d) * d < d,
        a < 0 ==> -d < a - sdiv(a, d) * d <= 0,
{
    if a >= 0 {
        lemma_fundamental_div_mod(a, d);
        lemma_mod_division_less_than_divisor(a, d);
        assert(sdiv(a, d) == a / d);
        assert(sdiv(a, d) * d == d * (a / d)) by (nonlinear_arith)
            requires
                sdiv(a, d) == a / d,
        ;
    } else {
        let n = -a;
        lemma_fundamental_div_mod(n, d);
        lemma_mod_division_less_than_divisor(n, d);
        assert(a * -1 == n);
        assert(sdiv(a, d) == (n / d) * -1);
        assert(((n / d) * -1) * d == -(d * (n / d))) by (nonlinear_arith);
    }
}

/// The wrapped angle always lands in `(-pi, pi]`.
pub proof fn lemma_wrap_spec_range(a: int)
    ensures
        -FP_PI < wrap_spec(a) <= FP_PI,
{
    lemma_sdiv_remainder(a, FP_TWO_PI as int);
}

/// Wrapping only moves an angle by whole turns.
pub proof fn lemma_wrap_spec_congruent(a: int)
    ensures
        exists|k: int| wrap_spec(a) == a - #[trigger] (k * (FP_TWO_PI as int)),
{
    let q = sdiv(a, FP_TWO_PI as int);
    let m = a - q * (FP_TWO_PI as int);
    if m > FP_PI {
        assert(wrap_spec(a) == a - (q + 1) * (FP_TWO_PI as int)) by (nonlinear_arith)
            requires
                wrap_spec(a) == m - FP_TWO_PI,
                m == a - q * (FP_TWO_PI as int),
        ;
    } else if m <= -FP_PI {
        assert(wrap_spec(a) == a - (q - 1) * (FP_TWO_PI as int)) by (nonlinear_arith)
            requires
                wrap_spec(a) == m + FP_TWO_PI,
                m == a - q * (FP_TWO_PI as int),
        ;
    } else {
        assert(wrap_spec(a) == a - q * (FP_TWO_PI as int));
    }
}

/// An angle already in `(-pi, pi]` wraps to itself.
pub proof fn lemma_wrap_spec_fixpoint(a: int)
    requires
        -FP_PI < a <= FP_PI,
    ensures
        wrap_spec(a) == a,
{
    if a >= 0 {
        assert(a / (FP_TWO_PI as int) == 0) by {
            vstd::arithmetic::div_mod::lemma_basic_div(a, FP_TWO_PI as int);
        }
    } else {
        assert((-a) / (FP_TWO_PI as int) == 0) by {
            vstd::arithmetic::div_mod::lemma_basic_div(-a, FP_TWO_PI as int);
        }
        assert(a * -1 == -a);
    }
    assert(sdiv(a, FP_TWO_PI as int) == 0);
    assert(0 * (FP_TWO_PI as int) == 0) by (nonlinear_arith);
}

/// Wrap an angle into `(-pi, pi]`.
pub fn wrap_angle(a: i64) -> (r: i64)
    requires
        -FP_ANGLE_LIMIT <= a <= FP_ANGLE_LIMIT,
    ensures
        r == wrap_spec(a as int),
        -FP_PI < r <= FP_PI,
{
    proof {
        lemma_sdiv_remainder(a as int, FP_TWO_PI as int);
        lemma_sdiv_mag(a as int, FP_TWO_PI as int);
        lemma_div_nonincreasing(abs(a as int) as int, FP_TWO_PI as int);
    }
    let q: i64 = a.checked_div(FP_TWO_PI).unwrap();
    let m: i64 = ((a as i128) - (q as i128) * (FP_TWO_PI as i128)) as i64;
    if m > FP_PI {
        m - FP_TWO_PI
    } else if m <= -FP_PI {
        m + FP_TWO_PI
    } else {
        m
    }
}

/// The degree-seven Taylor polynomial of sine around zero, on fixed-point
/// values: `x - x^3/6 + x^5/120 - x^7/5040`.
pub open spec fn sin_poly(x: int) -> int {
    let x2 = fp_mul(x, x);
    let x3 = fp_mul(x2, x);
    let x5 = fp_mul(x3, x2);
    let x7 = fp_mul(x5, x2);
    x - sdiv(x3, 6) + sdiv(x5, 120) - sdiv(x7, 5040)
}

/// The degree-six Taylor polynomial of cosine around zero, on fixed-point
/// values: `1 - x^2/2 + x^4/24 - x^6/720`.
pub open spec fn cos_poly(x: int) -> int {
    let x2 = fp_mul(x, x);
    let x4 = fp_mul(x2, x2);
    let x6 = fp_mul(x4, x2);
    FP_ONE - sdiv(x2, 2) + sdiv(x4, 24) - sdiv(x6, 720)
}

/// Sine of an arbitrary fixed-point angle: wrap into `(-pi, pi]`, fold into
/// `[-pi/2, pi/2]` with `sin(pi - w) = sin(w)`, then evaluate the polynomial.
pub open spec fn sin_spec(a: int) -> int {
    let w = wrap_spec(a);
    if w > FP_HALF_PI {
        sin_poly(FP_PI - w)
    } else if w < -FP_HALF_PI {
        sin_poly(-FP_PI - w)
    } else {
        sin_poly(w)
    }
}

/// Cosine of an arbitrary fixed-point angle, folded with
/// `cos(pi - w) = -cos(w)`.
pub open spec fn cos_spec(a: int) -> int {
    let w = wrap_spec(a);
    if w > FP_HALF_PI {
        -cos_poly(FP_PI - w)
    } else if w < -FP_HALF_PI {
        -cos_poly(FP_PI + w)
    } else {
        cos_poly(w)
    }
}

/// Magnitude bounds for the two polynomials on the folded range.
pub proof fn lemma_poly_bounds(x: int)
    requires
        -FP_HALF_PI <= x <= FP_HALF_PI,
    ensures
        abs(sin_poly(x)) < FP_TRIG_BOUND,
        abs(cos_poly(x)) < FP_TRIG_BOUND,
{
    let x2 = fp_mul(x, x);
    let x3 = fp_mul(x2, x);
    let x4 = fp_mul(x2, x2);
    let x5 = fp_mul(x3, x2);
    let x6 = fp_mul(x4, x2);
    let x7 = fp_mul(x5, x2);
    lemma_fp_mul_bound(x, x, FP_HALF_PI as int, FP_HALF_PI as int);
    lemma_fp_mul_bound(x2, x, 2_467_401, FP_HALF_PI as int);
    lemma_fp_mul_bound(x2, x2, 2_467_401, 2_467_401);
    lemma_fp_mul_bound(x3, x2, 3_875_785, 2_467_401);
    lemma_fp_mul_bound(x4, x2, 6_088_068, 2_467_401);
    lemma_fp_mul_bound(x5, x2, 9_563_117, 2_467_401);
    lemma_sdiv_bound(x3, 6, 3_875_785);
    lemma_sdiv_bound(x5, 120, 9_563_117);
    lemma_sdiv_bound(x7, 5040, 23_596_093);
    lemma_sdiv_bound(x2, 2, 2_467_401);
    lemma_sdiv_bound(x4, 24, 6_088_068);
    lemma_sdiv_bound(x6, 720, 15_021_744);
}

/// The sine and cosine of any angle stay within [`FP_TRIG_BOUND`].
pub proof fn lemma_trig_bounds(a: int)
    ensures
        abs(sin_spec(a)) < FP_TRIG_BOUND,
        abs(cos_spec(a)) < FP_TRIG_BOUND,
{
    lemma_wrap_spec_range(a);
    let w = wrap_spec(a);
    if w > FP_HALF_PI {
        lemma_poly_bounds(FP_PI - w);
        lemma_poly_bounds(FP_PI - w);
    } else if w < -FP_HALF_PI {
        lemma_poly_bounds(-FP_PI - w);
        lemma_poly_bounds(FP_PI + w);
    } else {
        lemma_poly_bounds(w);
    }
}

/// Evaluate the sine polynomial on the folded range.
fn sin_poly_exec(x: i64) -> (r: i64)
    requires
        -FP_HALF_PI <= x <= FP_HALF_PI,
    ensures
        r == sin_poly(x as int),
{
    proof {
        lemma_poly_bounds(x as int);
        lemma_fp_mul_bound(x as int, x as int, FP_HALF_PI as int, FP_HALF_PI as int);
        lemma_fp_mul_bound(
            fp_mul(x as int, x as int),
            x as int,
            2_467_401,
            FP_HALF_PI as int,
        );
        lemma_fp_mul_bound(
            fp_mul(fp_mul(x as int, x as int), x as int),
            fp_mul(x as int, x as int),
            3_875_785,
            2_467_401,
        );
        lemma_fp_mul_bound(
            fp_mul(fp_mul(fp_mul(x as int, x as int), x as int), fp_mul(x as int, x as int)),
            fp_mul(x as int, x as int),
            9_563_117,
            2_467_401,
        );
    }
    let x2 = mul_fp(x, x);
    let x3 = mul_fp(x2, x);
    let x5 = mul_fp(x3, x2);
    let x7 = mul_fp(x5, x2);
    proof {
        lemma_sdiv_bound(x3 as int, 6, 3_875_785);
        lemma_sdiv_bound(x5 as int, 120, 9_563_117);
        lemma_sdiv_bound(x7 as int, 5040, 23_596_093);
    }
    x - idiv(x3, 6) + idiv(x5, 120) - idiv(x7, 5040)
}

/// Evaluate the cosine polynomial on the folded range.
fn cos_poly_exec(x: i64) -> (r: i64)
    requires
        -FP_HALF_PI <= x <= FP_HALF_PI,
    ensures
        r == cos_poly(x as int),
{
    proof {
        lemma_poly_bounds(x as int);
        lemma_fp_mul_bound(x as int, x as int, FP_HALF_PI as int, FP_HALF_PI as int);
        lemma_fp_mul_bound(
            fp_mul(x as int, x as int),
            fp_mul(x as int, x as int),
            2_467_401,
            2_467_401,
        );
        lemma_fp_mul_bound(
            fp_mul(fp_mul(x as int, x as int), fp_mul(x as int, x as int)),
            fp_mul(x as int, x as int),
            6_088_068,
            2_467_401,
        );
    }
    let x2 = mul_fp(x, x);
    let x4 = mul_fp(x2, x2);
    let x6 = mul_fp(x4, x2);
    proof {
        lemma_sdiv_bound(x2 as int, 2, 2_467_401);
        lemma_sdiv_bound(x4 as int, 24, 6_088_068);
        lemma_sdiv_bound(x6 as int, 720, 15_021_744);
    }
    FP_ONE - idiv(x2, 2) + idiv(x4, 24) - idiv(x6, 720)
}

/// Sine of a fixed-point angle.
pub fn sin_fp(a: i64) -> (r: i64)
    requires
        -FP_ANGLE_LIMIT <= a <= FP_ANGLE_LIMIT,
    ensures
        r == sin_spec(a as int),
        abs(r as int) < FP_TRIG_BOUND,
{
    proof {
        lemma_trig_bounds(a as int);
    }
    let w = wrap_angle(a);
    if w > FP_HALF_PI {
        sin_poly_exec(FP_PI - w)
    } else if w < -FP_HALF_PI {
        sin_poly_exec(-FP_PI - w)
    } else {
        sin_poly_exec(w)
    }
}

/// Cosine of a fixed-point angle.
pub fn cos_fp(a: i64) -> (r: i64)
    requires
        -FP_ANGLE_LIMIT <= a <= FP_ANGLE_LIMIT,
    ensures
        r == cos_spec(a as int),
        abs(r as int) < FP_TRIG_BOUND,
{
    proof {
        lemma_trig_bounds(a as int);
    }
    let w = wrap_angle(a);
    if w > FP_HALF_PI {
        -cos_poly_exec(FP_PI - w)
    } else if w < -FP_HALF_PI {
        -cos_poly_exec(FP_PI + w)
    } else {
        cos_poly_exec(w)
    }
}

/// Absolute value on spec-level integers, kept as an `int` for convenience.
pub open spec fn iabs(v: int) -> int {
    if v < 0 {
        -v
    } else {
        v
    }
}

/// The degree-seven Taylor polynomial of arctangent around zero, on
/// fixed-point values: `u - u^3/3 + u^5/5 - u^7/7`.
pub open spec fn atan_poly(u: int) -> int {
    let u2 = fp_mul(u, u);
    let u3 = fp_mul(u2, u);
    let u5 = fp_mul(u3, u2);
    let u7 = fp_mul(u5, u2);
    u - sdiv(u3, 3) + sdiv(u5, 5) - sdiv(u7, 7)
}

/// Arctangent of a ratio in `[0, 1]`: halve the angle with
/// `atan(t) = 2 atan(t / (1 + sqrt(1 + t^2)))`, which brings the argument
/// under `tan(pi/8)`, then evaluate the polynomial.
pub open spec fn atan01_spec(t: int) -> int {
    let u = fp_div(t, FP_ONE + fp_sqrt_spec(FP_ONE + fp_mul(t, t)));
    2 * atan_poly(u)
}

/// Four-quadrant arctangent of `y / x`, in `(-pi, pi]`; zero when both
/// arguments are zero.
pub open spec fn atan2_spec(y: int, x: int) -> int {
    if x == 0 && y == 0 {
        0
    } else {
        let ax = iabs(x);
        let ay = iabs(y);
        let base = if ax >= ay {
            atan01_spec(fp_div(ay, ax))
        } else {
            FP_HALF_PI - atan01_spec(fp_div(ax, ay))
        };
        let mag = if x >= 0 {
            base
        } else {
            FP_PI - base
        };
        wrap_spec(
            if y >= 0 {
                mag
            } else {
                -mag
            },
        )
    }
}

/// Inputs to the arctangent are position differences, bounded well below the
/// range where intermediate products could overflow.
pub const FP_ATAN_LIMIT: i64 = 4_000_000_000_000;

/// A ratio of magnitudes with the smaller on top is a fixed-point value in
/// `[0, 1]`.
proof fn lemma_ratio_unit(num: int, den: int)
    requires
        0 <= num <= den,
        0 < den,
    ensures
        0 <= fp_div(num, den) <= FP_ONE,
{
    lemma_mul_inequality(num, den, FP_ONE as int);
    assert(den * FP_ONE == FP_ONE * den) by (nonlinear_arith);
    lemma_div_multiples_vanish(FP_ONE as int, den);
    lemma_div_is_ordered(num * FP_ONE, den * FP_ONE, den);
    if num > 0 {
        assert(num * FP_ONE > 0) by (nonlinear_arith)
            requires
                num > 0,
        ;
        lemma_div_pos_is_pos(num * FP_ONE, den);
    } else {
        assert(num * FP_ONE == 0) by (nonlinear_arith)
            requires
                num == 0,
        ;
    }
}

/// Evaluate the halved-argument arctangent on a unit ratio.
fn atan01_exec(t: i64) -> (r: i64)
    requires
        0 <= t <= FP_ONE,
    ensures
        r == atan01_spec(t as int),
        abs(r as int) <= 2_000_000,
{
    proof {
        lemma_fp_mul_bound(t as int, t as int, FP_ONE as int, FP_ONE as int);
        if t > 0 {
            assert((t as int) * (t as int) > 0) by (nonlinear_arith)
                requires
                    t > 0,
            ;
            lemma_div_pos_is_pos((t as int) * (t as int), FP_ONE as int);
        } else {
            assert((t as int) * (t as int) == 0) by (nonlinear_arith)
                requires
                    t == 0,
            ;
        }
    }
    let t2 = mul_fp(t, t);
    let s = sqrt_fp(FP_ONE + t2);
    proof {
        assert(s >= FP_ONE) by {
            if s < FP_ONE {
                lemma_mul_inequality(s as int + 1, FP_ONE as int, s as int + 1);
                lemma_mul_inequality(s as int + 1, FP_ONE as int, FP_ONE as int);
                lemma_mul_inequality(FP_ONE as int, FP_ONE as int + t2, FP_ONE as int);
            }
        }
        assert(s as int * s as int <= (FP_ONE + t2) * FP_ONE);
        assert(s <= 2_000_000) by {
            if s > 2_000_000 {
                lemma_mul_inequality(2_000_001, s as int, 2_000_001);
                lemma_mul_inequality(2_000_001, s as int, s as int);
                lemma_mul_inequality(FP_ONE as int + t2, 2 * FP_ONE as int, FP_ONE as int);
            }
        }
        lemma_ratio_unit(t as int, FP_ONE as int + s as int);
        if t > 0 {
            assert((t as int) * FP_ONE > 0) by (nonlinear_arith)
                requires
                    t > 0,
            ;
        } else {
            assert((t as int) * FP_ONE == 0) by (nonlinear_arith)
                requires
                    t == 0,
            ;
        }
        lemma_div_is_ordered_by_denominator(
            (t as int) * FP_ONE,
            2 * FP_ONE as int,
            FP_ONE as int + s as int,
        );
        lemma_mul_inequality(t as int, FP_ONE as int, FP_ONE as int);
        lemma_div_is_ordered((t as int) * FP_ONE, (FP_ONE as int) * FP_ONE, 2 * FP_ONE as int);
    }
    let u = div_fp(t, FP_ONE + s);
    proof {
        assert(0 <= u <= 500_000);
        lemma_fp_mul_bound(u as int, u as int, 500_000, 500_000);
        lemma_fp_mul_bound(fp_mul(u as int, u as int), u as int, 250_000, 500_000);
        lemma_fp_mul_bound(
            fp_mul(fp_mul(u as int, u as int), u as int),
            fp_mul(u as int, u as int),
            125_000,
            250_000,
        );
        lemma_fp_mul_bound(
            fp_mul(
                fp_mul(fp_mul(u as int, u as int), u as int),
                fp_mul(u as int, u as int),
            ),
            fp_mul(u as int, u as int),
            31_250,
            250_000,
        );
    }
    let u2 = mul_fp(u, u);
    let u3 = mul_fp(u2, u);
    let u5 = mul_fp(u3, u2);
    let u7 = mul_fp(u5, u2);
    proof {
        lemma_sdiv_bound(u3 as int, 3, 125_000);
        lemma_sdiv_bound(u5 as int, 5, 31_250);
        lemma_sdiv_bound(u7 as int, 7, 7_813);
    }
    let p = u - idiv(u3, 3) + idiv(u5, 5) - idiv(u7, 7);
    2 * p
}

/// Four-quadrant arctangent on fixed-point coordinates.
pub fn atan2_fp(y: i64, x: i64) -> (r: i64)
    requires
        -FP_ATAN_LIMIT <= y <= FP_ATAN_LIMIT,
        -FP_ATAN_LIMIT <= x <= FP_ATAN_LIMIT,
    ensures
        r == atan2_spec(y as int, x as int),
        -FP_PI < r <= FP_PI,
{
    if x == 0 && y == 0 {
        return 0;
    }
    let ax = fp_abs(x);
    let ay = fp_abs(y);
    let base: i64 = if ax >= ay {
        proof {
            lemma_ratio_unit(ay as int, ax as int);
            lemma_sdiv_bound((ay as int) * FP_ONE, ax as int, (ax as int) * FP_ONE);
        }
        atan01_exec(div_fp(ay, ax))
    } else {
        proof {
            lemma_ratio_unit(ax as int, ay as int);
            lemma_sdiv_bound((ax as int) * FP_ONE, ay as int, (ay as int) * FP_ONE);
        }
        FP_HALF_PI - atan01_exec(div_fp(ax, ay))
    };
    let mag: i64 = if x >= 0 {
        base
    } else {
        FP_PI - base
    };
    let signed: i64 = if y >= 0 {
        mag
    } else {
        -mag
    };
    proof {
        lemma_wrap_spec_range(signed as int);
    }
    wrap_angle(signed)
}

} // verus!
