//! Correlated Gaussian sampling through a Cholesky factor.
//!
//! The process-noise covariance is a symmetric positive-definite 4x4 matrix
//! of fixed-point values.  [`cholesky4`] computes its lower Cholesky factor
//! with exact integer arithmetic, rejecting a matrix whose pivots are not
//! strictly positive (a configuration error, surfaced before any tick runs)
//! or whose factor entries leave the representable range.  [`mvtnorm`] turns
//! a vector of independent standard-normal draws into a correlated sample
//! `L z + mu`.

use vstd::prelude::*;
use vstd::math::abs;

use crate::fixed::{
    fp_div, fp_mul, fp_sqrt_spec, lemma_fp_mul_bound, lemma_fp_square_nonneg, lemma_sdiv_bound,
    mul_fp, sdiv, sqrt_fp, FP_ONE,
};

verus! {

/// Covariance entries accepted by the factorization.
pub const FP_COV_LIMIT: i64 = 1_000_000_000_000;

/// Factor entries beyond this magnitude are rejected as a configuration
/// error rather than allowed to overflow later arithmetic.
pub const FP_CHOL_LIMIT: i64 = 1_000_000_000_000;

/// Standard-deviate draws accepted by the sampler (a thousand sigma).
pub const FP_DRAW_LIMIT: i64 = 1_000_000_000;

/// A vector of four fixed-point scalars.
#[derive(Clone, Copy, Debug, PartialEq, Eq, Structural)]
pub struct Vec4 {
    pub v0: i64,
    pub v1: i64,
    pub v2: i64,
    pub v3: i64,
}

/// A symmetric 4x4 fixed-point matrix; the factorization reads the diagonal
/// and the lower triangle.
#[derive(Clone, Copy, Debug, PartialEq, Eq, Structural)]
pub struct Mat4 {
    pub m00: i64,
    pub m01: i64,
    pub m02: i64,
    pub m03: i64,
    pub m10: i64,
    pub m11: i64,
    pub m12: i64,
    pub m13: i64,
    pub m20: i64,
    pub m21: i64,
    pub m22: i64,
    pub m23: i64,
    pub m30: i64,
    pub m31: i64,
    pub m32: i64,
    pub m33: i64,
}

/// The lower Cholesky factor of a 4x4 matrix.
#[derive(Clone, Copy, Debug, PartialEq, Eq, Structural)]
pub struct Lower4 {
    pub l00: i64,
    pub l10: i64,
    pub l11: i64,
    pub l20: i64,
    pub l21: i64,
    pub l22: i64,
    pub l30: i64,
    pub l31: i64,
    pub l32: i64,
    pub l33: i64,
}

/// Why a covariance matrix was rejected at setup.
#[derive(Clone, Copy, Debug, PartialEq, Eq, Structural)]
pub enum CovarianceError {
    /// A pivot of the factorization was not strictly positive.
    NotPositiveDefinite,
    /// A factor entry left the representable range.
    TooLarge,
}

/// Cholesky entries of the factor, column by column, as the
/// Cholesky-Banachiewicz recurrence on fixed-point values.
pub open spec fn chol_l00(c: Mat4) -> int {
    fp_sqrt_spec(c.m00 as int)
}

pub open spec fn chol_l10(c: Mat4) -> int {
    fp_div(c.m10 as int, chol_l00(c))
}

pub open spec fn chol_l20(c: Mat4) -> int {
    fp_div(c.m20 as int, chol_l00(c))
}

pub open spec fn chol_l30(c: Mat4) -> int {
    fp_div(c.m30 as int, chol_l00(c))
}

pub open spec fn chol_p1(c: Mat4) -> int {
    c.m11 - fp_mul(chol_l10(c), chol_l10(c))
}

pub open spec fn chol_l11(c: Mat4) -> int {
    fp_sqrt_spec(chol_p1(c))
}

pub open spec fn chol_l21(c: Mat4) -> int {
    fp_div(c.m21 - fp_mul(chol_l20(c), chol_l10(c)), chol_l11(c))
}

pub open spec fn chol_l31(c: Mat4) -> int {
    fp_div(c.m31 - fp_mul(chol_l30(c), chol_l10(c)), chol_l11(c))
}

pub open spec fn chol_p2(c: Mat4) -> int {
    c.m22 - fp_mul(chol_l20(c), chol_l20(c)) - fp_mul(chol_l21(c), chol_l21(c))
}

pub open spec fn chol_l22(c: Mat4) -> int {
    fp_sqrt_spec(chol_p2(c))
}

pub open spec fn chol_l32(c: Mat4) -> int {
    fp_div(
        c.m32 - fp_mul(chol_l30(c), chol_l20(c)) - fp_mul(chol_l31(c), chol_l21(c)),
        chol_l22(c),
    )
}

pub open spec fn chol_p3(c: Mat4) -> int {
    c.m33 - fp_mul(chol_l30(c), chol_l30(c)) - fp_mul(chol_l31(c), chol_l31(c)) - fp_mul(
        chol_l32(c),
        chol_l32(c),
    )
}

pub open spec fn chol_l33(c: Mat4) -> int {
    fp_sqrt_spec(chol_p3(c))
}

/// Whether the factorization succeeds: every pivot is strictly positive and
/// every subdiagonal entry stays within [`FP_CHOL_LIMIT`].
pub open spec fn chol_ok(c: Mat4) -> bool {
    &&& c.m00 > 0
    &&& abs(chol_l10(c)) <= FP_CHOL_LIMIT
    &&& abs(chol_l20(c)) <= FP_CHOL_LIMIT
    &&& abs(chol_l30(c)) <= FP_CHOL_LIMIT
    &&& chol_p1(c) > 0
    &&& abs(chol_l21(c)) <= FP_CHOL_LIMIT
    &&& abs(chol_l31(c)) <= FP_CHOL_LIMIT
    &&& chol_p2(c) > 0
    &&& abs(chol_l32(c)) <= FP_CHOL_LIMIT
    &&& chol_p3(c) > 0
}

/// The error the factorization reports, following the order in which the
/// entries are computed.
pub open spec fn chol_err(c: Mat4) -> CovarianceError {
    if c.m00 <= 0 {
        CovarianceError::NotPositiveDefinite
    } else if abs(chol_l10(c)) > FP_CHOL_LIMIT || abs(chol_l20(c)) > FP_CHOL_LIMIT || abs(
        chol_l30(c),
    ) > FP_CHOL_LIMIT {
        CovarianceError::TooLarge
    } else if chol_p1(c) <= 0 {
        CovarianceError::NotPositiveDefinite
    } else if abs(chol_l21(c)) > FP_CHOL_LIMIT || abs(chol_l31(c)) > FP_CHOL_LIMIT {
        CovarianceError::TooLarge
    } else if chol_p2(c) <= 0 {
        CovarianceError::NotPositiveDefinite
    } else if abs(chol_l32(c)) > FP_CHOL_LIMIT {
        CovarianceError::TooLarge
    } else {
        CovarianceError::NotPositiveDefinite
    }
}

/// Entries accepted as covariance input.
pub open spec fn cov_in_bounds(c: Mat4) -> bool {
    &&& -FP_COV_LIMIT <= c.m00 <= FP_COV_LIMIT
    &&& -FP_COV_LIMIT <= c.m10 <= FP_COV_LIMIT
    &&& -FP_COV_LIMIT <= c.m11 <= FP_COV_LIMIT
    &&& -FP_COV_LIMIT <= c.m20 <= FP_COV_LIMIT
    &&& -FP_COV_LIMIT <= c.m21 <= FP_COV_LIMIT
    &&& -FP_COV_LIMIT <= c.m22 <= FP_COV_LIMIT
    &&& -FP_COV_LIMIT <= c.m30 <= FP_COV_LIMIT
    &&& -FP_COV_LIMIT <= c.m31 <= FP_COV_LIMIT
    &&& -FP_COV_LIMIT <= c.m32 <= FP_COV_LIMIT
    &&& -FP_COV_LIMIT <= c.m33 <= FP_COV_LIMIT
}

/// The factor's entries all stay within [`FP_CHOL_LIMIT`].
pub open spec fn lower_in_bounds(l: Lower4) -> bool {
    &&& 0 <= l.l00 <= FP_CHOL_LIMIT
    &&& abs(l.l10 as int) <= FP_CHOL_LIMIT
    &&& 0 <= l.l11 <= FP_CHOL_LIMIT
    &&& abs(l.l20 as int) <= FP_CHOL_LIMIT
    &&& abs(l.l21 as int) <= FP_CHOL_LIMIT
    &&& 0 <= l.l22 <= FP_CHOL_LIMIT
    &&& abs(l.l30 as int) <= FP_CHOL_LIMIT
    &&& abs(l.l31 as int) <= FP_CHOL_LIMIT
    &&& abs(l.l32 as int) <= FP_CHOL_LIMIT
    &&& 0 <= l.l33 <= FP_CHOL_LIMIT
}

/// The exec values of the factor match the spec recurrence.
pub open spec fn lower_matches(l: Lower4, c: Mat4) -> bool {
    &&& l.l00 == chol_l00(c)
    &&& l.l10 == chol_l10(c)
    &&& l.l11 == chol_l11(c)
    &&& l.l20 == chol_l20(c)
    &&& l.l21 == chol_l21(c)
    &&& l.l22 == chol_l22(c)
    &&& l.l30 == chol_l30(c)
    &&& l.l31 == chol_l31(c)
    &&& l.l32 == chol_l32(c)
    &&& l.l33 == chol_l33(c)
}

/// A strictly positive pivot within [`FP_COV_LIMIT`] has a square root
/// between 1 and one thousand (fixed-point 0.000001 to 1000).
proof fn lemma_pivot_sqrt(p: int)
    requires
        0 < p <= 2 * FP_COV_LIMIT,
    ensures
        1 <= fp_sqrt_spec(p) <= 2_000_000_000,
{
    let r = fp_sqrt_spec(p);
    crate::fixed::lemma_isqrt_rec_bounds((p * FP_ONE) as nat);
    assert(p * FP_ONE >= FP_ONE) by (nonlinear_arith)
        requires
            p >= 1,
            FP_ONE == 1_000_000,
    ;
    assert(p * FP_ONE <= 2_000_000_000_000_000_000) by (nonlinear_arith)
        requires
            p <= 2_000_000_000_000,
            FP_ONE == 1_000_000,
    ;
    if r < 1 {
        assert((r + 1) * (r + 1) <= 1) by (nonlinear_arith)
            requires
                0 <= r < 1,
        ;
    }
    if r > 2_000_000_000 {
        assert(r * r > 2_000_000_000_000_000_000) by (nonlinear_arith)
            requires
                r > 2_000_000_000,
        ;
    }
    assert(r >= 0);
}

/// Divide with the [`FP_CHOL_LIMIT`] magnitude gate: `Some` exactly when the
/// fixed-point quotient is representable as a factor entry.
fn div_gate(v: i64, d: i64) -> (r: Option<i64>)
    requires
        1 <= d,
    ensures
        match r {
            Some(q) => q == fp_div(v as int, d as int) && abs(q as int) <= FP_CHOL_LIMIT,
            None => abs(fp_div(v as int, d as int)) > FP_CHOL_LIMIT,
        },
{
    proof {
        assert((v as int) * (FP_ONE as int) <= 9_223_372_036_854_775_807 * 1_000_000 && (
        v as int) * (FP_ONE as int) >= -9_223_372_036_854_775_808 * 1_000_000) by (nonlinear_arith)
            requires
                -9_223_372_036_854_775_808 <= v <= 9_223_372_036_854_775_807,
                FP_ONE == 1_000_000,
        ;
    }
    let n: i128 = (v as i128) * (FP_ONE as i128);
    proof {
        crate::fixed::lemma_sdiv_mag(n as int, d as int);
        vstd::arithmetic::div_mod::lemma_div_nonincreasing(abs(n as int) as int, d as int);
    }
    let q: i128 = n.checked_div(d as i128).unwrap();
    if q > FP_CHOL_LIMIT as i128 || q < -(FP_CHOL_LIMIT as i128) {
        None
    } else {
        Some(q as i64)
    }
}

/// Compute the lower Cholesky factor of a covariance matrix, or report why
/// the matrix is rejected.  Succeeds exactly when [`chol_ok`] holds, and the
/// returned factor is exactly the spec recurrence.
pub fn cholesky4(c: &Mat4) -> (r: Result<Lower4, CovarianceError>)
    requires
        cov_in_bounds(*c),
    ensures
        r.is_ok() <==> chol_ok(*c),
        r.is_ok() ==> lower_matches(r.unwrap(), *c) && lower_in_bounds(r.unwrap()),
        r.is_err() ==> r.unwrap_err() == chol_err(*c),
{
    if c.m00 <= 0 {
        return Err(CovarianceError::NotPositiveDefinite);
    }
    proof {
        lemma_pivot_sqrt(c.m00 as int);
    }
    let l00 = sqrt_fp(c.m00);
    let l10 = match div_gate(c.m10, l00) {
        Some(q) => q,
        None => {
            return Err(CovarianceError::TooLarge);
        },
    };
    let l20 = match div_gate(c.m20, l00) {
        Some(q) => q,
        None => {
            return Err(CovarianceError::TooLarge);
        },
    };
    let l30 = match div_gate(c.m30, l00) {
        Some(q) => q,
        None => {
            return Err(CovarianceError::TooLarge);
        },
    };
    proof {
        lemma_fp_mul_bound(l10 as int, l10 as int, FP_CHOL_LIMIT as int, FP_CHOL_LIMIT as int);
        lemma_fp_square_nonneg(l10 as int);
    }
    let p1 = c.m11 - mul_fp(l10, l10);
    if p1 <= 0 {
        return Err(CovarianceError::NotPositiveDefinite);
    }
    proof {
        lemma_pivot_sqrt(p1 as int);
    }
    let l11 = sqrt_fp(p1);
    proof {
        lemma_fp_mul_bound(l20 as int, l10 as int, FP_CHOL_LIMIT as int, FP_CHOL_LIMIT as int);
        lemma_fp_mul_bound(l30 as int, l10 as int, FP_CHOL_LIMIT as int, FP_CHOL_LIMIT as int);
    }
    let l21 = match div_gate(c.m21 - mul_fp(l20, l10), l11) {
        Some(q) => q,
        None => {
            return Err(CovarianceError::TooLarge);
        },
    };
    let l31 = match div_gate(c.m31 - mul_fp(l30, l10), l11) {
        Some(q) => q,
        None => {
            return Err(CovarianceError::TooLarge);
        },
    };
    proof {
        lemma_fp_mul_bound(l20 as int, l20 as int, FP_CHOL_LIMIT as int, FP_CHOL_LIMIT as int);
        lemma_fp_mul_bound(l21 as int, l21 as int, FP_CHOL_LIMIT as int, FP_CHOL_LIMIT as int);
        lemma_fp_square_nonneg(l20 as int);
        lemma_fp_square_nonneg(l21 as int);
    }
    let p2 = c.m22 - mul_fp(l20, l20) - mul_fp(l21, l21);
    if p2 <= 0 {
        return Err(CovarianceError::NotPositiveDefinite);
    }
    proof {
        lemma_pivot_sqrt(p2 as int);
    }
    let l22 = sqrt_fp(p2);
    proof {
        lemma_fp_mul_bound(l30 as int, l20 as int, FP_CHOL_LIMIT as int, FP_CHOL_LIMIT as int);
        lemma_fp_mul_bound(l31 as int, l21 as int, FP_CHOL_LIMIT as int, FP_CHOL_LIMIT as int);
    }
    let l32 = match div_gate(c.m32 - mul_fp(l30, l20) - mul_fp(l31, l21), l22) {
        Some(q) => q,
        None => {
            return Err(CovarianceError::TooLarge);
        },
    };
    proof {
        lemma_fp_mul_bound(l30 as int, l30 as int, FP_CHOL_LIMIT as int, FP_CHOL_LIMIT as int);
        lemma_fp_mul_bound(l31 as int, l31 as int, FP_CHOL_LIMIT as int, FP_CHOL_LIMIT as int);
        lemma_fp_mul_bound(l32 as int, l32 as int, FP_CHOL_LIMIT as int, FP_CHOL_LIMIT as int);
        lemma_fp_square_nonneg(l30 as int);
        lemma_fp_square_nonneg(l31 as int);
        lemma_fp_square_nonneg(l32 as int);
    }
    let p3 = c.m33 - mul_fp(l30, l30) - mul_fp(l31, l31) - mul_fp(l32, l32);
    if p3 <= 0 {
        return Err(CovarianceError::NotPositiveDefinite);
    }
    proof {
        lemma_pivot_sqrt(p3 as int);
    }
    let l33 = sqrt_fp(p3);
    Ok(Lower4 { l00, l10, l11, l20, l21, l22, l30, l31, l32, l33 })
}

/// One row of the correlated sample: the dot product of a factor row with
/// the draw vector, plus the mean.
pub open spec fn sample_row0(l: Lower4, mu: Vec4, z: Vec4) -> int {
    fp_mul(l.l00 as int, z.v0 as int) + mu.v0
}

pub open spec fn sample_row1(l: Lower4, mu: Vec4, z: Vec4) -> int {
    fp_mul(l.l10 as int, z.v0 as int) + fp_mul(l.l11 as int, z.v1 as int) + mu.v1
}

pub open spec fn sample_row2(l: Lower4, mu: Vec4, z: Vec4) -> int {
    fp_mul(l.l20 as int, z.v0 as int) + fp_mul(l.l21 as int, z.v1 as int) + fp_mul(
        l.l22 as int,
        z.v2 as int,
    ) + mu.v2
}

pub open spec fn sample_row3(l: Lower4, mu: Vec4, z: Vec4) -> int {
    fp_mul(l.l30 as int, z.v0 as int) + fp_mul(l.l31 as int, z.v1 as int) + fp_mul(
        l.l32 as int,
        z.v2 as int,
    ) + fp_mul(l.l33 as int, z.v3 as int) + mu.v3
}

/// Draw vectors the sampler accepts.
pub open spec fn draws_in_bounds(z: Vec4) -> bool {
    &&& -FP_DRAW_LIMIT <= z.v0 <= FP_DRAW_LIMIT
    &&& -FP_DRAW_LIMIT <= z.v1 <= FP_DRAW_LIMIT
    &&& -FP_DRAW_LIMIT <= z.v2 <= FP_DRAW_LIMIT
    &&& -FP_DRAW_LIMIT <= z.v3 <= FP_DRAW_LIMIT
}

/// Mean vectors the sampler accepts.
pub open spec fn mean_in_bounds(mu: Vec4) -> bool {
    &&& -FP_COV_LIMIT <= mu.v0 <= FP_COV_LIMIT
    &&& -FP_COV_LIMIT <= mu.v1 <= FP_COV_LIMIT
    &&& -FP_COV_LIMIT <= mu.v2 <= FP_COV_LIMIT
    &&& -FP_COV_LIMIT <= mu.v3 <= FP_COV_LIMIT
}

/// Multiply a bounded factor into the draw vector and add the mean: the
/// sample `L z + mu`, each row bounded well inside the representable range.
pub fn correlated_sample(l: &Lower4, mu: &Vec4, z: &Vec4) -> (r: Vec4)
    requires
        lower_in_bounds(*l),
        draws_in_bounds(*z),
        mean_in_bounds(*mu),
    ensures
        r.v0 == sample_row0(*l, *mu, *z),
        r.v1 == sample_row1(*l, *mu, *z),
        r.v2 == sample_row2(*l, *mu, *z),
        r.v3 == sample_row3(*l, *mu, *z),
        abs(r.v0 as int) <= 5_000_000_000_000_000,
        abs(r.v1 as int) <= 5_000_000_000_000_000,
        abs(r.v2 as int) <= 5_000_000_000_000_000,
        abs(r.v3 as int) <= 5_000_000_000_000_000,
{
    proof {
        lemma_fp_mul_bound(l.l00 as int, z.v0 as int, FP_CHOL_LIMIT as int, FP_DRAW_LIMIT as int);
        lemma_fp_mul_bound(l.l10 as int, z.v0 as int, FP_CHOL_LIMIT as int, FP_DRAW_LIMIT as int);
        lemma_fp_mul_bound(l.l11 as int, z.v1 as int, FP_CHOL_LIMIT as int, FP_DRAW_LIMIT as int);
        lemma_fp_mul_bound(l.l20 as int, z.v0 as int, FP_CHOL_LIMIT as int, FP_DRAW_LIMIT as int);
        lemma_fp_mul_bound(l.l21 as int, z.v1 as int, FP_CHOL_LIMIT as int, FP_DRAW_LIMIT as int);
        lemma_fp_mul_bound(l.l22 as int, z.v2 as int, FP_CHOL_LIMIT as int, FP_DRAW_LIMIT as int);
        lemma_fp_mul_bound(l.l30 as int, z.v0 as int, FP_CHOL_LIMIT as int, FP_DRAW_LIMIT as int);
        lemma_fp_mul_bound(l.l31 as int, z.v1 as int, FP_CHOL_LIMIT as int, FP_DRAW_LIMIT as int);
        lemma_fp_mul_bound(l.l32 as int, z.v2 as int, FP_CHOL_LIMIT as int, FP_DRAW_LIMIT as int);
        lemma_fp_mul_bound(l.l33 as int, z.v3 as int, FP_CHOL_LIMIT as int, FP_DRAW_LIMIT as int);
    }
    let r0 = mul_fp(l.l00, z.v0) + mu.v0;
    let r1 = mul_fp(l.l10, z.v0) + mul_fp(l.l11, z.v1) + mu.v1;
    let r2 = mul_fp(l.l20, z.v0) + mul_fp(l.l21, z.v1) + mul_fp(l.l22, z.v2) + mu.v2;
    let r3 = mul_fp(l.l30, z.v0) + mul_fp(l.l31, z.v1) + mul_fp(l.l32, z.v2) + mul_fp(
        l.l33,
        z.v3,
    ) + mu.v3;
    Vec4 { v0: r0, v1: r1, v2: r2, v3: r3 }
}

/// A correlated Gaussian sample: factor the covariance, then return
/// `L z + mu` for the vector `z` of independent standard-normal draws.
/// Fails exactly when the factorization rejects the covariance.
pub fn mvtnorm(mu: &Vec4, cov: &Mat4, z: &Vec4) -> (r: Result<Vec4, CovarianceError>)
    requires
        cov_in_bounds(*cov),
        draws_in_bounds(*z),
        mean_in_bounds(*mu),
    ensures
        r.is_ok() <==> chol_ok(*cov),
        r.is_ok() ==> {
            let l = Lower4 {
                l00: chol_l00(*cov) as i64,
                l10: chol_l10(*cov) as i64,
                l11: chol_l11(*cov) as i64,
                l20: chol_l20(*cov) as i64,
                l21: chol_l21(*cov) as i64,
                l22: chol_l22(*cov) as i64,
                l30: chol_l30(*cov) as i64,
                l31: chol_l31(*cov) as i64,
                l32: chol_l32(*cov) as i64,
                l33: chol_l33(*cov) as i64,
            };
            &&& r.unwrap().v0 == sample_row0(l, *mu, *z)
            &&& r.unwrap().v1 == sample_row1(l, *mu, *z)
            &&& r.unwrap().v2 == sample_row2(l, *mu, *z)
            &&& r.unwrap().v3 == sample_row3(l, *mu, *z)
        },
        r.is_err() ==> r.unwrap_err() == chol_err(*cov),
{
    let l = match cholesky4(cov) {
        Ok(l) => l,
        Err(e) => {
            return Err(e);
        },
    };
    Ok(correlated_sample(&l, mu, z))
}

} // verus!
