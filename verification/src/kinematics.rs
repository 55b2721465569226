//! Unicycle pose kinematics.
//!
//! A pose is `(x, y, theta)` in fixed-point meters and radians.  One step of
//! [`state_transition`] advances a pose under constant linear velocity `nu`
//! and angular velocity `omega` for `time` seconds: a straight line when
//! `omega` is zero, otherwise the exact constant-curvature arc.  The heading
//! is never wrapped here; consumers that compare angles wrap at the point of
//! use.

use vstd::prelude::*;
use vstd::math::abs;

use crate::fixed::{
    div_fp, fp_div, fp_mul, lemma_fp_mul_bound, lemma_fp_mul_zero, lemma_sdiv_bound, mul_fp,
    FP_ONE,
};
use crate::trig::{cos_fp, cos_spec, lemma_trig_bounds, sin_fp, sin_spec, FP_TRIG_BOUND};

verus! {

/// Position coordinates accepted by one kinematic step, one thousand
/// kilometers in either direction.
pub const FP_COORD_LIMIT: i64 = 1_000_000_000_000;

/// Headings accepted by one kinematic step; far larger than any heading a
/// bounded run can accumulate.
pub const FP_THETA_LIMIT: i64 = 1_000_000_000_000_000;

/// Velocity magnitudes accepted by one kinematic step, one thousand meters
/// (or radians) per second.
pub const FP_VEL_LIMIT: i64 = 1_000_000_000;

/// Step durations accepted by one kinematic step, one thousand seconds.
pub const FP_TIME_LIMIT: i64 = 1_000_000_000;

/// How far one step can move either position coordinate.
pub const FP_STEP_LIMIT: i64 = 6_000_000_000_000_000;

/// How far one step can turn the heading.
pub const FP_TURN_LIMIT: i64 = 1_000_000_000_000;

/// The pose reached from `pose` after driving with velocities `(nu, omega)`
/// for `time` seconds.  With `omega == 0` the motion is the straight line
/// `x + nu cos(theta) t`, `y + nu sin(theta) t`; otherwise it is the
/// constant-curvature arc of radius `nu / omega`.
pub open spec fn state_transition_spec(
    nu: i64,
    omega: i64,
    time: i64,
    pose: (i64, i64, i64),
) -> (int, int, int) {
    let theta = pose.2 as int;
    let dtheta = fp_mul(omega as int, time as int);
    if omega == 0 {
        (
            pose.0 + fp_mul(fp_mul(nu as int, cos_spec(theta)), time as int),
            pose.1 + fp_mul(fp_mul(nu as int, sin_spec(theta)), time as int),
            theta + dtheta,
        )
    } else {
        let radius = fp_div(nu as int, omega as int);
        (
            pose.0 + fp_mul(radius, sin_spec(theta + dtheta) - sin_spec(theta)),
            pose.1 + fp_mul(radius, -cos_spec(theta + dtheta) + cos_spec(theta)),
            theta + dtheta,
        )
    }
}

/// Pose arguments a kinematic step accepts.
pub open spec fn pose_in_bounds(pose: (i64, i64, i64)) -> bool {
    &&& -FP_COORD_LIMIT <= pose.0 <= FP_COORD_LIMIT
    &&& -FP_COORD_LIMIT <= pose.1 <= FP_COORD_LIMIT
    &&& -FP_THETA_LIMIT <= pose.2 <= FP_THETA_LIMIT
}

/// Command arguments a kinematic step accepts.
pub open spec fn command_in_bounds(nu: i64, omega: i64, time: i64) -> bool {
    &&& -FP_VEL_LIMIT <= nu <= FP_VEL_LIMIT
    &&& -FP_VEL_LIMIT <= omega <= FP_VEL_LIMIT
    &&& 0 <= time <= FP_TIME_LIMIT
}

/// With a zero angular velocity the step is exactly the straight-line
/// formula and the heading is unchanged.
pub proof fn lemma_straight_motion(nu: i64, time: i64, pose: (i64, i64, i64))
    ensures
        state_transition_spec(nu, 0, time, pose) == (
            pose.0 + fp_mul(fp_mul(nu as int, cos_spec(pose.2 as int)), time as int),
            pose.1 + fp_mul(fp_mul(nu as int, sin_spec(pose.2 as int)), time as int),
            pose.2 as int,
        ),
{
    lemma_fp_mul_zero(time as int);
}

/// One step can move each position coordinate by at most [`FP_STEP_LIMIT`]
/// and the heading by at most [`FP_TURN_LIMIT`].
pub proof fn lemma_step_bounds(nu: i64, omega: i64, time: i64, pose: (i64, i64, i64))
    requires
        command_in_bounds(nu, omega, time),
    ensures
        abs(state_transition_spec(nu, omega, time, pose).0 - pose.0) <= FP_STEP_LIMIT,
        abs(state_transition_spec(nu, omega, time, pose).1 - pose.1) <= FP_STEP_LIMIT,
        abs(state_transition_spec(nu, omega, time, pose).2 - pose.2) <= FP_TURN_LIMIT,
{
    let theta = pose.2 as int;
    let dtheta = fp_mul(omega as int, time as int);
    lemma_fp_mul_bound(omega as int, time as int, FP_VEL_LIMIT as int, FP_TIME_LIMIT as int);
    lemma_trig_bounds(theta);
    lemma_trig_bounds(theta + dtheta);
    if omega == 0 {
        lemma_fp_mul_bound(nu as int, cos_spec(theta), FP_VEL_LIMIT as int, FP_TRIG_BOUND as int);
        lemma_fp_mul_bound(
            fp_mul(nu as int, cos_spec(theta)),
            time as int,
            3_000_000_000,
            FP_TIME_LIMIT as int,
        );
        lemma_fp_mul_bound(nu as int, sin_spec(theta), FP_VEL_LIMIT as int, FP_TRIG_BOUND as int);
        lemma_fp_mul_bound(
            fp_mul(nu as int, sin_spec(theta)),
            time as int,
            3_000_000_000,
            FP_TIME_LIMIT as int,
        );
    } else {
        let radius = fp_div(nu as int, omega as int);
        lemma_sdiv_bound(
            (nu as int) * FP_ONE,
            if omega > 0 {
                omega as int
            } else {
                -omega as int
            },
            1_000_000_000_000_000,
        );
        assert(abs((nu as int) * FP_ONE) <= 1_000_000_000_000_000) by (nonlinear_arith)
            requires
                -FP_VEL_LIMIT <= nu <= FP_VEL_LIMIT,
                FP_ONE == 1_000_000,
                FP_VEL_LIMIT == 1_000_000_000,
        ;
        assert(abs(radius) <= 1_000_000_000_000_000) by {
            if omega > 0 {
            } else {
                assert(fp_div(nu as int, omega as int) == -sdiv_neg_helper(nu as int, omega as int));
            }
        }
        lemma_fp_mul_bound(
            radius,
            sin_spec(theta + dtheta) - sin_spec(theta),
            1_000_000_000_000_000,
            2 * FP_TRIG_BOUND as int,
        );
        lemma_fp_mul_bound(
            radius,
            -cos_spec(theta + dtheta) + cos_spec(theta),
            1_000_000_000_000_000,
            2 * FP_TRIG_BOUND as int,
        );
    }
}

/// Helper naming the positive-divisor form of a truncating quotient with a
/// negative divisor.
spec fn sdiv_neg_helper(a: int, b: int) -> int {
    crate::fixed::sdiv(a * FP_ONE, -b)
}

/// Advance a pose by one command step.
pub fn state_transition(nu: i64, omega: i64, time: i64, pose: (i64, i64, i64)) -> (p: (
    i64,
    i64,
    i64,
))
    requires
        pose_in_bounds(pose),
        command_in_bounds(nu, omega, time),
    ensures
        (p.0 as int, p.1 as int, p.2 as int) == state_transition_spec(nu, omega, time, pose),
        abs(p.0 as int - pose.0 as int) <= FP_STEP_LIMIT,
        abs(p.1 as int - pose.1 as int) <= FP_STEP_LIMIT,
        abs(p.2 as int - pose.2 as int) <= FP_TURN_LIMIT,
{
    proof {
        lemma_step_bounds(nu, omega, time, pose);
        lemma_fp_mul_bound(omega as int, time as int, FP_VEL_LIMIT as int, FP_TIME_LIMIT as int);
        lemma_trig_bounds(pose.2 as int);
        lemma_trig_bounds(pose.2 as int + fp_mul(omega as int, time as int));
    }
    let theta = pose.2;
    let dtheta = mul_fp(omega, time);
    if omega == 0 {
        proof {
            lemma_fp_mul_bound(
                nu as int,
                cos_spec(theta as int),
                FP_VEL_LIMIT as int,
                FP_TRIG_BOUND as int,
            );
            lemma_fp_mul_bound(
                fp_mul(nu as int, cos_spec(theta as int)),
                time as int,
                3_000_000_000,
                FP_TIME_LIMIT as int,
            );
            lemma_fp_mul_bound(
                nu as int,
                sin_spec(theta as int),
                FP_VEL_LIMIT as int,
                FP_TRIG_BOUND as int,
            );
            lemma_fp_mul_bound(
                fp_mul(nu as int, sin_spec(theta as int)),
                time as int,
                3_000_000_000,
                FP_TIME_LIMIT as int,
            );
        }
        let x = pose.0 + mul_fp(mul_fp(nu, cos_fp(theta)), time);
        let y = pose.1 + mul_fp(mul_fp(nu, sin_fp(theta)), time);
        (x, y, theta + dtheta)
    } else {
        proof {
            lemma_sdiv_bound(
                (nu as int) * FP_ONE,
                if omega > 0 {
                    omega as int
                } else {
                    -omega as int
                },
                1_000_000_000_000_000,
            );
            assert(abs((nu as int) * FP_ONE) <= 1_000_000_000_000_000) by (nonlinear_arith)
                requires
                    -FP_VEL_LIMIT <= nu <= FP_VEL_LIMIT,
                    FP_ONE == 1_000_000,
                    FP_VEL_LIMIT == 1_000_000_000,
            ;
            assert(abs(fp_div(nu as int, omega as int)) <= 1_000_000_000_000_000) by {
                if omega > 0 {
                } else {
                    assert(fp_div(nu as int, omega as int) == -sdiv_neg_helper(
                        nu as int,
                        omega as int,
                    ));
                }
            }
            lemma_fp_mul_bound(
                fp_div(nu as int, omega as int),
                sin_spec(pose.2 as int + fp_mul(omega as int, time as int)) - sin_spec(
                    pose.2 as int,
                ),
                1_000_000_000_000_000,
                2 * FP_TRIG_BOUND as int,
            );
            lemma_fp_mul_bound(
                fp_div(nu as int, omega as int),
                -cos_spec(pose.2 as int + fp_mul(omega as int, time as int)) + cos_spec(
                    pose.2 as int,
                ),
                1_000_000_000_000_000,
                2 * FP_TRIG_BOUND as int,
            );
        }
        let radius = div_fp(nu, omega);
        let sin_after = sin_fp(theta + dtheta);
        let sin_before = sin_fp(theta);
        let cos_after = cos_fp(theta + dtheta);
        let cos_before = cos_fp(theta);
        let x = pose.0 + mul_fp(radius, sin_after - sin_before);
        let y = pose.1 + mul_fp(radius, -cos_after + cos_before);
        (x, y, theta + dtheta)
    }
}

} // verus!
