//! The motion-update half of Monte Carlo localization.
//!
//! A particle is one pose hypothesis.  A belief holds a fixed population of
//! particles and a shared process-noise covariance, factored once at
//! construction (a covariance the factorization rejects is a configuration
//! error and the belief is never built).  Each update draws, per particle,
//! four independent standard-normal deviates, correlates them through the
//! factor, scales them by the square roots of `|nu|/dt` and `|omega|/dt`,
//! perturbs the commanded velocities and advances the particle's pose with
//! the exact arc integrator.  No weighting or resampling happens here: the
//! observation-correction half of the filter is a deliberate extension
//! point.

use vstd::prelude::*;
use vstd::math::abs;

use crate::fixed::{
    div_fp, fp_abs, fp_div, fp_mul, fp_sqrt_spec, lemma_sdiv_bound, sqrt_fp, FP_ONE,
};
use crate::kinematics::{
    pose_in_bounds, state_transition, state_transition_spec, FP_TIME_LIMIT, FP_VEL_LIMIT,
};
use crate::mvtnorm::{
    cholesky4, chol_err, chol_ok, correlated_sample, cov_in_bounds, draws_in_bounds,
    lower_in_bounds, lower_matches, sample_row0, sample_row1, sample_row2, sample_row3,
    CovarianceError, Lower4, Mat4, Vec4,
};

verus! {

/// Clamp a velocity to the machine limit; with physical parameters the raw
/// value is far inside the limit and the clamp is the identity.
pub open spec fn clamp_vel(v: int) -> int {
    if v > FP_VEL_LIMIT {
        FP_VEL_LIMIT as int
    } else if v < -FP_VEL_LIMIT {
        -FP_VEL_LIMIT as int
    } else {
        v
    }
}

/// The factor by which the noise deviates scale: the square root of
/// `|v| / dt`, modeling that faster motion disperses the belief more.
pub open spec fn noise_scale_spec(v: i64, time: i64) -> int {
    fp_sqrt_spec(fp_div(abs(v as int) as int, time as int))
}

/// The zero mean used for process noise.
pub open spec fn zero_mean() -> Vec4 {
    Vec4 { v0: 0, v1: 0, v2: 0, v3: 0 }
}

/// The velocities a particle integrates: the command perturbed by the
/// correlated deviates, clamped to the machine velocity limit.
pub open spec fn noised_nu_spec(nu: i64, omega: i64, time: i64, l: Lower4, z: Vec4) -> int {
    let ns0 = sample_row0(l, zero_mean(), z);
    let ns1 = sample_row1(l, zero_mean(), z);
    clamp_vel(
        nu + fp_mul(ns0, noise_scale_spec(nu, time)) + fp_mul(ns1, noise_scale_spec(omega, time)),
    )
}

pub open spec fn noised_omega_spec(nu: i64, omega: i64, time: i64, l: Lower4, z: Vec4) -> int {
    let ns2 = sample_row2(l, zero_mean(), z);
    let ns3 = sample_row3(l, zero_mean(), z);
    clamp_vel(
        omega + fp_mul(ns2, noise_scale_spec(nu, time)) + fp_mul(
            ns3,
            noise_scale_spec(omega, time),
        ),
    )
}

/// The pose a particle reaches in one update.
pub open spec fn particle_update_spec(
    pose: (i64, i64, i64),
    nu: i64,
    omega: i64,
    time: i64,
    l: Lower4,
    z: Vec4,
) -> (int, int, int) {
    state_transition_spec(
        noised_nu_spec(nu, omega, time, l, z) as i64,
        noised_omega_spec(nu, omega, time, l, z) as i64,
        time,
        pose,
    )
}

/// Perturb one commanded velocity by two scaled deviates, clamping to the
/// machine limit.
fn noised_velocity(v: i64, a: i64, b: i64, sa: i64, sb: i64) -> (r: i64)
    requires
        -FP_VEL_LIMIT <= v <= FP_VEL_LIMIT,
        abs(a as int) <= 5_000_000_000_000_000,
        abs(b as int) <= 5_000_000_000_000_000,
        0 <= sa <= 100_000_000_000,
        0 <= sb <= 100_000_000_000,
    ensures
        r == clamp_vel(v + fp_mul(a as int, sa as int) + fp_mul(b as int, sb as int)),
        -FP_VEL_LIMIT <= r <= FP_VEL_LIMIT,
{
    proof {
        assert(abs((a as int) * (sa as int)) <= 500_000_000_000_000_000_000_000_000
            && abs((b as int) * (sb as int)) <= 500_000_000_000_000_000_000_000_000)
            by (nonlinear_arith)
            requires
                abs(a as int) <= 5_000_000_000_000_000,
                abs(b as int) <= 5_000_000_000_000_000,
                0 <= sa <= 100_000_000_000,
                0 <= sb <= 100_000_000_000,
        ;
        lemma_sdiv_bound(
            (a as int) * (sa as int),
            FP_ONE as int,
            500_000_000_000_000_000_000_000_000,
        );
        lemma_sdiv_bound(
            (b as int) * (sb as int),
            FP_ONE as int,
            500_000_000_000_000_000_000_000_000,
        );
    }
    let pa: i128 = ((a as i128) * (sa as i128)).checked_div(FP_ONE as i128).unwrap();
    let pb: i128 = ((b as i128) * (sb as i128)).checked_div(FP_ONE as i128).unwrap();
    let total: i128 = (v as i128) + pa + pb;
    if total > FP_VEL_LIMIT as i128 {
        FP_VEL_LIMIT
    } else if total < -(FP_VEL_LIMIT as i128) {
        -FP_VEL_LIMIT
    } else {
        total as i64
    }
}

/// The square root of `|v| / dt`, bounded by the worst case of the machine
/// limits.
fn noise_scale(v: i64, time: i64) -> (r: i64)
    requires
        -FP_VEL_LIMIT <= v <= FP_VEL_LIMIT,
        1 <= time <= FP_TIME_LIMIT,
    ensures
        r == noise_scale_spec(v, time),
        0 <= r <= 100_000_000_000,
{
    let av = fp_abs(v);
    proof {
        assert(abs((av as int) * FP_ONE) <= 1_000_000_000_000_000) by (nonlinear_arith)
            requires
                0 <= av <= FP_VEL_LIMIT,
                FP_VEL_LIMIT == 1_000_000_000,
                FP_ONE == 1_000_000,
        ;
        lemma_sdiv_bound((av as int) * FP_ONE, time as int, 1_000_000_000_000_000);
        if av > 0 {
            assert((av as int) * FP_ONE > 0) by (nonlinear_arith)
                requires
                    av > 0,
            ;
            vstd::arithmetic::div_mod::lemma_div_pos_is_pos((av as int) * FP_ONE, time as int);
        } else {
            assert((av as int) * FP_ONE == 0) by (nonlinear_arith)
                requires
                    av == 0,
            ;
        }
    }
    let ratio = div_fp(av, time);
    let r = sqrt_fp(ratio);
    proof {
        if r > 100_000_000_000 {
            vstd::arithmetic::mul::lemma_mul_inequality(100_000_000_001, r as int, 100_000_000_001);
            vstd::arithmetic::mul::lemma_mul_inequality(100_000_000_001, r as int, r as int);
            vstd::arithmetic::mul::lemma_mul_inequality(
                ratio as int,
                1_000_000_000_000_000,
                FP_ONE as int,
            );
        }
    }
    r
}

/// One pose hypothesis of the belief.
#[derive(Clone, Copy, Debug)]
pub struct Particle {
    pub pose: (i64, i64, i64),
}

impl Particle {
    /// A particle at a given initial pose.
    pub fn new(init_pose: (i64, i64, i64)) -> (r: Particle)
        ensures
            r.pose == init_pose,
    {
        Particle { pose: init_pose }
    }

    /// Advance this hypothesis by the commanded velocities perturbed with
    /// one vector of correlated process-noise deviates.
    pub fn motion_update(&mut self, nu: i64, omega: i64, time: i64, chol: &Lower4, z: &Vec4)
        requires
            pose_in_bounds(old(self).pose),
            -FP_VEL_LIMIT <= nu <= FP_VEL_LIMIT,
            -FP_VEL_LIMIT <= omega <= FP_VEL_LIMIT,
            1 <= time <= FP_TIME_LIMIT,
            lower_in_bounds(*chol),
            draws_in_bounds(*z),
        ensures
            (
                final(self).pose.0 as int,
                final(self).pose.1 as int,
                final(self).pose.2 as int,
            ) == particle_update_spec(old(self).pose, nu, omega, time, *chol, *z),
    {
        let zero = Vec4 { v0: 0, v1: 0, v2: 0, v3: 0 };
        let ns = correlated_sample(chol, &zero, z);
        let s_nu = noise_scale(nu, time);
        let s_omega = noise_scale(omega, time);
        let nnu = noised_velocity(nu, ns.v0, ns.v1, s_nu, s_omega);
        let nomega = noised_velocity(omega, ns.v2, ns.v3, s_nu, s_omega);
        self.pose = state_transition(nnu, nomega, time, self.pose);
    }
}

/// How one motion update transforms a belief: the population size is
/// unchanged and each particle advances by its own draw vector.
pub open spec fn mcl_update_rel(
    pre: Mcl,
    post: Mcl,
    nu: i64,
    omega: i64,
    time: i64,
    draws: Seq<Vec4>,
) -> bool {
    &&& post.particles@.len() == pre.particles@.len()
    &&& forall|i: int|
        0 <= i < pre.particles@.len() ==> {
            let p = (#[trigger] post.particles@[i]).pose;
            (p.0 as int, p.1 as int, p.2 as int) == particle_update_spec(
                pre.particles@[i].pose,
                nu,
                omega,
                time,
                pre.chol,
                draws[i],
            )
        }
    &&& post.motion_noise_cov == pre.motion_noise_cov
    &&& post.chol == pre.chol
}

/// A particle belief: a fixed population of pose hypotheses and the shared
/// process-noise covariance with its Cholesky factor.
#[derive(Debug)]
pub struct Mcl {
    pub particles: Vec<Particle>,
    pub motion_noise_cov: Mat4,
    pub chol: Lower4,
}

impl Mcl {
    /// The stored factor is the accepted factorization of the stored
    /// covariance.
    pub open spec fn wf(self) -> bool {
        &&& lower_in_bounds(self.chol)
        &&& lower_matches(self.chol, self.motion_noise_cov)
        &&& chol_ok(self.motion_noise_cov)
    }

    /// Build a belief of `num` identical hypotheses at the initial pose.
    /// Rejecting the covariance aborts setup before any tick runs.
    pub fn new(init_pose: (i64, i64, i64), num: usize, motion_noise_cov: Mat4) -> (r: Result<
        Mcl,
        CovarianceError,
    >)
        requires
            cov_in_bounds(motion_noise_cov),
        ensures
            r.is_ok() <==> chol_ok(motion_noise_cov),
            r.is_ok() ==> {
                let m = r.unwrap();
                &&& m.wf()
                &&& m.particles@.len() == num
                &&& forall|i: int|
                    0 <= i < num ==> (#[trigger] m.particles@[i]).pose == init_pose
                &&& m.motion_noise_cov == motion_noise_cov
            },
            r.is_err() ==> r.unwrap_err() == chol_err(motion_noise_cov),
    {
        let chol = match cholesky4(&motion_noise_cov) {
            Ok(l) => l,
            Err(e) => {
                return Err(e);
            },
        };
        let mut particles: Vec<Particle> = Vec::new();
        let mut i: usize = 0;
        while i < num
            invariant
                i <= num,
                particles@.len() == i,
                forall|j: int| 0 <= j < i ==> (#[trigger] particles@[j]).pose == init_pose,
            decreases num - i,
        {
            particles.push(Particle::new(init_pose));
            i += 1;
        }
        Ok(Mcl { particles, motion_noise_cov, chol })
    }

    /// Advance every hypothesis independently with its own draw vector.
    /// The population size never changes.
    pub fn motion_update(&mut self, nu: i64, omega: i64, time: i64, draws: &Vec<Vec4>)
        requires
            old(self).wf(),
            draws@.len() == old(self).particles@.len(),
            forall|i: int|
                0 <= i < old(self).particles@.len() ==> pose_in_bounds(
                    (#[trigger] old(self).particles@[i]).pose,
                ),
            forall|i: int| 0 <= i < draws@.len() ==> draws_in_bounds(#[trigger] draws@[i]),
            -FP_VEL_LIMIT <= nu <= FP_VEL_LIMIT,
            -FP_VEL_LIMIT <= omega <= FP_VEL_LIMIT,
            1 <= time <= FP_TIME_LIMIT,
        ensures
            mcl_update_rel(*old(self), *final(self), nu, omega, time, draws@),
            final(self).particles@.len() == old(self).particles@.len(),
            final(self).wf(),
    {
        let n = self.particles.len();
        let mut i: usize = 0;
        while i < n
            invariant
                i <= n,
                n == self.particles@.len(),
                self.particles@.len() == old(self).particles@.len(),
                self.motion_noise_cov == old(self).motion_noise_cov,
                self.chol == old(self).chol,
                old(self).wf(),
                draws@.len() == old(self).particles@.len(),
                forall|j: int|
                    0 <= j < old(self).particles@.len() ==> pose_in_bounds(
                        (#[trigger] old(self).particles@[j]).pose,
                    ),
                forall|j: int| 0 <= j < draws@.len() ==> draws_in_bounds(#[trigger] draws@[j]),
                -FP_VEL_LIMIT <= nu <= FP_VEL_LIMIT,
                -FP_VEL_LIMIT <= omega <= FP_VEL_LIMIT,
                1 <= time <= FP_TIME_LIMIT,
                forall|j: int|
                    i <= j < n ==> #[trigger] self.particles@[j] == old(self).particles@[j],
                forall|j: int|
                    0 <= j < i ==> {
                        let p = (#[trigger] self.particles@[j]).pose;
                        (p.0 as int, p.1 as int, p.2 as int) == particle_update_spec(
                            old(self).particles@[j].pose,
                            nu,
                            omega,
                            time,
                            old(self).chol,
                            draws@[j],
                        )
                    },
            decreases n - i,
        {
            let mut p = self.particles[i];
            p.motion_update(nu, omega, time, &self.chol, &draws[i]);
            self.particles.set(i, p);
            i += 1;
        }
    }
}

/// An agent that commands a fixed cruise while keeping a particle belief in
/// step with what it commanded on the previous tick.
#[derive(Debug)]
pub struct EstimateAgent {
    pub nu: i64,
    pub omega: i64,
    pub time_interval: i64,
    pub estimator: Mcl,
    pub prev_nu: i64,
    pub prev_omega: i64,
}

impl EstimateAgent {
    /// An agent whose belief has not moved yet; the remembered previous
    /// command starts at zero.
    pub fn new(nu: i64, omega: i64, time_interval: i64, estimator: Mcl) -> (r: EstimateAgent)
        ensures
            r.nu == nu,
            r.omega == omega,
            r.time_interval == time_interval,
            r.estimator == estimator,
            r.prev_nu == 0,
            r.prev_omega == 0,
    {
        EstimateAgent { nu, omega, time_interval, estimator, prev_nu: 0, prev_omega: 0 }
    }

    /// Advance the belief with the previous command, remember the current
    /// one, and command it.
    pub fn decision(&mut self, _obs: &Vec<(i64, i64)>, draws: &Vec<Vec4>) -> (r: (i64, i64))
        requires
            old(self).estimator.wf(),
            draws@.len() == old(self).estimator.particles@.len(),
            forall|i: int|
                0 <= i < old(self).estimator.particles@.len() ==> pose_in_bounds(
                    (#[trigger] old(self).estimator.particles@[i]).pose,
                ),
            forall|i: int| 0 <= i < draws@.len() ==> draws_in_bounds(#[trigger] draws@[i]),
            -FP_VEL_LIMIT <= old(self).prev_nu <= FP_VEL_LIMIT,
            -FP_VEL_LIMIT <= old(self).prev_omega <= FP_VEL_LIMIT,
            1 <= old(self).time_interval <= FP_TIME_LIMIT,
        ensures
            r == (old(self).nu, old(self).omega),
            mcl_update_rel(
                old(self).estimator,
                final(self).estimator,
                old(self).prev_nu,
                old(self).prev_omega,
                old(self).time_interval,
                draws@,
            ),
            final(self).prev_nu == old(self).nu,
            final(self).prev_omega == old(self).omega,
            final(self).nu == old(self).nu,
            final(self).omega == old(self).omega,
            final(self).time_interval == old(self).time_interval,
    {
        let prev_nu = self.prev_nu;
        let prev_omega = self.prev_omega;
        let time_interval = self.time_interval;
        self.estimator.motion_update(prev_nu, prev_omega, time_interval, draws);
        self.prev_nu = self.nu;
        self.prev_omega = self.omega;
        (self.nu, self.omega)
    }
}

} // verus!
