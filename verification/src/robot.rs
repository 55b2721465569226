//! The noisy robot and the noisy camera.
//!
//! Both wrap their ideal counterparts with layered stochastic effects.  All
//! randomness enters as explicit standard draws — unit uniforms in
//! `[0, 1)`, standard-normal deviates and standard-exponential deviates in
//! fixed-point form — so each step is an exact function of its state,
//! command and draws; the contracts give that function in full.
//!
//! The camera corrupts each projected landmark in a fixed order: phantom
//! substitution, occlusion stretching the range toward the sensor maximum,
//! oversight dropping the reading, the visibility gate, then multiplicative
//! range noise, additive bearing noise and the per-sensor biases; the
//! corrupted range is clamped at zero and the corrupted bearing wrapped
//! back into `(-pi, pi]`, so every emitted reading keeps the observation
//! invariants.  The robot
//! corrupts each commanded step in a fixed order: velocity bias, the
//! stuck/escape two-state machine, exact arc integration, heading noise
//! accrued per meter traveled, and kidnapping.

use vstd::prelude::*;
use vstd::math::abs;

use crate::base::{obs_fn_spec, obs_seq_view, visible_spec, Agent, IdealCamera, Landmark,
    LandmarkMap, position_in_bounds};
use crate::fixed::{
    fp_abs, fp_mul, lemma_fp_mul_bound, lemma_sdiv_bound, mul_fp, sdiv, FP_ONE, FP_PI, FP_TWO_PI,
};
use crate::kinematics::{pose_in_bounds, FP_COORD_LIMIT};
use crate::mvtnorm::FP_DRAW_LIMIT;
use crate::trig::{lemma_wrap_spec_range, wrap_angle, wrap_spec};

verus! {

/// Probabilities are fixed-point values in `[0, 1]`.
pub open spec fn prob_in_bounds(p: i64) -> bool {
    0 <= p <= FP_ONE
}

/// A unit-uniform draw lies in `[0, 1)`.
pub open spec fn unit_in_bounds(u: i64) -> bool {
    0 <= u < FP_ONE
}

/// A standard-normal draw, capped at a thousand sigma.
pub open spec fn normal_in_bounds(z: i64) -> bool {
    -FP_DRAW_LIMIT <= z <= FP_DRAW_LIMIT
}

/// Noise standard deviations (heading and bearing noise, velocity-bias
/// rate deviations) accepted by the fault models: up to one thousand units,
/// orders of magnitude beyond physical use; the cap only keeps a
/// thousand-sigma draw from overflowing the arithmetic.
pub const FP_SIGMA_LIMIT: i64 = 1_000_000_000;

/// Mean-event parameters (heading-noise events per meter, expected stuck,
/// escape and kidnap times) accepted by the fault models; the cap keeps a
/// hundred-lifetime renewal inside the timer band.
pub const FP_RATE_LIMIT: i64 = 1_000_000_000_000_000;

/// The per-sensor range bias is a multiplier offset; this cap is what keeps
/// the biased range inside `i64` when the range already carries a
/// thousand-sigma noise excursion.
pub const FP_RANGE_BIAS_LIMIT: i64 = 1_000_000_000;

/// The per-sensor bearing bias is additive and wrapped afterwards, so it
/// only needs to stay far from the `i64` edge.
pub const FP_BEARING_BIAS_LIMIT: i64 = 1_000_000_000_000_000;

/// The random draws one landmark's corruption consumes.
#[derive(Clone, Copy, Debug)]
pub struct SensorDraws {
    /// Unit uniform deciding whether a phantom replaces the reading.
    pub phantom_coin: i64,
    /// Unit uniforms placing the phantom inside the configured ranges.
    pub phantom_x: i64,
    pub phantom_y: i64,
    /// Unit uniform deciding whether an occluder stretches the range.
    pub occlusion_coin: i64,
    /// Unit uniform picking how far toward the maximum the range stretches.
    pub occlusion_u: i64,
    /// Unit uniform deciding whether the landmark is overlooked.
    pub oversight_coin: i64,
    /// Standard-normal deviates for range and bearing noise.
    pub range_draw: i64,
    pub bearing_draw: i64,
}

pub open spec fn sensor_draws_in_bounds(d: SensorDraws) -> bool {
    &&& unit_in_bounds(d.phantom_coin)
    &&& unit_in_bounds(d.phantom_x)
    &&& unit_in_bounds(d.phantom_y)
    &&& unit_in_bounds(d.occlusion_coin)
    &&& unit_in_bounds(d.occlusion_u)
    &&& unit_in_bounds(d.oversight_coin)
    &&& normal_in_bounds(d.range_draw)
    &&& normal_in_bounds(d.bearing_draw)
}

/// A range-bearing camera with phantom, occlusion, oversight, noise and
/// bias fault models layered over the ideal projection.
#[derive(Debug)]
pub struct Camera {
    pub map: LandmarkMap,
    pub lastdata: Vec<(i64, i64)>,
    pub distance_range: (i64, i64),
    pub direction_range: (i64, i64),
    pub distance_noise_rate: i64,
    pub direction_noise: i64,
    pub distance_bias: i64,
    pub direction_bias: i64,
    pub phantom_prob: i64,
    pub phantom_range_x: (i64, i64),
    pub phantom_range_y: (i64, i64),
    pub oversight_prob: i64,
    pub occlusion_prob: i64,
}

/// A point drawn uniformly from a configured interval: the left end plus
/// the unit draw times the width.
pub open spec fn uniform_from_spec(range: (i64, i64), u: i64) -> int {
    range.0 + fp_mul(u as int, range.1 - range.0)
}

impl Camera {
    /// Parameter bounds every camera maintains: ranges ordered and inside
    /// the coordinate limit, probabilities in `[0, 1]`, biases inside the
    /// machine bias limits.  The relative range-noise rate is capped at 1.0
    /// (one hundred percent of the range per sigma): that is as much as the
    /// thousand-sigma draw bound leaves room for.
    pub open spec fn wf(self) -> bool {
        &&& -FP_COORD_LIMIT <= self.distance_range.0 <= self.distance_range.1 <= FP_COORD_LIMIT
        &&& -FP_PI <= self.direction_range.0 <= self.direction_range.1 <= FP_PI
        &&& prob_in_bounds(self.distance_noise_rate)
        &&& 0 <= self.direction_noise <= FP_SIGMA_LIMIT
        &&& -FP_RANGE_BIAS_LIMIT <= self.distance_bias <= FP_RANGE_BIAS_LIMIT
        &&& -FP_BEARING_BIAS_LIMIT <= self.direction_bias <= FP_BEARING_BIAS_LIMIT
        &&& prob_in_bounds(self.phantom_prob)
        &&& -FP_COORD_LIMIT <= self.phantom_range_x.0 <= self.phantom_range_x.1 <= FP_COORD_LIMIT
        &&& -FP_COORD_LIMIT <= self.phantom_range_y.0 <= self.phantom_range_y.1 <= FP_COORD_LIMIT
        &&& prob_in_bounds(self.oversight_prob)
        &&& prob_in_bounds(self.occlusion_prob)
    }

    /// A camera with the default fault parameters: ten percent range noise,
    /// two degrees of bearing noise, biases drawn once from zero-mean
    /// normals with standard deviations 0.1 and two degrees, no phantoms,
    /// ten percent oversight, no occlusion.
    pub fn new(
        map: LandmarkMap,
        distance_range: (i64, i64),
        direction_range: (i64, i64),
        bias_draws: (i64, i64),
    ) -> (r: Camera)
        requires
            -FP_COORD_LIMIT <= distance_range.0 <= distance_range.1 <= FP_COORD_LIMIT,
            -FP_PI <= direction_range.0 <= direction_range.1 <= FP_PI,
            normal_in_bounds(bias_draws.0),
            normal_in_bounds(bias_draws.1),
        ensures
            r.wf(),
            r.map == map,
            r.lastdata@ == Seq::<(i64, i64)>::empty(),
            r.distance_range == distance_range,
            r.direction_range == direction_range,
            r.distance_noise_rate == 100_000,
            r.direction_noise == 34_907,
            r.distance_bias == fp_mul(100_000, bias_draws.0 as int),
            r.direction_bias == fp_mul(34_907, bias_draws.1 as int),
            r.phantom_prob == 0,
            r.phantom_range_x.0 == -5 * FP_ONE && r.phantom_range_x.1 == 5 * FP_ONE,
            r.phantom_range_y.0 == -5 * FP_ONE && r.phantom_range_y.1 == 5 * FP_ONE,
            r.oversight_prob == 100_000,
            r.occlusion_prob == 0,
    {
        proof {
            lemma_fp_mul_bound(100_000, bias_draws.0 as int, 100_000, FP_DRAW_LIMIT as int);
            lemma_fp_mul_bound(34_907, bias_draws.1 as int, 34_907, FP_DRAW_LIMIT as int);
        }
        let distance_bias = mul_fp(100_000, bias_draws.0);
        let direction_bias = mul_fp(34_907, bias_draws.1);
        Camera {
            map,
            lastdata: Vec::new(),
            distance_range,
            direction_range,
            distance_noise_rate: 100_000,
            direction_noise: 34_907,
            distance_bias,
            direction_bias,
            phantom_prob: 0,
            phantom_range_x: (-5 * FP_ONE, 5 * FP_ONE),
            phantom_range_y: (-5 * FP_ONE, 5 * FP_ONE),
            oversight_prob: 100_000,
            occlusion_prob: 0,
        }
    }

    /// Replace the noise magnitudes.
    pub fn set_noise(self, distance_noise_rate: i64, direction_noise: i64) -> (r: Camera)
        requires
            prob_in_bounds(distance_noise_rate),
            0 <= direction_noise <= FP_SIGMA_LIMIT,
        ensures
            r == (Camera { distance_noise_rate, direction_noise, ..self }),
    {
        Camera { distance_noise_rate, direction_noise, ..self }
    }

    /// Redraw the per-sensor biases from zero-mean normals with the given
    /// standard deviations.
    pub fn set_bias(
        self,
        distance_bias_rate_std: i64,
        direction_bias_rate_std: i64,
        bias_draws: (i64, i64),
    ) -> (r: Camera)
        requires
            0 <= distance_bias_rate_std <= 1_000_000_000_000,
            0 <= direction_bias_rate_std <= 1_000_000_000_000,
            normal_in_bounds(bias_draws.0),
            normal_in_bounds(bias_draws.1),
            -FP_RANGE_BIAS_LIMIT <= fp_mul(distance_bias_rate_std as int, bias_draws.0 as int)
                <= FP_RANGE_BIAS_LIMIT,
            -FP_BEARING_BIAS_LIMIT <= fp_mul(direction_bias_rate_std as int, bias_draws.1 as int)
                <= FP_BEARING_BIAS_LIMIT,
        ensures
            r == (Camera {
                distance_bias: fp_mul(distance_bias_rate_std as int, bias_draws.0 as int) as i64,
                direction_bias: fp_mul(direction_bias_rate_std as int, bias_draws.1 as int) as i64,
                ..self
            }),
            -FP_RANGE_BIAS_LIMIT <= r.distance_bias <= FP_RANGE_BIAS_LIMIT,
            -FP_BEARING_BIAS_LIMIT <= r.direction_bias <= FP_BEARING_BIAS_LIMIT,
    {
        proof {
            lemma_fp_mul_bound(
                distance_bias_rate_std as int,
                bias_draws.0 as int,
                1_000_000_000_000,
                FP_DRAW_LIMIT as int,
            );
            lemma_fp_mul_bound(
                direction_bias_rate_std as int,
                bias_draws.1 as int,
                1_000_000_000_000,
                FP_DRAW_LIMIT as int,
            );
        }
        let distance_bias = mul_fp(distance_bias_rate_std, bias_draws.0);
        let direction_bias = mul_fp(direction_bias_rate_std, bias_draws.1);
        Camera { distance_bias, direction_bias, ..self }
    }

    /// Replace the phantom probability and the region phantoms appear in.
    pub fn set_phantom(
        self,
        phantom_prob: i64,
        phantom_range_x: (i64, i64),
        phantom_range_y: (i64, i64),
    ) -> (r: Camera)
        requires
            prob_in_bounds(phantom_prob),
            -FP_COORD_LIMIT <= phantom_range_x.0 <= phantom_range_x.1 <= FP_COORD_LIMIT,
            -FP_COORD_LIMIT <= phantom_range_y.0 <= phantom_range_y.1 <= FP_COORD_LIMIT,
        ensures
            r == (Camera { phantom_prob, phantom_range_x, phantom_range_y, ..self }),
    {
        Camera { phantom_prob, phantom_range_x, phantom_range_y, ..self }
    }

    /// Replace the oversight probability.
    pub fn set_oversight(self, oversight_prob: i64) -> (r: Camera)
        requires
            prob_in_bounds(oversight_prob),
        ensures
            r == (Camera { oversight_prob, ..self }),
    {
        Camera { oversight_prob, ..self }
    }

    /// Replace the occlusion probability.
    pub fn set_occlusion(self, occlusion_prob: i64) -> (r: Camera)
        requires
            prob_in_bounds(occlusion_prob),
        ensures
            r == (Camera { occlusion_prob, ..self }),
    {
        Camera { occlusion_prob, ..self }
    }

    /// A copy of the most recent reading.
    pub fn lastdata(&self) -> (r: Vec<(i64, i64)>)
        ensures
            r@ == self.lastdata@,
    {
        copy_pairs(&self.lastdata)
    }

    /// Project one landmark position into the sensor frame; identical to
    /// the ideal projection.
    pub fn obs_fn(cam_pose: (i64, i64, i64), obj_pos: (i64, i64)) -> (r: (i64, i64))
        requires
            pose_in_bounds(cam_pose),
            position_in_bounds(obj_pos),
        ensures
            (r.0 as int, r.1 as int) == obs_fn_spec(cam_pose, obj_pos),
            r.0 >= 0,
            -FP_PI < r.1 <= FP_PI,
    {
        IdealCamera::obs_fn(cam_pose, obj_pos)
    }

    /// Whether a projected pair is inside the distance and direction gates.
    pub fn visible(&self, pos: (i64, i64)) -> (r: bool)
        ensures
            r == visible_spec(
                self.distance_range,
                self.direction_range,
                (pos.0 as int, pos.1 as int),
            ),
    {
        self.distance_range.0 <= pos.0 && pos.0 <= self.distance_range.1
            && self.direction_range.0 <= pos.1 && pos.1 <= self.direction_range.1
    }
}

/// What the phantom stage leaves: with probability `phantom_prob` the
/// projection of a uniformly drawn fake position, otherwise the true
/// projection.
pub open spec fn phantom_spec(
    cam: Camera,
    cam_pose: (i64, i64, i64),
    rel: (int, int),
    d: SensorDraws,
) -> (int, int) {
    if d.phantom_coin < cam.phantom_prob {
        obs_fn_spec(
            cam_pose,
            (
                uniform_from_spec(cam.phantom_range_x, d.phantom_x) as i64,
                uniform_from_spec(cam.phantom_range_y, d.phantom_y) as i64,
            ),
        )
    } else {
        rel
    }
}

/// What the occlusion stage leaves: with probability `occlusion_prob` the
/// range stretches a uniform fraction of the way to the sensor maximum; it
/// is never shortened.
pub open spec fn occlusion_spec(cam: Camera, rel: (int, int), d: SensorDraws) -> (int, int) {
    if d.occlusion_coin < cam.occlusion_prob {
        (rel.0 + fp_mul(d.occlusion_u as int, cam.distance_range.1 - rel.0), rel.1)
    } else {
        rel
    }
}

/// What the noise and bias stages leave: range perturbed proportionally to
/// itself and rescaled by the range bias, never below zero; bearing
/// perturbed, shifted by the bearing bias and wrapped back into
/// `(-pi, pi]`.
pub open spec fn noise_bias_spec(cam: Camera, rel: (int, int), d: SensorDraws) -> (int, int) {
    let ell = rel.0 + fp_mul(fp_mul(rel.0, cam.distance_noise_rate as int), d.range_draw as int);
    let phi = rel.1 + fp_mul(cam.direction_noise as int, d.bearing_draw as int);
    let ell_biased = fp_mul(ell, FP_ONE + cam.distance_bias);
    let phi_biased = wrap_spec(phi + cam.direction_bias);
    (
        if ell_biased < 0 {
            0
        } else {
            ell_biased
        },
        phi_biased,
    )
}

/// What one landmark contributes to a reading, if anything: phantom, then
/// occlusion, then oversight, then the visibility gate, then noise and
/// bias.
pub open spec fn camera_obs_spec(
    cam: Camera,
    cam_pose: (i64, i64, i64),
    l: Landmark,
    d: SensorDraws,
) -> Option<(int, int)> {
    let z0 = obs_fn_spec(cam_pose, l.position);
    let z1 = phantom_spec(cam, cam_pose, z0, d);
    let z2 = occlusion_spec(cam, z1, d);
    if d.oversight_coin < cam.oversight_prob {
        None
    } else if !visible_spec(cam.distance_range, cam.direction_range, z2) {
        None
    } else {
        Some(noise_bias_spec(cam, z2, d))
    }
}

/// The reading over a run of landmarks, each corrupted by its own draws.
pub open spec fn camera_data_seq(
    cam: Camera,
    cam_pose: (i64, i64, i64),
    lms: Seq<Landmark>,
    draws: Seq<SensorDraws>,
) -> Seq<(int, int)>
    decreases lms.len(),
{
    if lms.len() == 0 {
        Seq::<(int, int)>::empty()
    } else {
        let rest = camera_data_seq(cam, cam_pose, lms.drop_last(), draws.drop_last());
        match camera_obs_spec(cam, cam_pose, lms.last(), draws.last()) {
            Some(o) => rest.push(o),
            None => rest,
        }
    }
}

/// The reading invariant of the noisy camera: every pair any sensing call
/// can emit has a non-negative range and a bearing in `(-pi, pi]`.
pub proof fn lemma_camera_data_seq_invariant(
    cam: Camera,
    cam_pose: (i64, i64, i64),
    lms: Seq<Landmark>,
    draws: Seq<SensorDraws>,
)
    ensures
        forall|i: int|
            0 <= i < camera_data_seq(cam, cam_pose, lms, draws).len() ==> {
                let o = #[trigger] camera_data_seq(cam, cam_pose, lms, draws)[i];
                o.0 >= 0 && -FP_PI < o.1 <= FP_PI
            },
    decreases lms.len(),
{
    if lms.len() > 0 {
        lemma_camera_data_seq_invariant(cam, cam_pose, lms.drop_last(), draws.drop_last());
        let rest = camera_data_seq(cam, cam_pose, lms.drop_last(), draws.drop_last());
        let full = camera_data_seq(cam, cam_pose, lms, draws);
        match camera_obs_spec(cam, cam_pose, lms.last(), draws.last()) {
            Some(o) => {
                let z0 = obs_fn_spec(cam_pose, lms.last().position);
                let z1 = phantom_spec(cam, cam_pose, z0, draws.last());
                let z2 = occlusion_spec(cam, z1, draws.last());
                let phi = z2.1 + fp_mul(
                    cam.direction_noise as int,
                    draws.last().bearing_draw as int,
                );
                lemma_wrap_spec_range(phi + cam.direction_bias);
                assert(o.0 >= 0 && -FP_PI < o.1 <= FP_PI);
                assert(full == rest.push(o));
                assert forall|i: int| 0 <= i < full.len() implies {
                    let e = #[trigger] full[i];
                    e.0 >= 0 && -FP_PI < e.1 <= FP_PI
                } by {
                    if i < rest.len() {
                        assert(full[i] == rest[i]);
                    } else {
                        assert(full[i] == o);
                    }
                }
            },
            None => {
                assert(full == rest);
            },
        }
    }
}

impl Camera {
    /// Draw a phantom position or keep the true projection.
    fn phantom(&self, cam_pose: (i64, i64, i64), rel: (i64, i64), d: &SensorDraws) -> (r: (
        i64,
        i64,
    ))
        requires
            self.wf(),
            pose_in_bounds(cam_pose),
            sensor_draws_in_bounds(*d),
            -FP_PI <= rel.1 <= FP_PI,
        ensures
            (r.0 as int, r.1 as int) == phantom_spec(*self, cam_pose, (rel.0 as int, rel.1 as int), *d),
            -FP_PI <= r.1 <= FP_PI,
    {
        if d.phantom_coin < self.phantom_prob {
            let px = uniform_from(self.phantom_range_x, d.phantom_x);
            let py = uniform_from(self.phantom_range_y, d.phantom_y);
            Self::obs_fn(cam_pose, (px, py))
        } else {
            rel
        }
    }

    /// Stretch the range toward the sensor maximum or keep it.
    fn occlusion(&self, rel: (i64, i64), d: &SensorDraws) -> (r: (i64, i64))
        requires
            self.wf(),
            sensor_draws_in_bounds(*d),
            0 <= rel.0 <= 4_000_000_000_000,
        ensures
            (r.0 as int, r.1 as int) == occlusion_spec(*self, (rel.0 as int, rel.1 as int), *d),
            -FP_COORD_LIMIT <= r.0 <= 9_000_000_000_000,
            r.1 == rel.1,
    {
        if d.occlusion_coin < self.occlusion_prob {
            proof {
                lemma_fp_mul_bound(
                    d.occlusion_u as int,
                    self.distance_range.1 - rel.0,
                    FP_ONE as int,
                    5_000_000_000_000,
                );
                lemma_unit_scale(d.occlusion_u, self.distance_range.1 - rel.0 as int);
            }
            let stretch = mul_fp(d.occlusion_u, self.distance_range.1 - rel.0);
            (rel.0 + stretch, rel.1)
        } else {
            rel
        }
    }

    /// Perturb and bias a gated reading; the result keeps the reading
    /// invariants: a non-negative range and a bearing in `(-pi, pi]`.
    fn noise_bias(&self, rel: (i64, i64), d: &SensorDraws) -> (r: (i64, i64))
        requires
            self.wf(),
            sensor_draws_in_bounds(*d),
            -FP_COORD_LIMIT <= rel.0 <= 9_000_000_000_000,
            -FP_PI <= rel.1 <= FP_PI,
        ensures
            (r.0 as int, r.1 as int) == noise_bias_spec(*self, (rel.0 as int, rel.1 as int), *d),
            r.0 >= 0,
            -FP_PI < r.1 <= FP_PI,
    {
        proof {
            lemma_fp_mul_bound(
                rel.0 as int,
                self.distance_noise_rate as int,
                9_000_000_000_000,
                FP_ONE as int,
            );
            lemma_fp_mul_bound(
                fp_mul(rel.0 as int, self.distance_noise_rate as int),
                d.range_draw as int,
                9_000_000_000_000,
                FP_DRAW_LIMIT as int,
            );
            lemma_fp_mul_bound(
                self.direction_noise as int,
                d.bearing_draw as int,
                FP_SIGMA_LIMIT as int,
                FP_DRAW_LIMIT as int,
            );
        }
        let ell = rel.0 + mul_fp(mul_fp(rel.0, self.distance_noise_rate), d.range_draw);
        let phi = rel.1 + mul_fp(self.direction_noise, d.bearing_draw);
        proof {
            lemma_fp_mul_bound(
                ell as int,
                FP_ONE + self.distance_bias as int,
                9_010_000_000_000_000,
                1_001_000_000,
            );
        }
        let ell_biased = mul_fp(ell, FP_ONE + self.distance_bias);
        let phi_biased = wrap_angle(phi + self.direction_bias);
        (
            if ell_biased < 0 {
                0
            } else {
                ell_biased
            },
            phi_biased,
        )
    }

    /// Sense: project every landmark of the map in order, corrupt each with
    /// its own draws, keep what survives oversight and the visibility gate,
    /// record the reading and return a copy of it.  Every emitted pair has
    /// a non-negative range and a bearing in `(-pi, pi]`.
    pub fn data(&mut self, cam_pose: (i64, i64, i64), draws: &Vec<SensorDraws>) -> (r: Vec<
        (i64, i64),
    >)
        requires
            old(self).wf(),
            old(self).map.wf(),
            pose_in_bounds(cam_pose),
            draws@.len() == old(self).map.landmarks@.len(),
            forall|i: int|
                0 <= i < draws@.len() ==> sensor_draws_in_bounds(#[trigger] draws@[i]),
        ensures
            final(self).lastdata@ == r@,
            obs_seq_view(r@) == camera_data_seq(
                *old(self),
                cam_pose,
                old(self).map.landmarks@,
                draws@,
            ),
            final(self).map == old(self).map,
            final(self).distance_range == old(self).distance_range,
            final(self).direction_range == old(self).direction_range,
            final(self).distance_noise_rate == old(self).distance_noise_rate,
            final(self).direction_noise == old(self).direction_noise,
            final(self).distance_bias == old(self).distance_bias,
            final(self).direction_bias == old(self).direction_bias,
            final(self).phantom_prob == old(self).phantom_prob,
            final(self).phantom_range_x == old(self).phantom_range_x,
            final(self).phantom_range_y == old(self).phantom_range_y,
            final(self).oversight_prob == old(self).oversight_prob,
            final(self).occlusion_prob == old(self).occlusion_prob,
            forall|i: int|
                0 <= i < r@.len() ==> (#[trigger] r@[i]).0 >= 0 && -FP_PI < r@[i].1 <= FP_PI,
    {
        let mut observed: Vec<(i64, i64)> = Vec::new();
        let n = self.map.landmarks.len();
        let mut i: usize = 0;
        while i < n
            invariant
                *self == *old(self),
                self.wf(),
                self.map.wf(),
                pose_in_bounds(cam_pose),
                n == self.map.landmarks@.len(),
                draws@.len() == n,
                forall|j: int|
                    0 <= j < draws@.len() ==> sensor_draws_in_bounds(#[trigger] draws@[j]),
                i <= n,
                obs_seq_view(observed@) == camera_data_seq(
                    *self,
                    cam_pose,
                    self.map.landmarks@.take(i as int),
                    draws@.take(i as int),
                ),
                forall|j: int|
                    0 <= j < observed@.len() ==> (#[trigger] observed@[j]).0 >= 0 && -FP_PI
                        < observed@[j].1 <= FP_PI,
            decreases n - i,
        {
            let l = self.map.landmarks[i];
            let d = draws[i];
            let z0 = Self::obs_fn(cam_pose, l.position);
            proof {
                lemma_obs_range(cam_pose, l.position);
            }
            let z1 = self.phantom(cam_pose, z0, &d);
            proof {
                lemma_phantom_range(*self, cam_pose, (z0.0 as int, z0.1 as int), d);
            }
            let z2 = self.occlusion(z1, &d);
            let ghost prev = observed@;
            if d.oversight_coin < self.oversight_prob {
            } else if !self.visible(z2) {
            } else {
                let z3 = self.noise_bias(z2, &d);
                observed.push(z3);
            }
            proof {
                let lms = self.map.landmarks@;
                assert(lms.take(i + 1).drop_last() =~= lms.take(i as int));
                assert(draws@.take(i + 1).drop_last() =~= draws@.take(i as int));
                assert(lms.take(i + 1).last() == lms[i as int]);
                assert(draws@.take(i + 1).last() == draws@[i as int]);
                if observed@ != prev {
                    assert(obs_seq_view(observed@) =~= obs_seq_view(prev).push(
                        (observed@.last().0 as int, observed@.last().1 as int),
                    ));
                }
            }
            i += 1;
        }
        proof {
            assert(self.map.landmarks@.take(n as int) =~= self.map.landmarks@);
            assert(draws@.take(n as int) =~= draws@);
        }
        self.lastdata = observed;
        copy_pairs(&self.lastdata)
    }
}

/// The phantom stage keeps a projected range inside the projection's own
/// range bound, because a phantom is itself a projection of an in-bounds
/// position.
proof fn lemma_phantom_range(
    cam: Camera,
    cam_pose: (i64, i64, i64),
    rel: (int, int),
    d: SensorDraws,
)
    requires
        cam.wf(),
        pose_in_bounds(cam_pose),
        sensor_draws_in_bounds(d),
        0 <= rel.0 <= 4_000_000_000_000,
    ensures
        0 <= phantom_spec(cam, cam_pose, rel, d).0 <= 4_000_000_000_000,
{
    if d.phantom_coin < cam.phantom_prob {
        lemma_uniform_from_range(cam.phantom_range_x, d.phantom_x);
        lemma_uniform_from_range(cam.phantom_range_y, d.phantom_y);
        let px = uniform_from_spec(cam.phantom_range_x, d.phantom_x) as i64;
        let py = uniform_from_spec(cam.phantom_range_y, d.phantom_y) as i64;
        lemma_obs_range(cam_pose, (px, py));
    }
}

/// A projected range is at most the diagonal of the coordinate box.
proof fn lemma_obs_range(cam_pose: (i64, i64, i64), obj_pos: (i64, i64))
    requires
        pose_in_bounds(cam_pose),
        position_in_bounds(obj_pos),
    ensures
        0 <= obs_fn_spec(cam_pose, obj_pos).0 <= 4_000_000_000_000,
{
    let dx = obj_pos.0 - cam_pose.0;
    let dy = obj_pos.1 - cam_pose.1;
    let s = fp_mul(dx, dx) + fp_mul(dy, dy);
    lemma_fp_mul_bound(dx, dx, 2_000_000_000_000, 2_000_000_000_000);
    lemma_fp_mul_bound(dy, dy, 2_000_000_000_000, 2_000_000_000_000);
    crate::fixed::lemma_fp_square_nonneg(dx);
    crate::fixed::lemma_fp_square_nonneg(dy);
    crate::fixed::lemma_isqrt_rec_bounds((s * FP_ONE) as nat);
    let r = crate::fixed::fp_sqrt_spec(s);
    assert(s * FP_ONE <= 8_000_000_000_000_000_000_000_000) by (nonlinear_arith)
        requires
            0 <= s <= 8_000_000_000_000_000_000,
            FP_ONE == 1_000_000,
    ;
    if r > 4_000_000_000_000 {
        assert(r * r > 8_000_000_000_000_000_000_000_000) by (nonlinear_arith)
            requires
                r > 4_000_000_000_000,
        ;
    }
}

/// Scaling by a unit factor keeps a value between zero and itself.
proof fn lemma_unit_scale(u: i64, w: int)
    requires
        0 <= u <= FP_ONE,
    ensures
        w >= 0 ==> 0 <= fp_mul(u as int, w) <= w,
        w < 0 ==> w <= fp_mul(u as int, w) <= 0,
{
    let p = (u as int) * w;
    if w >= 0 {
        assert(0 <= p && p <= FP_ONE * w) by (nonlinear_arith)
            requires
                0 <= u <= FP_ONE,
                w >= 0,
                p == (u as int) * w,
        ;
        lemma_sdiv_bound(p, FP_ONE as int, FP_ONE * w);
        if p > 0 {
            vstd::arithmetic::div_mod::lemma_div_pos_is_pos(p, FP_ONE as int);
        }
    } else {
        assert(p <= 0 && -p <= FP_ONE * (-w)) by (nonlinear_arith)
            requires
                0 <= u <= FP_ONE,
                w < 0,
                p == (u as int) * w,
        ;
        lemma_sdiv_bound(p, FP_ONE as int, FP_ONE * (-w));
        assert(sdiv(p, FP_ONE as int) <= 0) by {
            if p < 0 {
                vstd::arithmetic::div_mod::lemma_div_pos_is_pos(-p, FP_ONE as int);
                assert(p * -1 == -p);
            }
        }
        assert(FP_ONE * (-w) / (FP_ONE as int) == -w) by {
            vstd::arithmetic::div_mod::lemma_div_multiples_vanish(-w, FP_ONE as int);
        }
    }
    if w >= 0 {
        assert(FP_ONE * w / (FP_ONE as int) == w) by {
            vstd::arithmetic::div_mod::lemma_div_multiples_vanish(w, FP_ONE as int);
        }
    }
}

/// A uniform draw from an ordered interval stays inside it.
proof fn lemma_uniform_from_range(range: (i64, i64), u: i64)
    requires
        range.0 <= range.1,
        unit_in_bounds(u),
    ensures
        range.0 <= uniform_from_spec(range, u) <= range.1,
{
    let w = range.1 - range.0;
    lemma_fp_mul_bound(u as int, w, FP_ONE as int, w);
    assert(0 <= (u as int) * w) by (nonlinear_arith)
        requires
            u >= 0,
            w >= 0,
    ;
    if (u as int) * w > 0 {
        vstd::arithmetic::div_mod::lemma_div_pos_is_pos((u as int) * w, FP_ONE as int);
    }
    assert(abs((u as int) * w) <= FP_ONE * w) by (nonlinear_arith)
        requires
            0 <= u <= FP_ONE,
            w >= 0,
    ;
    lemma_sdiv_bound((u as int) * w, FP_ONE as int, FP_ONE * w);
    assert(FP_ONE * w / (FP_ONE as int) == w) by {
        vstd::arithmetic::div_mod::lemma_div_multiples_vanish(w, FP_ONE as int);
    }
}

/// Draw a point coordinate uniformly from an ordered interval.
fn uniform_from(range: (i64, i64), u: i64) -> (r: i64)
    requires
        -FP_COORD_LIMIT <= range.0 <= range.1 <= FP_COORD_LIMIT,
        unit_in_bounds(u),
    ensures
        r == uniform_from_spec(range, u),
        range.0 <= r <= range.1,
{
    proof {
        lemma_uniform_from_range(range, u);
        lemma_fp_mul_bound(u as int, range.1 as int - range.0 as int, FP_ONE as int,
            2 * FP_COORD_LIMIT);
    }
    range.0 + mul_fp(u, range.1 - range.0)
}

/// Copy a vector of pairs.
fn copy_pairs(v: &Vec<(i64, i64)>) -> (r: Vec<(i64, i64)>)
    ensures
        r@ == v@,
{
    let mut r: Vec<(i64, i64)> = Vec::new();
    let n = v.len();
    let mut i: usize = 0;
    while i < n
        invariant
            i <= n,
            n == v@.len(),
            r@ == v@.take(i as int),
        decreases n - i,
    {
        r.push(v[i]);
        proof {
            assert(v@.take(i + 1) =~= v@.take(i as int).push(v@[i as int]));
        }
        i += 1;
    }
    proof {
        assert(v@.take(n as int) =~= v@);
    }
    r
}

/// Standard-exponential draws, capped at one hundred mean lifetimes.
pub open spec fn exp_in_bounds(e: i64) -> bool {
    0 <= e <= 100_000_000
}

/// The random draws one actuation tick consumes.  Which fields are read
/// depends on the state: at most one of the stuck/escape renewals, and the
/// noise and kidnap fields only when their timers expire.
#[derive(Clone, Copy, Debug)]
pub struct RobotDraws {
    /// Standard-exponential renewals for the stuck, escape, noise and
    /// kidnap timers.
    pub stuck_renewal: i64,
    pub escape_renewal: i64,
    pub noise_renewal: i64,
    pub kidnap_renewal: i64,
    /// Standard-normal deviate added (scaled) to the heading when the
    /// odometry-noise counter expires.
    pub theta_draw: i64,
    /// Unit uniforms placing the pose after a kidnapping.
    pub kidnap_x: i64,
    pub kidnap_y: i64,
    pub kidnap_theta: i64,
}

pub open spec fn robot_draws_in_bounds(d: RobotDraws) -> bool {
    &&& exp_in_bounds(d.stuck_renewal)
    &&& exp_in_bounds(d.escape_renewal)
    &&& exp_in_bounds(d.noise_renewal)
    &&& exp_in_bounds(d.kidnap_renewal)
    &&& normal_in_bounds(d.theta_draw)
    &&& unit_in_bounds(d.kidnap_x)
    &&& unit_in_bounds(d.kidnap_y)
    &&& unit_in_bounds(d.kidnap_theta)
}

/// Timers never leave this band; replenishments keep them near zero and a
/// floor stops a disabled timer from drifting without bound.
pub const FP_TIMER_LIMIT: i64 = 1_000_000_000_000_000_000;

/// Clamp a timer at the lower band edge.
pub open spec fn floor_timer(v: int) -> int {
    if v < -FP_TIMER_LIMIT {
        -FP_TIMER_LIMIT as int
    } else {
        v
    }
}

/// A robot whose commanded motion is corrupted by velocity bias, a
/// stuck/escape fault, per-meter heading noise and kidnapping.
#[derive(Debug)]
pub struct Robot {
    pub pose: (i64, i64, i64),
    pub agent: Agent,
    pub sensor: Camera,
    pub poses: Vec<(i64, i64, i64)>,
    /// Per-robot velocity multipliers, drawn once at construction.
    pub bias_rate_nu: i64,
    pub bias_rate_omega: i64,
    /// Mean heading-noise events per meter traveled, and the one-shot
    /// perturbation's standard deviation.
    pub noise_per_meter: i64,
    pub noise_std: i64,
    /// Expected sojourn times of the fault timers; zero disables the
    /// corresponding effect.
    pub expected_stuck_time: i64,
    pub expected_escape_time: i64,
    pub expected_kidnap_time: i64,
    pub kidnap_range_x: (i64, i64),
    pub kidnap_range_y: (i64, i64),
    /// Running counters: distance left until the next heading-noise event,
    /// and time left on the stuck, escape and kidnap timers.
    pub distance_until_noise: i64,
    pub time_until_stuck: i64,
    pub time_until_escape: i64,
    pub time_until_kidnap: i64,
    pub is_stuck: bool,
}

/// The commanded velocities after the per-robot bias, clamped to the
/// machine velocity limit.
pub open spec fn biased_command(r: Robot) -> (int, int) {
    (
        crate::mcl::clamp_vel(fp_mul(r.agent.nu as int, r.bias_rate_nu as int)),
        crate::mcl::clamp_vel(fp_mul(r.agent.omega as int, r.bias_rate_omega as int)),
    )
}

/// The stuck/escape machine after one tick: new stuck timer, new escape
/// timer, new state.  The active timer loses `dt`; on expiry the state
/// toggles and that timer gains a fresh exponential renewal.  A zero
/// expected stuck time disables entering the stuck state.
pub open spec fn stuck_next(r: Robot, dt: i64, d: RobotDraws) -> (int, int, bool) {
    if r.is_stuck {
        let t = r.time_until_escape - dt;
        if t <= 0 {
            (
                r.time_until_stuck as int,
                floor_timer(t + fp_mul(r.expected_escape_time as int, d.escape_renewal as int)),
                false,
            )
        } else {
            (r.time_until_stuck as int, t, true)
        }
    } else if r.expected_stuck_time > 0 {
        let t = r.time_until_stuck - dt;
        if t <= 0 {
            (
                floor_timer(t + fp_mul(r.expected_stuck_time as int, d.stuck_renewal as int)),
                r.time_until_escape as int,
                true,
            )
        } else {
            (t, r.time_until_escape as int, false)
        }
    } else {
        (r.time_until_stuck as int, r.time_until_escape as int, false)
    }
}

/// The odometry-noise stage: the distance counter loses
/// `|nu| dt + 0.2 |omega| dt`; on expiry it gains an exponential renewal
/// scaled by the mean distance between events, and the heading gains a
/// scaled normal perturbation.
pub open spec fn noise_next(
    r: Robot,
    dt: i64,
    d: RobotDraws,
    nu: int,
    omega: int,
    pose: (int, int, int),
) -> (int, (int, int, int)) {
    let dec = fp_mul(crate::trig::iabs(nu), dt as int) + fp_mul(
        200_000,
        fp_mul(crate::trig::iabs(omega), dt as int),
    );
    let t = r.distance_until_noise - dec;
    if t <= 0 {
        (
            floor_timer(t + fp_mul(r.noise_per_meter as int, d.noise_renewal as int)),
            (pose.0, pose.1, pose.2 + fp_mul(r.noise_std as int, d.theta_draw as int)),
        )
    } else {
        (t, pose)
    }
}

/// The kidnap stage: on expiry of its timer the whole pose is replaced by
/// a uniform draw over the configured region with a heading in
/// `[0, 2 pi)`.  A zero expected kidnap time disables the effect.
pub open spec fn kidnap_next(r: Robot, dt: i64, d: RobotDraws, pose: (int, int, int)) -> (
    int,
    (int, int, int),
) {
    if r.expected_kidnap_time > 0 {
        let t = r.time_until_kidnap - dt;
        if t <= 0 {
            (
                floor_timer(t + fp_mul(r.expected_kidnap_time as int, d.kidnap_renewal as int)),
                (
                    uniform_from_spec(r.kidnap_range_x, d.kidnap_x),
                    uniform_from_spec(r.kidnap_range_y, d.kidnap_y),
                    fp_mul(d.kidnap_theta as int, FP_TWO_PI as int),
                ),
            )
        } else {
            (t, pose)
        }
    } else {
        (r.time_until_kidnap as int, pose)
    }
}

/// How one noisy tick transforms a robot: sense, decide, bias, stuck,
/// integrate, heading noise, kidnap, record.  Every field of the new state
/// is a function of the old state, the tick length and the draws.
pub open spec fn robot_one_step_rel(
    pre: Robot,
    post: Robot,
    dt: i64,
    d: RobotDraws,
    sensor_draws: Seq<SensorDraws>,
) -> bool {
    let bc = biased_command(pre);
    let st = stuck_next(pre, dt, d);
    let eff_nu = if st.2 {
        0int
    } else {
        bc.0
    };
    let eff_omega = if st.2 {
        0int
    } else {
        bc.1
    };
    let pose1 = crate::kinematics::state_transition_spec(
        eff_nu as i64,
        eff_omega as i64,
        dt,
        pre.pose,
    );
    let no = noise_next(pre, dt, d, eff_nu, eff_omega, pose1);
    let kd = kidnap_next(pre, dt, d, no.1);
    &&& (post.pose.0 as int, post.pose.1 as int, post.pose.2 as int) == kd.1
    &&& post.poses@ == pre.poses@.push(post.pose)
    &&& post.time_until_stuck == st.0
    &&& post.time_until_escape == st.1
    &&& post.is_stuck == st.2
    &&& post.distance_until_noise == no.0
    &&& post.time_until_kidnap == kd.0
    &&& post.agent == pre.agent
    &&& post.bias_rate_nu == pre.bias_rate_nu
    &&& post.bias_rate_omega == pre.bias_rate_omega
    &&& post.noise_per_meter == pre.noise_per_meter
    &&& post.noise_std == pre.noise_std
    &&& post.expected_stuck_time == pre.expected_stuck_time
    &&& post.expected_escape_time == pre.expected_escape_time
    &&& post.expected_kidnap_time == pre.expected_kidnap_time
    &&& post.kidnap_range_x == pre.kidnap_range_x
    &&& post.kidnap_range_y == pre.kidnap_range_y
    &&& obs_seq_view(post.sensor.lastdata@) == camera_data_seq(
        pre.sensor,
        pre.pose,
        pre.sensor.map.landmarks@,
        sensor_draws,
    )
    &&& post.sensor.map == pre.sensor.map
    &&& post.sensor.distance_range == pre.sensor.distance_range
    &&& post.sensor.direction_range == pre.sensor.direction_range
    &&& post.sensor.distance_noise_rate == pre.sensor.distance_noise_rate
    &&& post.sensor.direction_noise == pre.sensor.direction_noise
    &&& post.sensor.distance_bias == pre.sensor.distance_bias
    &&& post.sensor.direction_bias == pre.sensor.direction_bias
    &&& post.sensor.phantom_prob == pre.sensor.phantom_prob
    &&& post.sensor.phantom_range_x == pre.sensor.phantom_range_x
    &&& post.sensor.phantom_range_y == pre.sensor.phantom_range_y
    &&& post.sensor.oversight_prob == pre.sensor.oversight_prob
    &&& post.sensor.occlusion_prob == pre.sensor.occlusion_prob
}

impl Robot {
    /// Parameter and counter bounds every robot maintains.
    pub open spec fn wf(self) -> bool {
        &&& -crate::kinematics::FP_VEL_LIMIT <= self.agent.nu <= crate::kinematics::FP_VEL_LIMIT
        &&& -crate::kinematics::FP_VEL_LIMIT <= self.agent.omega
            <= crate::kinematics::FP_VEL_LIMIT
        &&& -2_000_000_000_000 <= self.bias_rate_nu <= 2_000_000_000_000
        &&& -2_000_000_000_000 <= self.bias_rate_omega <= 2_000_000_000_000
        &&& 0 <= self.noise_per_meter <= FP_RATE_LIMIT
        &&& 0 <= self.noise_std <= FP_SIGMA_LIMIT
        &&& 0 <= self.expected_stuck_time <= FP_RATE_LIMIT
        &&& 0 <= self.expected_escape_time <= FP_RATE_LIMIT
        &&& 0 <= self.expected_kidnap_time <= FP_RATE_LIMIT
        &&& -FP_COORD_LIMIT <= self.kidnap_range_x.0 <= self.kidnap_range_x.1 <= FP_COORD_LIMIT
        &&& -FP_COORD_LIMIT <= self.kidnap_range_y.0 <= self.kidnap_range_y.1 <= FP_COORD_LIMIT
        &&& -FP_TIMER_LIMIT <= self.distance_until_noise <= FP_TIMER_LIMIT
        &&& -FP_TIMER_LIMIT <= self.time_until_stuck <= FP_TIMER_LIMIT
        &&& -FP_TIMER_LIMIT <= self.time_until_escape <= FP_TIMER_LIMIT
        &&& -FP_TIMER_LIMIT <= self.time_until_kidnap <= FP_TIMER_LIMIT
    }

    /// A robot with the default fault parameters: five heading-noise events
    /// per meter, three degrees of heading noise, ten percent velocity-bias
    /// standard deviations, stuck and kidnap effects disabled, instant
    /// escape, kidnap region five meters around the origin.  The pose
    /// history is seeded with the initial pose.
    pub fn new(
        pose: (i64, i64, i64),
        agent: Agent,
        sensor: Camera,
        bias_draws: (i64, i64),
        init: &RobotDraws,
    ) -> (r: Robot)
        requires
            -crate::kinematics::FP_VEL_LIMIT <= agent.nu <= crate::kinematics::FP_VEL_LIMIT,
            -crate::kinematics::FP_VEL_LIMIT <= agent.omega <= crate::kinematics::FP_VEL_LIMIT,
            normal_in_bounds(bias_draws.0),
            normal_in_bounds(bias_draws.1),
            robot_draws_in_bounds(*init),
        ensures
            r.wf(),
            r.pose == pose,
            r.agent == agent,
            r.sensor == sensor,
            r.poses@ == seq![pose],
            r.bias_rate_nu == FP_ONE + fp_mul(100_000, bias_draws.0 as int),
            r.bias_rate_omega == FP_ONE + fp_mul(100_000, bias_draws.1 as int),
            r.noise_per_meter == 5_000_000,
            r.noise_std == 52_360,
            r.expected_stuck_time == 0,
            r.expected_escape_time == 0,
            r.expected_kidnap_time == 0,
            r.kidnap_range_x.0 == -5 * FP_ONE && r.kidnap_range_x.1 == 5 * FP_ONE,
            r.kidnap_range_y.0 == -5 * FP_ONE && r.kidnap_range_y.1 == 5 * FP_ONE,
            r.distance_until_noise == fp_mul(5_000_000, init.noise_renewal as int),
            r.time_until_stuck == 0,
            r.time_until_escape == 0,
            r.time_until_kidnap == 0,
            r.is_stuck == false,
    {
        proof {
            lemma_fp_mul_bound(100_000, bias_draws.0 as int, 100_000, FP_DRAW_LIMIT as int);
            lemma_fp_mul_bound(100_000, bias_draws.1 as int, 100_000, FP_DRAW_LIMIT as int);
            lemma_fp_mul_bound(5_000_000, init.noise_renewal as int, 5_000_000, 100_000_000);
        }
        let bias_rate_nu = FP_ONE + mul_fp(100_000, bias_draws.0);
        let bias_rate_omega = FP_ONE + mul_fp(100_000, bias_draws.1);
        let distance_until_noise = mul_fp(5_000_000, init.noise_renewal);
        let mut poses: Vec<(i64, i64, i64)> = Vec::new();
        poses.push(pose);
        Robot {
            pose,
            agent,
            sensor,
            poses,
            bias_rate_nu,
            bias_rate_omega,
            noise_per_meter: 5_000_000,
            noise_std: 52_360,
            expected_stuck_time: 0,
            expected_escape_time: 0,
            expected_kidnap_time: 0,
            kidnap_range_x: (-5 * FP_ONE, 5 * FP_ONE),
            kidnap_range_y: (-5 * FP_ONE, 5 * FP_ONE),
            distance_until_noise,
            time_until_stuck: 0,
            time_until_escape: 0,
            time_until_kidnap: 0,
            is_stuck: false,
        }
    }

    /// Replace the heading-noise parameters and redraw the distance
    /// counter.
    pub fn set_noise(self, noise_per_meter: i64, noise_std: i64, renewal: i64) -> (r: Robot)
        requires
            0 <= noise_per_meter <= FP_RATE_LIMIT,
            0 <= noise_std <= FP_SIGMA_LIMIT,
            exp_in_bounds(renewal),
        ensures
            r == (Robot {
                noise_per_meter,
                noise_std,
                distance_until_noise: fp_mul(noise_per_meter as int, renewal as int) as i64,
                ..self
            }),
    {
        proof {
            lemma_fp_mul_bound(
                noise_per_meter as int,
                renewal as int,
                FP_RATE_LIMIT as int,
                100_000_000,
            );
        }
        let distance_until_noise = mul_fp(noise_per_meter, renewal);
        Robot { noise_per_meter, noise_std, distance_until_noise, ..self }
    }

    /// Redraw the per-robot velocity bias multipliers from normals centered
    /// at one.
    pub fn set_bias(self, bias_rate_stds: (i64, i64), bias_draws: (i64, i64)) -> (r: Robot)
        requires
            0 <= bias_rate_stds.0 <= FP_SIGMA_LIMIT,
            0 <= bias_rate_stds.1 <= FP_SIGMA_LIMIT,
            normal_in_bounds(bias_draws.0),
            normal_in_bounds(bias_draws.1),
        ensures
            r == (Robot {
                bias_rate_nu: (FP_ONE + fp_mul(bias_rate_stds.0 as int, bias_draws.0 as int)) as i64,
                bias_rate_omega: (FP_ONE + fp_mul(
                    bias_rate_stds.1 as int,
                    bias_draws.1 as int,
                )) as i64,
                ..self
            }),
            -2_000_000_000_000 <= r.bias_rate_nu <= 2_000_000_000_000,
            -2_000_000_000_000 <= r.bias_rate_omega <= 2_000_000_000_000,
    {
        proof {
            lemma_fp_mul_bound(bias_rate_stds.0 as int, bias_draws.0 as int,
                FP_SIGMA_LIMIT as int, FP_DRAW_LIMIT as int);
            lemma_fp_mul_bound(bias_rate_stds.1 as int, bias_draws.1 as int,
                FP_SIGMA_LIMIT as int, FP_DRAW_LIMIT as int);
        }
        let bias_rate_nu = FP_ONE + mul_fp(bias_rate_stds.0, bias_draws.0);
        let bias_rate_omega = FP_ONE + mul_fp(bias_rate_stds.1, bias_draws.1);
        Robot { bias_rate_nu, bias_rate_omega, ..self }
    }

    /// Replace the stuck/escape expectations and redraw both timers.
    pub fn set_stuck(
        self,
        expected_stuck_time: i64,
        expected_escape_time: i64,
        renewals: (i64, i64),
    ) -> (r: Robot)
        requires
            0 <= expected_stuck_time <= FP_RATE_LIMIT,
            0 <= expected_escape_time <= FP_RATE_LIMIT,
            exp_in_bounds(renewals.0),
            exp_in_bounds(renewals.1),
        ensures
            r == (Robot {
                expected_stuck_time,
                expected_escape_time,
                time_until_stuck: fp_mul(expected_stuck_time as int, renewals.0 as int) as i64,
                time_until_escape: fp_mul(expected_escape_time as int, renewals.1 as int) as i64,
                ..self
            }),
    {
        proof {
            lemma_fp_mul_bound(expected_stuck_time as int, renewals.0 as int,
                FP_RATE_LIMIT as int, 100_000_000);
            lemma_fp_mul_bound(expected_escape_time as int, renewals.1 as int,
                FP_RATE_LIMIT as int, 100_000_000);
        }
        let time_until_stuck = mul_fp(expected_stuck_time, renewals.0);
        let time_until_escape = mul_fp(expected_escape_time, renewals.1);
        Robot { expected_stuck_time, expected_escape_time, time_until_stuck, time_until_escape,
            ..self }
    }

    /// Replace the kidnap expectation and region and redraw the timer.
    pub fn set_kidnap(
        self,
        expected_kidnap_time: i64,
        kidnap_range_x: (i64, i64),
        kidnap_range_y: (i64, i64),
        renewal: i64,
    ) -> (r: Robot)
        requires
            0 <= expected_kidnap_time <= FP_RATE_LIMIT,
            -FP_COORD_LIMIT <= kidnap_range_x.0 <= kidnap_range_x.1 <= FP_COORD_LIMIT,
            -FP_COORD_LIMIT <= kidnap_range_y.0 <= kidnap_range_y.1 <= FP_COORD_LIMIT,
            exp_in_bounds(renewal),
        ensures
            r == (Robot {
                expected_kidnap_time,
                kidnap_range_x,
                kidnap_range_y,
                time_until_kidnap: fp_mul(expected_kidnap_time as int, renewal as int) as i64,
                ..self
            }),
    {
        proof {
            lemma_fp_mul_bound(expected_kidnap_time as int, renewal as int,
                FP_RATE_LIMIT as int, 100_000_000);
        }
        let time_until_kidnap = mul_fp(expected_kidnap_time, renewal);
        Robot { expected_kidnap_time, kidnap_range_x, kidnap_range_y, time_until_kidnap, ..self }
    }

    /// The commanded velocities scaled by the per-robot bias multipliers.
    fn bias(&self, nu: i64, omega: i64) -> (r: (i64, i64))
        requires
            self.wf(),
            -crate::kinematics::FP_VEL_LIMIT <= nu <= crate::kinematics::FP_VEL_LIMIT,
            -crate::kinematics::FP_VEL_LIMIT <= omega <= crate::kinematics::FP_VEL_LIMIT,
        ensures
            r.0 == crate::mcl::clamp_vel(fp_mul(nu as int, self.bias_rate_nu as int)),
            r.1 == crate::mcl::clamp_vel(fp_mul(omega as int, self.bias_rate_omega as int)),
            -crate::kinematics::FP_VEL_LIMIT <= r.0 <= crate::kinematics::FP_VEL_LIMIT,
            -crate::kinematics::FP_VEL_LIMIT <= r.1 <= crate::kinematics::FP_VEL_LIMIT,
    {
        proof {
            lemma_fp_mul_bound(nu as int, self.bias_rate_nu as int, 1_000_000_000,
                2_000_000_000_000);
            lemma_fp_mul_bound(omega as int, self.bias_rate_omega as int, 1_000_000_000,
                2_000_000_000_000);
        }
        let bn = mul_fp(nu, self.bias_rate_nu);
        let bo = mul_fp(omega, self.bias_rate_omega);
        let cn = if bn > crate::kinematics::FP_VEL_LIMIT {
            crate::kinematics::FP_VEL_LIMIT
        } else if bn < -crate::kinematics::FP_VEL_LIMIT {
            -crate::kinematics::FP_VEL_LIMIT
        } else {
            bn
        };
        let co = if bo > crate::kinematics::FP_VEL_LIMIT {
            crate::kinematics::FP_VEL_LIMIT
        } else if bo < -crate::kinematics::FP_VEL_LIMIT {
            -crate::kinematics::FP_VEL_LIMIT
        } else {
            bo
        };
        (cn, co)
    }

    /// Advance the stuck/escape machine one tick and zero the velocities
    /// while stuck.
    fn stuck(&mut self, nu: i64, omega: i64, time_interval: i64, d: &RobotDraws) -> (r: (
        i64,
        i64,
    ))
        requires
            old(self).wf(),
            -crate::kinematics::FP_VEL_LIMIT <= nu <= crate::kinematics::FP_VEL_LIMIT,
            -crate::kinematics::FP_VEL_LIMIT <= omega <= crate::kinematics::FP_VEL_LIMIT,
            0 <= time_interval <= crate::kinematics::FP_TIME_LIMIT,
            robot_draws_in_bounds(*d),
        ensures
            ({
                let st = stuck_next(*old(self), time_interval, *d);
                &&& final(self).time_until_stuck == st.0
                &&& final(self).time_until_escape == st.1
                &&& final(self).is_stuck == st.2
                &&& r == (
                    if st.2 {
                        (0i64, 0i64)
                    } else {
                        (nu, omega)
                    }
                )
            }),
            *final(self) == (Robot {
                time_until_stuck: final(self).time_until_stuck,
                time_until_escape: final(self).time_until_escape,
                is_stuck: final(self).is_stuck,
                ..*old(self)
            }),
            final(self).wf(),
    {
        proof {
            lemma_fp_mul_bound(self.expected_escape_time as int, d.escape_renewal as int,
                FP_RATE_LIMIT as int, 100_000_000);
            lemma_fp_mul_bound(self.expected_stuck_time as int, d.stuck_renewal as int,
                FP_RATE_LIMIT as int, 100_000_000);
        }
        if self.is_stuck {
            self.time_until_escape = self.time_until_escape - time_interval;
            if self.time_until_escape <= 0 {
                self.time_until_escape = self.time_until_escape + mul_fp(
                    self.expected_escape_time,
                    d.escape_renewal,
                );
                if self.time_until_escape < -FP_TIMER_LIMIT {
                    self.time_until_escape = -FP_TIMER_LIMIT;
                }
                self.is_stuck = false;
            }
        } else if self.expected_stuck_time > 0 {
            self.time_until_stuck = self.time_until_stuck - time_interval;
            if self.time_until_stuck <= 0 {
                self.time_until_stuck = self.time_until_stuck + mul_fp(
                    self.expected_stuck_time,
                    d.stuck_renewal,
                );
                if self.time_until_stuck < -FP_TIMER_LIMIT {
                    self.time_until_stuck = -FP_TIMER_LIMIT;
                }
                self.is_stuck = true;
            }
        }
        if self.is_stuck {
            (0, 0)
        } else {
            (nu, omega)
        }
    }

    /// Advance the odometry-noise counter and perturb the heading when it
    /// expires.
    fn noise(&mut self, pose: (i64, i64, i64), nu: i64, omega: i64, time_interval: i64, d: &RobotDraws)
        -> (r: (i64, i64, i64))
        requires
            old(self).wf(),
            -crate::kinematics::FP_VEL_LIMIT <= nu <= crate::kinematics::FP_VEL_LIMIT,
            -crate::kinematics::FP_VEL_LIMIT <= omega <= crate::kinematics::FP_VEL_LIMIT,
            0 <= time_interval <= crate::kinematics::FP_TIME_LIMIT,
            robot_draws_in_bounds(*d),
            -9_000_000_000_000_000_000 <= pose.2 <= 9_000_000_000_000_000_000,
        ensures
            ({
                let no = noise_next(
                    *old(self),
                    time_interval,
                    *d,
                    nu as int,
                    omega as int,
                    (pose.0 as int, pose.1 as int, pose.2 as int),
                );
                &&& final(self).distance_until_noise == no.0
                &&& (r.0 as int, r.1 as int, r.2 as int) == no.1
            }),
            *final(self) == (Robot {
                distance_until_noise: final(self).distance_until_noise,
                ..*old(self)
            }),
            final(self).wf(),
    {
        proof {
            lemma_fp_mul_bound(
                abs(nu as int) as int,
                time_interval as int,
                1_000_000_000,
                1_000_000_000,
            );
            lemma_fp_mul_bound(
                abs(omega as int) as int,
                time_interval as int,
                1_000_000_000,
                1_000_000_000,
            );
            lemma_fp_mul_bound(
                200_000,
                fp_mul(abs(omega as int) as int, time_interval as int),
                200_000,
                1_000_000_000_000,
            );
            lemma_fp_mul_bound(self.noise_per_meter as int, d.noise_renewal as int,
                FP_RATE_LIMIT as int, 100_000_000);
            lemma_fp_mul_bound(self.noise_std as int, d.theta_draw as int, FP_SIGMA_LIMIT as int,
                FP_DRAW_LIMIT as int);
        }
        let dec = mul_fp(fp_abs(nu), time_interval) + mul_fp(
            200_000,
            mul_fp(fp_abs(omega), time_interval),
        );
        self.distance_until_noise = self.distance_until_noise - dec;
        if self.distance_until_noise <= 0 {
            self.distance_until_noise = self.distance_until_noise + mul_fp(
                self.noise_per_meter,
                d.noise_renewal,
            );
            if self.distance_until_noise < -FP_TIMER_LIMIT {
                self.distance_until_noise = -FP_TIMER_LIMIT;
            }
            (pose.0, pose.1, pose.2 + mul_fp(self.noise_std, d.theta_draw))
        } else {
            pose
        }
    }

    /// Advance the kidnap timer and teleport the pose when it expires.
    fn kidnap(&mut self, pose: (i64, i64, i64), time_interval: i64, d: &RobotDraws) -> (r: (
        i64,
        i64,
        i64,
    ))
        requires
            old(self).wf(),
            0 <= time_interval <= crate::kinematics::FP_TIME_LIMIT,
            robot_draws_in_bounds(*d),
        ensures
            ({
                let kd = kidnap_next(
                    *old(self),
                    time_interval,
                    *d,
                    (pose.0 as int, pose.1 as int, pose.2 as int),
                );
                &&& final(self).time_until_kidnap == kd.0
                &&& (r.0 as int, r.1 as int, r.2 as int) == kd.1
            }),
            *final(self) == (Robot { time_until_kidnap: final(self).time_until_kidnap, ..*old(self) }),
            final(self).wf(),
    {
        proof {
            lemma_fp_mul_bound(self.expected_kidnap_time as int, d.kidnap_renewal as int,
                FP_RATE_LIMIT as int, 100_000_000);
            lemma_fp_mul_bound(d.kidnap_theta as int, FP_TWO_PI as int, FP_ONE as int,
                FP_TWO_PI as int);
        }
        if self.expected_kidnap_time > 0 {
            self.time_until_kidnap = self.time_until_kidnap - time_interval;
            if self.time_until_kidnap <= 0 {
                self.time_until_kidnap = self.time_until_kidnap + mul_fp(
                    self.expected_kidnap_time,
                    d.kidnap_renewal,
                );
                if self.time_until_kidnap < -FP_TIMER_LIMIT {
                    self.time_until_kidnap = -FP_TIMER_LIMIT;
                }
                let x = uniform_from(self.kidnap_range_x, d.kidnap_x);
                let y = uniform_from(self.kidnap_range_y, d.kidnap_y);
                let theta = mul_fp(d.kidnap_theta, FP_TWO_PI);
                (x, y, theta)
            } else {
                pose
            }
        } else {
            pose
        }
    }

    /// The current pose.
    pub fn pose(&self) -> (r: (i64, i64, i64))
        ensures
            r == self.pose,
    {
        self.pose
    }

    /// A copy of the pose history.
    pub fn poses(&self) -> (r: Vec<(i64, i64, i64)>)
        ensures
            r@ == self.poses@,
    {
        crate::base::copy_pose_vec(&self.poses)
    }

    /// Append a pose to the history.
    pub fn append_poses(&mut self, pose: (i64, i64, i64))
        ensures
            final(self).poses@ == old(self).poses@.push(pose),
            *final(self) == (Robot { poses: final(self).poses, ..*old(self) }),
    {
        self.poses.push(pose);
    }

    /// One noisy tick: sense, decide, bias, stuck, integrate, heading
    /// noise, kidnap, record.  The history grows by exactly one pose.
    pub fn one_step(&mut self, time_interval: i64, d: &RobotDraws, sensor_draws: &Vec<SensorDraws>)
        requires
            old(self).wf(),
            old(self).sensor.wf(),
            old(self).sensor.map.wf(),
            pose_in_bounds(old(self).pose),
            0 <= time_interval <= crate::kinematics::FP_TIME_LIMIT,
            robot_draws_in_bounds(*d),
            sensor_draws@.len() == old(self).sensor.map.landmarks@.len(),
            forall|i: int|
                0 <= i < sensor_draws@.len() ==> sensor_draws_in_bounds(#[trigger] sensor_draws@[i]),
        ensures
            robot_one_step_rel(*old(self), *final(self), time_interval, *d, sensor_draws@),
            final(self).poses@.len() == old(self).poses@.len() + 1,
            final(self).wf(),
    {
        let pose_now = self.pose;
        let obs = self.sensor.data(pose_now, sensor_draws);
        let decision = self.agent.decision(&obs);
        let biased = self.bias(decision.0, decision.1);
        let eff = self.stuck(biased.0, biased.1, time_interval, d);
        let pose1 = crate::kinematics::state_transition(eff.0, eff.1, time_interval, pose_now);
        let pose2 = self.noise(pose1, eff.0, eff.1, time_interval, d);
        let pose3 = self.kidnap(pose2, time_interval, d);
        self.pose = pose3;
        self.append_poses(pose3);
    }
}

/// Determinism of the actuation model: from one state, one tick with the
/// same command tick length and the same draws can only produce one result,
/// so two runs from the same seed produce identical pose histories.
pub proof fn lemma_one_step_deterministic(
    pre: Robot,
    a: Robot,
    b: Robot,
    dt: i64,
    d: RobotDraws,
    sensor_draws: Seq<SensorDraws>,
)
    requires
        robot_one_step_rel(pre, a, dt, d, sensor_draws),
        robot_one_step_rel(pre, b, dt, d, sensor_draws),
    ensures
        a.pose == b.pose,
        a.poses@ == b.poses@,
        a.is_stuck == b.is_stuck,
        a.time_until_stuck == b.time_until_stuck,
        a.time_until_escape == b.time_until_escape,
        a.distance_until_noise == b.distance_until_noise,
        a.time_until_kidnap == b.time_until_kidnap,
        a.sensor.lastdata@ == b.sensor.lastdata@,
{
    assert(a.pose == b.pose);
    assert(a.poses@ == b.poses@);
    let va = a.sensor.lastdata@;
    let vb = b.sensor.lastdata@;
    assert(obs_seq_view(va) == obs_seq_view(vb));
    assert(va =~= vb) by {
        assert(obs_seq_view(va).len() == va.len());
        assert(obs_seq_view(vb).len() == vb.len());
        assert forall|i: int| 0 <= i < va.len() implies va[i] == vb[i] by {
            assert(obs_seq_view(va)[i] == obs_seq_view(vb)[i]);
        }
    }
}

/// Two cameras agree on everything a tick can observe: every parameter,
/// the map and the last reading.
pub open spec fn camera_obs_eq(a: Camera, b: Camera) -> bool {
    &&& a.map.landmarks@ == b.map.landmarks@
    &&& a.lastdata@ == b.lastdata@
    &&& a.distance_range == b.distance_range
    &&& a.direction_range == b.direction_range
    &&& a.distance_noise_rate == b.distance_noise_rate
    &&& a.direction_noise == b.direction_noise
    &&& a.distance_bias == b.distance_bias
    &&& a.direction_bias == b.direction_bias
    &&& a.phantom_prob == b.phantom_prob
    &&& a.phantom_range_x == b.phantom_range_x
    &&& a.phantom_range_y == b.phantom_range_y
    &&& a.oversight_prob == b.oversight_prob
    &&& a.occlusion_prob == b.occlusion_prob
}

/// Two robots agree on everything a tick can observe: pose, history,
/// parameters, timers, fault state and sensor.
pub open spec fn robot_obs_eq(a: Robot, b: Robot) -> bool {
    &&& a.pose == b.pose
    &&& a.poses@ == b.poses@
    &&& a.agent == b.agent
    &&& camera_obs_eq(a.sensor, b.sensor)
    &&& a.bias_rate_nu == b.bias_rate_nu
    &&& a.bias_rate_omega == b.bias_rate_omega
    &&& a.noise_per_meter == b.noise_per_meter
    &&& a.noise_std == b.noise_std
    &&& a.expected_stuck_time == b.expected_stuck_time
    &&& a.expected_escape_time == b.expected_escape_time
    &&& a.expected_kidnap_time == b.expected_kidnap_time
    &&& a.kidnap_range_x == b.kidnap_range_x
    &&& a.kidnap_range_y == b.kidnap_range_y
    &&& a.distance_until_noise == b.distance_until_noise
    &&& a.time_until_stuck == b.time_until_stuck
    &&& a.time_until_escape == b.time_until_escape
    &&& a.time_until_kidnap == b.time_until_kidnap
    &&& a.is_stuck == b.is_stuck
}

/// The reading depends only on the camera's parameters, never on what it
/// read before.
proof fn lemma_camera_data_seq_congruent(
    a: Camera,
    b: Camera,
    cam_pose: (i64, i64, i64),
    lms: Seq<Landmark>,
    draws: Seq<SensorDraws>,
)
    requires
        camera_obs_eq(a, b),
    ensures
        camera_data_seq(a, cam_pose, lms, draws) == camera_data_seq(b, cam_pose, lms, draws),
    decreases lms.len(),
{
    if lms.len() > 0 {
        lemma_camera_data_seq_congruent(a, b, cam_pose, lms.drop_last(), draws.drop_last());
        assert(camera_obs_spec(a, cam_pose, lms.last(), draws.last()) == camera_obs_spec(
            b,
            cam_pose,
            lms.last(),
            draws.last(),
        ));
    }
}

/// One tick takes observably equal robots to observably equal robots.
pub proof fn lemma_one_step_congruent(
    pre1: Robot,
    pre2: Robot,
    post1: Robot,
    post2: Robot,
    dt: i64,
    d: RobotDraws,
    sensor_draws: Seq<SensorDraws>,
)
    requires
        robot_obs_eq(pre1, pre2),
        robot_one_step_rel(pre1, post1, dt, d, sensor_draws),
        robot_one_step_rel(pre2, post2, dt, d, sensor_draws),
    ensures
        robot_obs_eq(post1, post2),
{
    lemma_camera_data_seq_congruent(
        pre1.sensor,
        pre2.sensor,
        pre1.pose,
        pre1.sensor.map.landmarks@,
        sensor_draws,
    );
    let va = post1.sensor.lastdata@;
    let vb = post2.sensor.lastdata@;
    assert(obs_seq_view(va) == obs_seq_view(vb));
    assert(va =~= vb) by {
        assert(obs_seq_view(va).len() == va.len());
        assert(obs_seq_view(vb).len() == vb.len());
        assert forall|i: int| 0 <= i < va.len() implies va[i] == vb[i] by {
            assert(obs_seq_view(va)[i] == obs_seq_view(vb)[i]);
        }
    }
    assert(post1.pose == post2.pose);
    assert(post1.poses@ =~= post2.poses@);
}

/// A whole run, as the chain of states the robot passes through: one tick
/// per draw bundle.
pub open spec fn robot_trace_rel(
    states: Seq<Robot>,
    dt: i64,
    draws: Seq<(RobotDraws, Seq<SensorDraws>)>,
) -> bool {
    &&& states.len() == draws.len() + 1
    &&& forall|i: int|
        0 <= i < draws.len() ==> robot_one_step_rel(
            states[i],
            #[trigger] states[i + 1],
            dt,
            draws[i].0,
            draws[i].1,
        )
}

/// The states of two runs over the same draws agree up to a given tick.
proof fn lemma_trace_obs_eq_at(
    s1: Seq<Robot>,
    s2: Seq<Robot>,
    dt: i64,
    draws: Seq<(RobotDraws, Seq<SensorDraws>)>,
    i: int,
)
    requires
        robot_trace_rel(s1, dt, draws),
        robot_trace_rel(s2, dt, draws),
        robot_obs_eq(s1[0], s2[0]),
        0 <= i <= draws.len(),
    ensures
        robot_obs_eq(s1[i], s2[i]),
    decreases i,
{
    if i > 0 {
        lemma_trace_obs_eq_at(s1, s2, dt, draws, i - 1);
        assert(robot_one_step_rel(s1[i - 1], s1[i - 1 + 1], dt, draws[i - 1].0, draws[i - 1].1));
        assert(robot_one_step_rel(s2[i - 1], s2[i - 1 + 1], dt, draws[i - 1].0, draws[i - 1].1));
        lemma_one_step_congruent(
            s1[i - 1],
            s2[i - 1],
            s1[i],
            s2[i],
            dt,
            draws[i - 1].0,
            draws[i - 1].1,
        );
    }
}

/// Determinism of the actuation model over a whole run: two runs from
/// observably equal initial states, with the same tick length and the same
/// draw sequence — as from one fixed seed — agree at every tick; in
/// particular they end with identical pose histories.
pub proof fn lemma_run_deterministic(
    s1: Seq<Robot>,
    s2: Seq<Robot>,
    dt: i64,
    draws: Seq<(RobotDraws, Seq<SensorDraws>)>,
)
    requires
        robot_trace_rel(s1, dt, draws),
        robot_trace_rel(s2, dt, draws),
        robot_obs_eq(s1[0], s2[0]),
    ensures
        forall|i: int| 0 <= i < s1.len() ==> robot_obs_eq(#[trigger] s1[i], s2[i]),
        s1.last().poses@ == s2.last().poses@,
{
    assert forall|i: int| 0 <= i < s1.len() implies robot_obs_eq(#[trigger] s1[i], s2[i]) by {
        lemma_trace_obs_eq_at(s1, s2, dt, draws, i);
    }
    assert(robot_obs_eq(s1.last(), s2.last()));
}

} // verus!
