//! The ideal (noise-free) world: agents, landmarks, maps, the ideal
//! range-bearing camera and the ideal robot.
//!
//! Positions are fixed-point meters, headings fixed-point radians.  The
//! camera projects each landmark of a shared immutable map into the sensor
//! frame as a `(range, bearing)` pair, keeps those that pass the visibility
//! gate, and stores the reading; the robot senses, asks its agent for a
//! command, advances its pose with the exact arc integrator and appends the
//! new pose to its append-only history.

use vstd::prelude::*;

use crate::fixed::{fp_mul, fp_sqrt_spec, lemma_fp_mul_bound, lemma_fp_square_nonneg, mul_fp,
    sqrt_fp, FP_PI};
use crate::kinematics::{
    command_in_bounds, pose_in_bounds, state_transition, state_transition_spec, FP_COORD_LIMIT,
};
use crate::trig::{atan2_fp, atan2_spec, wrap_angle, wrap_spec};

verus! {

/// An agent that always commands the same linear and angular velocity.
#[derive(Clone, Copy, Debug)]
pub struct Agent {
    pub nu: i64,
    pub omega: i64,
}

impl Agent {
    /// The command for this tick given the current observation; a cruising
    /// agent ignores what it sees.
    pub fn decision(&self, _obs: &Vec<(i64, i64)>) -> (r: (i64, i64))
        ensures
            r == (self.nu, self.omega),
    {
        (self.nu, self.omega)
    }
}

/// A fixed, identified point landmark.
#[derive(Clone, Copy, Debug)]
pub struct Landmark {
    pub position: (i64, i64),
    pub id: i32,
}

/// Positions a landmark (or camera) may occupy.
pub open spec fn position_in_bounds(p: (i64, i64)) -> bool {
    &&& -FP_COORD_LIMIT <= p.0 <= FP_COORD_LIMIT
    &&& -FP_COORD_LIMIT <= p.1 <= FP_COORD_LIMIT
}

/// An ordered collection of landmarks; insertion order assigns the ids.
#[derive(Clone, Debug)]
pub struct LandmarkMap {
    pub landmarks: Vec<Landmark>,
}

impl LandmarkMap {
    /// Landmark ids equal their insertion rank and every stored position is
    /// in bounds.
    pub open spec fn wf(self) -> bool {
        &&& self.landmarks@.len() <= i32::MAX as int
        &&& forall|i: int|
            0 <= i < self.landmarks@.len() ==> (#[trigger] self.landmarks@[i]).id == i
        &&& forall|i: int|
            0 <= i < self.landmarks@.len() ==> position_in_bounds(
                (#[trigger] self.landmarks@[i]).position,
            )
    }

    /// An empty map.
    pub fn new() -> (r: LandmarkMap)
        ensures
            r.landmarks@ == Seq::<Landmark>::empty(),
            r.wf(),
    {
        LandmarkMap { landmarks: Vec::new() }
    }

    /// Append a landmark; its id is the number of landmarks already present,
    /// so ids are dense, stable and zero-based.
    pub fn append_landmark(&mut self, position: (i64, i64))
        requires
            old(self).wf(),
            old(self).landmarks@.len() < i32::MAX as int,
            position_in_bounds(position),
        ensures
            final(self).landmarks@ == old(self).landmarks@.push(
                Landmark { position, id: old(self).landmarks@.len() as i32 },
            ),
            final(self).wf(),
    {
        let id = self.landmarks.len() as i32;
        self.landmarks.push(Landmark { position, id });
    }
}

/// What one landmark projects to in the sensor frame: the Euclidean range
/// and the bearing from the sensor heading, wrapped into `(-pi, pi]`.
pub open spec fn obs_fn_spec(cam_pose: (i64, i64, i64), obj_pos: (i64, i64)) -> (int, int) {
    let dx = obj_pos.0 - cam_pose.0;
    let dy = obj_pos.1 - cam_pose.1;
    let dist = fp_sqrt_spec(fp_mul(dx, dx) + fp_mul(dy, dy));
    let phi = wrap_spec(atan2_spec(dy, dx) - cam_pose.2);
    (dist, phi)
}

/// Whether a `(range, bearing)` pair passes the visibility gate.
pub open spec fn visible_spec(
    distance_range: (i64, i64),
    direction_range: (i64, i64),
    pos: (int, int),
) -> bool {
    &&& distance_range.0 <= pos.0 <= distance_range.1
    &&& direction_range.0 <= pos.1 <= direction_range.1
}

/// The view of an observation list as spec-level integer pairs.
pub open spec fn obs_seq_view(s: Seq<(i64, i64)>) -> Seq<(int, int)> {
    s.map_values(|o: (i64, i64)| (o.0 as int, o.1 as int))
}

/// The projections of a run of landmarks, in order, keeping exactly those
/// that pass the visibility gate.
pub open spec fn ideal_data_seq(
    lms: Seq<Landmark>,
    distance_range: (i64, i64),
    direction_range: (i64, i64),
    cam_pose: (i64, i64, i64),
) -> Seq<(int, int)>
    decreases lms.len(),
{
    if lms.len() == 0 {
        Seq::<(int, int)>::empty()
    } else {
        let rest = ideal_data_seq(lms.drop_last(), distance_range, direction_range, cam_pose);
        let o = obs_fn_spec(cam_pose, lms.last().position);
        if visible_spec(distance_range, direction_range, o) {
            rest.push(o)
        } else {
            rest
        }
    }
}

/// What an ideal sensing call returns: every landmark of the map projected
/// in map order, keeping exactly those projections that pass the visibility
/// gate.
pub open spec fn ideal_data_spec(
    map: LandmarkMap,
    distance_range: (i64, i64),
    direction_range: (i64, i64),
    cam_pose: (i64, i64, i64),
) -> Seq<(int, int)> {
    ideal_data_seq(map.landmarks@, distance_range, direction_range, cam_pose)
}

/// Copy a vector of observation pairs.
fn copy_obs_vec(v: &Vec<(i64, i64)>) -> (r: Vec<(i64, i64)>)
    ensures
        r@ == v@,
{
    let mut r: Vec<(i64, i64)> = Vec::new();
    let n = v.len();
    let mut i: usize = 0;
    while i < n
        invariant
            i <= n,
            n == v@.len(),
            r@ == v@.take(i as int),
        decreases n - i,
    {
        r.push(v[i]);
        proof {
            assert(v@.take(i + 1) =~= v@.take(i as int).push(v@[i as int]));
        }
        i += 1;
    }
    proof {
        assert(v@.take(n as int) =~= v@);
    }
    r
}

/// The reading invariant of the ideal camera: every pair any sensing call
/// can emit has a non-negative range and a bearing in `(-pi, pi]`.
pub proof fn lemma_ideal_data_seq_invariant(
    lms: Seq<Landmark>,
    distance_range: (i64, i64),
    direction_range: (i64, i64),
    cam_pose: (i64, i64, i64),
)
    ensures
        forall|i: int|
            0 <= i < ideal_data_seq(lms, distance_range, direction_range, cam_pose).len() ==> {
                let o = #[trigger] ideal_data_seq(lms, distance_range, direction_range, cam_pose)[i];
                o.0 >= 0 && -FP_PI < o.1 <= FP_PI
            },
    decreases lms.len(),
{
    if lms.len() > 0 {
        lemma_ideal_data_seq_invariant(lms.drop_last(), distance_range, direction_range, cam_pose);
        let rest = ideal_data_seq(lms.drop_last(), distance_range, direction_range, cam_pose);
        let full = ideal_data_seq(lms, distance_range, direction_range, cam_pose);
        let o = obs_fn_spec(cam_pose, lms.last().position);
        if visible_spec(distance_range, direction_range, o) {
            crate::trig::lemma_wrap_spec_range(
                atan2_spec(
                    lms.last().position.1 - cam_pose.1,
                    lms.last().position.0 - cam_pose.0,
                ) - cam_pose.2,
            );
            assert(full == rest.push(o));
            assert forall|i: int| 0 <= i < full.len() implies {
                let e = #[trigger] full[i];
                e.0 >= 0 && -FP_PI < e.1 <= FP_PI
            } by {
                if i < rest.len() {
                    assert(full[i] == rest[i]);
                } else {
                    assert(full[i] == o);
                }
            }
        } else {
            assert(full == rest);
        }
    }
}

/// Copy a vector of poses.
pub fn copy_pose_vec(v: &Vec<(i64, i64, i64)>) -> (r: Vec<(i64, i64, i64)>)
    ensures
        r@ == v@,
{
    let mut r: Vec<(i64, i64, i64)> = Vec::new();
    let n = v.len();
    let mut i: usize = 0;
    while i < n
        invariant
            i <= n,
            n == v@.len(),
            r@ == v@.take(i as int),
        decreases n - i,
    {
        r.push(v[i]);
        proof {
            assert(v@.take(i + 1) =~= v@.take(i as int).push(v@[i as int]));
        }
        i += 1;
    }
    proof {
        assert(v@.take(n as int) =~= v@);
    }
    r
}

/// Copy a vector of landmarks.
fn copy_landmarks(v: &Vec<Landmark>) -> (r: Vec<Landmark>)
    ensures
        r@ == v@,
{
    let mut r: Vec<Landmark> = Vec::new();
    let n = v.len();
    let mut i: usize = 0;
    while i < n
        invariant
            i <= n,
            n == v@.len(),
            r@ == v@.take(i as int),
        decreases n - i,
    {
        r.push(v[i]);
        proof {
            assert(v@.take(i + 1) =~= v@.take(i as int).push(v@[i as int]));
        }
        i += 1;
    }
    proof {
        assert(v@.take(n as int) =~= v@);
    }
    r
}

/// A noise-free range-bearing camera over a shared landmark map.
#[derive(Debug)]
pub struct IdealCamera {
    pub map: LandmarkMap,
    pub lastdata: Vec<(i64, i64)>,
    pub distance_range: (i64, i64),
    pub direction_range: (i64, i64),
}

impl IdealCamera {
    /// A camera that has not sensed yet.
    pub fn new(map: LandmarkMap, distance_range: (i64, i64), direction_range: (i64, i64)) -> (r:
        IdealCamera)
        ensures
            r.map == map,
            r.lastdata@ == Seq::<(i64, i64)>::empty(),
            r.distance_range == distance_range,
            r.direction_range == direction_range,
    {
        IdealCamera { map, lastdata: Vec::new(), distance_range, direction_range }
    }

    /// A copy of the shared landmark map.
    pub fn map(&self) -> (r: LandmarkMap)
        ensures
            r.landmarks@ == self.map.landmarks@,
    {
        LandmarkMap { landmarks: copy_landmarks(&self.map.landmarks) }
    }

    /// A copy of the most recent reading.
    pub fn lastdata(&self) -> (r: Vec<(i64, i64)>)
        ensures
            r@ == self.lastdata@,
    {
        copy_obs_vec(&self.lastdata)
    }

    /// The distance gate.
    pub fn distance_range(&self) -> (r: (i64, i64))
        ensures
            r == self.distance_range,
    {
        self.distance_range
    }

    /// The direction gate.
    pub fn direction_range(&self) -> (r: (i64, i64))
        ensures
            r == self.direction_range,
    {
        self.direction_range
    }

    /// Whether a projected `(range, bearing)` pair is inside the sensor's
    /// distance and direction gates.
    pub fn visible(&self, pos: (i64, i64)) -> (r: bool)
        ensures
            r == visible_spec(
                self.distance_range,
                self.direction_range,
                (pos.0 as int, pos.1 as int),
            ),
    {
        self.distance_range.0 <= pos.0 && pos.0 <= self.distance_range.1
            && self.direction_range.0 <= pos.1 && pos.1 <= self.direction_range.1
    }

    /// Project one landmark position into the sensor frame.  The range is
    /// never negative and the bearing always lands in `(-pi, pi]`.
    pub fn obs_fn(cam_pose: (i64, i64, i64), obj_pos: (i64, i64)) -> (r: (i64, i64))
        requires
            pose_in_bounds(cam_pose),
            position_in_bounds(obj_pos),
        ensures
            (r.0 as int, r.1 as int) == obs_fn_spec(cam_pose, obj_pos),
            r.0 >= 0,
            -FP_PI < r.1 <= FP_PI,
    {
        let dx = obj_pos.0 - cam_pose.0;
        let dy = obj_pos.1 - cam_pose.1;
        proof {
            lemma_fp_mul_bound(dx as int, dx as int, 2 * FP_COORD_LIMIT, 2 * FP_COORD_LIMIT);
            lemma_fp_mul_bound(dy as int, dy as int, 2 * FP_COORD_LIMIT, 2 * FP_COORD_LIMIT);
            lemma_fp_square_nonneg(dx as int);
            lemma_fp_square_nonneg(dy as int);
        }
        let d2 = mul_fp(dx, dx) + mul_fp(dy, dy);
        let distance = sqrt_fp(d2);
        let raw = atan2_fp(dy, dx);
        let phi = wrap_angle(raw - cam_pose.2);
        (distance, phi)
    }

    /// Sense: project every landmark of the map in order, keep those inside
    /// the visibility gate, record the reading and return a copy of it.
    /// Every emitted pair has a non-negative range and a bearing in
    /// `(-pi, pi]`.
    pub fn data(&mut self, cam_pose: (i64, i64, i64)) -> (r: Vec<(i64, i64)>)
        requires
            old(self).map.wf(),
            pose_in_bounds(cam_pose),
        ensures
            final(self).lastdata@ == r@,
            obs_seq_view(r@) == ideal_data_spec(
                old(self).map,
                old(self).distance_range,
                old(self).direction_range,
                cam_pose,
            ),
            final(self).map == old(self).map,
            final(self).distance_range == old(self).distance_range,
            final(self).direction_range == old(self).direction_range,
            forall|i: int|
                0 <= i < r@.len() ==> (#[trigger] r@[i]).0 >= 0 && -FP_PI < r@[i].1 <= FP_PI,
    {
        let mut observed: Vec<(i64, i64)> = Vec::new();
        let n = self.map.landmarks.len();
        let mut i: usize = 0;
        while i < n
            invariant
                *self == *old(self),
                self.map.wf(),
                pose_in_bounds(cam_pose),
                n == self.map.landmarks@.len(),
                i <= n,
                obs_seq_view(observed@) == ideal_data_seq(
                    self.map.landmarks@.take(i as int),
                    self.distance_range,
                    self.direction_range,
                    cam_pose,
                ),
                forall|j: int|
                    0 <= j < observed@.len() ==> (#[trigger] observed@[j]).0 >= 0 && -FP_PI
                        < observed@[j].1 <= FP_PI,
            decreases n - i,
        {
            let l = self.map.landmarks[i];
            let obs = Self::obs_fn(cam_pose, l.position);
            let ghost prev = observed@;
            if self.visible(obs) {
                observed.push(obs);
            }
            proof {
                let lms = self.map.landmarks@;
                assert(lms.take(i + 1).drop_last() =~= lms.take(i as int));
                assert(lms.take(i + 1).last() == lms[i as int]);
                if visible_spec(
                    self.distance_range,
                    self.direction_range,
                    (obs.0 as int, obs.1 as int),
                ) {
                    assert(obs_seq_view(prev.push(obs)) =~= obs_seq_view(prev).push(
                        (obs.0 as int, obs.1 as int),
                    ));
                }
            }
            i += 1;
        }
        proof {
            assert(self.map.landmarks@.take(n as int) =~= self.map.landmarks@);
        }
        self.lastdata = observed;
        copy_obs_vec(&self.lastdata)
    }
}

/// How one ideal tick transforms a robot: sense with the current pose,
/// ask the agent, integrate the command, append the new pose.
pub open spec fn ideal_one_step_rel(pre: IdealRobot, post: IdealRobot, dt: i64) -> bool {
    let stepped = state_transition_spec(pre.agent.nu, pre.agent.omega, dt, pre.pose);
    &&& (post.pose.0 as int, post.pose.1 as int, post.pose.2 as int) == stepped
    &&& post.poses@ == pre.poses@.push(post.pose)
    &&& post.agent == pre.agent
    &&& post.sensor.map == pre.sensor.map
    &&& post.sensor.distance_range == pre.sensor.distance_range
    &&& post.sensor.direction_range == pre.sensor.direction_range
    &&& obs_seq_view(post.sensor.lastdata@) == ideal_data_spec(
        pre.sensor.map,
        pre.sensor.distance_range,
        pre.sensor.direction_range,
        pre.pose,
    )
}

/// A noise-free robot: a pose, a cruising agent, an ideal camera and the
/// append-only history of every pose it has held.
#[derive(Debug)]
pub struct IdealRobot {
    pub pose: (i64, i64, i64),
    pub agent: Agent,
    pub sensor: IdealCamera,
    pub poses: Vec<(i64, i64, i64)>,
}

impl IdealRobot {
    /// A robot at its initial pose; the history is seeded with that pose.
    pub fn new(pose: (i64, i64, i64), agent: Agent, sensor: IdealCamera) -> (r: IdealRobot)
        ensures
            r.pose == pose,
            r.agent == agent,
            r.sensor == sensor,
            r.poses@ == seq![pose],
    {
        let mut poses: Vec<(i64, i64, i64)> = Vec::new();
        poses.push(pose);
        IdealRobot { pose, agent, sensor, poses }
    }

    /// The current pose.
    pub fn pose(&self) -> (r: (i64, i64, i64))
        ensures
            r == self.pose,
    {
        self.pose
    }

    /// A copy of the pose history.
    pub fn poses(&self) -> (r: Vec<(i64, i64, i64)>)
        ensures
            r@ == self.poses@,
    {
        copy_pose_vec(&self.poses)
    }

    /// Append a pose to the history.
    pub fn append_poses(&mut self, pose: (i64, i64, i64))
        ensures
            final(self).poses@ == old(self).poses@.push(pose),
            final(self).pose == old(self).pose,
            final(self).agent == old(self).agent,
            final(self).sensor == old(self).sensor,
    {
        self.poses.push(pose);
    }

    /// Integrate a command into the pose; history and the rest are
    /// untouched.
    pub fn state_transition(&mut self, nu: i64, omega: i64, time: i64)
        requires
            pose_in_bounds(old(self).pose),
            command_in_bounds(nu, omega, time),
        ensures
            (
                final(self).pose.0 as int,
                final(self).pose.1 as int,
                final(self).pose.2 as int,
            ) == state_transition_spec(nu, omega, time, old(self).pose),
            final(self).poses == old(self).poses,
            final(self).agent == old(self).agent,
            final(self).sensor == old(self).sensor,
    {
        self.pose = state_transition(nu, omega, time, self.pose);
    }

    /// One tick: sense, decide, move, record.  The history grows by exactly
    /// one pose.
    pub fn one_step(&mut self, time_interval: i64)
        requires
            pose_in_bounds(old(self).pose),
            command_in_bounds(old(self).agent.nu, old(self).agent.omega, time_interval),
            old(self).sensor.map.wf(),
        ensures
            ideal_one_step_rel(*old(self), *final(self), time_interval),
            final(self).poses@.len() == old(self).poses@.len() + 1,
    {
        let obs = self.sensor.data(self.pose);
        let (nu, omega) = self.agent.decision(&obs);
        self.state_transition(nu, omega, time_interval);
        let pose = self.pose;
        self.append_poses(pose);
    }
}

} // verus!
