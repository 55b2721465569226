//! The simulation loop.
//!
//! A world owns a shared landmark map and a closed set of robots — ideal or
//! noisy — and drives them through discrete ticks of a fixed interval.
//! Each tick advances every robot by exactly one step, strictly in
//! sequence; the per-tick randomness of every noisy robot is handed in as
//! one bundle of draws per object.  The whole run's tick count is
//! `time_span / time_interval`, left to the caller that owns the clock and
//! the draw source.

use vstd::prelude::*;

use crate::base::{ideal_one_step_rel, IdealRobot, LandmarkMap};
use crate::kinematics::{command_in_bounds, pose_in_bounds, FP_TIME_LIMIT};
use crate::robot::{
    robot_draws_in_bounds, robot_one_step_rel, sensor_draws_in_bounds, Robot, RobotDraws,
    SensorDraws,
};

verus! {

/// The closed set of robot variants a world can hold.
#[derive(Debug)]
pub enum RobotKind {
    Ideal(IdealRobot),
    Noisy(Robot),
}

/// One object's randomness for one tick.  An ideal robot consumes none of
/// it.
#[derive(Debug)]
pub struct TickDraws {
    pub motion: RobotDraws,
    pub sensor: Vec<SensorDraws>,
}

/// Whether an object can take one tick of length `dt` with the given
/// draws.
pub open spec fn object_ready(o: RobotKind, td: TickDraws, dt: i64) -> bool {
    match o {
        RobotKind::Ideal(r) => {
            &&& pose_in_bounds(r.pose)
            &&& command_in_bounds(r.agent.nu, r.agent.omega, dt)
            &&& r.sensor.map.wf()
        },
        RobotKind::Noisy(r) => {
            &&& r.wf()
            &&& r.sensor.wf()
            &&& r.sensor.map.wf()
            &&& pose_in_bounds(r.pose)
            &&& robot_draws_in_bounds(td.motion)
            &&& td.sensor@.len() == r.sensor.map.landmarks@.len()
            &&& forall|i: int|
                0 <= i < td.sensor@.len() ==> sensor_draws_in_bounds(#[trigger] td.sensor@[i])
        },
    }
}

/// How one tick transforms an object: the variant is kept and the variant's
/// own one-step relation holds.
pub open spec fn object_stepped(pre: RobotKind, post: RobotKind, dt: i64, td: TickDraws) -> bool {
    match (pre, post) {
        (RobotKind::Ideal(a), RobotKind::Ideal(b)) => ideal_one_step_rel(a, b, dt),
        (RobotKind::Noisy(a), RobotKind::Noisy(b)) => robot_one_step_rel(
            a,
            b,
            dt,
            td.motion,
            td.sensor@,
        ),
        _ => false,
    }
}

/// A shared map, a population of robots and the tick clock.
#[derive(Debug)]
pub struct World {
    pub objects: Vec<RobotKind>,
    pub map: LandmarkMap,
    pub time_span: i64,
    pub time_interval: i64,
}

impl World {
    /// An empty world.
    pub fn new(map: LandmarkMap, time_span: i64, time_interval: i64) -> (r: World)
        ensures
            r.objects@ == Seq::<RobotKind>::empty(),
            r.map == map,
            r.time_span == time_span,
            r.time_interval == time_interval,
    {
        World { objects: Vec::new(), map, time_span, time_interval }
    }

    /// How many ticks a full run takes: the time span divided by the tick
    /// interval, truncated.
    pub fn max_iteration(&self) -> (r: i64)
        requires
            self.time_interval > 0,
        ensures
            r == crate::fixed::sdiv(self.time_span as int, self.time_interval as int),
    {
        crate::fixed::idiv(self.time_span, self.time_interval)
    }

    /// One tick: advance every object by one step, in order.
    pub fn one_step(&mut self, draws: &Vec<TickDraws>)
        requires
            0 <= old(self).time_interval <= FP_TIME_LIMIT,
            draws@.len() == old(self).objects@.len(),
            forall|i: int|
                0 <= i < old(self).objects@.len() ==> object_ready(
                    #[trigger] old(self).objects@[i],
                    draws@[i],
                    old(self).time_interval,
                ),
        ensures
            final(self).objects@.len() == old(self).objects@.len(),
            forall|i: int|
                0 <= i < old(self).objects@.len() ==> object_stepped(
                    old(self).objects@[i],
                    #[trigger] final(self).objects@[i],
                    old(self).time_interval,
                    draws@[i],
                ),
            final(self).map == old(self).map,
            final(self).time_span == old(self).time_span,
            final(self).time_interval == old(self).time_interval,
    {
        let dt = self.time_interval;
        let n = self.objects.len();
        let mut i: usize = 0;
        while i < n
            invariant
                i <= n,
                n == self.objects@.len(),
                self.objects@.len() == old(self).objects@.len(),
                self.map == old(self).map,
                self.time_span == old(self).time_span,
                self.time_interval == old(self).time_interval,
                dt == old(self).time_interval,
                0 <= dt <= FP_TIME_LIMIT,
                draws@.len() == old(self).objects@.len(),
                forall|j: int|
                    0 <= j < old(self).objects@.len() ==> object_ready(
                        #[trigger] old(self).objects@[j],
                        draws@[j],
                        dt,
                    ),
                forall|j: int|
                    i <= j < n ==> #[trigger] self.objects@[j] == old(self).objects@[j],
                forall|j: int|
                    0 <= j < i ==> object_stepped(
                        old(self).objects@[j],
                        #[trigger] self.objects@[j],
                        dt,
                        draws@[j],
                    ),
            decreases n - i,
        {
            let ghost prev = self.objects@;
            let obj = self.objects.remove(i);
            let stepped = match obj {
                RobotKind::Ideal(mut r) => {
                    r.one_step(dt);
                    RobotKind::Ideal(r)
                },
                RobotKind::Noisy(mut r) => {
                    r.one_step(dt, &draws[i].motion, &draws[i].sensor);
                    RobotKind::Noisy(r)
                },
            };
            self.objects.insert(i, stepped);
            proof {
                assert(self.objects@ =~= prev.update(i as int, stepped));
            }
            i += 1;
        }
    }
}

} // verus!
