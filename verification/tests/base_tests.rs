//! The ideal-world scenarios: agents, landmark maps, the ideal camera's
//! projection and visibility gate, and the ideal robot's stepping.

use lnpr::base::{Agent, IdealCamera, IdealRobot, Landmark, LandmarkMap};
use lnpr::world::{RobotKind, World};

/// A real value in fixed-point units.
fn fp(x: f64) -> i64 {
    (x * 1_000_000.0).round() as i64
}

#[test]
fn base_test_create_agent() {
    let _agent = Agent { nu: fp(0.2), omega: fp(0.0) };
}

#[test]
fn base_test_agent_decision() {
    let agent = Agent { nu: fp(0.2), omega: fp(0.0) };

    let obs = vec![(fp(0.0), fp(0.0))];
    assert_eq!(agent.decision(&obs), (fp(0.2), fp(0.0)));
}

#[test]
fn base_test_create_landmark() {
    let _landmark = Landmark { position: (fp(-2.0), fp(3.0)), id: 0 };
}

#[test]
fn base_test_create_map() {
    let _map = LandmarkMap::new();
}

#[test]
fn base_test_append_landmark() {
    let mut map = LandmarkMap::new();
    map.append_landmark((fp(-2.0), fp(3.0)));
}

#[test]
fn base_test_create_ideal_camera() {
    let map = LandmarkMap::new();
    let camera = IdealCamera::new(map.clone(), (fp(0.5), fp(4.0)), (fp(-0.6), fp(0.6)));
    assert_eq!(camera.distance_range, (fp(0.5), fp(4.0)));
}

#[test]
fn base_test_ideal_camera_attributes() {
    let map = LandmarkMap::new();
    let camera = IdealCamera::new(map.clone(), (fp(0.5), fp(4.0)), (fp(-0.6), fp(0.6)));

    assert_eq!(camera.distance_range(), (fp(0.5), fp(4.0)));
    assert_eq!(camera.direction_range(), (fp(-0.6), fp(0.6)));
}

#[test]
fn base_test_ideal_camera_visible() {
    let map = LandmarkMap::new();
    let camera = IdealCamera::new(map.clone(), (fp(0.5), fp(4.0)), (fp(-0.6), fp(0.6)));

    assert_eq!(camera.visible((fp(0.8), fp(0.0))), true);
    assert_eq!(camera.visible((fp(3.9), fp(-0.6))), true);
    assert_eq!(camera.visible((fp(0.2), fp(0.0))), false);
    assert_eq!(camera.visible((fp(1.5), fp(-0.8))), false);
}

#[test]
fn base_test_ideal_camera_obs_fn() {
    assert_eq!(
        IdealCamera::obs_fn((fp(-2.0), fp(3.0), fp(0.6)), (fp(2.0), fp(3.0))),
        (fp(4.0), fp(-0.6))
    );
}

#[test]
fn base_test_ideal_camera_data() {
    let mut map = LandmarkMap::new();
    let mut camera = IdealCamera::new(map.clone(), (fp(0.5), fp(4.0)), (fp(-0.6), fp(0.6)));

    let lastdata = camera.data((fp(-2.0), fp(3.0), fp(0.6)));
    assert_eq!(lastdata.len(), 0);

    map.append_landmark((fp(2.0), fp(3.0)));
    camera = IdealCamera::new(map.clone(), (fp(0.5), fp(4.0)), (fp(-0.6), fp(0.6)));
    let lastdata = camera.data((fp(0.0), fp(3.0), fp(0.0)));
    assert_eq!(lastdata.len(), 1);
    assert_eq!(lastdata.get(0), Some(&(fp(2.0), fp(0.0))));
}

#[test]
fn base_test_create_ideal_robot() {
    let map = LandmarkMap::new();
    let camera = IdealCamera::new(map.clone(), (fp(0.5), fp(4.0)), (fp(-0.6), fp(0.6)));

    let agent = Agent { nu: fp(0.2), omega: fp(0.0) };

    let _robot = IdealRobot::new((fp(-2.0), fp(3.0), fp(0.6)), agent, camera);
}

#[test]
fn base_test_ideal_robot_one_step() {
    let map = LandmarkMap::new();
    let camera = IdealCamera::new(map.clone(), (fp(0.5), fp(4.0)), (fp(-0.6), fp(0.6)));
    let agent = Agent { nu: fp(0.2), omega: fp(0.0) };

    let mut robot = IdealRobot::new((fp(-2.0), fp(3.0), fp(0.0)), agent, camera);
    assert_eq!(robot.poses.len(), 1);

    robot.one_step(fp(1.0));
    assert_eq!(robot.poses.len(), 2);
    assert_eq!(robot.pose, (fp(-1.8), fp(3.0), fp(0.0)));
}

#[test]
fn base_test_append_robot_to_world() {
    let map = LandmarkMap::new();
    let camera = IdealCamera::new(map.clone(), (fp(0.5), fp(4.0)), (fp(-6.0), fp(6.0)));
    let agent = Agent { nu: fp(0.2), omega: fp(0.0) };

    let robot = IdealRobot::new((fp(-2.0), fp(3.0), fp(0.0)), agent, camera);
    let mut world = World::new(map.clone(), fp(10.0), fp(1.0));
    world.objects.push(RobotKind::Ideal(robot));
}
