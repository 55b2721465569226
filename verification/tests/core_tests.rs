//! Scenarios for the fixed-point core: angle wrapping, trigonometry, the
//! kinematic step, the Cholesky factorization and correlated sampling, the
//! particle belief, the noisy camera's fault stages and the noisy robot's
//! fault stages, ending with a seeded two-run determinism check and a
//! one-tick end-to-end world scenario.

use lnpr::base::{Agent, IdealCamera, IdealRobot, LandmarkMap};
use lnpr::fixed::{sqrt_fp, FP_ONE, FP_PI, FP_TWO_PI};
use lnpr::kinematics::state_transition;
use lnpr::mcl::{EstimateAgent, Mcl};
use lnpr::mvtnorm::{cholesky4, mvtnorm, CovarianceError, Mat4, Vec4};
use lnpr::robot::{Camera, Robot, RobotDraws, SensorDraws};
use lnpr::trig::{atan2_fp, cos_fp, sin_fp, wrap_angle};
use lnpr::world::{RobotKind, TickDraws, World};

use rand::rngs::StdRng;
use rand::SeedableRng;
use rand::RngExt;
use rand_distr::{Distribution, Exp, Normal};

/// A real value in fixed-point units.
fn fp(x: f64) -> i64 {
    (x * 1_000_000.0).round() as i64
}

fn zero_mat4() -> Mat4 {
    Mat4 {
        m00: 0, m01: 0, m02: 0, m03: 0,
        m10: 0, m11: 0, m12: 0, m13: 0,
        m20: 0, m21: 0, m22: 0, m23: 0,
        m30: 0, m31: 0, m32: 0, m33: 0,
    }
}

fn diag_mat4(d0: i64, d1: i64, d2: i64, d3: i64) -> Mat4 {
    let mut m = zero_mat4();
    m.m00 = d0;
    m.m11 = d1;
    m.m22 = d2;
    m.m33 = d3;
    m
}

fn zero_vec4() -> Vec4 {
    Vec4 { v0: 0, v1: 0, v2: 0, v3: 0 }
}

fn zero_robot_draws() -> RobotDraws {
    RobotDraws {
        stuck_renewal: 0,
        escape_renewal: 0,
        noise_renewal: 0,
        kidnap_renewal: 0,
        theta_draw: 0,
        kidnap_x: 0,
        kidnap_y: 0,
        kidnap_theta: 0,
    }
}

fn zero_sensor_draws() -> SensorDraws {
    SensorDraws {
        phantom_coin: 0,
        phantom_x: 0,
        phantom_y: 0,
        occlusion_coin: 0,
        occlusion_u: 0,
        oversight_coin: 0,
        range_draw: 0,
        bearing_draw: 0,
    }
}

/// A noisy camera with every fault disabled.
fn quiet_camera(map: LandmarkMap) -> Camera {
    Camera::new(map, (fp(0.5), fp(4.0)), (fp(-0.6), fp(0.6)), (0, 0))
        .set_noise(0, 0)
        .set_bias(0, 0, (0, 0))
        .set_phantom(0, (fp(-5.0), fp(5.0)), (fp(-5.0), fp(5.0)))
        .set_oversight(0)
        .set_occlusion(0)
}

#[test]
fn test_wrap_angle_cases() {
    assert_eq!(wrap_angle(0), 0);
    assert_eq!(wrap_angle(FP_PI), FP_PI);
    assert_eq!(wrap_angle(-FP_PI), FP_PI);
    assert_eq!(wrap_angle(FP_TWO_PI + 123), 123);
    assert_eq!(wrap_angle(FP_PI + 1), 1 - FP_PI);
    assert_eq!(wrap_angle(-3 * FP_TWO_PI), 0);
}

#[test]
fn test_trig_at_zero() {
    assert_eq!(sin_fp(0), 0);
    assert_eq!(cos_fp(0), FP_ONE);
    assert_eq!(atan2_fp(0, fp(4.0)), 0);
    assert_eq!(atan2_fp(0, fp(-4.0)), FP_PI);
}

#[test]
fn test_obs_fn_wraps_bearing() {
    let (range, bearing) = IdealCamera::obs_fn((0, 0, fp(4.0)), (fp(2.0), 0));
    assert_eq!(range, fp(2.0));
    assert_eq!(bearing, fp(-4.0) + FP_TWO_PI);
    assert!(-FP_PI < bearing && bearing <= FP_PI);
}

#[test]
fn test_sqrt_exact_squares() {
    assert_eq!(sqrt_fp(0), 0);
    assert_eq!(sqrt_fp(fp(16.0)), fp(4.0));
    assert_eq!(sqrt_fp(FP_ONE), FP_ONE);
    assert_eq!(sqrt_fp(fp(2.0)), 1_414_213);
}

#[test]
fn test_straight_state_transition() {
    let p = state_transition(fp(0.2), 0, fp(1.0), (fp(-2.0), fp(3.0), 0));
    assert_eq!(p, (fp(-1.8), fp(3.0), 0));
}

#[test]
fn test_arc_state_transition_turn_in_place() {
    let p = state_transition(0, fp(0.5), fp(1.0), (fp(1.0), fp(2.0), 0));
    assert_eq!(p, (fp(1.0), fp(2.0), fp(0.5)));
}

#[test]
fn test_landmark_ids_are_insertion_ranks() {
    let mut map = LandmarkMap::new();
    map.append_landmark((fp(-4.0), fp(2.0)));
    map.append_landmark((fp(2.0), fp(-3.0)));
    map.append_landmark((fp(3.0), fp(3.0)));
    assert_eq!(map.landmarks.len(), 3);
    assert_eq!(map.landmarks[0].id, 0);
    assert_eq!(map.landmarks[1].id, 1);
    assert_eq!(map.landmarks[2].id, 2);
}

#[test]
fn test_cholesky_of_diagonal() {
    let cov = diag_mat4(34_084, FP_ONE, 512, 340);
    let l = cholesky4(&cov).unwrap();
    assert_eq!(l.l00, sqrt_fp(34_084));
    assert_eq!(l.l11, sqrt_fp(FP_ONE));
    assert_eq!(l.l22, sqrt_fp(512));
    assert_eq!(l.l33, sqrt_fp(340));
    assert_eq!(l.l10, 0);
    assert_eq!(l.l20, 0);
    assert_eq!(l.l21, 0);
    assert_eq!(l.l30, 0);
    assert_eq!(l.l31, 0);
    assert_eq!(l.l32, 0);
}

#[test]
fn test_cholesky_rejects_indefinite() {
    assert_eq!(
        cholesky4(&zero_mat4()),
        Err(CovarianceError::NotPositiveDefinite)
    );
    let mut cov = diag_mat4(FP_ONE, 0, FP_ONE, FP_ONE);
    assert_eq!(cholesky4(&cov), Err(CovarianceError::NotPositiveDefinite));
    cov.m11 = -fp(1.0);
    assert_eq!(cholesky4(&cov), Err(CovarianceError::NotPositiveDefinite));
}

#[test]
fn test_cholesky_rejects_huge_factor() {
    let mut cov = diag_mat4(1, FP_ONE, FP_ONE, FP_ONE);
    cov.m10 = 1_000_000_000_000;
    assert_eq!(cholesky4(&cov), Err(CovarianceError::TooLarge));
}

#[test]
fn test_mvtnorm_identity_covariance() {
    let cov = diag_mat4(FP_ONE, FP_ONE, FP_ONE, FP_ONE);
    let mu = Vec4 { v0: fp(1.0), v1: fp(2.0), v2: 0, v3: fp(-1.0) };
    let z = Vec4 { v0: fp(0.5), v1: fp(-0.25), v2: fp(3.0), v3: 0 };
    let s = mvtnorm(&mu, &cov, &z).unwrap();
    assert_eq!(s, Vec4 { v0: fp(1.5), v1: fp(1.75), v2: fp(3.0), v3: fp(-1.0) });
}

#[test]
fn test_mcl_population_is_invariant() {
    let cov = diag_mat4(34_084, 1, 512, 340);
    let mut mcl = Mcl::new((fp(-2.0), fp(3.0), 0), 100, cov).unwrap();
    assert_eq!(mcl.particles.len(), 100);
    let draws = vec![zero_vec4(); 100];
    for _ in 0..5 {
        mcl.motion_update(fp(0.2), fp(0.1), fp(0.1), &draws);
        assert_eq!(mcl.particles.len(), 100);
    }
}

#[test]
fn test_mcl_zero_draws_move_straight() {
    let cov = diag_mat4(FP_ONE, FP_ONE, FP_ONE, FP_ONE);
    let mut mcl = Mcl::new((fp(-2.0), fp(3.0), 0), 3, cov).unwrap();
    mcl.motion_update(fp(0.2), 0, fp(1.0), &vec![zero_vec4(); 3]);
    for p in &mcl.particles {
        assert_eq!(p.pose, (fp(-1.8), fp(3.0), 0));
    }
}

#[test]
fn test_mcl_rejects_zero_covariance() {
    assert_eq!(
        Mcl::new((0, 0, 0), 10, zero_mat4()).err(),
        Some(CovarianceError::NotPositiveDefinite)
    );
}

#[test]
fn test_estimate_agent_decision_advances_belief() {
    let cov = diag_mat4(FP_ONE, FP_ONE, FP_ONE, FP_ONE);
    let mcl = Mcl::new((fp(1.0), fp(1.0), 0), 4, cov).unwrap();
    let mut agent = EstimateAgent::new(fp(0.2), 0, fp(1.0), mcl);
    let draws = vec![zero_vec4(); 4];

    let first = agent.decision(&Vec::new(), &draws);
    assert_eq!(first, (fp(0.2), 0));
    assert_eq!(agent.prev_nu, fp(0.2));
    assert_eq!(agent.estimator.particles[0].pose, (fp(1.0), fp(1.0), 0));

    let second = agent.decision(&Vec::new(), &draws);
    assert_eq!(second, (fp(0.2), 0));
    assert_eq!(agent.estimator.particles[0].pose, (fp(1.2), fp(1.0), 0));
}

#[test]
fn test_camera_zero_noise_matches_ideal() {
    let mut map = LandmarkMap::new();
    map.append_landmark((fp(2.0), fp(3.0)));
    let mut quiet = quiet_camera(map.clone());
    let mut ideal = IdealCamera::new(map, (fp(0.5), fp(4.0)), (fp(-0.6), fp(0.6)));
    let noisy_read = quiet.data((fp(0.0), fp(3.0), 0), &vec![zero_sensor_draws(); 1]);
    let ideal_read = ideal.data((fp(0.0), fp(3.0), 0));
    assert_eq!(noisy_read, ideal_read);
    assert_eq!(noisy_read, vec![(fp(2.0), 0)]);
}

#[test]
fn test_camera_oversight_drops_everything() {
    let mut map = LandmarkMap::new();
    map.append_landmark((fp(2.0), fp(0.0)));
    let mut cam = quiet_camera(map).set_oversight(FP_ONE);
    let read = cam.data((0, 0, 0), &vec![zero_sensor_draws(); 1]);
    assert_eq!(read.len(), 0);
}

#[test]
fn test_camera_occlusion_stretches_range() {
    let mut map = LandmarkMap::new();
    map.append_landmark((fp(2.0), fp(0.0)));
    let mut cam = quiet_camera(map).set_occlusion(FP_ONE);
    let mut draws = zero_sensor_draws();
    draws.occlusion_u = fp(0.5);
    let read = cam.data((0, 0, 0), &vec![draws; 1]);
    assert_eq!(read, vec![(fp(3.0), 0)]);
}

#[test]
fn test_camera_phantom_substitutes_reading() {
    let mut map = LandmarkMap::new();
    map.append_landmark((fp(0.8), fp(0.0)));
    let mut cam = quiet_camera(map).set_phantom(
        FP_ONE,
        (fp(2.0), fp(2.0)),
        (fp(0.0), fp(0.0)),
    );
    let read = cam.data((0, 0, 0), &vec![zero_sensor_draws(); 1]);
    assert_eq!(read, vec![(fp(2.0), 0)]);
}

#[test]
fn test_camera_bias_rescales_and_shifts() {
    let mut map = LandmarkMap::new();
    map.append_landmark((fp(2.0), fp(0.0)));
    let mut cam = quiet_camera(map).set_bias(FP_ONE, FP_ONE, (fp(0.5), fp(0.25)));
    let read = cam.data((0, 0, 0), &vec![zero_sensor_draws(); 1]);
    assert_eq!(read, vec![(fp(3.0), fp(0.25))]);
}

#[test]
fn test_camera_bearing_bias_wraps() {
    let mut map = LandmarkMap::new();
    map.append_landmark((fp(2.0), fp(0.0)));
    let mut cam = quiet_camera(map).set_bias(0, FP_ONE, (0, fp(3.5)));
    let read = cam.data((0, 0, 0), &vec![zero_sensor_draws(); 1]);
    assert_eq!(read, vec![(fp(2.0), fp(3.5) - FP_TWO_PI)]);
    assert!(-FP_PI < read[0].1 && read[0].1 <= FP_PI);
}

#[test]
fn test_robot_stuck_freezes_motion() {
    let map = LandmarkMap::new();
    let cam = quiet_camera(map);
    let agent = Agent { nu: fp(0.2), omega: 0 };
    let mut robot = Robot::new((fp(1.0), fp(1.0), 0), agent, cam, (0, 0), &zero_robot_draws())
        .set_noise(0, 0, 0)
        .set_stuck(fp(1.0), fp(10.0), (fp(1.0), fp(1.0)));
    robot.one_step(fp(1.0), &zero_robot_draws(), &Vec::new());
    assert!(robot.is_stuck);
    assert_eq!(robot.pose, (fp(1.0), fp(1.0), 0));
    assert_eq!(robot.poses.len(), 2);
}

#[test]
fn test_robot_kidnap_teleports() {
    let map = LandmarkMap::new();
    let cam = quiet_camera(map);
    let agent = Agent { nu: 0, omega: 0 };
    let mut robot = Robot::new((fp(1.0), fp(1.0), 0), agent, cam, (0, 0), &zero_robot_draws())
        .set_noise(0, 0, 0)
        .set_kidnap(fp(1.0), (fp(-5.0), fp(5.0)), (fp(-5.0), fp(5.0)), fp(1.0));
    let mut draws = zero_robot_draws();
    draws.kidnap_x = fp(0.5);
    draws.kidnap_y = fp(0.25);
    draws.kidnap_theta = fp(0.5);
    robot.one_step(fp(1.0), &draws, &Vec::new());
    assert_eq!(robot.pose, (fp(0.0), fp(-2.5), FP_PI));
}

#[test]
fn test_robot_heading_noise_perturbs() {
    let map = LandmarkMap::new();
    let cam = quiet_camera(map);
    let agent = Agent { nu: 0, omega: 0 };
    let mut robot = Robot::new((fp(1.0), fp(2.0), 0), agent, cam, (0, 0), &zero_robot_draws())
        .set_noise(fp(5.0), fp(0.1), 0);
    let mut draws = zero_robot_draws();
    draws.theta_draw = fp(1.0);
    robot.one_step(fp(1.0), &draws, &Vec::new());
    assert_eq!(robot.pose, (fp(1.0), fp(2.0), fp(0.1)));
}

#[test]
fn test_robot_bias_scales_velocity() {
    let map = LandmarkMap::new();
    let cam = quiet_camera(map);
    let agent = Agent { nu: fp(0.2), omega: 0 };
    let mut robot = Robot::new((0, 0, 0), agent, cam, (0, 0), &zero_robot_draws())
        .set_noise(0, 0, 0)
        .set_bias((FP_ONE, FP_ONE), (fp(1.0), fp(0.0)));
    robot.one_step(fp(1.0), &zero_robot_draws(), &Vec::new());
    assert_eq!(robot.pose, (fp(0.4), 0, 0));
}

fn clamped_unit(rng: &mut StdRng) -> i64 {
    let u: f64 = rng.random();
    ((u * 1_000_000.0) as i64).clamp(0, 999_999)
}

fn clamped_normal(rng: &mut StdRng, n: &Normal<f64>) -> i64 {
    fp(n.sample(rng).clamp(-100.0, 100.0))
}

fn clamped_exp(rng: &mut StdRng, e: &Exp<f64>) -> i64 {
    fp(e.sample(rng).clamp(0.0, 100.0))
}

fn draw_robot_draws(rng: &mut StdRng, n: &Normal<f64>, e: &Exp<f64>) -> RobotDraws {
    RobotDraws {
        stuck_renewal: clamped_exp(rng, e),
        escape_renewal: clamped_exp(rng, e),
        noise_renewal: clamped_exp(rng, e),
        kidnap_renewal: clamped_exp(rng, e),
        theta_draw: clamped_normal(rng, n),
        kidnap_x: clamped_unit(rng),
        kidnap_y: clamped_unit(rng),
        kidnap_theta: clamped_unit(rng),
    }
}

fn draw_sensor_draws(rng: &mut StdRng, n: &Normal<f64>) -> SensorDraws {
    SensorDraws {
        phantom_coin: clamped_unit(rng),
        phantom_x: clamped_unit(rng),
        phantom_y: clamped_unit(rng),
        occlusion_coin: clamped_unit(rng),
        occlusion_u: clamped_unit(rng),
        oversight_coin: clamped_unit(rng),
        range_draw: clamped_normal(rng, n),
        bearing_draw: clamped_normal(rng, n),
    }
}

fn noisy_run(seed: u64) -> Vec<(i64, i64, i64)> {
    let mut rng = StdRng::seed_from_u64(seed);
    let normal = Normal::new(0.0, 1.0).unwrap();
    let exp = Exp::new(1.0).unwrap();

    let mut map = LandmarkMap::new();
    map.append_landmark((fp(2.0), fp(1.0)));
    map.append_landmark((fp(-1.0), fp(2.0)));
    let cam = Camera::new(
        map,
        (fp(0.5), fp(4.0)),
        (fp(-0.6), fp(0.6)),
        (clamped_normal(&mut rng, &normal), clamped_normal(&mut rng, &normal)),
    );
    let agent = Agent { nu: fp(0.2), omega: fp(0.05) };
    let init = draw_robot_draws(&mut rng, &normal, &exp);
    let mut robot = Robot::new((fp(1.0), fp(1.0), 0), agent, cam, (fp(0.5), fp(-0.3)), &init)
        .set_noise(fp(5.0), fp(0.05), clamped_exp(&mut rng, &exp))
        .set_stuck(
            fp(2.0),
            fp(1.0),
            (clamped_exp(&mut rng, &exp), clamped_exp(&mut rng, &exp)),
        )
        .set_kidnap(
            fp(5.0),
            (fp(-5.0), fp(5.0)),
            (fp(-5.0), fp(5.0)),
            clamped_exp(&mut rng, &exp),
        );
    for _ in 0..10 {
        let motion = draw_robot_draws(&mut rng, &normal, &exp);
        let sensor = vec![
            draw_sensor_draws(&mut rng, &normal),
            draw_sensor_draws(&mut rng, &normal),
        ];
        robot.one_step(fp(0.1), &motion, &sensor);
    }
    robot.poses
}

#[test]
fn test_actuation_determinism_under_fixed_seed() {
    let a = noisy_run(42);
    let b = noisy_run(42);
    assert_eq!(a.len(), 11);
    assert_eq!(a, b);
}

#[test]
fn test_world_one_tick_end_to_end() {
    let map = LandmarkMap::new();
    let camera = IdealCamera::new(map.clone(), (fp(0.5), fp(4.0)), (fp(-0.6), fp(0.6)));
    let agent = Agent { nu: fp(0.2), omega: 0 };
    let robot = IdealRobot::new((fp(-2.0), fp(3.0), 0), agent, camera);

    let mut world = World::new(map, fp(10.0), fp(1.0));
    world.objects.push(RobotKind::Ideal(robot));

    let draws = vec![TickDraws { motion: zero_robot_draws(), sensor: Vec::new() }];
    world.one_step(&draws);

    match &world.objects[0] {
        RobotKind::Ideal(r) => {
            assert_eq!(r.poses.len(), 2);
            assert_eq!(r.pose, (fp(-1.8), fp(3.0), 0));
            assert_eq!(r.sensor.lastdata.len(), 0);
        }
        _ => panic!("the world holds the robot it was given"),
    }
}
