//! A mobile-robot localization simulator on fixed-point coordinates.
//!
//! A ground-truth robot executes commanded velocities while corrupted by
//! bias, stuck/escape faults, odometry noise and kidnapping; a range-bearing
//! camera reports noisy, gated landmark observations; a particle belief
//! advances pose hypotheses with correlated process noise drawn through a
//! Cholesky factor.  All quantities are scaled integers (one unit is
//! 10^-6 of a meter, radian, second or probability), so every step of the
//! pipeline is exact integer arithmetic with a proved contract.  Random
//! draws enter every stochastic step as explicit arguments: standard-normal,
//! standard-exponential and unit-uniform deviates in the same scale, so the
//! whole simulation is a deterministic function of its inputs.

pub mod base;
pub mod fixed;
pub mod kinematics;
pub mod mcl;
pub mod mvtnorm;
pub mod robot;
pub mod trig;
pub mod world;
