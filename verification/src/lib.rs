//! A two-dimensional particle simulation on fixed-point coordinates.
//!
//! A fixed population of point masses collides pairwise, is pulled towards a
//! pointer, bounces off the canvas walls and is slowed by drag. Positions,
//! momenta and coefficients are integers that count millionths of a pixel, so
//! that a tick is an exact function of the state, of the pointer and of the
//! random shifts that collisions add.
//!
//! - [`fixed`]: the arithmetic on such integers.
//! - [`particle`]: one particle, a collision, and a tick of motion.
//! - [`jitter`]: the seeded source of the random shifts.
//! - [`simulation`]: the population with its snapshot, and a whole tick.

pub mod fixed;
pub mod jitter;
pub mod particle;
pub mod simulation;
