//! Simulation core for a small population of autonomous bird actors.
//!
//! Birds spawn on a circle around the scene, fly between landmark trees,
//! perch, vocalize (starting a spatialized audio cue), and depart once they
//! have visited their quota of trees.  Motion is advanced by a fixed-step
//! integrator decoupled from the variable render rate; a per-frame
//! interpolator blends the previous and current physics positions.
//!
//! All geometry is fixed-point: positions are held in millionths of a world
//! unit, velocities in thousandths of a unit per second, and time in
//! milliseconds, so every update rule is exact integer arithmetic.

pub mod audio;
pub mod bird;
pub mod geom;
pub mod spawn;
pub mod species;
pub mod physics;
pub mod rng;
pub mod seq_util;
pub mod timer;
pub mod world;
