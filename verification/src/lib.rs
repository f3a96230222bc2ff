//! Simulation kernel for an orbital-debris cascade ("Kessler syndrome"):
//! two-body gravity integration, an octree spatial index, collision
//! detection with pair deduplication, and a debris generator that consumes
//! colliding bodies and spawns fragments.
//!
//! All geometry is carried in fixed-point integers: positions in
//! millimetres, velocities in millimetres per second, masses in milligrams
//! and times in milliseconds, so that every rule of the kernel is exact
//! and machine-checked.

pub mod background;
pub mod bodies;
pub mod collision;
pub mod constants;
pub mod debris_gen;
pub mod debris_model;
pub mod ids;
pub mod math;
pub mod octree;
pub mod physics;
pub mod rng;
pub mod sim;
pub mod sim_time;
pub mod store;

use vstd::prelude::*;

verus! {

} // verus!
