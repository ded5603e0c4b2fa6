//! A bounded voxel sandbox: a dense grid of voxels, a falling-sand automaton,
//! fixed-point player kinematics, sight raycasting and mesh building.

pub mod voxel;
pub mod client;
pub mod grid;
pub mod input;
pub mod mesh;
pub mod physics;
mod rng;
pub mod sandfall;
pub mod sight;
