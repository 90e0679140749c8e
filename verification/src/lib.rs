//! A verified scene-graph core for a real-time renderer of animated rigid
//! bodies: hierarchical transform composition, a per-frame animation pass
//! (rotor spin, scripted flight, door slide, bomb drop), camera control and
//! the shared input cells that an event context feeds into a render loop.
//!
//! All geometry is carried in decimal fixed point (see [`fixed`]): one world
//! unit is `fixed::FP` stored ticks, and every contract is stated exactly
//! over mathematical integers with Euclidean (floor) division. Window, GPU
//! and event plumbing live outside this crate; the library computes scene
//! structure, transforms and draw lists from plain values.

pub mod anim;
pub mod camera;
pub mod compose;
pub mod fixed;
pub mod input;
pub mod mat;
pub mod scene;
pub mod traverse;
pub mod trig;
pub mod vec3;
