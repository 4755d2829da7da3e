//! The per-frame simulation of a two-paddle ball game on a whole-unit grid:
//! input, motion, collision, scoring, reset, score keeping and projection.

pub mod geometry;
pub mod collision;
pub mod world;
pub mod systems;
pub mod frame;
