//! Core rules of a small 2D arcade game: a player sprite steered by
//! keyboard input fires bullets at enemies that drift in from the right;
//! bullets close to an enemy destroy it and score a point, an enemy close
//! to the player ends the game.
//!
//! The world is modelled in fixed-point integers: coordinates in
//! milli-units (1000 to one world unit) and velocities in milli-units per
//! millisecond, so one frame of motion and every collision test is exact
//! integer arithmetic. Rendering, windowing and input polling live outside
//! the library; each frame hands in the key state and the elapsed time.

pub mod laws;
pub mod math;
pub mod rng;
pub mod text;
pub mod systems;
pub mod world;
