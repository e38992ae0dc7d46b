//! Deterministic core of a grid-based snake game with timed bomb
//! hazards.
//!
//! The crate models the fixed-tick simulation only: snake movement and
//! growth, collision detection against walls, the snake's own body,
//! food and bombs, bomb fuse timing with blast-radius lethality, and
//! the three-state session flow (splash screen, gameplay, game over).
//! Rendering, asset loading and input polling are left to a host loop,
//! which drives the simulation through plain values: a sampled
//! direction, a confirmation flag, and the tick length in
//! milliseconds.

pub mod bomb;
pub mod common;
pub mod food;
pub mod gameplay;
pub mod laws;
pub mod registry;
pub mod rng;
pub mod snake;
