//! A grid-based snake simulation: the deterministic state machine that
//! advances the snake, the bounded turn-input buffer, and the tile-shape
//! derivation that turns the snake's body into a renderable grid.

pub mod conf;
pub mod field;
pub mod game;
pub mod input;
pub mod rng;
pub mod sampler;
pub mod themes;
