//! Core of a small 2D character animation engine: a fixed-timestep game
//! loop, a key-event pipeline, and a character state machine that maps input
//! events and elapsed ticks to sprite frames and screen positions, plus the
//! text utilities the surrounding tools share.

pub mod engine;
pub mod game;
pub mod server;
pub mod solver;
pub mod text;
