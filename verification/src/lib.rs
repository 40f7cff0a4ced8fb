//! BuckoWump: a small "find the hidden buckos" grid game.
//!
//! The library holds the game's rules and state machines; drawing, sound,
//! input and floating-point animation live in the application around it.

pub mod text;
pub mod introtext;
pub mod rng;
pub mod buckos;
pub mod game;
pub mod ami;
pub mod herd;
