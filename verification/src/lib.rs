//! A verified six-sided dice simulator: glyph rendering, random rolls,
//! a session history of rolls, and per-roll and aggregate statistics.

pub mod cup;
pub mod dice;
pub mod face;
pub mod render;
pub mod session;
pub mod stats;
