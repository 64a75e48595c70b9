//! Per-frame simulation core of a Breakout-style game: paddle motion, ball
//! motion, axis-aligned collision classification, reflection and brick
//! removal, on fixed-point integer coordinates.

pub mod geometry;
pub mod collision;
pub mod arena;
pub mod world;
