//! Camera, level and character-controller rules for small 2D platformer
//! prototypes, in fixed-point integer arithmetic.
//!
//! Positions and lengths are counted in thousandths of a world unit
//! (`geometry::UNIT`), times in microseconds, and fractions in millionths.
pub mod geometry;
pub mod camera;
pub mod level;
pub mod kinematic;
pub mod velocity;
pub mod keyboard;
pub mod spawn;
pub mod arena;
pub mod screen;
