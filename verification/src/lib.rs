//! A small 2D rigid-body engine: axis-aligned rectangle bodies, forward-Euler
//! integration, all-pairs collision detection, and impulse-based resolution
//! with restitution, friction, and positional correction.
//!
//! All physical quantities are fixed-point numbers: an `i64` counting
//! thousandths of a unit (see the `fix` module). Every operation saturates at
//! a symmetric bound instead of overflowing, so the engine is total: no step
//! ever panics.

pub mod fix;
pub mod vec2;
pub mod shape;
pub mod body;
pub mod space;
pub mod game;
