//! A block-breaking arcade game simulation on integer world coordinates.
//!
//! Positions and sizes are measured in world units (`PIXEL` units per screen
//! pixel), velocities are fixed-point vectors whose unit length is `UNIT`,
//! and time is measured in microseconds.
pub mod geom;
pub mod random;
pub mod ball;
pub mod block;
pub mod player;
pub mod scale;
pub mod upgrades;
pub mod game;
