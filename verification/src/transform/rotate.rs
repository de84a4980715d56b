//! Rotations.

pub mod rotate_y;
