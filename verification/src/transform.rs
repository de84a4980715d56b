//! Transforms: objects that wrap an object.

pub mod rotate;
pub mod translate;
