//! The intersection and light-transport core of an offline renderer, with its decisions
//! verified: which of two hits is nearer, which branch of a hierarchy may be skipped,
//! when a path ends.
//!
//! Numbers are held as the bits of IEEE 754 binary64 values (`scalar`). Comparing,
//! taking the smaller or the larger, and changing the sign are exact on the bits, and
//! are done and proved here. Rounding arithmetic is not done here: where a function
//! needs a sum, a product or a root, the caller hands in a function that computes it,
//! and the contract says what is decided on whatever that function returns.
//!
//! `hittable` has the geometry contract and the flat list, `bvh` the hierarchy, and
//! `nearest` the proof that both find the nearest hit and so agree. `shape`,
//! `transform`, `material` and `texture` describe the primitives and decide their
//! cases. `ray` has the path integrator.

pub mod aabb;
pub mod bvh;
pub mod hittable;
pub mod material;
pub mod nearest;
pub mod obj_loader;
pub mod ray;
pub mod scalar;
pub mod shape;
pub mod texture;
pub mod transform;
pub mod vec3;
