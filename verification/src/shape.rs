//! The primitives.

pub mod cube;
pub mod mesh;
pub mod rectangle_xy;
pub mod rectangle_xz;
pub mod rectangle_yz;
pub mod sphere;
pub mod triangle;

use crate::aabb::AABB;
use crate::hittable::Hittable;
use crate::material::Material;
use crate::scalar::Scalar;
use crate::shape::rectangle_xy::RectangleXY;
use crate::shape::rectangle_xz::RectangleXZ;
use crate::shape::rectangle_yz::RectangleYZ;
use crate::shape::sphere::Sphere;
use crate::shape::triangle::Triangle;
use crate::transform::rotate::rotate_y::RotateY;
use crate::transform::translate::Translate;
use std::sync::Arc;
use vstd::prelude::*;

verus! {

/// Where a ray crosses the plane of a rectangle, as the caller computed it: the ray
/// parameter of the crossing, and the two coordinates of the crossing point within
/// the plane, in the order of the rectangle's name.
#[derive(Clone, Copy, Debug, PartialEq, Eq, Structural)]
pub struct Crossing {
    pub t: Scalar,
    pub first: Scalar,
    pub second: Scalar,
}

/// A primitive whose intersection with a ray is arithmetic, and so the caller's to
/// compute. The crate builds such descriptions (the sides of a cube, the faces of a
/// mesh, the boxes of a hierarchy) and has the caller turn each into an object that a
/// ray can hit.
pub enum Shape<T: ?Sized = dyn Hittable, M: ?Sized = dyn Material> {
    /// A solid box. A hit of it says only that the ray passes through the box.
    Volume(AABB),
    Sphere(Sphere<M>),
    RectangleXY(RectangleXY<M>),
    RectangleXZ(RectangleXZ<M>),
    RectangleYZ(Arc<RectangleYZ<M>>),
    Triangle(Arc<Triangle<M>>),
    Translate(Arc<Translate<T>>),
    RotateY(Arc<RotateY<T>>),
}

} // verus!
