//! The axis-aligned box made of six rectangles.

use crate::aabb::AABB;
use crate::hittable::share;
use crate::hittable::HitRecord;
use crate::hittable::Hittable;
use crate::hittable::HittableList;
use crate::material::Material;
use crate::ray::Ray;
use crate::scalar::Scalar;
use crate::shape::rectangle_xy::RectangleXY;
use crate::shape::rectangle_xz::RectangleXZ;
use crate::shape::rectangle_yz::RectangleYZ;
use crate::shape::Shape;
use crate::vec3::Vec3;
use std::sync::Arc;
use vstd::prelude::*;

verus! {

/// A box between two corners, made of six rectangles of one material.
pub struct Cube<T: ?Sized = dyn Hittable, M: ?Sized = dyn Material> {
    pub minimum: Vec3,
    pub maximum: Vec3,
    pub sides: HittableList<T>,
    pub material: Arc<M>,
}

/// Whether a shape is the side of the box with the given number: the two sides of
/// constant z, far then near, then those of constant y, then those of constant x.
/// Each spans the box's extent on its two free axes.
pub open spec fn spec_is_side<T: ?Sized, M: ?Sized>(
    shape: Shape<T, M>,
    minimum: Vec3,
    maximum: Vec3,
    material: Arc<M>,
    side: int,
) -> bool {
    let x = (minimum.x, maximum.x);
    let y = (minimum.y, maximum.y);
    let z = (minimum.z, maximum.z);
    if side == 0 || side == 1 {
        shape matches Shape::RectangleXY(r) && r.x == x && r.y == y && r.k == (if side == 0 {
            maximum.z
        } else {
            minimum.z
        }) && r.material == material
    } else if side == 2 || side == 3 {
        shape matches Shape::RectangleXZ(r) && r.x == x && r.z == z && r.k == (if side == 2 {
            maximum.y
        } else {
            minimum.y
        }) && r.material == material
    } else {
        shape matches Shape::RectangleYZ(r) && r.y == y && r.z == z && r.k == (if side == 4 {
            maximum.x
        } else {
            minimum.x
        }) && r.material == material
    }
}

/// Whether an object is what `lift` made of the side with the given number.
pub open spec fn spec_lifted_side<T: ?Sized, M: ?Sized, F: Fn(Shape<T, M>) -> Arc<T>>(
    lift: F,
    object: Arc<T>,
    minimum: Vec3,
    maximum: Vec3,
    material: Arc<M>,
    side: int,
) -> bool {
    exists|shape: Shape<T, M>| #[trigger]
        spec_is_side(shape, minimum, maximum, material, side) && call_ensures(
            lift,
            (shape,),
            object,
        )
}

impl<T: ?Sized + Hittable, M: ?Sized> Cube<T, M> {
    /// The box between two corners. Its six sides are described as rectangles and
    /// handed to `lift`, which makes of each an object that a ray can hit.
    pub fn arc<F: Fn(Shape<T, M>) -> Arc<T>>(
        minimum: Vec3,
        maximum: Vec3,
        material: Arc<M>,
        lift: &F,
    ) -> (r: Arc<Cube<T, M>>)
        requires
            forall|s: Shape<T, M>| call_requires(*lift, (s,)),
        ensures
            r.minimum == minimum,
            r.maximum == maximum,
            r.material == material,
            r.sides.objects@.len() == 6,
            forall|side: int|
                0 <= side < 6 ==> spec_lifted_side(
                    *lift,
                    #[trigger] r.sides.objects@[side],
                    minimum,
                    maximum,
                    material,
                    side,
                ),
    {
        let x: (Scalar, Scalar) = (minimum.x, maximum.x);
        let y: (Scalar, Scalar) = (minimum.y, maximum.y);
        let z: (Scalar, Scalar) = (minimum.z, maximum.z);
        let mut sides: HittableList<T> = HittableList::new();

        let far_z: Shape<T, M> = Shape::RectangleXY(
            RectangleXY::new(x, y, maximum.z, share(&material)),
        );
        let ghost g0 = far_z;
        sides.add(lift(far_z));
        let near_z: Shape<T, M> = Shape::RectangleXY(
            RectangleXY::new(x, y, minimum.z, share(&material)),
        );
        let ghost g1 = near_z;
        sides.add(lift(near_z));

        let far_y: Shape<T, M> = Shape::RectangleXZ(
            RectangleXZ::new(x, z, maximum.y, share(&material)),
        );
        let ghost g2 = far_y;
        sides.add(lift(far_y));
        let near_y: Shape<T, M> = Shape::RectangleXZ(
            RectangleXZ::new(x, z, minimum.y, share(&material)),
        );
        let ghost g3 = near_y;
        sides.add(lift(near_y));

        let far_x: Shape<T, M> = Shape::RectangleYZ(
            RectangleYZ::arc(y, z, maximum.x, share(&material)),
        );
        let ghost g4 = far_x;
        sides.add(lift(far_x));
        let near_x: Shape<T, M> = Shape::RectangleYZ(
            RectangleYZ::arc(y, z, minimum.x, share(&material)),
        );
        let ghost g5 = near_x;
        sides.add(lift(near_x));

        proof {
            assert(spec_is_side(g0, minimum, maximum, material, 0));
            assert(spec_is_side(g1, minimum, maximum, material, 1));
            assert(spec_is_side(g2, minimum, maximum, material, 2));
            assert(spec_is_side(g3, minimum, maximum, material, 3));
            assert(spec_is_side(g4, minimum, maximum, material, 4));
            assert(spec_is_side(g5, minimum, maximum, material, 5));
        }
        Arc::new(Cube { minimum, maximum, sides, material })
    }
}

/// A cube whose sides keep the geometry contract keeps it too.
pub proof fn lemma_cube_is_lawful<T: ?Sized + Hittable, M: ?Sized + Material>(
    cube: Cube<T, M>,
    ray: Ray,
    t_min: Scalar,
    b: Scalar,
    c: Scalar,
)
    requires
        crate::nearest::spec_all_lawful(cube.sides.objects@, ray, t_min),
    ensures
        cube.hit_model(ray, t_min, b) matches Some(h) ==> crate::hittable::spec_within(
            h.t,
            t_min,
            b,
        ),
        c.spec_le(b) ==> cube.hit_model(ray, t_min, c) == crate::nearest::spec_below(
            cube.hit_model(ray, t_min, b),
            c,
        ),
{
    crate::nearest::lemma_list_is_lawful(cube.sides.objects@, ray, t_min, b, c);
}

impl<T: ?Sized + Hittable, M: ?Sized + Material> Hittable for Cube<T, M> {
    open spec fn hit_model(&self, ray: Ray, t_min: Scalar, t_max: Scalar) -> Option<HitRecord> {
        self.sides.hit_model(ray, t_min, t_max)
    }

    open spec fn box_model(&self, t0: Scalar, t1: Scalar) -> Option<AABB> {
        Some(AABB::spec_new(self.minimum, self.maximum))
    }

    /// The nearest hit among the six sides.
    fn hit(&self, ray: &Ray, t_min: Scalar, t_max: Scalar) -> (r: Option<HitRecord>) {
        self.sides.hit(ray, t_min, t_max)
    }

    /// The box itself, between its two corners.
    fn bounding_box(&self, t0: Scalar, t1: Scalar) -> (r: Option<AABB>) {
        Some(AABB::new(self.minimum, self.maximum))
    }
}

} // verus!
