//! Rotation of an object about the y axis.

use crate::aabb::AABB;
use crate::hittable::spec_within;
use crate::hittable::HitRecord;
use crate::hittable::Hittable;
use crate::ray::Ray;
use crate::scalar::Scalar;
use crate::vec3::Vec3;
use std::sync::Arc;
use vstd::prelude::*;

verus! {

/// An object turned about the y axis.
pub struct RotateY<T: ?Sized = dyn Hittable> {
    /// The sine of the angle.
    pub sin_theta: Scalar,
    /// The cosine of the angle.
    pub cos_theta: Scalar,
    /// The box around the turned object, none where the object has no box.
    pub bounding_box: Option<AABB>,
    pub hittable: Arc<T>,
}

/// Whether `rotated` holds the images under `rotate` of the eight corners of a box,
/// corner by corner.
pub open spec fn turned_corners<F: Fn(Vec3) -> Vec3>(rotate: F, b: AABB, rotated: Seq<Vec3>) -> bool {
    &&& rotated.len() == 8
    &&& forall|i: int| 0 <= i < 8 ==> call_ensures(rotate, (b.spec_corner(i),), #[trigger] rotated[i])
}

impl<T: ?Sized + Hittable> RotateY<T> {
    /// What `hit` may return, given the caller's arithmetic: the object is asked
    /// along the ray whose origin and direction `turn_in` turned, and its hit, if
    /// any, is forwarded with the point and the normal that `turn_out` makes of the
    /// hit's. The face that was met, the ray parameter, the surface coordinates and
    /// the material are those that the object reported.
    pub open spec fn spec_hit<A: Fn(Vec3) -> Vec3, B: Fn(Vec3) -> Vec3>(
        &self,
        ray: Ray,
        t_min: Scalar,
        t_max: Scalar,
        turn_in: A,
        turn_out: B,
        r: Option<HitRecord>,
    ) -> bool {
        exists|origin: Vec3, direction: Vec3|
            #![trigger call_ensures(turn_in, (ray.origin,), origin), call_ensures(turn_in, (ray.direction,), direction)]
            call_ensures(turn_in, (ray.origin,), origin) && call_ensures(
                turn_in,
                (ray.direction,),
                direction,
            ) && match self.hittable.hit_model(Ray { origin, direction }, t_min, t_max) {
                None => r is None,
                Some(h) => exists|point: Vec3, normal: Vec3|
                    #![trigger call_ensures(turn_out, (h.point,), point), call_ensures(turn_out, (h.normal,), normal)]
                    call_ensures(turn_out, (h.point,), point) && call_ensures(
                        turn_out,
                        (h.normal,),
                        normal,
                    ) && r == Some(h.spec_carried(point, normal)),
            }
    }

    /// The nearest hit of a ray with the turned object. `turn_in` turns a vector
    /// against the angle and `turn_out` turns it by the angle.
    pub fn hit<A: Fn(Vec3) -> Vec3, B: Fn(Vec3) -> Vec3>(
        &self,
        ray: &Ray,
        t_min: Scalar,
        t_max: Scalar,
        turn_in: &A,
        turn_out: &B,
    ) -> (r: Option<HitRecord>)
        requires
            forall|p: Vec3| call_requires(*turn_in, (p,)),
            forall|p: Vec3| call_requires(*turn_out, (p,)),
        ensures
            self.spec_hit(*ray, t_min, t_max, *turn_in, *turn_out, r),
            r matches Some(h) ==> spec_within(h.t, t_min, t_max),
    {
        let origin: Vec3 = turn_in(ray.origin);
        let direction: Vec3 = turn_in(ray.direction);
        let turned: Ray = Ray::new(origin, direction);
        match self.hittable.hit(&turned, t_min, t_max) {
            None => None,
            Some(h) => {
                let mut record: HitRecord = h;
                let point: Vec3 = turn_out(record.point);
                let normal: Vec3 = turn_out(record.normal);
                record.carry(point, normal);
                Some(record)
            },
        }
    }

    /// The object turned by the angle whose sine and cosine are given. `rotate` turns
    /// a point by that angle. The box of the result is the tightest box around the
    /// eight turned corners of the object's box over the unit time interval.
    pub fn arc<F: Fn(Vec3) -> Vec3>(
        sin_theta: Scalar,
        cos_theta: Scalar,
        hittable: Arc<T>,
        rotate: &F,
    ) -> (r: Arc<RotateY<T>>)
        requires
            forall|p: Vec3| call_requires(*rotate, (p,)),
        ensures
            r.sin_theta == sin_theta,
            r.cos_theta == cos_theta,
            r.hittable == hittable,
            hittable.box_model(Scalar::spec_zero(), Scalar::spec_one()) is None
                ==> r.bounding_box is None,
            hittable.box_model(Scalar::spec_zero(), Scalar::spec_one()) matches Some(b)
                ==> exists|rotated: Seq<Vec3>| #[trigger]
                turned_corners(*rotate, b, rotated) && r.bounding_box == Some(
                    AABB::spec_enclosing(rotated, 8),
                ),
    {
        let bounding_box: Option<AABB> = match hittable.bounding_box(Scalar::zero(), Scalar::one()) {
            None => None,
            Some(b) => {
                let mut rotated: Vec<Vec3> = Vec::new();
                let mut i: usize = 0;
                while i < 8
                    invariant
                        i <= 8,
                        rotated@.len() == i,
                        forall|p: Vec3| call_requires(*rotate, (p,)),
                        forall|j: int|
                            0 <= j < i ==> call_ensures(
                                *rotate,
                                (b.spec_corner(j),),
                                #[trigger] rotated@[j],
                            ),
                    decreases 8 - i,
                {
                    let turned: Vec3 = rotate(b.corner(i));
                    rotated.push(turned);
                    i = i + 1;
                }
                proof {
                    assert(turned_corners(*rotate, b, rotated@));
                }
                Some(AABB::enclosing(&rotated))
            },
        };
        Arc::new(RotateY { sin_theta, cos_theta, bounding_box, hittable })
    }

    /// The bounding box: the box around the turned object where the object has a box
    /// over the interval, none where it has none.
    pub fn bounding_box(&self, t0: Scalar, t1: Scalar) -> (r: Option<AABB>)
        ensures
            r == (if self.hittable.box_model(t0, t1) is Some {
                self.bounding_box
            } else {
                None
            }),
    {
        match self.hittable.bounding_box(t0, t1) {
            None => None,
            Some(_) => self.bounding_box,
        }
    }
}

} // verus!
