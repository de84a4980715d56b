//! Translation of an object.

use crate::aabb::AABB;
use crate::hittable::spec_within;
use crate::hittable::HitRecord;
use crate::hittable::Hittable;
use crate::ray::Ray;
use crate::scalar::Scalar;
use crate::vec3::Vec3;
use std::sync::Arc;
use vstd::prelude::*;

verus! {

/// An object moved by an offset.
pub struct Translate<T: ?Sized = dyn Hittable> {
    pub offset: Vec3,
    pub hittable: Arc<T>,
}

impl<T: ?Sized + Hittable> Translate<T> {
    /// What `hit` may return, given the caller's arithmetic: the object is asked
    /// along the ray with its origin moved by `toward`, and its hit, if any, is
    /// forwarded with the point that `back` makes of the hit's point. The normal,
    /// the face that was met, the ray parameter, the surface coordinates and the
    /// material are those that the object reported.
    pub open spec fn spec_hit<A: Fn(Vec3) -> Vec3, B: Fn(Vec3) -> Vec3>(
        &self,
        ray: Ray,
        t_min: Scalar,
        t_max: Scalar,
        toward: A,
        back: B,
        r: Option<HitRecord>,
    ) -> bool {
        exists|origin: Vec3| #[trigger]
            call_ensures(toward, (ray.origin,), origin) && match self.hittable.hit_model(
                Ray { origin, direction: ray.direction },
                t_min,
                t_max,
            ) {
                None => r is None,
                Some(h) => exists|point: Vec3| #[trigger]
                    call_ensures(back, (h.point,), point) && r == Some(
                        h.spec_carried(point, h.normal),
                    ),
            }
    }

    /// The nearest hit of a ray with the moved object. `toward` takes the offset from
    /// a point and `back` adds it.
    pub fn hit<A: Fn(Vec3) -> Vec3, B: Fn(Vec3) -> Vec3>(
        &self,
        ray: &Ray,
        t_min: Scalar,
        t_max: Scalar,
        toward: &A,
        back: &B,
    ) -> (r: Option<HitRecord>)
        requires
            forall|p: Vec3| call_requires(*toward, (p,)),
            forall|p: Vec3| call_requires(*back, (p,)),
        ensures
            self.spec_hit(*ray, t_min, t_max, *toward, *back, r),
            r matches Some(h) ==> spec_within(h.t, t_min, t_max),
    {
        let origin: Vec3 = toward(ray.origin);
        let moved: Ray = Ray::new(origin, ray.direction);
        match self.hittable.hit(&moved, t_min, t_max) {
            None => None,
            Some(h) => {
                let mut record: HitRecord = h;
                let point: Vec3 = back(record.point);
                let normal: Vec3 = record.normal;
                record.carry(point, normal);
                Some(record)
            },
        }
    }

    pub fn arc(offset: Vec3, hittable: Arc<T>) -> (r: Arc<Translate<T>>)
        ensures
            r.offset == offset,
            r.hittable == hittable,
    {
        Arc::new(Translate { offset, hittable })
    }

    /// The bounding box: that of the object with both corners moved, or none where
    /// the object has none. `shift` adds the offset to a point.
    pub fn bounding_box<F: Fn(Vec3) -> Vec3>(&self, t0: Scalar, t1: Scalar, shift: &F) -> (r:
        Option<AABB>)
        requires
            forall|p: Vec3| call_requires(*shift, (p,)),
        ensures
            self.hittable.box_model(t0, t1) is None ==> r is None,
            self.hittable.box_model(t0, t1) matches Some(b) ==> exists|low: Vec3, high: Vec3|
                call_ensures(*shift, (b.minimum,), low) && call_ensures(*shift, (b.maximum,), high)
                    && r == Some(#[trigger] AABB::spec_new(low, high)),
    {
        match self.hittable.bounding_box(t0, t1) {
            None => None,
            Some(b) => {
                let low: Vec3 = shift(b.minimum);
                let high: Vec3 = shift(b.maximum);
                Some(AABB::new(low, high))
            },
        }
    }
}

} // verus!
