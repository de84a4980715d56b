//! The axis-aligned rectangle in a plane of constant x.

use crate::aabb::AABB;
use crate::hittable::share;
use crate::hittable::spec_within;
use crate::hittable::within;
use crate::hittable::Contact;
use crate::hittable::HitRecord;
use crate::material::Material;
use crate::ray::Ray;
use crate::shape::Crossing;
use crate::scalar::Scalar;
use crate::vec3::Vec3;
use std::sync::Arc;
use vstd::prelude::*;

verus! {

/// A rectangle in the plane `x = k`, spanning an interval of y and one of z.
pub struct RectangleYZ<M: ?Sized = dyn Material> {
    /// The extent along y: least and greatest.
    pub y: (Scalar, Scalar),
    /// The extent along z: least and greatest.
    pub z: (Scalar, Scalar),
    /// The plane's x.
    pub k: Scalar,
    pub material: Arc<M>,
}

impl<M: ?Sized> RectangleYZ<M> {
    /// Whether a plane crossing is a hit of the rectangle: the ray parameter `t` lies
    /// strictly inside the interval, and the crossing point's `y` and `z` are
    /// neither below nor above the rectangle's extents.
    pub open spec fn spec_accepts(
        &self,
        t: Scalar,
        y: Scalar,
        z: Scalar,
        t_min: Scalar,
        t_max: Scalar,
    ) -> bool {
        &&& spec_within(t, t_min, t_max)
        &&& !y.spec_lt(self.y.0) && !y.spec_gt(self.y.1)
        &&& !z.spec_lt(self.z.0) && !z.spec_gt(self.z.1)
    }

    /// What `hit` may return, given the caller's arithmetic: for the crossing that
    /// `cross` found, nothing where the crossing is not accepted, else the record at
    /// the crossing with the contact that `surface` found there and the unit vector
    /// along x for a normal.
    pub open spec fn spec_hit<C: Fn(Ray) -> Crossing, P: Fn(Ray, Scalar) -> Contact>(
        &self,
        ray: Ray,
        t_min: Scalar,
        t_max: Scalar,
        cross: C,
        surface: P,
        r: Option<HitRecord<M>>,
    ) -> bool {
        exists|crossing: Crossing| #[trigger]
            call_ensures(cross, (ray,), crossing) && if self.spec_accepts(
                crossing.t,
                crossing.first,
                crossing.second,
                t_min,
                t_max,
            ) {
                exists|contact: Contact| #[trigger]
                    call_ensures(surface, (ray, crossing.t), contact) && r == Some(
                        HitRecord::spec_at(
                            crossing.t,
                            Contact {
                                point: contact.point,
                                normal: Vec3 { x: Scalar::spec_one(), y: Scalar::spec_zero(), z: Scalar::spec_zero() },
                                uv: contact.uv,
                                facing: contact.facing,
                            },
                            self.material,
                        ),
                    )
            } else {
                r is None
            }
    }

    /// The rectangle's box when the plane is padded to the slab from `below` to
    /// `above`.
    pub open spec fn spec_bounds(&self, below: Scalar, above: Scalar) -> AABB {
        AABB::spec_new(Vec3 { x: below, y: self.y.0, z: self.z.0 }, Vec3 { x: above, y: self.y.1, z: self.z.1 })
    }

    pub fn arc(y: (Scalar, Scalar), z: (Scalar, Scalar), k: Scalar, material: Arc<M>) -> (r: Arc<
        RectangleYZ<M>,
    >)
        ensures
            r.y == y,
            r.z == z,
            r.k == k,
            r.material == material,
    {
        Arc::new(RectangleYZ { y, z, k, material })
    }

    /// The intersection of a ray with the rectangle strictly inside the interval.
    /// `cross` finds where the ray crosses the plane; `surface` finds the contact at
    /// the crossing: the point, the position within the extents as surface
    /// coordinates, and the ray direction's component along x.
    pub fn hit<C: Fn(Ray) -> Crossing, P: Fn(Ray, Scalar) -> Contact>(
        &self,
        ray: &Ray,
        t_min: Scalar,
        t_max: Scalar,
        cross: &C,
        surface: &P,
    ) -> (r: Option<HitRecord<M>>)
        requires
            forall|x: Ray| call_requires(*cross, (x,)),
            forall|x: Ray, t: Scalar| call_requires(*surface, (x, t)),
        ensures
            self.spec_hit(*ray, t_min, t_max, *cross, *surface, r),
            r matches Some(h) ==> spec_within(h.t, t_min, t_max),
    {
        let crossing: Crossing = cross(*ray);
        if !self.accepts(crossing.t, crossing.first, crossing.second, t_min, t_max) {
            return None;
        }
        let contact: Contact = surface(*ray, crossing.t);
        let oriented: Contact = Contact {
            point: contact.point,
            normal: Vec3::new(Scalar::one(), Scalar::zero(), Scalar::zero()),
            uv: contact.uv,
            facing: contact.facing,
        };
        Some(HitRecord::at(crossing.t, oriented, share(&self.material)))
    }

    /// Decides a plane crossing that the caller computed: `t` is the ray parameter at
    /// which the ray crosses the plane, `y` and `z` the crossing point's
    /// coordinates in the plane.
    pub fn accepts(&self, t: Scalar, y: Scalar, z: Scalar, t_min: Scalar, t_max: Scalar) -> (r:
        bool)
        ensures
            r == self.spec_accepts(t, y, z, t_min, t_max),
    {
        within(t, t_min, t_max) && !y.lt(self.y.0) && !y.gt(self.y.1) && !z.lt(self.z.0)
            && !z.gt(self.z.1)
    }

    /// The bounding box: the rectangle's extents, and along x the slab from `below`
    /// to `above`, which the caller pads the plane to so that the box has thickness.
    pub fn bounds(&self, below: Scalar, above: Scalar) -> (r: AABB)
        ensures
            r == self.spec_bounds(below, above),
    {
        AABB::new(Vec3::new(below, self.y.0, self.z.0), Vec3::new(above, self.y.1, self.z.1))
    }
}

} // verus!
