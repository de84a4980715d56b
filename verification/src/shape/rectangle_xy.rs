//! The axis-aligned rectangle in a plane of constant z.

use crate::aabb::AABB;
use crate::hittable::share;
use crate::hittable::spec_within;
use crate::hittable::within;
use crate::hittable::Contact;
use crate::hittable::HitRecord;
use crate::material::Material;
use crate::ray::Ray;
use crate::shape::Crossing;
use crate::scalar::Scalar;
use crate::vec3::Vec3;
use std::sync::Arc;
use vstd::prelude::*;

verus! {

/// A rectangle in the plane `z = k`, spanning an interval of x and one of y.
pub struct RectangleXY<M: ?Sized = dyn Material> {
    /// The extent along x: least and greatest.
    pub x: (Scalar, Scalar),
    /// The extent along y: least and greatest.
    pub y: (Scalar, Scalar),
    /// The plane's z.
    pub k: Scalar,
    pub material: Arc<M>,
}

impl<M: ?Sized> RectangleXY<M> {
    /// Whether a plane crossing is a hit of the rectangle: the ray parameter `t` lies
    /// strictly inside the interval, and the crossing point's `x` and `y` are
    /// neither below nor above the rectangle's extents.
    pub open spec fn spec_accepts(
        &self,
        t: Scalar,
        x: Scalar,
        y: Scalar,
        t_min: Scalar,
        t_max: Scalar,
    ) -> bool {
        &&& spec_within(t, t_min, t_max)
        &&& !x.spec_lt(self.x.0) && !x.spec_gt(self.x.1)
        &&& !y.spec_lt(self.y.0) && !y.spec_gt(self.y.1)
    }

    /// What `hit` may return, given the caller's arithmetic: for the crossing that
    /// `cross` found, nothing where the crossing is not accepted, else the record at
    /// the crossing with the contact that `surface` found there and the unit vector
    /// along z for a normal.
    pub open spec fn spec_hit<C: Fn(Ray) -> Crossing, P: Fn(Ray, Scalar) -> Contact>(
        &self,
        ray: Ray,
        t_min: Scalar,
        t_max: Scalar,
        cross: C,
        surface: P,
        r: Option<HitRecord<M>>,
    ) -> bool {
        exists|crossing: Crossing| #[trigger]
            call_ensures(cross, (ray,), crossing) && if self.spec_accepts(
                crossing.t,
                crossing.first,
                crossing.second,
                t_min,
                t_max,
            ) {
                exists|contact: Contact| #[trigger]
                    call_ensures(surface, (ray, crossing.t), contact) && r == Some(
                        HitRecord::spec_at(
                            crossing.t,
                            Contact {
                                point: contact.point,
                                normal: Vec3 { x: Scalar::spec_zero(), y: Scalar::spec_zero(), z: Scalar::spec_one() },
                                uv: contact.uv,
                                facing: contact.facing,
                            },
                            self.material,
                        ),
                    )
            } else {
                r is None
            }
    }

    /// The rectangle's box when the plane is padded to the slab from `below` to
    /// `above`.
    pub open spec fn spec_bounds(&self, below: Scalar, above: Scalar) -> AABB {
        AABB::spec_new(Vec3 { x: self.x.0, y: self.y.0, z: below }, Vec3 { x: self.x.1, y: self.y.1, z: above })
    }

    pub fn new(x: (Scalar, Scalar), y: (Scalar, Scalar), k: Scalar, material: Arc<M>) -> (r: RectangleXY<
        M,
    >)
        ensures
            r.x == x,
            r.y == y,
            r.k == k,
            r.material == material,
    {
        RectangleXY { x, y, k, material }
    }

    /// The intersection of a ray with the rectangle strictly inside the interval.
    /// `cross` finds where the ray crosses the plane; `surface` finds the contact at
    /// the crossing: the point, the position within the extents as surface
    /// coordinates, and the ray direction's component along z.
    pub fn hit<C: Fn(Ray) -> Crossing, P: Fn(Ray, Scalar) -> Contact>(
        &self,
        ray: &Ray,
        t_min: Scalar,
        t_max: Scalar,
        cross: &C,
        surface: &P,
    ) -> (r: Option<HitRecord<M>>)
        requires
            forall|x: Ray| call_requires(*cross, (x,)),
            forall|x: Ray, t: Scalar| call_requires(*surface, (x, t)),
        ensures
            self.spec_hit(*ray, t_min, t_max, *cross, *surface, r),
            r matches Some(h) ==> spec_within(h.t, t_min, t_max),
    {
        let crossing: Crossing = cross(*ray);
        if !self.accepts(crossing.t, crossing.first, crossing.second, t_min, t_max) {
            return None;
        }
        let contact: Contact = surface(*ray, crossing.t);
        let oriented: Contact = Contact {
            point: contact.point,
            normal: Vec3::new(Scalar::zero(), Scalar::zero(), Scalar::one()),
            uv: contact.uv,
            facing: contact.facing,
        };
        Some(HitRecord::at(crossing.t, oriented, share(&self.material)))
    }

    /// Decides a plane crossing that the caller computed: `t` is the ray parameter at
    /// which the ray crosses the plane, `x` and `y` the crossing point's
    /// coordinates in the plane.
    pub fn accepts(&self, t: Scalar, x: Scalar, y: Scalar, t_min: Scalar, t_max: Scalar) -> (r:
        bool)
        ensures
            r == self.spec_accepts(t, x, y, t_min, t_max),
    {
        within(t, t_min, t_max) && !x.lt(self.x.0) && !x.gt(self.x.1) && !y.lt(self.y.0)
            && !y.gt(self.y.1)
    }

    /// The bounding box: the rectangle's extents, and along z the slab from `below`
    /// to `above`, which the caller pads the plane to so that the box has thickness.
    pub fn bounds(&self, below: Scalar, above: Scalar) -> (r: AABB)
        ensures
            r == self.spec_bounds(below, above),
    {
        AABB::new(Vec3::new(self.x.0, self.y.0, below), Vec3::new(self.x.1, self.y.1, above))
    }
}

} // verus!
