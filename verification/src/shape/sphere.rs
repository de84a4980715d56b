//! The sphere.

use crate::hittable::share;
use crate::hittable::spec_within;
use crate::hittable::within;
use crate::hittable::Contact;
use crate::hittable::HitRecord;
use crate::material::Material;
use crate::ray::Ray;
use crate::scalar::Scalar;
use crate::vec3::Vec3;
use std::sync::Arc;
use vstd::prelude::*;

verus! {

/// A sphere, given by centre and radius.
pub struct Sphere<M: ?Sized = dyn Material> {
    pub center: Vec3,
    pub radius: Scalar,
    pub material: Arc<M>,
}

/// The quadratic `|O + tD - C|^2 = r^2` of a ray and a sphere, as the caller solved
/// it: its discriminant, and its smaller and its larger root.
#[derive(Clone, Copy, Debug, PartialEq, Eq, Structural)]
pub struct Roots {
    pub discriminant: Scalar,
    pub near_root: Scalar,
    pub far_root: Scalar,
}

impl<M: ?Sized> Sphere<M> {
    /// What `hit` may return, given the caller's arithmetic: for the roots that
    /// `solve` found, nothing where no root is picked, else the record at the picked
    /// root with the contact that `surface` found there.
    pub open spec fn spec_hit<S: Fn(Ray) -> Roots, P: Fn(Ray, Scalar) -> Contact>(
        &self,
        ray: Ray,
        t_min: Scalar,
        t_max: Scalar,
        solve: S,
        surface: P,
        r: Option<HitRecord<M>>,
    ) -> bool {
        exists|roots: Roots| #[trigger]
            call_ensures(solve, (ray,), roots) && match self.spec_pick_root(
                roots.discriminant,
                roots.near_root,
                roots.far_root,
                t_min,
                t_max,
            ) {
                None => r is None,
                Some(t) => exists|contact: Contact| #[trigger]
                    call_ensures(surface, (ray, t), contact) && r == Some(
                        HitRecord::spec_at(t, contact, self.material),
                    ),
            }
    }

    /// Which root of the intersection quadratic is the hit: none where the
    /// discriminant is negative; else the smaller root where it lies strictly inside
    /// the interval, else the larger where that one does, else none.
    pub open spec fn spec_pick_root(
        &self,
        discriminant: Scalar,
        near_root: Scalar,
        far_root: Scalar,
        t_min: Scalar,
        t_max: Scalar,
    ) -> Option<Scalar> {
        if discriminant.spec_lt(Scalar::spec_zero()) {
            None
        } else if spec_within(near_root, t_min, t_max) {
            Some(near_root)
        } else if spec_within(far_root, t_min, t_max) {
            Some(far_root)
        } else {
            None
        }
    }

    pub fn new(center: Vec3, radius: Scalar, material: Arc<M>) -> (r: Sphere<M>)
        ensures
            r.center == center,
            r.radius == radius,
            r.material == material,
    {
        Sphere { center, radius, material }
    }

    /// The nearest intersection of a ray with the sphere strictly inside the interval.
    /// `solve` solves the quadratic of the ray and the sphere; `surface` finds the
    /// contact at a root: the point, the outward unit normal, the spherical surface
    /// coordinates of the normal, and the dot product of direction and normal.
    pub fn hit<S: Fn(Ray) -> Roots, P: Fn(Ray, Scalar) -> Contact>(
        &self,
        ray: &Ray,
        t_min: Scalar,
        t_max: Scalar,
        solve: &S,
        surface: &P,
    ) -> (r: Option<HitRecord<M>>)
        requires
            forall|x: Ray| call_requires(*solve, (x,)),
            forall|x: Ray, t: Scalar| call_requires(*surface, (x, t)),
        ensures
            self.spec_hit(*ray, t_min, t_max, *solve, *surface, r),
            r matches Some(h) ==> spec_within(h.t, t_min, t_max),
    {
        let roots: Roots = solve(*ray);
        match self.pick_root(roots.discriminant, roots.near_root, roots.far_root, t_min, t_max) {
            None => None,
            Some(t) => {
                let contact: Contact = surface(*ray, t);
                Some(HitRecord::at(t, contact, share(&self.material)))
            },
        }
    }

    /// Picks the hit among the roots of the quadratic `|O + tD - C|^2 = r^2` that the
    /// caller solved: `discriminant` is its discriminant, `near_root` the smaller root
    /// and `far_root` the larger.
    pub fn pick_root(
        &self,
        discriminant: Scalar,
        near_root: Scalar,
        far_root: Scalar,
        t_min: Scalar,
        t_max: Scalar,
    ) -> (r: Option<Scalar>)
        ensures
            r == self.spec_pick_root(discriminant, near_root, far_root, t_min, t_max),
    {
        if discriminant.lt(Scalar::zero()) {
            None
        } else if within(near_root, t_min, t_max) {
            Some(near_root)
        } else if within(far_root, t_min, t_max) {
            Some(far_root)
        } else {
            None
        }
    }
}

} // verus!
