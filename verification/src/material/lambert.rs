//! The diffuse material.

use crate::hittable::SurfacePoint;
use crate::ray::Ray;
use crate::texture::Texture;
use crate::vec3::Vec3;
use std::sync::Arc;
use vstd::prelude::*;

verus! {

/// A diffuse surface: it scatters about the normal, attenuated by its albedo.
pub struct LambertianMaterial<X: ?Sized = dyn Texture> {
    pub albedo: Arc<X>,
}

impl<X: ?Sized + Texture> LambertianMaterial<X> {
    pub fn new(albedo: Arc<X>) -> (r: LambertianMaterial<X>)
        ensures
            r.albedo == albedo,
    {
        LambertianMaterial { albedo }
    }

    /// Scatters at a hit, always: the scattered ray leaves the point of the hit in
    /// the direction that `bounce` makes of the normal (the normal plus a random unit
    /// vector), attenuated by the albedo at the hit.
    pub fn scatter<B: Fn(Vec3) -> Vec3>(&self, ray: &Ray, hit: &SurfacePoint, bounce: &B) -> (r:
        Option<(Vec3, Ray)>)
        requires
            forall|n: Vec3| call_requires(*bounce, (n,)),
        ensures
            exists|direction: Vec3| #[trigger]
                call_ensures(*bounce, (hit.normal,), direction) && r == Some(
                    (
                        self.albedo.color_model(hit.uv, hit.point),
                        Ray { origin: hit.point, direction },
                    ),
                ),
    {
        let direction: Vec3 = bounce(hit.normal);
        let scattered: Ray = Ray::new(hit.point, direction);
        let attenuation: Vec3 = self.albedo.get_color(hit.uv, &hit.point);
        Some((attenuation, scattered))
    }
}

} // verus!
