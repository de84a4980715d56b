//! The metal.

use crate::hittable::SurfacePoint;
use crate::ray::Ray;
use crate::scalar::Scalar;
use crate::texture::Texture;
use crate::vec3::Vec3;
use std::sync::Arc;
use vstd::prelude::*;

verus! {

/// A mirror, blurred by its fuzz and attenuated by its albedo.
pub struct MetalMaterial<X: ?Sized = dyn Texture> {
    pub albedo: Arc<X>,
    pub fuzz: Scalar,
}

impl<X: ?Sized + Texture> MetalMaterial<X> {
    pub fn arc(albedo: Arc<X>, fuzz: Scalar) -> (r: Arc<MetalMaterial<X>>)
        ensures
            r.albedo == albedo,
            r.fuzz == fuzz,
    {
        Arc::new(MetalMaterial { albedo, fuzz })
    }

    /// Scatters at a hit, always: the scattered ray leaves the point of the hit in
    /// the direction that `mirror` makes of the incoming direction, the normal and
    /// the fuzz (the reflection plus the fuzz times a random vector in the unit
    /// sphere), attenuated by the albedo at the hit. A ray that the fuzz sends below
    /// the surface is scattered like any other.
    pub fn scatter<R: Fn(Vec3, Vec3, Scalar) -> Vec3>(
        &self,
        ray: &Ray,
        hit: &SurfacePoint,
        mirror: &R,
    ) -> (r: Option<(Vec3, Ray)>)
        requires
            forall|d: Vec3, n: Vec3, f: Scalar| call_requires(*mirror, (d, n, f)),
        ensures
            exists|direction: Vec3| #[trigger]
                call_ensures(*mirror, (ray.direction, hit.normal, self.fuzz), direction) && r
                    == Some(
                    (
                        self.albedo.color_model(hit.uv, hit.point),
                        Ray { origin: hit.point, direction },
                    ),
                ),
    {
        let direction: Vec3 = mirror(ray.direction, hit.normal, self.fuzz);
        let scattered: Ray = Ray::new(hit.point, direction);
        let attenuation: Vec3 = self.albedo.get_color(hit.uv, &hit.point);
        Some((attenuation, scattered))
    }
}

} // verus!
