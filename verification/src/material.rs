//! Materials: how a surface scatters a ray and what it emits.

pub mod dielectric;
pub mod diffuse_light;
pub mod emissive;
pub mod lambert;
pub mod metal;

use crate::hittable::SurfacePoint;
use crate::ray::Ray;
use crate::scalar::Scalar;
use crate::vec3::Vec3;
use vstd::prelude::*;

verus! {

/// The scattering and emission law of a surface.
///
/// Materials are implemented by the caller. The contract asks one thing of them,
/// which is taken on trust: that emission depends on its arguments alone. Of
/// scattering it asks nothing: a material says by `scatter_model` which outcomes it
/// may have, and one that does not say admits every outcome.
pub trait Material: Sync + Send {
    /// The radiance that `emitted` returns. Emission is a function of its arguments.
    open spec fn emitted_model(&self, uv: (Scalar, Scalar), point: Vec3) -> Vec3 {
        arbitrary()
    }

    /// Whether `r` is an outcome that `scatter` may have for this ray and hit.
    /// Scattering may draw random numbers, so this is a relation, and not a
    /// function of the arguments.
    open spec fn scatter_model(&self, ray: Ray, hit: SurfacePoint, r: Option<(Vec3, Ray)>) -> bool {
        true
    }

    /// Scatters an incoming ray at a hit: the attenuation and the scattered ray, or
    /// none where the surface absorbs.
    fn scatter(&self, ray: &Ray, hit: &SurfacePoint) -> (r: Option<(Vec3, Ray)>)
        ensures
            self.scatter_model(*ray, *hit, r),
    ;

    /// The radiance that the surface emits at a surface coordinate and point.
    fn emitted(&self, uv: (Scalar, Scalar), point: &Vec3) -> (color: Vec3)
        ensures
            color == self.emitted_model(uv, *point),
    ;
}

} // verus!
