//! The clear material.

use crate::hittable::SurfacePoint;
use crate::ray::Ray;
use crate::scalar::Scalar;
use crate::vec3::Vec3;
use std::sync::Arc;
use vstd::prelude::*;

verus! {

/// A clear surface, such as glass, given by its index of refraction.
#[derive(Clone, Copy, Debug, PartialEq, Eq, Structural)]
pub struct DielectricMaterial {
    pub ir: Scalar,
}

/// What the caller's arithmetic found of a ray meeting a clear surface.
#[derive(Clone, Copy, Debug, PartialEq, Eq, Structural)]
pub struct Fresnel {
    /// The refraction ratio times the sine of the angle of incidence. Above one, the
    /// ray cannot pass.
    pub bend: Scalar,
    /// The share of the light that is reflected at this angle, by Schlick's
    /// approximation.
    pub reflectance: Scalar,
    /// A uniform random draw from the unit interval.
    pub draw: Scalar,
}

impl DielectricMaterial {
    /// The ratio of the indices of refraction that a ray meets: the reciprocal of
    /// the index where it enters through the front face, the index where it leaves.
    pub open spec fn spec_refraction_ratio(&self, front_face: bool, reciprocal: Scalar) -> Scalar {
        if front_face {
            reciprocal
        } else {
            self.ir
        }
    }

    /// Whether the ray is reflected: it is where it cannot pass, and else where the
    /// reflectance exceeds the draw.
    pub open spec fn spec_reflects(found: Fresnel) -> bool {
        found.bend.spec_gt(Scalar::spec_one()) || found.reflectance.spec_gt(found.draw)
    }

    /// Whether `direction` is one in which the ray may leave: a reflection where it
    /// is reflected, a refraction at the ratio where it is not.
    pub open spec fn spec_leaves<A: Fn(Vec3, Vec3) -> Vec3, B: Fn(Vec3, Vec3, Scalar) -> Vec3>(
        reflect: A,
        refract: B,
        incoming: Vec3,
        normal: Vec3,
        ratio: Scalar,
        found: Fresnel,
        direction: Vec3,
    ) -> bool {
        if DielectricMaterial::spec_reflects(found) {
            call_ensures(reflect, (incoming, normal), direction)
        } else {
            call_ensures(refract, (incoming, normal, ratio), direction)
        }
    }

    pub fn arc(ir: Scalar) -> (r: Arc<DielectricMaterial>)
        ensures
            r.ir == ir,
    {
        Arc::new(DielectricMaterial { ir })
    }

    /// The refraction ratio at a face; `reciprocal` is one over the index.
    pub fn refraction_ratio(&self, front_face: bool, reciprocal: Scalar) -> (r: Scalar)
        ensures
            r == self.spec_refraction_ratio(front_face, reciprocal),
    {
        if front_face {
            reciprocal
        } else {
            self.ir
        }
    }

    /// Whether the ray is reflected rather than refracted.
    pub fn reflects(found: Fresnel) -> (r: bool)
        ensures
            r == DielectricMaterial::spec_reflects(found),
    {
        found.bend.gt(Scalar::one()) || found.reflectance.gt(found.draw)
    }

    /// What `scatter` may return, given the caller's arithmetic: always a scattered
    /// ray from the point of the hit, unattenuated; its direction is the reflection
    /// where the ray is reflected and the refraction at the ratio where it is not.
    pub open spec fn spec_scatter<
        I: Fn(Scalar) -> Scalar,
        F: Fn(Vec3, Vec3, Scalar) -> Fresnel,
        A: Fn(Vec3, Vec3) -> Vec3,
        B: Fn(Vec3, Vec3, Scalar) -> Vec3,
    >(
        &self,
        ray: Ray,
        hit: SurfacePoint,
        invert: I,
        fresnel: F,
        reflect: A,
        refract: B,
        r: Option<(Vec3, Ray)>,
    ) -> bool {
        exists|reciprocal: Scalar| #[trigger]
            call_ensures(invert, (self.ir,), reciprocal) && exists|found: Fresnel| #[trigger]
                call_ensures(
                    fresnel,
                    (
                        ray.direction,
                        hit.normal,
                        self.spec_refraction_ratio(hit.front_face, reciprocal),
                    ),
                    found,
                ) && exists|direction: Vec3| #[trigger]
                    DielectricMaterial::spec_leaves(
                        reflect,
                        refract,
                        ray.direction,
                        hit.normal,
                        self.spec_refraction_ratio(hit.front_face, reciprocal),
                        found,
                        direction,
                    ) && r == Some(
                        (
                            Vec3 {
                                x: Scalar::spec_one(),
                                y: Scalar::spec_one(),
                                z: Scalar::spec_one(),
                            },
                            Ray { origin: hit.point, direction },
                        ),
                    )
    }

    /// Scatters at a hit, always, and without attenuation. `invert` is the
    /// reciprocal; `fresnel` finds, for the incoming direction, the normal and the
    /// refraction ratio, the bend, the reflectance and a random draw; `reflect`
    /// mirrors the unit direction about the normal, and `refract` bends it at the
    /// ratio.
    pub fn scatter<
        I: Fn(Scalar) -> Scalar,
        F: Fn(Vec3, Vec3, Scalar) -> Fresnel,
        A: Fn(Vec3, Vec3) -> Vec3,
        B: Fn(Vec3, Vec3, Scalar) -> Vec3,
    >(
        &self,
        ray: &Ray,
        hit: &SurfacePoint,
        invert: &I,
        fresnel: &F,
        reflect: &A,
        refract: &B,
    ) -> (r: Option<(Vec3, Ray)>)
        requires
            forall|x: Scalar| call_requires(*invert, (x,)),
            forall|d: Vec3, n: Vec3, k: Scalar| call_requires(*fresnel, (d, n, k)),
            forall|d: Vec3, n: Vec3| call_requires(*reflect, (d, n)),
            forall|d: Vec3, n: Vec3, k: Scalar| call_requires(*refract, (d, n, k)),
        ensures
            self.spec_scatter(*ray, *hit, *invert, *fresnel, *reflect, *refract, r),
            r is Some,
    {
        let attenuation: Vec3 = Vec3::new(Scalar::one(), Scalar::one(), Scalar::one());
        let reciprocal: Scalar = invert(self.ir);
        let ratio: Scalar = self.refraction_ratio(hit.front_face, reciprocal);
        let found: Fresnel = fresnel(ray.direction, hit.normal, ratio);
        let direction: Vec3 = if DielectricMaterial::reflects(found) {
            reflect(ray.direction, hit.normal)
        } else {
            refract(ray.direction, hit.normal, ratio)
        };
        proof {
            assert(DielectricMaterial::spec_leaves(
                *reflect,
                *refract,
                ray.direction,
                hit.normal,
                ratio,
                found,
                direction,
            ));
        }
        let scattered: Ray = Ray::new(hit.point, direction);
        Some((attenuation, scattered))
    }
}

} // verus!
