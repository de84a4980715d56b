//! Rays, and the radiance that arrives along one.

use crate::hittable::HitRecord;
use crate::hittable::Hittable;
use crate::material::Material;
use crate::scalar::Scalar;
use crate::vec3::Vec3;
use std::sync::Arc;
use vstd::prelude::*;

verus! {

/// The bits of 0.0001, the least ray parameter at which a hit counts: it keeps a
/// scattered ray from hitting the surface it leaves.
pub const SHADOW_EPSILON_BITS: u64 = 0x3f1a_36e2_eb1c_432d;

/// A parametrised line: the points `origin + t * direction`.
#[derive(Clone, Copy, Debug, PartialEq, Eq, Structural)]
pub struct Ray {
    pub origin: Vec3,
    pub direction: Vec3,
}

/// One step of a path after a hit: without a scattered ray the colour is the
/// emission; with one it is what `blend` makes of the emission, the attenuation and
/// the radiance `incoming` that arrives along the scattered ray.
pub open spec fn spec_step<F: Fn(Vec3, Vec3, Vec3) -> Vec3>(
    blend: F,
    emitted: Vec3,
    outcome: Option<(Vec3, Ray)>,
    incoming: Vec3,
    color: Vec3,
) -> bool {
    match outcome {
        None => color == emitted,
        Some((attenuation, scattered)) => call_ensures(
            blend,
            (emitted, attenuation, incoming),
            color,
        ),
    }
}

/// Whether `color` is a radiance that may arrive along the ray with `depth` bounces
/// left. With none left it is black. Else the ray is traced from just past its origin
/// to infinity: on a miss the radiance is the background; on a hit it is one step on
/// from the emission of the surface, from an outcome that the material's scattering
/// of this ray at this hit may have, and from a radiance that may arrive along the
/// scattered ray with one bounce less.
pub open spec fn spec_radiance<W: ?Sized + Hittable, F: Fn(Vec3, Vec3, Vec3) -> Vec3>(
    ray: Ray,
    world: Arc<W>,
    background: Vec3,
    depth: u64,
    blend: F,
    color: Vec3,
) -> bool
    decreases depth,
{
    if depth == 0 {
        color == Vec3::spec_zeros()
    } else {
        match world.hit_model(ray, Scalar { bits: SHADOW_EPSILON_BITS }, Scalar::spec_infinity()) {
            None => color == background,
            Some(h) => exists|outcome: Option<(Vec3, Ray)>, incoming: Vec3|
                #![trigger spec_step(blend, h.material.emitted_model(h.uv, h.point), outcome, incoming, color)]
                h.material.scatter_model(ray, h.spec_surface(), outcome) && spec_step(
                    blend,
                    h.material.emitted_model(h.uv, h.point),
                    outcome,
                    incoming,
                    color,
                ) && (outcome matches Some((_, scattered)) ==> spec_radiance(
                    scattered,
                    world,
                    background,
                    (depth - 1) as u64,
                    blend,
                    incoming,
                )),
        }
    }
}

/// What a path may return after a hit whose emission and scattering are known: one
/// step on from a radiance that may arrive along the scattered ray, if there is one,
/// with one bounce less.
pub open spec fn spec_follows<W: ?Sized + Hittable, F: Fn(Vec3, Vec3, Vec3) -> Vec3>(
    world: Arc<W>,
    background: Vec3,
    depth: u64,
    blend: F,
    emitted: Vec3,
    outcome: Option<(Vec3, Ray)>,
    color: Vec3,
) -> bool {
    exists|incoming: Vec3| #[trigger]
        spec_step(blend, emitted, outcome, incoming, color) && (outcome matches Some(
            (_, scattered),
        ) ==> spec_radiance(scattered, world, background, (depth - 1) as u64, blend, incoming))
}

impl Ray {
    pub open spec fn spec_zeros() -> Ray {
        Ray { origin: Vec3::spec_zeros(), direction: Vec3::spec_zeros() }
    }

    pub fn new(origin: Vec3, direction: Vec3) -> (r: Ray)
        ensures
            r == (Ray { origin, direction }),
    {
        Ray { origin, direction }
    }

    /// The ray from the origin with no direction.
    #[verifier::when_used_as_spec(spec_zeros)]
    pub fn zeros() -> (r: Ray)
        ensures
            r == Ray::spec_zeros(),
    {
        Ray { origin: Vec3::zeros(), direction: Vec3::zeros() }
    }

    /// The radiance that arrives along a ray, estimated by following one path of at
    /// most `depth` bounces.
    ///
    /// With no bounce left the result is black, whatever the scene holds: the budget
    /// is tested before the ray is traced, so the last bounce never sees the
    /// background. A ray that hits nothing returns the background colour exactly. At
    /// a hit the surface's emission is taken and the material is asked to scatter;
    /// where it does, `blend` computes the emission plus the attenuation times, channel
    /// by channel, the radiance along the scattered ray.
    pub fn ray_color<W: ?Sized + Hittable, F: Fn(Vec3, Vec3, Vec3) -> Vec3>(
        ray: &Ray,
        world: &Arc<W>,
        background_color: &Vec3,
        depth: u64,
        blend: &F,
    ) -> (color: Vec3)
        requires
            forall|emitted: Vec3, attenuation: Vec3, incoming: Vec3|
                call_requires(*blend, (emitted, attenuation, incoming)),
        ensures
            spec_radiance(*ray, *world, *background_color, depth, *blend, color),
            depth == 0 ==> color == Vec3::spec_zeros(),
            depth > 0 && world.hit_model(
                *ray,
                Scalar { bits: SHADOW_EPSILON_BITS },
                Scalar::spec_infinity(),
            ) is None ==> color == *background_color,
        decreases depth, 1int,
    {
        if depth == 0 {
            return Vec3::zeros();
        }
        let hit: HitRecord = match world.hit(
            ray,
            Scalar::from_bits(SHADOW_EPSILON_BITS),
            Scalar::infinity(),
        ) {
            None => {
                return *background_color;
            },
            Some(h) => h,
        };
        let emitted: Vec3 = hit.material.emitted(hit.uv, &hit.point);
        let outcome: Option<(Vec3, Ray)> = hit.material.scatter(ray, &hit.surface());
        let color: Vec3 = Self::follow(world, background_color, depth, blend, emitted, outcome);
        color
    }

    /// Ends or continues a path after a hit, on what the material made of it:
    /// `emitted` is the surface's emission and `outcome` the result of scattering.
    /// Without a scattered ray the path ends and returns the emission alone. With one
    /// it goes on along that ray with one bounce less.
    pub fn follow<W: ?Sized + Hittable, F: Fn(Vec3, Vec3, Vec3) -> Vec3>(
        world: &Arc<W>,
        background_color: &Vec3,
        depth: u64,
        blend: &F,
        emitted: Vec3,
        outcome: Option<(Vec3, Ray)>,
    ) -> (color: Vec3)
        requires
            depth > 0,
            forall|emitted: Vec3, attenuation: Vec3, incoming: Vec3|
                call_requires(*blend, (emitted, attenuation, incoming)),
        ensures
            spec_follows(*world, *background_color, depth, *blend, emitted, outcome, color),
            outcome is None ==> color == emitted,
        decreases depth, 0int,
    {
        match outcome {
            None => {
                proof {
                    assert(spec_step(*blend, emitted, outcome, Vec3::spec_zeros(), emitted));
                }
                emitted
            },
            Some((attenuation, scattered)) => {
                let incoming: Vec3 = Self::ray_color(
                    &scattered,
                    world,
                    background_color,
                    depth - 1,
                    blend,
                );
                let color: Vec3 = blend(emitted, attenuation, incoming);
                proof {
                    assert(spec_step(*blend, emitted, outcome, incoming, color));
                }
                color
            },
        }
    }
}

} // verus!
