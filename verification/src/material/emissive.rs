//! The light source.

use crate::hittable::SurfacePoint;
use crate::ray::Ray;
use crate::scalar::Scalar;
use crate::texture::Texture;
use crate::vec3::Vec3;
use std::sync::Arc;
use vstd::prelude::*;

verus! {

/// A surface that emits light and scatters none.
pub struct EmissiveMaterial<X: ?Sized = dyn Texture> {
    pub emission: Arc<X>,
    /// What the emission texture's colour is multiplied by.
    pub scale: Scalar,
}

impl<X: ?Sized + Texture> EmissiveMaterial<X> {
    /// A light of the given emission, at scale one.
    pub fn arc(emission: Arc<X>) -> (r: Arc<EmissiveMaterial<X>>)
        ensures
            r.emission == emission,
            r.scale == Scalar::spec_one(),
    {
        Arc::new(EmissiveMaterial { emission, scale: Scalar::one() })
    }

    pub fn set_scale(&mut self, scale: Scalar)
        ensures
            final(self).scale == scale,
            final(self).emission == old(self).emission,
    {
        self.scale = scale;
    }

    /// A light never scatters.
    pub fn scatter(&self, ray: &Ray, hit: &SurfacePoint) -> (r: Option<(Vec3, Ray)>)
        ensures
            r is None,
    {
        None
    }

    /// The emission at a surface coordinate and point: what `scaled` makes of the
    /// emission texture's colour there and the scale, their product.
    pub fn emitted<S: Fn(Vec3, Scalar) -> Vec3>(
        &self,
        uv: (Scalar, Scalar),
        point: &Vec3,
        scaled: &S,
    ) -> (color: Vec3)
        requires
            forall|c: Vec3, k: Scalar| call_requires(*scaled, (c, k)),
        ensures
            call_ensures(*scaled, (self.emission.color_model(uv, *point), self.scale), color),
    {
        scaled(self.emission.get_color(uv, point), self.scale)
    }
}

} // verus!
