//! The checker texture: two textures alternating in space.

use crate::scalar::Scalar;
use crate::texture::Texture;
use crate::vec3::Vec3;
use std::sync::Arc;
use vstd::prelude::*;

verus! {

/// A checker pattern in world space that alternates between two textures.
pub struct CheckerTexture<X: ?Sized = dyn Texture> {
    pub even: Arc<X>,
    pub odd: Arc<X>,
}

impl<X: ?Sized + Texture> CheckerTexture<X> {
    pub fn new(even: Arc<X>, odd: Arc<X>) -> (r: CheckerTexture<X>)
        ensures
            r.even == even,
            r.odd == odd,
    {
        CheckerTexture { even, odd }
    }

    /// The colour at a point. `sines` is the product of the sines of ten times each
    /// coordinate of the point, which the caller computed: where it is positive the
    /// even texture is asked, else the odd one.
    pub fn get_color(&self, sines: Scalar, uv: (Scalar, Scalar), point: &Vec3) -> (color: Vec3)
        ensures
            color == (if sines.spec_gt(Scalar::spec_zero()) {
                self.even.color_model(uv, *point)
            } else {
                self.odd.color_model(uv, *point)
            }),
    {
        if sines.gt(Scalar::zero()) {
            self.even.get_color(uv, point)
        } else {
            self.odd.get_color(uv, point)
        }
    }
}

} // verus!
