//! Textures: a colour for each surface coordinate and point.

pub mod checker;
pub mod image;
pub mod solid_color;

use crate::scalar::Scalar;
use crate::vec3::Vec3;
use vstd::prelude::*;

verus! {

/// A colour lookup by surface coordinate and world point.
///
/// Of a texture implemented by the caller the contract asks one thing, which is
/// taken on trust: that the colour depends on the arguments alone.
pub trait Texture: Sync + Send {
    /// The colour that `get_color` returns. A texture is a function of its arguments.
    open spec fn color_model(&self, uv: (Scalar, Scalar), point: Vec3) -> Vec3 {
        arbitrary()
    }

    fn get_color(&self, uv: (Scalar, Scalar), point: &Vec3) -> (color: Vec3)
        ensures
            color == self.color_model(uv, *point),
    ;
}

} // verus!
