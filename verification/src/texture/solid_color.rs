//! The texture of one colour.

use crate::scalar::Scalar;
use crate::texture::Texture;
use crate::vec3::Vec3;
use std::sync::Arc;
use vstd::prelude::*;

verus! {

/// One colour everywhere.
pub struct SolidColorTexture {
    pub color: Vec3,
}

impl SolidColorTexture {
    pub fn arc(color: Vec3) -> (r: Arc<SolidColorTexture>)
        ensures
            r.color == color,
    {
        Arc::new(SolidColorTexture { color })
    }
}

impl Texture for SolidColorTexture {
    open spec fn color_model(&self, uv: (Scalar, Scalar), point: Vec3) -> Vec3 {
        self.color
    }

    fn get_color(&self, uv: (Scalar, Scalar), point: &Vec3) -> (color: Vec3) {
        self.color
    }
}

} // verus!
