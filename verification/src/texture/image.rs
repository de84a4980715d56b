//! The image texture: a grid of decoded pixels.

use crate::scalar::Scalar;
use crate::vec3::Vec3;
use vstd::prelude::*;

verus! {

/// A decoded image: rows of pixels from the top, three bytes a pixel, red first.
pub struct ImageTexture {
    width: u32,
    height: u32,
    data: Vec<u8>,
}

impl ImageTexture {
    #[verifier::type_invariant]
    spec fn full(self) -> bool {
        self.data@.len() == 3 * self.width * self.height
    }

    /// The image's width in pixels.
    pub closed spec fn spec_width(&self) -> u32 {
        self.width
    }

    /// The image's height in pixels.
    pub closed spec fn spec_height(&self) -> u32 {
        self.height
    }

    /// The image's bytes.
    pub closed spec fn spec_data(&self) -> Seq<u8> {
        self.data@
    }

    /// The three channels of the pixel in column `x` of row `y`, none for a place
    /// outside the image.
    pub open spec fn spec_pixel(&self, x: u32, y: u32) -> Option<(u8, u8, u8)> {
        if x < self.spec_width() && y < self.spec_height() {
            let at = 3 * (y * self.spec_width() + x);
            Some((self.spec_data()[at], self.spec_data()[at + 1], self.spec_data()[at + 2]))
        } else {
            None
        }
    }

    /// An image from its decoded pixels, which must fill the grid: three bytes for
    /// each of `width` times `height` pixels.
    pub fn new(width: u32, height: u32, data: Vec<u8>) -> (r: ImageTexture)
        requires
            data@.len() == 3 * width * height,
        ensures
            r.spec_width() == width,
            r.spec_height() == height,
            r.spec_data() == data@,
    {
        ImageTexture { width, height, data }
    }

    #[verifier::when_used_as_spec(spec_width)]
    pub fn width(&self) -> (w: u32)
        ensures
            w == self.spec_width(),
    {
        self.width
    }

    #[verifier::when_used_as_spec(spec_height)]
    pub fn height(&self) -> (h: u32)
        ensures
            h == self.spec_height(),
    {
        self.height
    }

    /// A column or row number held within a count that is not zero: a number beyond
    /// the last stands for the last.
    pub open spec fn spec_clamp(index: u32, count: u32) -> u32 {
        if index < count {
            index
        } else {
            (count - 1) as u32
        }
    }

    /// What `get_color` may return, given the caller's arithmetic: nothing of an
    /// image without pixels; else, for the place that `place` found, held within the
    /// grid, the colour that `color` makes of the pixel there.
    pub open spec fn spec_get_color<
        P: Fn(Scalar, Scalar, u32, u32) -> (u32, u32),
        C: Fn(u8, u8, u8) -> Vec3,
    >(&self, uv: (Scalar, Scalar), place: P, color: C, r: Option<Vec3>) -> bool {
        if self.spec_width() == 0 || self.spec_height() == 0 {
            r is None
        } else {
            exists|at: (u32, u32)| #[trigger]
                call_ensures(place, (uv.0, uv.1, self.spec_width(), self.spec_height()), at)
                    && match self.spec_pixel(
                    ImageTexture::spec_clamp(at.0, self.spec_width()),
                    ImageTexture::spec_clamp(at.1, self.spec_height()),
                ) {
                    None => false,
                    Some(p) => exists|c: Vec3| #[trigger]
                        call_ensures(color, (p.0, p.1, p.2), c) && r == Some(c),
                }
        }
    }

    /// A column or row number held within a count that is not zero.
    pub fn clamp(index: u32, count: u32) -> (r: u32)
        requires
            count > 0,
        ensures
            r == ImageTexture::spec_clamp(index, count),
            r < count,
    {
        if index < count {
            index
        } else {
            count - 1
        }
    }

    /// The colour at a surface coordinate. Every image that has a pixel has a colour
    /// for every coordinate: a place beyond the last column or row, as the coordinate
    /// one gives, is taken for the last. An image without pixels has none.
    ///
    /// `place` finds the column and the row: the column from `u` times the width, the
    /// row from one less `v`, times the height, each cut down to a whole number.
    /// `color` turns the three bytes of a pixel into a colour, each channel over 255.
    pub fn get_color<P: Fn(Scalar, Scalar, u32, u32) -> (u32, u32), C: Fn(u8, u8, u8) -> Vec3>(
        &self,
        uv: (Scalar, Scalar),
        place: &P,
        color: &C,
    ) -> (r: Option<Vec3>)
        requires
            forall|u: Scalar, v: Scalar, w: u32, h: u32| call_requires(*place, (u, v, w, h)),
            forall|r: u8, g: u8, b: u8| call_requires(*color, (r, g, b)),
        ensures
            self.spec_get_color(uv, *place, *color, r),
            r is Some <==> self.spec_width() >= 1 && self.spec_height() >= 1,
    {
        if self.width() == 0 || self.height() == 0 {
            return None;
        }
        let at: (u32, u32) = place(uv.0, uv.1, self.width(), self.height());
        let column: u32 = ImageTexture::clamp(at.0, self.width());
        let row: u32 = ImageTexture::clamp(at.1, self.height());
        match self.pixel(column, row) {
            None => None,
            Some(p) => Some(color(p.0, p.1, p.2)),
        }
    }

    /// The pixel in a column and a row of the grid, none for a place outside it.
    pub fn pixel(&self, x: u32, y: u32) -> (r: Option<(u8, u8, u8)>)
        ensures
            r == self.spec_pixel(x, y),
    {
        proof {
            use_type_invariant(self);
        }
        if x < self.width && y < self.height {
            assert(3 * (y * self.width + x) + 2 < 3 * self.width * self.height) by (nonlinear_arith)
                requires
                    x < self.width,
                    y < self.height,
            ;
            let len: usize = self.data.len();
            assert(y * self.width <= y * self.width + x);
            let row: usize = y as usize * self.width as usize;
            let at: usize = 3 * (row + x as usize);
            Some((self.data[at], self.data[at + 1], self.data[at + 2]))
        } else {
            None
        }
    }
}

} // verus!
