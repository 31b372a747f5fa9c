//! Composed frames.
use vstd::prelude::*;

use crate::raster::{filled_bytes, pixel_of, Raster};
use crate::types::Size;

verus! {

/// One composed video frame: an owned RGBA8 pixel buffer.
pub struct Frame {
    image: Raster,
}

impl View for Frame {
    type V = Raster;

    closed spec fn view(&self) -> Raster {
        self.image
    }
}

impl Frame {
    /// A fully transparent `width`×`height` frame.
    pub fn new(width: u32, height: u32) -> (f: Frame)
        requires
            width * height * 4 <= usize::MAX,
        ensures
            f@.wf(),
            f@.width == width,
            f@.height == height,
            f@.data@ == filled_bytes(width * height, seq![0u8, 0u8, 0u8, 0u8]),
    {
        let image = Raster::filled(width, height, [0, 0, 0, 0]);
        proof {
            assert([0u8, 0u8, 0u8, 0u8]@ =~= seq![0u8, 0u8, 0u8, 0u8]);
        }
        Frame { image }
    }

    /// The frame holding `image`.
    pub fn from_image(image: Raster) -> (f: Frame)
        ensures
            f@ == image,
    {
        Frame { image }
    }

    pub fn size(&self) -> (s: Size)
        ensures
            s == (Size { width: self@.width, height: self@.height }),
    {
        Size::new(self.image.width, self.image.height)
    }

    pub fn image(&self) -> (r: &Raster)
        ensures
            *r == self@,
    {
        &self.image
    }

    /// The pixel buffer, for changing in place.
    pub fn image_mut(&mut self) -> (r: &mut Raster)
        ensures
            *r == old(self)@,
            final(self)@ == *final(r),
    {
        &mut self.image
    }

    /// The raw bytes, `width · height · 4` of them.
    pub fn to_bytes(&self) -> (r: &[u8])
        ensures
            r@ == self@.data@,
    {
        self.image.data.as_slice()
    }

    /// The `[r, g, b, a]` pixel at column `x`, row `y`.
    pub fn get_pixel(&self, x: u32, y: u32) -> (px: [u8; 4])
        requires
            self@.wf(),
            x < self@.width,
            y < self@.height,
        ensures
            px@ == pixel_of(self@.data@, y * self@.width + x),
    {
        let w = self.image.width;
        let len = self.image.data.len();
        proof {
            lemma_pixel_in_bounds(x as int, y as int, w as int, self@.height as int);
        }
        let i = 4 * (y as usize * w as usize + x as usize);
        let px = [self.image.data[i], self.image.data[i + 1], self.image.data[i + 2], self.image.data[i + 3]];
        assert(px@ =~= pixel_of(self@.data@, y * self@.width + x));
        px
    }

    /// Overwrite the pixel at column `x`, row `y`; every other pixel stays.
    pub fn set_pixel(&mut self, x: u32, y: u32, color: [u8; 4])
        requires
            old(self)@.wf(),
            x < old(self)@.width,
            y < old(self)@.height,
        ensures
            final(self)@.wf(),
            final(self)@.width == old(self)@.width,
            final(self)@.height == old(self)@.height,
            final(self)@.data@ == Seq::new(
                old(self)@.data@.len(),
                |k: int|
                    if k / 4 == y * old(self)@.width + x {
                        color@[k % 4]
                    } else {
                        old(self)@.data@[k]
                    },
            ),
    {
        let w = self.image.width;
        let len = self.image.data.len();
        proof {
            lemma_pixel_in_bounds(x as int, y as int, w as int, self@.height as int);
        }
        let i = 4 * (y as usize * w as usize + x as usize);
        self.image.data.set(i, color[0]);
        self.image.data.set(i + 1, color[1]);
        self.image.data.set(i + 2, color[2]);
        self.image.data.set(i + 3, color[3]);
        assert(self@.data@ =~= Seq::new(
            old(self)@.data@.len(),
            |k: int|
                if k / 4 == y * old(self)@.width + x {
                    color@[k % 4]
                } else {
                    old(self)@.data@[k]
                },
        ));
    }
}

proof fn lemma_pixel_in_bounds(x: int, y: int, w: int, h: int)
    requires
        0 <= x < w,
        0 <= y < h,
    ensures
        0 <= y * w + x,
        y * w <= y * w + x,
        4 * (y * w + x) + 4 <= w * h * 4,
{
    assert(y * w + x < w * h) by (nonlinear_arith)
        requires
            0 <= x < w,
            0 <= y < h,
    ;
    assert(0 <= y * w) by (nonlinear_arith)
        requires
            0 <= y,
            0 <= w,
    ;
}

} // verus!
