//! The rectangular RGBA pixel buffer that every pipeline stage reads.

use vstd::prelude::*;

verus! {

/// One RGBA pixel, 8 bits per channel.
#[derive(Clone, Copy, Debug, PartialEq, Eq, Structural)]
pub struct Pixel {
    pub r: u8,
    pub g: u8,
    pub b: u8,
    pub a: u8,
}

/// A rectangular array of RGBA pixels, stored row-major.
#[derive(Clone, Debug, PartialEq, Eq)]
pub struct PixelBuffer {
    pub width: u32,
    pub height: u32,
    pub pixels: Vec<Pixel>,
}

/// A row-major index lies strictly below the buffer area.
pub proof fn lemma_row_major_index(w: int, h: int, x: int, y: int)
    requires
        0 <= x < w,
        0 <= y < h,
    ensures
        0 <= y * w + x < w * h,
{
    assert(y * w + x < w * h) by (nonlinear_arith)
        requires
            0 <= x < w,
            0 <= y < h,
    ;
}

impl PixelBuffer {
    /// The pixel vector holds exactly one pixel per coordinate.
    pub open spec fn wf(self) -> bool {
        self.pixels@.len() == self.width * self.height
    }

    /// The pixel at column `x` of row `y`.
    pub open spec fn px(self, x: int, y: int) -> Pixel {
        self.pixels@[y * self.width + x]
    }

    /// Builds a buffer after checking that the pixel count matches the
    /// dimensions; returns `None` exactly when it does not.
    pub fn from_pixels(width: u32, height: u32, pixels: Vec<Pixel>) -> (r: Option<PixelBuffer>)
        ensures
            r is Some <==> pixels@.len() == width * height,
            r is Some ==> r->Some_0 == (PixelBuffer { width, height, pixels }),
            r is Some ==> r->Some_0.wf(),
    {
        proof {
            assert(width * height <= u32::MAX * u32::MAX) by (nonlinear_arith)
                requires
                    width <= u32::MAX,
                    height <= u32::MAX,
            ;
        }
        let area: u64 = (width as u64) * (height as u64);
        if pixels.len() as u64 == area {
            Some(PixelBuffer { width, height, pixels })
        } else {
            None
        }
    }

    /// Reads the pixel at column `x` of row `y`.
    pub fn get(&self, x: u32, y: u32) -> (p: Pixel)
        requires
            self.wf(),
            x < self.width,
            y < self.height,
        ensures
            p == self.px(x as int, y as int),
    {
        proof {
            lemma_row_major_index(self.width as int, self.height as int, x as int, y as int);
            assert(y * self.width <= u32::MAX * u32::MAX) by (nonlinear_arith)
                requires
                    y <= u32::MAX,
                    self.width <= u32::MAX,
            ;
            assert(y * self.width + x < self.pixels@.len());
        }
        let idx: u64 = (y as u64) * (self.width as u64) + (x as u64);
        let n: usize = self.pixels.len();
        proof {
            assert(idx < n);
            assert(idx as usize == y * self.width + x);
        }
        self.pixels[idx as usize]
    }
}

} // verus!
