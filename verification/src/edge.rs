//! Sobel edge detection with directional classification.
//!
//! Gradients are taken over integer luminance with the two fixed 3x3 Sobel
//! kernels. A pixel is an edge when its gradient magnitude, clamped to the
//! byte range, reaches the threshold; since the clamp cannot lower a value
//! below any byte threshold, that is exactly `gx*gx + gy*gy >=
//! threshold*threshold`. Edge pixels keep their color and carry one of four
//! direction classes; the buffer border is always "no edge".

use vstd::prelude::*;
use vstd::arithmetic::div_mod::lemma_fundamental_div_mod_converse;
use crate::pixel::{PixelBuffer, lemma_row_major_index};
use crate::types::luminance_spec;
use crate::types::calculate_luminance;

verus! {

/// One cell of an edge-detected image: either no edge, or the source
/// pixel's color together with a direction class in `[0, 4)` indexing the
/// edge character ramp (vertical, rising diagonal, horizontal, falling
/// diagonal).
#[derive(Clone, Copy, Debug, PartialEq, Eq, Structural)]
pub enum EdgePixel {
    NoEdge,
    Edge { r: u8, g: u8, b: u8, dir: u8 },
}

/// An edge-detected image, stored row-major, with the dimensions of its
/// source.
#[derive(Debug, PartialEq, Eq)]
pub struct EdgeBuffer {
    pub width: u32,
    pub height: u32,
    pub pixels: Vec<EdgePixel>,
}

impl EdgeBuffer {
    /// One entry per coordinate, and every direction class indexes the
    /// four directional glyphs.
    pub open spec fn wf(self) -> bool {
        &&& self.pixels@.len() == self.width * self.height
        &&& forall|i: int|
            0 <= i < self.pixels@.len() ==> (#[trigger] self.pixels@[i] matches EdgePixel::Edge {
                dir,
                ..
            } ==> dir < 4)
    }

    /// The entry at column `x` of row `y`.
    pub open spec fn px(self, x: int, y: int) -> EdgePixel {
        self.pixels@[y * self.width + x]
    }

    /// Reads the entry at column `x` of row `y`.
    pub fn get(&self, x: u32, y: u32) -> (p: EdgePixel)
        requires
            self.wf(),
            x < self.width,
            y < self.height,
        ensures
            p == self.px(x as int, y as int),
            p matches EdgePixel::Edge { dir, .. } ==> dir < 4,
    {
        proof {
            lemma_row_major_index(self.width as int, self.height as int, x as int, y as int);
            assert(y * self.width <= u32::MAX * u32::MAX) by (nonlinear_arith)
                requires
                    y <= u32::MAX,
                    self.width <= u32::MAX,
            ;
        }
        let idx: u64 = (y as u64) * (self.width as u64) + (x as u64);
        let n: usize = self.pixels.len();
        proof {
            assert(idx < n);
        }
        self.pixels[idx as usize]
    }
}

/// Luminance of the source pixel at `(x, y)`.
pub open spec fn lum_at(img: PixelBuffer, x: int, y: int) -> int {
    luminance_spec(img.px(x, y).r, img.px(x, y).g, img.px(x, y).b)
}

/// Horizontal Sobel response at `(x, y)`: the kernel
/// `[[-1, 0, 1], [-2, 0, 2], [-1, 0, 1]]` applied to luminance.
pub open spec fn sobel_gx_spec(img: PixelBuffer, x: int, y: int) -> int {
    lum_at(img, x + 1, y - 1) + 2 * lum_at(img, x + 1, y) + lum_at(img, x + 1, y + 1) - lum_at(
        img,
        x - 1,
        y - 1,
    ) - 2 * lum_at(img, x - 1, y) - lum_at(img, x - 1, y + 1)
}

/// Vertical Sobel response at `(x, y)`: the kernel
/// `[[-1, -2, -1], [0, 0, 0], [1, 2, 1]]` applied to luminance.
pub open spec fn sobel_gy_spec(img: PixelBuffer, x: int, y: int) -> int {
    lum_at(img, x - 1, y + 1) + 2 * lum_at(img, x, y + 1) + lum_at(img, x + 1, y + 1) - lum_at(
        img,
        x - 1,
        y - 1,
    ) - 2 * lum_at(img, x, y - 1) - lum_at(img, x + 1, y - 1)
}

/// Squared gradient magnitude at `(x, y)`.
pub open spec fn grad_sq_spec(img: PixelBuffer, x: int, y: int) -> int {
    sobel_gx_spec(img, x, y) * sobel_gx_spec(img, x, y) + sobel_gy_spec(img, x, y) * sobel_gy_spec(
        img,
        x,
        y,
    )
}

/// Whether `(x, y)` lies on the one-pixel border of a `w` by `h` buffer.
pub open spec fn is_border(w: int, h: int, x: int, y: int) -> bool {
    x == 0 || y == 0 || x == w - 1 || y == h - 1
}

/// The direction class of a gradient `(gx, gy)`, bucketing the gradient
/// angle into eight 45-degree sectors centered on the axes and diagonals
/// and collapsing opposite sectors: 0 for a near-vertical gradient, 2 for
/// near-horizontal, 1 and 3 for the two diagonals. The sector tests
/// compare the angle against odd multiples of 22.5 degrees exactly, by
/// squaring: `ay < (sqrt(2)-1)*ax` iff `(ax+ay)^2 < 2*ax^2`, and
/// `ay > (sqrt(2)+1)*ax` iff `ay > ax` and `(ay-ax)^2 > 2*ax^2`.
pub open spec fn direction_class_spec(gx: int, gy: int) -> u8 {
    let ax = if gx < 0 {
        -gx
    } else {
        gx
    };
    let ay = if gy < 0 {
        -gy
    } else {
        gy
    };
    if 2 * ax * ax >= (ax + ay) * (ax + ay) {
        2u8
    } else if ay > ax && (ay - ax) * (ay - ax) > 2 * ax * ax {
        0u8
    } else if (gx > 0) == (gy > 0) {
        1u8
    } else {
        3u8
    }
}

/// What edge detection stores at `(x, y)`: no edge on the border or below
/// the threshold, else the source color and the gradient's direction
/// class.
pub open spec fn edge_at(img: PixelBuffer, threshold: u8, x: int, y: int) -> EdgePixel {
    if is_border(img.width as int, img.height as int, x, y) || grad_sq_spec(img, x, y) < threshold
        * threshold {
        EdgePixel::NoEdge
    } else {
        EdgePixel::Edge {
            r: img.px(x, y).r,
            g: img.px(x, y).g,
            b: img.px(x, y).b,
            dir: direction_class_spec(sobel_gx_spec(img, x, y), sobel_gy_spec(img, x, y)),
        }
    }
}

/// Every direction class indexes one of the four directional glyphs.
pub proof fn lemma_direction_class_bound(gx: int, gy: int)
    ensures
        direction_class_spec(gx, gy) < 4,
{
}

/// Both Sobel responses at an interior pixel.
fn sobel_gradients(img: &PixelBuffer, x: u32, y: u32) -> (g: (i32, i32))
    requires
        img.wf(),
        1 <= x,
        x + 1 < img.width,
        1 <= y,
        y + 1 < img.height,
    ensures
        g.0 == sobel_gx_spec(*img, x as int, y as int),
        g.1 == sobel_gy_spec(*img, x as int, y as int),
        -1020 <= g.0 <= 1020,
        -1020 <= g.1 <= 1020,
{
    let p00 = img.get(x - 1, y - 1);
    let p10 = img.get(x, y - 1);
    let p20 = img.get(x + 1, y - 1);
    let p01 = img.get(x - 1, y);
    let p21 = img.get(x + 1, y);
    let p02 = img.get(x - 1, y + 1);
    let p12 = img.get(x, y + 1);
    let p22 = img.get(x + 1, y + 1);
    let l00 = calculate_luminance(p00.r, p00.g, p00.b) as i32;
    let l10 = calculate_luminance(p10.r, p10.g, p10.b) as i32;
    let l20 = calculate_luminance(p20.r, p20.g, p20.b) as i32;
    let l01 = calculate_luminance(p01.r, p01.g, p01.b) as i32;
    let l21 = calculate_luminance(p21.r, p21.g, p21.b) as i32;
    let l02 = calculate_luminance(p02.r, p02.g, p02.b) as i32;
    let l12 = calculate_luminance(p12.r, p12.g, p12.b) as i32;
    let l22 = calculate_luminance(p22.r, p22.g, p22.b) as i32;
    proof {
        crate::types::lemma_luminance_bounds(p00.r, p00.g, p00.b);
        crate::types::lemma_luminance_bounds(p10.r, p10.g, p10.b);
        crate::types::lemma_luminance_bounds(p20.r, p20.g, p20.b);
        crate::types::lemma_luminance_bounds(p01.r, p01.g, p01.b);
        crate::types::lemma_luminance_bounds(p21.r, p21.g, p21.b);
        crate::types::lemma_luminance_bounds(p02.r, p02.g, p02.b);
        crate::types::lemma_luminance_bounds(p12.r, p12.g, p12.b);
        crate::types::lemma_luminance_bounds(p22.r, p22.g, p22.b);
    }
    let gx = l20 + 2 * l21 + l22 - l00 - 2 * l01 - l02;
    let gy = l02 + 2 * l12 + l22 - l00 - 2 * l10 - l20;
    (gx, gy)
}

/// The direction class of a gradient pair; see `direction_class_spec`.
/// The bounds admit any gradient a 3x3 Sobel kernel can produce from
/// byte-range luminance.
pub fn direction_class(gx: i32, gy: i32) -> (d: u8)
    requires
        -1020 <= gx <= 1020,
        -1020 <= gy <= 1020,
    ensures
        d == direction_class_spec(gx as int, gy as int),
        d < 4,
{
    let ax: i32 = if gx < 0 {
        -gx
    } else {
        gx
    };
    let ay: i32 = if gy < 0 {
        -gy
    } else {
        gy
    };
    proof {
        assert(2 * ax * ax <= 2 * 1020 * 1020 && (ax + ay) * (ax + ay) <= 2040 * 2040 && (ay - ax)
            * (ay - ax) <= 2040 * 2040) by (nonlinear_arith)
            requires
                0 <= ax <= 1020,
                0 <= ay <= 1020,
        ;
    }
    if 2 * ax * ax >= (ax + ay) * (ax + ay) {
        2
    } else if ay > ax && (ay - ax) * (ay - ax) > 2 * ax * ax {
        0
    } else if (gx > 0) == (gy > 0) {
        1
    } else {
        3
    }
}

/// The edge entry for one coordinate: the border test, the threshold rule,
/// and the directional classification.
fn edge_pixel_at(img: &PixelBuffer, threshold: u8, x: u32, y: u32) -> (p: EdgePixel)
    requires
        img.wf(),
        x < img.width,
        y < img.height,
    ensures
        p == edge_at(*img, threshold, x as int, y as int),
        p matches EdgePixel::Edge { dir, .. } ==> dir < 4,
{
    let w = img.width;
    let h = img.height;
    if x == 0 || y == 0 || x == w - 1 || y == h - 1 {
        EdgePixel::NoEdge
    } else {
        let (gx, gy) = sobel_gradients(img, x, y);
        proof {
            assert(gx * gx + gy * gy <= 2 * 1020 * 1020 && gx * gx >= 0 && gy * gy >= 0)
                by (nonlinear_arith)
                requires
                    -1020 <= gx <= 1020,
                    -1020 <= gy <= 1020,
            ;
        }
        let mag_sq: i32 = gx * gx + gy * gy;
        proof {
            assert(threshold * threshold <= 255 * 255) by (nonlinear_arith)
                requires
                    0 <= threshold <= 255,
            ;
        }
        if mag_sq >= (threshold as i32) * (threshold as i32) {
            let src = img.get(x, y);
            EdgePixel::Edge { r: src.r, g: src.g, b: src.b, dir: direction_class(gx, gy) }
        } else {
            EdgePixel::NoEdge
        }
    }
}

/// Sobel edge detection over a whole buffer. The output has the source's
/// dimensions, every border entry is "no edge" whatever the content, and
/// every entry equals `edge_at` for the given threshold. A buffer smaller
/// than 3x3 has no interior and comes back all "no edge".
#[verifier::loop_isolation(false)]
pub fn sobel_edge_detection(img: &PixelBuffer, threshold: u8) -> (out: EdgeBuffer)
    requires
        img.wf(),
    ensures
        out.wf(),
        out.width == img.width,
        out.height == img.height,
        forall|x: int, y: int|
            0 <= x < img.width && 0 <= y < img.height ==> out.px(x, y) == edge_at(
                *img,
                threshold,
                x,
                y,
            ),
        forall|x: int, y: int|
            0 <= x < img.width && 0 <= y < img.height && is_border(
                img.width as int,
                img.height as int,
                x,
                y,
            ) ==> out.px(x, y) == EdgePixel::NoEdge,
{
    let w = img.width;
    let h = img.height;
    let mut pixels: Vec<EdgePixel> = Vec::new();
    let mut y: u32 = 0;
    while y < h
        invariant
            y <= h,
            pixels@.len() == y * w,
            forall|i: int|
                0 <= i < pixels@.len() ==> #[trigger] pixels@[i] == edge_at(
                    *img,
                    threshold,
                    i % (w as int),
                    i / (w as int),
                ),
        decreases h - y,
    {
        let mut x: u32 = 0;
        while x < w
            invariant
                x <= w,
                y < h,
                pixels@.len() == y * w + x,
                forall|i: int|
                    0 <= i < pixels@.len() ==> #[trigger] pixels@[i] == edge_at(
                        *img,
                        threshold,
                        i % (w as int),
                        i / (w as int),
                    ),
            decreases w - x,
        {
            let p: EdgePixel = edge_pixel_at(img, threshold, x, y);
            proof {
                lemma_row_major_index(w as int, h as int, x as int, y as int);
                lemma_fundamental_div_mod_converse(
                    (y as int) * (w as int) + (x as int),
                    w as int,
                    y as int,
                    x as int,
                );
            }
            pixels.push(p);
            x = x + 1;
        }
        proof {
            assert((y + 1) * (w as int) == y * (w as int) + w) by (nonlinear_arith);
        }
        y = y + 1;
    }
    proof {
        assert((h as int) * (w as int) == (w as int) * (h as int)) by (nonlinear_arith);
    }
    let out = EdgeBuffer { width: w, height: h, pixels };
    proof {
        assert forall|x: int, y: int| 0 <= x < w && 0 <= y < h implies out.px(x, y) == edge_at(
            *img,
            threshold,
            x,
            y,
        ) by {
            lemma_row_major_index(w as int, h as int, x, y);
            lemma_fundamental_div_mod_converse(y * (w as int) + x, w as int, y, x);
        }
        assert forall|i: int|
            0 <= i < out.pixels@.len() implies (#[trigger] out.pixels@[i]
            matches EdgePixel::Edge { dir, .. } ==> dir < 4) by {
            lemma_direction_class_bound(
                sobel_gx_spec(*img, i % (w as int), i / (w as int)),
                sobel_gy_spec(*img, i % (w as int), i / (w as int)),
            );
        }
    }
    out
}

/// The threshold boundary is inclusive: a pixel is marked an edge exactly
/// when its squared gradient magnitude reaches the squared threshold. At
/// the maximum threshold an interior pixel therefore still becomes an edge
/// when the clamped magnitude hits 255 exactly, that is when the squared
/// magnitude reaches 255 * 255; only images whose gradients all stay below
/// that come back entirely "no edge".
pub proof fn lemma_threshold_boundary(img: PixelBuffer, threshold: u8, x: int, y: int)
    requires
        0 <= x < img.width,
        0 <= y < img.height,
    ensures
        edge_at(img, threshold, x, y) == EdgePixel::NoEdge <==> is_border(
            img.width as int,
            img.height as int,
            x,
            y,
        ) || grad_sq_spec(img, x, y) < threshold * threshold,
{
}

/// On a uniform image the gradient vanishes everywhere, so any positive
/// threshold marks every pixel "no edge". (With a threshold of zero the
/// stated `magnitude >= threshold` rule holds of every interior pixel
/// instead, zero gradient included.)
pub proof fn lemma_uniform_image_no_edges(img: PixelBuffer, threshold: u8, x: int, y: int)
    requires
        img.wf(),
        threshold >= 1,
        0 <= x < img.width,
        0 <= y < img.height,
        forall|i: int, j: int|
            0 <= i < img.width && 0 <= j < img.height ==> #[trigger] img.px(i, j) == img.px(0, 0),
    ensures
        edge_at(img, threshold, x, y) == EdgePixel::NoEdge,
{
    if !is_border(img.width as int, img.height as int, x, y) {
        assert(img.px(x - 1, y - 1) == img.px(0, 0));
        assert(img.px(x, y - 1) == img.px(0, 0));
        assert(img.px(x + 1, y - 1) == img.px(0, 0));
        assert(img.px(x - 1, y) == img.px(0, 0));
        assert(img.px(x + 1, y) == img.px(0, 0));
        assert(img.px(x - 1, y + 1) == img.px(0, 0));
        assert(img.px(x, y + 1) == img.px(0, 0));
        assert(img.px(x + 1, y + 1) == img.px(0, 0));
        assert(sobel_gx_spec(img, x, y) == 0);
        assert(sobel_gy_spec(img, x, y) == 0);
        assert(grad_sq_spec(img, x, y) == 0);
        assert(threshold * threshold >= 1) by (nonlinear_arith)
            requires
                threshold >= 1,
        ;
    }
}

} // verus!
