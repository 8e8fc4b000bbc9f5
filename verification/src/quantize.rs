//! Mapping pixels and edge entries to character cells.

use vstd::prelude::*;
use crate::pixel::{Pixel, PixelBuffer};
use crate::edge::{EdgeBuffer, EdgePixel};
use crate::types::{AsciiCell, ascii_ramp, edge_ramp, luminance_spec, calculate_luminance};
use crate::types::default_ramp;

verus! {

/// The ramp slot for a luminance value: `lum * len / 256`, clamped to the
/// last slot.
pub open spec fn ramp_index(lum: int, ramp_len: int) -> int {
    if lum * ramp_len / 256 < ramp_len - 1 {
        lum * ramp_len / 256
    } else {
        ramp_len - 1
    }
}

/// The cell a pixel quantizes to: the ramp character of its luminance,
/// colored with the pixel's own RGB.
pub open spec fn quantized_cell(p: Pixel, ramp: Seq<char>) -> AsciiCell {
    AsciiCell {
        ch: ramp[ramp_index(luminance_spec(p.r, p.g, p.b), ramp.len() as int)],
        r: p.r,
        g: p.g,
        b: p.b,
    }
}

/// The cell an edge entry quantizes to: a black space where there is no
/// edge, else the directional glyph colored with the captured RGB.
pub open spec fn edge_cell(p: EdgePixel) -> AsciiCell {
    match p {
        EdgePixel::NoEdge => AsciiCell { ch: ' ', r: 0, g: 0, b: 0 },
        EdgePixel::Edge { r, g, b, dir } => AsciiCell { ch: edge_ramp()[dir as int], r, g, b },
    }
}

/// Quantizes one pixel against a character ramp.
fn quantize_pixel(p: Pixel, charset: &Vec<char>) -> (c: AsciiCell)
    requires
        charset@.len() > 0,
    ensures
        c == quantized_cell(p, charset@),
{
    let lum = calculate_luminance(p.r, p.g, p.b);
    let len: usize = charset.len();
    proof {
        assert((lum as int) * (len as int) <= 255 * (usize::MAX as int)) by (nonlinear_arith)
            requires
                0 <= lum <= 255,
                0 < len <= usize::MAX,
        ;
    }
    let scaled: u128 = (lum as u128) * (len as u128) / 256;
    let idx: usize = if scaled < (len - 1) as u128 {
        scaled as usize
    } else {
        len - 1
    };
    AsciiCell { ch: charset[idx], r: p.r, g: p.g, b: p.b }
}

/// Converts an image into a grid of cells, one per pixel, using the given
/// character ramp ordered darkest first.
#[verifier::loop_isolation(false)]
pub fn generate_ascii_with_charset(img: &PixelBuffer, charset: &Vec<char>) -> (cells: Vec<
    Vec<AsciiCell>,
>)
    requires
        img.wf(),
        charset@.len() > 0,
    ensures
        cells@.len() == img.height,
        forall|y: int| 0 <= y < img.height ==> (#[trigger] cells@[y])@.len() == img.width,
        forall|x: int, y: int|
            0 <= x < img.width && 0 <= y < img.height ==> #[trigger] cells@[y]@[x]
                == quantized_cell(img.px(x, y), charset@),
{
    let w = img.width;
    let h = img.height;
    let mut cells: Vec<Vec<AsciiCell>> = Vec::new();
    let mut y: u32 = 0;
    while y < h
        invariant
            y <= h,
            cells@.len() == y,
            forall|yy: int| 0 <= yy < y ==> (#[trigger] cells@[yy])@.len() == img.width,
            forall|xx: int, yy: int|
                0 <= xx < img.width && 0 <= yy < y ==> #[trigger] cells@[yy]@[xx]
                    == quantized_cell(img.px(xx, yy), charset@),
        decreases h - y,
    {
        let mut row: Vec<AsciiCell> = Vec::new();
        let mut x: u32 = 0;
        while x < w
            invariant
                x <= w,
                y < h,
                row@.len() == x,
                forall|xx: int|
                    0 <= xx < x ==> #[trigger] row@[xx] == quantized_cell(
                        img.px(xx, y as int),
                        charset@,
                    ),
            decreases w - x,
        {
            let p = img.get(x, y);
            row.push(quantize_pixel(p, charset));
            x = x + 1;
        }
        cells.push(row);
        y = y + 1;
    }
    cells
}

/// Converts an image into a grid of cells using the default ramp.
pub fn generate_ascii(img: &PixelBuffer) -> (cells: Vec<Vec<AsciiCell>>)
    requires
        img.wf(),
    ensures
        cells@.len() == img.height,
        forall|y: int| 0 <= y < img.height ==> (#[trigger] cells@[y])@.len() == img.width,
        forall|x: int, y: int|
            0 <= x < img.width && 0 <= y < img.height ==> #[trigger] cells@[y]@[x]
                == quantized_cell(img.px(x, y), ascii_ramp()),
{
    let ramp = default_ramp();
    generate_ascii_with_charset(img, &ramp)
}

/// The glyph at a slot of the edge ramp.
fn edge_ramp_char(idx: u8) -> (c: char)
    requires
        idx < 8,
    ensures
        c == edge_ramp()[idx as int],
{
    match idx {
        0 => '|',
        1 => '/',
        2 => '-',
        3 => '\\',
        4 => '+',
        5 => '*',
        6 => '.',
        _ => ' ',
    }
}

/// Converts an edge-detected buffer into a grid of cells: spaces where no
/// edge was found, directional glyphs in the captured color elsewhere.
#[verifier::loop_isolation(false)]
pub fn generate_ascii_edges(edges: &EdgeBuffer) -> (cells: Vec<Vec<AsciiCell>>)
    requires
        edges.wf(),
    ensures
        cells@.len() == edges.height,
        forall|y: int| 0 <= y < edges.height ==> (#[trigger] cells@[y])@.len() == edges.width,
        forall|x: int, y: int|
            0 <= x < edges.width && 0 <= y < edges.height ==> #[trigger] cells@[y]@[x]
                == edge_cell(edges.px(x, y)),
{
    let w = edges.width;
    let h = edges.height;
    let mut cells: Vec<Vec<AsciiCell>> = Vec::new();
    let mut y: u32 = 0;
    while y < h
        invariant
            y <= h,
            cells@.len() == y,
            forall|yy: int| 0 <= yy < y ==> (#[trigger] cells@[yy])@.len() == edges.width,
            forall|xx: int, yy: int|
                0 <= xx < edges.width && 0 <= yy < y ==> #[trigger] cells@[yy]@[xx] == edge_cell(
                    edges.px(xx, yy),
                ),
        decreases h - y,
    {
        let mut row: Vec<AsciiCell> = Vec::new();
        let mut x: u32 = 0;
        while x < w
            invariant
                x <= w,
                y < h,
                row@.len() == x,
                forall|xx: int|
                    0 <= xx < x ==> #[trigger] row@[xx] == edge_cell(edges.px(xx, y as int)),
            decreases w - x,
        {
            let cell = match edges.get(x, y) {
                EdgePixel::NoEdge => AsciiCell { ch: ' ', r: 0, g: 0, b: 0 },
                EdgePixel::Edge { r, g, b, dir } => AsciiCell {
                    ch: edge_ramp_char(dir),
                    r,
                    g,
                    b,
                },
            };
            row.push(cell);
            x = x + 1;
        }
        cells.push(row);
        y = y + 1;
    }
    cells
}

/// A luminance value's ramp slot always lies within the ramp.
pub proof fn lemma_ramp_index_in_range(lum: int, len: int)
    requires
        0 <= lum,
        0 < len,
    ensures
        0 <= ramp_index(lum, len) < len,
{
    assert(lum * len >= 0) by (nonlinear_arith)
        requires
            lum >= 0,
            len > 0,
    ;
    vstd::arithmetic::div_mod::lemma_div_pos_is_pos(lum * len, 256);
}

/// Every cell the luminance quantizer produces carries a printable
/// character: one of the default ramp's glyphs.
pub proof fn lemma_quantized_cell_printable(p: Pixel)
    ensures
        crate::render::printable(quantized_cell(p, ascii_ramp()).ch),
{
    crate::types::lemma_luminance_bounds(p.r, p.g, p.b);
    lemma_ramp_index_in_range(luminance_spec(p.r, p.g, p.b), 10);
    let i = ramp_index(luminance_spec(p.r, p.g, p.b), 10);
    assert(crate::render::printable(ascii_ramp()[i]));
}

/// Every cell the edge quantizer produces carries a printable character:
/// a space or one of the four directional glyphs.
pub proof fn lemma_edge_cell_printable(p: EdgePixel)
    requires
        p matches EdgePixel::Edge { dir, .. } ==> dir < 4,
    ensures
        crate::render::printable(edge_cell(p).ch),
{
    match p {
        EdgePixel::NoEdge => {
            assert(crate::render::printable(' '));
        },
        EdgePixel::Edge { dir, .. } => {
            assert(crate::render::printable(edge_ramp()[dir as int]));
        },
    }
}

/// Pure black quantizes to the darkest character of the default ramp and
/// pure white to its lightest, each keeping its own color.
pub proof fn lemma_quantize_extremes(black: Pixel, white: Pixel)
    requires
        black.r == 0 && black.g == 0 && black.b == 0,
        white.r == 255 && white.g == 255 && white.b == 255,
    ensures
        quantized_cell(black, ascii_ramp()).ch == '@',
        quantized_cell(white, ascii_ramp()).ch == ' ',
{
    assert(luminance_spec(0, 0, 0) == 0);
    assert(luminance_spec(255, 255, 255) == 255);
    assert(ramp_index(0, 10) == 0);
    assert(ramp_index(255, 10) == 9);
    assert(ascii_ramp()[0] == '@');
    assert(ascii_ramp()[9] == ' ');
}

} // verus!
