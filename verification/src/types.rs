//! Core cell type, luminance computation, and the fixed character ramps.

use vstd::prelude::*;

verus! {

/// One output grid unit: a display character paired with an RGB color.
#[derive(Clone, Copy, Debug, PartialEq, Eq, Structural)]
pub struct AsciiCell {
    pub ch: char,
    pub r: u8,
    pub g: u8,
    pub b: u8,
}

/// Perceptual brightness of an RGB triple, by the ITU-R BT.601 weights
/// 0.299 / 0.587 / 0.114, computed exactly over integers scaled by 1000
/// and truncated.
pub open spec fn luminance_spec(r: u8, g: u8, b: u8) -> int {
    (299 * r + 587 * g + 114 * b) / 1000
}

/// Luminance of an RGB triple. The weights sum to 1000, so the result
/// always fits in a byte.
pub fn calculate_luminance(r: u8, g: u8, b: u8) -> (lum: u8)
    ensures
        lum == luminance_spec(r, g, b),
{
    let v: u32 = 299 * (r as u32) + 587 * (g as u32) + 114 * (b as u32);
    (v / 1000) as u8
}

/// Every luminance value lies in the byte range, and the extremes of the
/// RGB cube map to the extremes of the range: pure black to 0, pure white
/// to 255.
pub proof fn lemma_luminance_bounds(r: u8, g: u8, b: u8)
    ensures
        0 <= luminance_spec(r, g, b) <= 255,
        luminance_spec(0, 0, 0) == 0,
        luminance_spec(255, 255, 255) == 255,
{
}

/// The default ramp, ordered from darkest/densest to lightest/sparsest.
pub open spec fn ascii_ramp() -> Seq<char> {
    seq!['@', '%', '#', '*', '+', '=', '-', ':', '.', ' ']
}

/// The edge ramp, indexed by direction class: vertical, diagonal rising,
/// horizontal, diagonal falling, then unused filler glyphs.
pub open spec fn edge_ramp() -> Seq<char> {
    seq!['|', '/', '-', '\\', '+', '*', '.', ' ']
}

/// The default ramp as an executable vector.
pub fn default_ramp() -> (v: Vec<char>)
    ensures
        v@ == ascii_ramp(),
{
    let v = vec!['@', '%', '#', '*', '+', '=', '-', ':', '.', ' '];
    proof {
        assert(v@ =~= ascii_ramp());
    }
    v
}

/// The edge ramp as an executable vector.
pub fn default_edge_ramp() -> (v: Vec<char>)
    ensures
        v@ == edge_ramp(),
{
    let v = vec!['|', '/', '-', '\\', '+', '*', '.', ' '];
    proof {
        assert(v@ =~= edge_ramp());
    }
    v
}

} // verus!
