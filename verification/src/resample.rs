//! Nearest-neighbor resampling with terminal character aspect correction.

use vstd::prelude::*;
use vstd::arithmetic::div_mod::{
    lemma_fundamental_div_mod_converse, lemma_multiply_divide_lt,
};
use crate::pixel::{Pixel, PixelBuffer, lemma_row_major_index};

verus! {

/// The one failure the pipeline core can report: a source or target
/// dimension is zero, or a requested scale collapses to zero rows or
/// columns.
#[derive(Clone, Copy, Debug, PartialEq, Eq, Structural)]
pub enum ConvertError {
    InvalidDimensions,
}

/// The character-grid height computed from the source aspect ratio and the
/// fixed terminal character aspect factor of 43/100: the rounded value of
/// `target_width * (source_height / source_width) * 0.43`.
pub open spec fn target_height_spec(source_width: u32, source_height: u32, target_width: u32) -> int
    recommends
        source_width > 0,
{
    (86 * target_width * source_height + 100 * source_width) / (200 * source_width)
}

/// The row count a resample call resolves to: the explicit override when
/// one is given, else the aspect-corrected height clamped to the `u32`
/// range.
pub open spec fn resolved_height(
    source_width: u32,
    source_height: u32,
    target_width: u32,
    target_height: Option<u32>,
) -> int {
    match target_height {
        Some(h) => h as int,
        None => if target_height_spec(source_width, source_height, target_width) <= u32::MAX {
            target_height_spec(source_width, source_height, target_width)
        } else {
            u32::MAX as int
        },
    }
}

/// Aspect-corrected output height for a target width, rounded to the
/// nearest row and clamped to the `u32` range.
pub fn compute_target_height(source_width: u32, source_height: u32, target_width: u32) -> (h: u32)
    requires
        source_width > 0,
    ensures
        h == resolved_height(source_width, source_height, target_width, None),
{
    proof {
        assert(86 * (target_width as int) * (source_height as int)
            <= 86 * (u32::MAX as int) * (u32::MAX as int)) by (nonlinear_arith)
            requires
                target_width <= u32::MAX,
                source_height <= u32::MAX,
        ;
    }
    let num: u128 = 86 * (target_width as u128) * (source_height as u128)
        + 100 * (source_width as u128);
    let den: u128 = 200 * (source_width as u128);
    let q: u128 = num / den;
    if q > u32::MAX as u128 {
        u32::MAX
    } else {
        q as u32
    }
}

/// The source column sampled for output column `x`: `x * sw / tw`,
/// integer-truncated; likewise for rows.
pub open spec fn src_coord(x: int, source_dim: u32, target_dim: int) -> int {
    x * source_dim / target_dim
}

/// The pixel that flat output index `i` receives under nearest-neighbor
/// sampling into a `tw`-column, `th`-row grid.
pub open spec fn resampled_at(source: PixelBuffer, tw: int, th: int, i: int) -> Pixel {
    source.px(src_coord(i % tw, source.width, tw), src_coord(i / tw, source.height, th))
}

/// Whether `out` is the nearest-neighbor resample of `src` to a `tw` by
/// `th` grid: exact dimensions, and every output pixel taken from its
/// truncated source coordinate.
pub open spec fn is_resampled(src: PixelBuffer, tw: int, th: int, out: PixelBuffer) -> bool {
    &&& out.wf()
    &&& out.width == tw
    &&& out.height == th
    &&& forall|x: int, y: int|
        0 <= x < tw && 0 <= y < th ==> out.px(x, y) == src.px(
            src_coord(x, src.width, tw),
            src_coord(y, src.height, th),
        )
}

/// Nearest-neighbor resize of `source` to `target_width` columns and
/// either the given or the aspect-corrected number of rows. Fails with
/// `InvalidDimensions` exactly when a source dimension is zero or the
/// target grid would have zero rows or columns.
#[verifier::loop_isolation(false)]
pub fn resample(source: &PixelBuffer, target_width: u32, target_height: Option<u32>) -> (r: Result<
    PixelBuffer,
    ConvertError,
>)
    requires
        source.wf(),
        target_width * resolved_height(
            source.width,
            source.height,
            target_width,
            target_height,
        ) <= usize::MAX,
    ensures
        ({
            let th = resolved_height(source.width, source.height, target_width, target_height);
            &&& (r is Err <==> source.width == 0 || source.height == 0 || target_width == 0
                || th == 0)
            &&& (r is Err ==> r == Err::<PixelBuffer, ConvertError>(
                ConvertError::InvalidDimensions,
            ))
            &&& (r is Ok ==> is_resampled(*source, target_width as int, th, r->Ok_0))
            &&& (r is Ok && target_width == source.width && th == source.height
                ==> r->Ok_0.pixels@ == source.pixels@)
        }),
{
    let sw = source.width;
    let sh = source.height;
    if sw == 0 || sh == 0 {
        return Err(ConvertError::InvalidDimensions);
    }
    let th: u32 = match target_height {
        Some(h) => h,
        None => compute_target_height(sw, sh, target_width),
    };
    let tw = target_width;
    if tw == 0 || th == 0 {
        return Err(ConvertError::InvalidDimensions);
    }
    let mut pixels: Vec<Pixel> = Vec::new();
    let mut y: u32 = 0;
    while y < th
        invariant
            y <= th,
            pixels@.len() == y * tw,
            forall|i: int|
                0 <= i < pixels@.len() ==> #[trigger] pixels@[i] == resampled_at(
                    *source,
                    tw as int,
                    th as int,
                    i,
                ),
        decreases th - y,
    {
        let mut x: u32 = 0;
        while x < tw
            invariant
                x <= tw,
                y < th,
                pixels@.len() == y * tw + x,
                forall|i: int|
                    0 <= i < pixels@.len() ==> #[trigger] pixels@[i] == resampled_at(
                        *source,
                        tw as int,
                        th as int,
                        i,
                    ),
            decreases tw - x,
        {
            proof {
                assert((x as int) * (sw as int) <= (u32::MAX as int) * (u32::MAX as int))
                    by (nonlinear_arith)
                    requires
                        x <= u32::MAX,
                        sw <= u32::MAX,
                ;
                assert((y as int) * (sh as int) <= (u32::MAX as int) * (u32::MAX as int))
                    by (nonlinear_arith)
                    requires
                        y <= u32::MAX,
                        sh <= u32::MAX,
                ;
                assert((x as int) * (sw as int) < (tw as int) * (sw as int)) by (nonlinear_arith)
                    requires
                        0 <= x < tw,
                        sw > 0,
                ;
                lemma_multiply_divide_lt((x as int) * (sw as int), tw as int, sw as int);
                assert((y as int) * (sh as int) < (th as int) * (sh as int)) by (nonlinear_arith)
                    requires
                        0 <= y < th,
                        sh > 0,
                ;
                lemma_multiply_divide_lt((y as int) * (sh as int), th as int, sh as int);
            }
            let sx: u32 = ((x as u64) * (sw as u64) / (tw as u64)) as u32;
            let sy: u32 = ((y as u64) * (sh as u64) / (th as u64)) as u32;
            let p = source.get(sx, sy);
            proof {
                lemma_row_major_index(tw as int, th as int, x as int, y as int);
                lemma_fundamental_div_mod_converse(
                    (y as int) * (tw as int) + (x as int),
                    tw as int,
                    y as int,
                    x as int,
                );
                assert(resampled_at(*source, tw as int, th as int, pixels@.len() as int) == p);
            }
            pixels.push(p);
            x = x + 1;
        }
        proof {
            assert((y + 1) * (tw as int) == y * (tw as int) + tw) by (nonlinear_arith);
        }
        y = y + 1;
    }
    proof {
        assert(pixels@.len() == (th as int) * (tw as int));
        assert((th as int) * (tw as int) == (tw as int) * (th as int)) by (nonlinear_arith);
    }
    let out = PixelBuffer { width: tw, height: th, pixels };
    proof {
        assert forall|x: int, y: int| 0 <= x < tw && 0 <= y < th implies out.px(x, y) == source.px(
            src_coord(x, sw, tw as int),
            src_coord(y, sh, th as int),
        ) by {
            lemma_row_major_index(tw as int, th as int, x, y);
            lemma_fundamental_div_mod_converse(y * (tw as int) + x, tw as int, y, x);
        }
        if tw == sw && th == sh {
            assert forall|i: int| 0 <= i < out.pixels@.len() implies out.pixels@[i]
                == source.pixels@[i] by {
                lemma_identity_index(*source, i);
            }
            assert(out.pixels@ =~= source.pixels@);
        }
    }
    Ok(out)
}

/// Resampling a buffer to its own dimensions samples each pixel from
/// itself: index `i` of the output equals index `i` of the source.
proof fn lemma_identity_index(source: PixelBuffer, i: int)
    requires
        source.wf(),
        source.width > 0,
        source.height > 0,
        0 <= i < source.pixels@.len(),
    ensures
        resampled_at(source, source.width as int, source.height as int, i) == source.pixels@[i],
{
    let w = source.width as int;
    let h = source.height as int;
    vstd::arithmetic::div_mod::lemma_fundamental_div_mod(i, w);
    vstd::arithmetic::div_mod::lemma_mod_pos_bound(i, w);
    let x = i % w;
    let y = i / w;
    assert(0 <= y < h) by (nonlinear_arith)
        requires
            i == y * w + x,
            0 <= x < w,
            0 <= i < w * h,
    ;
    assert(x * w / w == x) by {
        vstd::arithmetic::div_mod::lemma_div_by_multiple(x, w);
    }
    assert(y * h / h == y) by {
        vstd::arithmetic::div_mod::lemma_div_by_multiple(y, h);
    }
    assert(src_coord(x, source.width, w) == x);
    assert(src_coord(y, source.height, h) == y);
    assert(source.px(x, y) == source.pixels@[y * w + x]);
}

} // verus!
