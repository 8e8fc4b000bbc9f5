//! The pipeline assembled end to end: resample, optionally edge-detect,
//! quantize, and pick the rendering a file format asks for.

use vstd::prelude::*;
use crate::cli::OutputFormat;
use crate::pixel::PixelBuffer;
use crate::resample::{ConvertError, is_resampled, resample, resolved_height};
use crate::edge::{edge_at, sobel_edge_detection};
use crate::quantize::{edge_cell, generate_ascii, generate_ascii_edges, quantized_cell};
use crate::render::{ansi_text, grid_view, html_doc, plain_text, render_ansi, render_html};
use crate::render::lemma_ansi_without_color_is_plain;
use crate::types::{AsciiCell, ascii_ramp};

verus! {

/// Whether `cells` is the luminance-mode quantization of `img`: one cell
/// per pixel, each the ramp character of its pixel's luminance in the
/// pixel's color.
pub open spec fn is_quantized_grid(img: PixelBuffer, cells: Seq<Seq<AsciiCell>>) -> bool {
    &&& cells.len() == img.height
    &&& forall|y: int| 0 <= y < img.height ==> (#[trigger] cells[y]).len() == img.width
    &&& forall|x: int, y: int|
        0 <= x < img.width && 0 <= y < img.height ==> #[trigger] cells[y][x] == quantized_cell(
            img.px(x, y),
            ascii_ramp(),
        )
}

/// Whether `cells` is the edge-mode quantization of `img` at `threshold`:
/// one cell per pixel, spaces off the edges, directional glyphs on them.
pub open spec fn is_edge_grid(img: PixelBuffer, threshold: u8, cells: Seq<Seq<AsciiCell>>) -> bool {
    &&& cells.len() == img.height
    &&& forall|y: int| 0 <= y < img.height ==> (#[trigger] cells[y]).len() == img.width
    &&& forall|x: int, y: int|
        0 <= x < img.width && 0 <= y < img.height ==> #[trigger] cells[y][x] == edge_cell(
            edge_at(img, threshold, x, y),
        )
}

/// Runs the conversion stages on a decoded image: resample to the target
/// grid, then quantize, through edge detection when `edges` is set. Fails
/// with `InvalidDimensions` exactly when a source dimension is zero or the
/// target grid would be empty; the resampled intermediate the grid is
/// quantized from is pinned pointwise by `is_resampled`.
pub fn convert_pixels(
    img: &PixelBuffer,
    width: u32,
    height: Option<u32>,
    edges: bool,
    edge_threshold: u8,
) -> (r: Result<Vec<Vec<AsciiCell>>, ConvertError>)
    requires
        img.wf(),
        width * resolved_height(img.width, img.height, width, height) <= usize::MAX,
    ensures
        ({
            let th = resolved_height(img.width, img.height, width, height);
            &&& (r is Err <==> img.width == 0 || img.height == 0 || width == 0 || th == 0)
            &&& (r is Err ==> r == Err::<Vec<Vec<AsciiCell>>, ConvertError>(
                ConvertError::InvalidDimensions,
            ))
            &&& (r is Ok ==> exists|resized: PixelBuffer|
                {
                    &&& #[trigger] is_resampled(*img, width as int, th, resized)
                    &&& if edges {
                        is_edge_grid(resized, edge_threshold, grid_view(r->Ok_0@))
                    } else {
                        is_quantized_grid(resized, grid_view(r->Ok_0@))
                    }
                })
        }),
{
    let resized = match resample(img, width, height) {
        Ok(b) => b,
        Err(e) => {
            return Err(e);
        },
    };
    if edges {
        let edge_buf = sobel_edge_detection(&resized, edge_threshold);
        let cells = generate_ascii_edges(&edge_buf);
        proof {
            let th = resolved_height(img.width, img.height, width, height);
            assert(is_resampled(*img, width as int, th, resized));
            assert(is_edge_grid(resized, edge_threshold, grid_view(cells@)));
        }
        Ok(cells)
    } else {
        let cells = generate_ascii(&resized);
        proof {
            let th = resolved_height(img.width, img.height, width, height);
            assert(is_resampled(*img, width as int, th, resized));
            assert(is_quantized_grid(resized, grid_view(cells@)));
        }
        Ok(cells)
    }
}

/// The plain rendering of a luminance-quantized grid is clean: every
/// character is printable except the row-terminating newlines.
pub proof fn lemma_quantized_plain_text_clean(img: PixelBuffer, cells: Seq<Seq<AsciiCell>>)
    requires
        is_quantized_grid(img, cells),
    ensures
        crate::render::text_is_clean(plain_text(cells)),
{
    assert forall|y: int, x: int|
        0 <= y < cells.len() && 0 <= x < cells[y].len() implies crate::render::printable(
        (#[trigger] cells[y][x]).ch,
    ) by {
        crate::quantize::lemma_quantized_cell_printable(img.px(x, y));
    }
    crate::render::lemma_plain_text_clean(cells);
}

/// The plain rendering of an edge-quantized grid is clean in the same way.
pub proof fn lemma_edge_grid_plain_text_clean(
    img: PixelBuffer,
    threshold: u8,
    cells: Seq<Seq<AsciiCell>>,
)
    requires
        is_edge_grid(img, threshold, cells),
    ensures
        crate::render::text_is_clean(plain_text(cells)),
{
    assert forall|y: int, x: int|
        0 <= y < cells.len() && 0 <= x < cells[y].len() implies crate::render::printable(
        (#[trigger] cells[y][x]).ch,
    ) by {
        crate::edge::lemma_direction_class_bound(
            crate::edge::sobel_gx_spec(img, x, y),
            crate::edge::sobel_gy_spec(img, x, y),
        );
        crate::quantize::lemma_edge_cell_printable(edge_at(img, threshold, x, y));
    }
    crate::render::lemma_plain_text_clean(cells);
}

/// What a file of each format holds for a grid: the HTML document, the
/// ANSI text honoring the color flag, or the plain text.
pub open spec fn file_rendering(
    grid: Seq<Seq<AsciiCell>>,
    format: OutputFormat,
    color: bool,
) -> Seq<char> {
    match format {
        OutputFormat::Html => html_doc(grid),
        OutputFormat::Ansi => ansi_text(grid, color),
        OutputFormat::Txt => plain_text(grid),
    }
}

/// Renders a grid as the chosen file format asks: HTML as a document,
/// ANSI with the color flag as given, plain text with color stripped.
pub fn render_for_format(cells: &Vec<Vec<AsciiCell>>, format: &OutputFormat, color: bool) -> (out:
    String)
    ensures
        out@ == file_rendering(grid_view(cells@), *format, color),
{
    match format {
        OutputFormat::Html => render_html(cells),
        OutputFormat::Ansi => render_ansi(cells, color),
        OutputFormat::Txt => {
            let out = render_ansi(cells, false);
            proof {
                lemma_ansi_without_color_is_plain(grid_view(cells@));
            }
            out
        },
    }
}

} // verus!
