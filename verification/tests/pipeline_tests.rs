//! End-to-end and per-stage tests of the conversion pipeline.

use img2ascii::pixel::{Pixel, PixelBuffer};
use img2ascii::resample::{compute_target_height, resample, ConvertError};
use img2ascii::quantize::{generate_ascii, generate_ascii_edges};
use img2ascii::edge::{direction_class, sobel_edge_detection, EdgePixel};
use img2ascii::render::render_ansi;
use img2ascii::types::{calculate_luminance, default_edge_ramp, default_ramp};
use img2ascii::pipeline::convert_pixels;

fn px(r: u8, g: u8, b: u8) -> Pixel {
    Pixel { r, g, b, a: 255 }
}

fn uniform(width: u32, height: u32, p: Pixel) -> PixelBuffer {
    let n = (width as usize) * (height as usize);
    PixelBuffer {
        width,
        height,
        pixels: vec![p; n],
    }
}

#[test]
fn resample_dimensions_match_target() {
    let src = uniform(7, 5, px(9, 9, 9));
    let out = resample(&src, 3, Some(4)).unwrap();
    assert_eq!(out.width, 3);
    assert_eq!(out.height, 4);
    assert_eq!(out.pixels.len(), 12);
}

#[test]
fn resample_to_same_size_is_identity() {
    let mut pixels = Vec::new();
    for i in 0..9u8 {
        pixels.push(px(i, 2 * i, 3 * i));
    }
    let src = PixelBuffer {
        width: 3,
        height: 3,
        pixels: pixels.clone(),
    };
    let out = resample(&src, 3, Some(3)).unwrap();
    assert_eq!(out.pixels, pixels);
}

#[test]
fn resample_rejects_zero_source_width() {
    let src = PixelBuffer {
        width: 0,
        height: 4,
        pixels: Vec::new(),
    };
    assert_eq!(resample(&src, 10, Some(10)), Err(ConvertError::InvalidDimensions));
}

#[test]
fn resample_rejects_zero_target_width() {
    let src = uniform(4, 4, px(1, 2, 3));
    assert_eq!(resample(&src, 0, Some(4)), Err(ConvertError::InvalidDimensions));
}

#[test]
fn resample_rejects_collapsed_height() {
    // a wide, flat source: 100x1 resampled to width 2 computes
    // round(2 * (1/100) * 0.43) = 0 rows
    let src = uniform(100, 1, px(1, 2, 3));
    assert_eq!(compute_target_height(100, 1, 2), 0);
    assert_eq!(resample(&src, 2, None), Err(ConvertError::InvalidDimensions));
}

#[test]
fn target_height_rounds_to_nearest() {
    // 80 columns over a 100x50 source: 80 * 0.5 * 0.43 = 17.2 -> 17
    assert_eq!(compute_target_height(100, 50, 80), 17);
    // 2 columns over a square source: 2 * 1 * 0.43 = 0.86 -> 1
    assert_eq!(compute_target_height(2, 2, 2), 1);
}

#[test]
fn resample_samples_nearest_pixel() {
    // 4x2 source downsampled to 2x1: output (x, 0) takes source (x*4/2, 0*2/1)
    let pixels = vec![
        px(0, 0, 0),
        px(10, 0, 0),
        px(20, 0, 0),
        px(30, 0, 0),
        px(40, 0, 0),
        px(50, 0, 0),
        px(60, 0, 0),
        px(70, 0, 0),
    ];
    let src = PixelBuffer { width: 4, height: 2, pixels };
    let out = resample(&src, 2, Some(1)).unwrap();
    assert_eq!(out.pixels, vec![px(0, 0, 0), px(20, 0, 0)]);
}

#[test]
fn ramps_run_darkest_to_lightest() {
    assert_eq!(default_ramp(), "@%#*+=-:. ".chars().collect::<Vec<char>>());
    assert_eq!(default_edge_ramp(), "|/-\\+*. ".chars().collect::<Vec<char>>());
}

#[test]
fn luminance_extremes_and_formula() {
    assert_eq!(calculate_luminance(0, 0, 0), 0);
    assert_eq!(calculate_luminance(255, 255, 255), 255);
    // 0.299 * 255 = 76.245 -> 76
    assert_eq!(calculate_luminance(255, 0, 0), 76);
    // 0.587 * 255 = 149.685 -> 149
    assert_eq!(calculate_luminance(0, 255, 0), 149);
    // 0.114 * 255 = 29.07 -> 29
    assert_eq!(calculate_luminance(0, 0, 255), 29);
}

#[test]
fn quantize_black_to_darkest_and_white_to_lightest() {
    let black = uniform(1, 1, px(0, 0, 0));
    let cells = generate_ascii(&black);
    assert_eq!(cells[0][0].ch, '@');
    assert_eq!((cells[0][0].r, cells[0][0].g, cells[0][0].b), (0, 0, 0));
    let white = uniform(1, 1, px(255, 255, 255));
    let cells = generate_ascii(&white);
    assert_eq!(cells[0][0].ch, ' ');
    assert_eq!((cells[0][0].r, cells[0][0].g, cells[0][0].b), (255, 255, 255));
}

#[test]
fn all_red_two_by_two_to_width_two_scenario() {
    // 2x2 all-red source, width 2: computed height is round(2*1*0.43) = 1,
    // luminance 76 falls in ramp slot floor(76*10/256) = 2, character '#'
    let src = uniform(2, 2, px(255, 0, 0));
    let resized = resample(&src, 2, None).unwrap();
    assert_eq!(resized.width, 2);
    assert_eq!(resized.height, 1);
    let cells = generate_ascii(&resized);
    assert_eq!(cells.len(), 1);
    assert_eq!(cells[0].len(), 2);
    for cell in &cells[0] {
        assert_eq!(cell.ch, '#');
        assert_eq!((cell.r, cell.g, cell.b), (255, 0, 0));
    }
}

#[test]
fn uniform_image_has_no_edges_at_positive_threshold() {
    let src = uniform(6, 6, px(40, 180, 90));
    for threshold in [1u8, 100, 255] {
        let edges = sobel_edge_detection(&src, threshold);
        assert!(edges.pixels.iter().all(|p| *p == EdgePixel::NoEdge));
    }
}

#[test]
fn threshold_zero_marks_every_interior_pixel() {
    // the rule is `magnitude >= threshold`, so a zero threshold admits
    // even a zero gradient: every interior pixel of a uniform image is
    // marked an edge, classified as horizontal
    let src = uniform(4, 4, px(10, 10, 10));
    let edges = sobel_edge_detection(&src, 0);
    for y in 0..4u32 {
        for x in 0..4u32 {
            let p = edges.pixels[(y * 4 + x) as usize];
            if x == 0 || y == 0 || x == 3 || y == 3 {
                assert_eq!(p, EdgePixel::NoEdge);
            } else {
                assert_eq!(p, EdgePixel::Edge { r: 10, g: 10, b: 10, dir: 2 });
            }
        }
    }
}

#[test]
fn borders_are_never_edges() {
    // a noisy image with strong gradients everywhere
    let mut pixels = Vec::new();
    for i in 0..25u32 {
        let v = if i % 2 == 0 { 255 } else { 0 };
        pixels.push(px(v, v, v));
    }
    let src = PixelBuffer { width: 5, height: 5, pixels };
    let edges = sobel_edge_detection(&src, 0);
    for y in 0..5u32 {
        for x in 0..5u32 {
            if x == 0 || y == 0 || x == 4 || y == 4 {
                assert_eq!(edges.pixels[(y * 5 + x) as usize], EdgePixel::NoEdge);
            }
        }
    }
}

#[test]
fn max_threshold_boundary_is_inclusive() {
    // left column white on black: the center pixel's gradient is
    // (-1020, 0), squared magnitude 1040400, clamped magnitude 255, and
    // 255 >= 255 holds, so threshold 255 still marks it an edge
    let mut pixels = Vec::new();
    for y in 0..3u32 {
        for x in 0..3u32 {
            let v = if x == 0 { 255 } else { 0 };
            pixels.push(px(v, v, v));
            let _ = y;
        }
    }
    let src = PixelBuffer { width: 3, height: 3, pixels };
    let edges = sobel_edge_detection(&src, 255);
    assert_eq!(edges.pixels[4], EdgePixel::Edge { r: 0, g: 0, b: 0, dir: 2 });
    // a gentler slope stays below the squared threshold and is dropped:
    // gradient (-12, 0) from a 3-level grey ramp
    let mut soft = Vec::new();
    for y in 0..3u32 {
        for x in 0..3u32 {
            let v = (x as u8) * 3;
            soft.push(px(v, v, v));
            let _ = y;
        }
    }
    let src = PixelBuffer { width: 3, height: 3, pixels: soft };
    let edges = sobel_edge_detection(&src, 255);
    assert!(edges.pixels.iter().all(|p| *p == EdgePixel::NoEdge));
}

#[test]
fn direction_classes_cover_the_four_glyph_slots() {
    // horizontal gradient -> '-' slot (2)
    assert_eq!(direction_class(1020, 0), 2);
    assert_eq!(direction_class(-1020, 0), 2);
    // vertical gradient -> '|' slot (0)
    assert_eq!(direction_class(0, 900), 0);
    assert_eq!(direction_class(0, -900), 0);
    // same-sign diagonal -> '/' slot (1)
    assert_eq!(direction_class(500, 500), 1);
    assert_eq!(direction_class(-500, -500), 1);
    // opposite-sign diagonal -> '\' slot (3)
    assert_eq!(direction_class(500, -500), 3);
    assert_eq!(direction_class(-500, 500), 3);
    // zero gradient counts as horizontal, like a zero angle
    assert_eq!(direction_class(0, 0), 2);
}

#[test]
fn edge_cells_use_directional_glyphs_and_captured_color() {
    // vertical white stripe through the middle of a 5x5 black image:
    // the stripe's flanks have horizontal gradients, rendered as '-'
    let mut pixels = Vec::new();
    for y in 0..5u32 {
        for x in 0..5u32 {
            let v = if x == 2 { 255 } else { 0 };
            pixels.push(px(v, v, v));
            let _ = y;
        }
    }
    let src = PixelBuffer { width: 5, height: 5, pixels };
    let edges = sobel_edge_detection(&src, 100);
    let cells = generate_ascii_edges(&edges);
    assert_eq!(cells.len(), 5);
    for row in &cells {
        assert_eq!(row.len(), 5);
    }
    // no-edge cells are black spaces
    assert_eq!(cells[0][0].ch, ' ');
    assert_eq!((cells[0][0].r, cells[0][0].g, cells[0][0].b), (0, 0, 0));
    // the stripe column itself has zero gradient (both flanks cancel);
    // its neighbors carry the edge, classified horizontal
    assert_eq!(cells[2][1].ch, '-');
    assert_eq!(cells[2][3].ch, '-');
}

#[test]
fn convert_pixels_matches_stage_by_stage_run() {
    let src = uniform(8, 8, px(200, 100, 50));
    let cells = convert_pixels(&src, 4, None, false, 100).unwrap();
    let resized = resample(&src, 4, None).unwrap();
    let expected = generate_ascii(&resized);
    assert_eq!(cells, expected);
    let cells = convert_pixels(&src, 4, Some(4), true, 10).unwrap();
    let resized = resample(&src, 4, Some(4)).unwrap();
    let expected = generate_ascii_edges(&sobel_edge_detection(&resized, 10));
    assert_eq!(cells, expected);
}

#[test]
fn convert_pixels_propagates_invalid_dimensions() {
    let src = PixelBuffer { width: 0, height: 0, pixels: Vec::new() };
    assert_eq!(convert_pixels(&src, 10, None, false, 0), Err(ConvertError::InvalidDimensions));
}

#[test]
fn explicit_height_overrides_aspect_correction() {
    let src = uniform(10, 10, px(0, 0, 0));
    let out = resample(&src, 4, Some(9)).unwrap();
    assert_eq!((out.width, out.height), (4, 9));
    // without the override the height follows the 0.43 aspect factor:
    // round(4 * 1 * 0.43) = 2
    let out = resample(&src, 4, None).unwrap();
    assert_eq!((out.width, out.height), (4, 2));
}

#[test]
fn checkerboard_end_to_end_plain_text() {
    let mut pixels = Vec::new();
    for i in 0..9u32 {
        let v = if i % 2 == 0 { 0 } else { 255 };
        pixels.push(px(v, v, v));
    }
    let src = PixelBuffer { width: 3, height: 3, pixels };
    let cells = convert_pixels(&src, 3, Some(3), false, 0).unwrap();
    assert_eq!(render_ansi(&cells, false), "@ @\n @ \n@ @\n");
}

#[test]
fn terminal_rendering_of_quantized_grid() {
    let src = uniform(2, 1, px(255, 0, 0));
    let cells = generate_ascii(&src);
    assert_eq!(render_ansi(&cells, false), "##\n");
    assert_eq!(
        render_ansi(&cells, true),
        "\u{1b}[38;2;255;0;0m#\u{1b}[0m\u{1b}[38;2;255;0;0m#\u{1b}[0m\n"
    );
}
