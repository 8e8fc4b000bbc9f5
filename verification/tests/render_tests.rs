//! Tests of the renderers and the output file naming.

use img2ascii::cli::OutputFormat;
use img2ascii::output::output_filename;
use img2ascii::pixel::{Pixel, PixelBuffer};
use img2ascii::quantize::generate_ascii;
use img2ascii::render::{html_escape, render_ansi, render_html, render_plain};
use img2ascii::pipeline::render_for_format;
use img2ascii::types::AsciiCell;

fn cell(ch: char, r: u8, g: u8, b: u8) -> AsciiCell {
    AsciiCell { ch, r, g, b }
}

fn grid_of(text: &str, r: u8, g: u8, b: u8) -> Vec<Vec<AsciiCell>> {
    vec![text.chars().map(|ch| cell(ch, r, g, b)).collect()]
}

const HTML_HEADER: &str = "<!DOCTYPE html>\n<html>\n<head>\n<meta charset=\"utf-8\">\n<style>\npre {\n  font-family: monospace;\n  line-height: 1;\n  font-size: 8px;\n}\n</style>\n</head>\n<body>\n<pre>\n";
const HTML_FOOTER: &str = "</pre></body></html>";

#[test]
fn plain_rendering_joins_rows_with_newlines() {
    let cells = vec![
        vec![cell('a', 1, 2, 3), cell('b', 4, 5, 6)],
        vec![cell('c', 7, 8, 9), cell('d', 0, 0, 0)],
    ];
    assert_eq!(render_plain(&cells), "ab\ncd\n");
}

#[test]
fn ansi_without_color_equals_plain() {
    let src = PixelBuffer {
        width: 3,
        height: 2,
        pixels: vec![
            Pixel { r: 0, g: 0, b: 0, a: 255 },
            Pixel { r: 50, g: 60, b: 70, a: 255 },
            Pixel { r: 255, g: 255, b: 255, a: 255 },
            Pixel { r: 10, g: 200, b: 30, a: 255 },
            Pixel { r: 90, g: 90, b: 90, a: 255 },
            Pixel { r: 128, g: 128, b: 128, a: 255 },
        ],
    };
    let cells = generate_ascii(&src);
    assert_eq!(render_ansi(&cells, false), render_plain(&cells));
}

#[test]
fn plain_text_of_quantized_grid_has_no_control_characters() {
    let mut pixels = Vec::new();
    for i in 0..64u32 {
        pixels.push(Pixel { r: (i * 4) as u8, g: (255 - i * 2) as u8, b: (i * 7 % 256) as u8, a: 255 });
    }
    let src = PixelBuffer { width: 8, height: 8, pixels };
    let text = render_plain(&generate_ascii(&src));
    for c in text.chars() {
        assert!(c == '\n' || (' '..='~').contains(&c));
    }
}

#[test]
fn ansi_with_color_wraps_each_cell() {
    let cells = grid_of("x", 1, 22, 133);
    assert_eq!(render_ansi(&cells, true), "\u{1b}[38;2;1;22;133mx\u{1b}[0m\n");
}

#[test]
fn html_escape_replaces_the_three_special_characters() {
    assert_eq!(html_escape('<'), "&lt;");
    assert_eq!(html_escape('>'), "&gt;");
    assert_eq!(html_escape('&'), "&amp;");
    assert_eq!(html_escape('a'), "a");
    assert_eq!(html_escape(' '), " ");
}

#[test]
fn html_document_for_one_cell() {
    let cells = grid_of("@", 255, 0, 0);
    let expected = format!(
        "{}<span style=\"color: rgb(255,0,0)\">@</span>\n{}",
        HTML_HEADER, HTML_FOOTER
    );
    assert_eq!(render_html(&cells), expected);
}

#[test]
fn html_output_escapes_markup_in_cell_text() {
    let cells = grid_of("<name>& \"Co.\" <b>", 9, 9, 9);
    let out = render_html(&cells);
    let body = &out[HTML_HEADER.len()..out.len() - HTML_FOOTER.len()];
    // outside the generated span tags the body holds no raw markup:
    // every '<' opens a span tag, every '&' starts an entity
    let chars: Vec<char> = body.chars().collect();
    let mut inside_tag = false;
    for (i, c) in chars.iter().enumerate() {
        match c {
            '<' => {
                assert!(!inside_tag);
                let rest: String = chars[i..].iter().take(6).collect();
                assert!(rest.starts_with("<span ") || rest.starts_with("</span"));
                inside_tag = true;
            }
            '>' => {
                assert!(inside_tag, "raw '>' outside a tag at {}", i);
                inside_tag = false;
            }
            '&' => {
                if !inside_tag {
                    let rest: String = chars[i..].iter().take(5).collect();
                    assert!(
                        rest.starts_with("&lt;") || rest.starts_with("&gt;")
                            || rest.starts_with("&amp;"),
                        "raw '&' outside an entity at {}",
                        i
                    );
                }
            }
            _ => {}
        }
    }
    // and the escaped forms appear as span contents
    assert!(body.contains(">&lt;</span>"));
    assert!(body.contains(">&gt;</span>"));
    assert!(body.contains(">&amp;</span>"));
    assert!(body.contains(">\"</span>"));
}

#[test]
fn render_for_format_selects_the_renderer() {
    let cells = grid_of("=:", 10, 20, 30);
    assert_eq!(render_for_format(&cells, &OutputFormat::Txt, true), render_plain(&cells));
    assert_eq!(render_for_format(&cells, &OutputFormat::Ansi, true), render_ansi(&cells, true));
    assert_eq!(render_for_format(&cells, &OutputFormat::Ansi, false), render_plain(&cells));
    assert_eq!(render_for_format(&cells, &OutputFormat::Html, false), render_html(&cells));
}

#[test]
fn output_filename_uses_stem_and_extension() {
    assert_eq!(output_filename("photo.png", &OutputFormat::Txt), "photo.txt");
    assert_eq!(output_filename("photo.png", &OutputFormat::Html), "photo.html");
    assert_eq!(output_filename("photo.png", &OutputFormat::Ansi), "photo.ansi");
    assert_eq!(output_filename("a/b/c.tar.gz", &OutputFormat::Html), "c.tar.html");
    assert_eq!(output_filename("noext", &OutputFormat::Ansi), "noext.ansi");
    assert_eq!(output_filename("dir/trailing/", &OutputFormat::Txt), "trailing.txt");
}

#[test]
fn output_filename_keeps_a_leading_dot_name_whole() {
    assert_eq!(output_filename(".bashrc", &OutputFormat::Txt), ".bashrc.txt");
    assert_eq!(output_filename("a/.hidden.swp", &OutputFormat::Txt), ".hidden.txt");
}

#[test]
fn output_filename_falls_back_to_output() {
    assert_eq!(output_filename("", &OutputFormat::Txt), "output.txt");
    assert_eq!(output_filename("/", &OutputFormat::Html), "output.html");
    assert_eq!(output_filename(".", &OutputFormat::Ansi), "output.ansi");
    assert_eq!(output_filename("a/..", &OutputFormat::Txt), "output.txt");
}
