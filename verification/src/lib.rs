//! Image-to-ASCII conversion pipeline.
//!
//! The pipeline turns a rectangular RGBA pixel buffer into a character grid
//! and renders that grid as plain text, ANSI-colored terminal text, or HTML.
//! Stages: nearest-neighbor resampling, optional Sobel edge detection,
//! luminance- or direction-based quantization, and rendering.

pub mod cli;
pub mod edge;
pub mod output;
pub mod pipeline;
pub mod pixel;
pub mod quantize;
pub mod render;
pub mod resample;
pub mod types;
