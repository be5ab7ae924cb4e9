//! Turns camera frames into character art: colour suppression,
//! nearest-neighbour downsampling, luminance extraction, symbol mapping and
//! glyph rendering onto an RGB canvas, together with the decisions of the
//! capture loop and of the stream to the video encoder.
//!
//! Every stage is a function on plain pixel buffers with a contract over a
//! mathematical model of the buffer, verified with Verus.

pub mod art;
pub mod config;
pub mod decode;
pub mod driver;
pub mod error;
pub mod filter;
pub mod font;
pub mod glyph;
pub mod luma;
pub mod pipeline;
pub mod pixels;
pub mod ramp;
pub mod render;
pub mod resample;
pub mod sink;
