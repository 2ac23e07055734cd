//! A declarative image-transformation pipeline: an ordered list of
//! operations applied to an owned RGBA buffer, with per-pixel color math,
//! alpha compositing, resampling, text rendering and output-format
//! resolution, each specified and verified.

pub mod buffer;
pub mod color;
pub mod config;
pub mod filters;
pub mod format;
pub mod hue;
pub mod math;
pub mod overlay;
pub mod pixel;
pub mod processor;
pub mod text;
pub mod trusted;
