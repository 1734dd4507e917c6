//! The integer core of a path tracer.
//!
//! - [`image`]: the pixel buffer that a render fills, its ray counter, and
//!   its PNG stream.
//! - [`render`]: the bookkeeping of a render, pixel by pixel.
//! - [`scene`]: the rule by which the nearest surface along a ray is chosen.
//! - [`mesh_text`]: the framing of the text format that meshes are read from.
//! - [`config`]: how a scene description resolves a material name.
//! - [`util`]: the integer step of the fast inverse square root.
//! - [`png_sink`]: the call into the `png` crate.

pub mod config;
pub mod image;
pub mod mesh_text;
pub mod png_sink;
pub mod render;
pub mod scene;
pub mod util;
