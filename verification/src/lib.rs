//! Turns arbitrary byte buffers into opaque raster images and back, in
//! fixed-size blocks, with integrity checksums and a manifest that lets a
//! file be reassembled from the stored images.

pub mod bytesize;
pub mod catalog;
pub mod codec;
pub mod digest;
pub mod dirs;
pub mod driver;
pub mod geometry;
pub mod locator;
pub mod manifest;
pub mod pipeline;
