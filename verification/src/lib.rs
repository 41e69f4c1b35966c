//! Decoder for a fixed-header binary capture of sensor pixels.
//!
//! A capture starts with four 8-byte little-endian header fields (width,
//! height, bytes per pixel, format tag) followed by a row-major pixel
//! payload. The library parses the header, resolves the pixel format, and
//! maps every payload cell to an 8-bit RGB triple; writing the resulting
//! raster to an image container is left to the caller.

pub mod bytes;
pub mod depth;
pub mod errors;
pub mod format;
pub mod header;
pub mod pixel;
pub mod raster;

use vstd::prelude::*;

verus! {

/// One decoded color sample: three 8-bit channels, no alpha.
#[derive(Clone, Copy, Debug, PartialEq, Eq, Structural)]
pub struct Rgb {
    pub r: u8,
    pub g: u8,
    pub b: u8,
}

} // verus!
