use vstd::prelude::*;

verus! {

/// Which header field a `FieldOverflow` error refers to.
#[derive(Clone, Copy, Debug, PartialEq, Eq, Structural)]
pub enum HeaderField {
    Width,
    Height,
    BytesPerPixel,
    FormatTag,
}

/// Everything that can go wrong while decoding a capture.
///
/// Every failure is terminal for the whole conversion: no partial raster is
/// ever produced.
#[derive(Clone, Copy, Debug, PartialEq, Eq, Structural)]
pub enum DecodeError {
    /// The input buffer ends before a required region does.
    TruncatedInput,
    /// A header field holds a value that does not fit in 32 bits.
    FieldOverflow(HeaderField),
    /// The format tag matches no known pixel format; carries the tag.
    UnknownFormat(u32),
    /// The payload is exhausted (or the stride too small for the format)
    /// at the pixel with these coordinates.
    PixelSliceTooShort { x: u32, y: u32 },
}

} // verus!
