use vstd::prelude::*;

verus! {

/// The closed set of pixel encodings a capture can carry.
#[derive(Clone, Copy, Debug, PartialEq, Eq, Structural)]
pub enum Format {
    /// Each pixel is a 32-bit IEEE-754 depth sample, shown as grayscale.
    Float,
    /// Blue, green, red channel bytes, then padding.
    Bgrx,
    /// Red, green, blue channel bytes, then padding.
    Rgbx,
}

/// The exact tag table: 2 is `Float`, 3 is `Bgrx`, 4 is `Rgbx`; every other
/// tag is rejected, and the error carries it.
pub open spec fn spec_format_from_raw(raw: u32) -> Result<Format, u32> {
    if raw == 2 {
        Ok(Format::Float)
    } else if raw == 3 {
        Ok(Format::Bgrx)
    } else if raw == 4 {
        Ok(Format::Rgbx)
    } else {
        Err(raw)
    }
}

impl Format {
    /// Resolves a raw format tag, rejecting unknown tags with the tag itself.
    pub fn from_raw(raw: u32) -> (r: Result<Self, u32>)
        ensures
            r == spec_format_from_raw(raw),
    {
        match raw {
            2 => Ok(Self::Float),
            3 => Ok(Self::Bgrx),
            4 => Ok(Self::Rgbx),
            _ => Err(raw),
        }
    }
}

} // verus!
