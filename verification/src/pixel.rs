use vstd::prelude::*;

use crate::Rgb;
use crate::depth::depth_gray;
use crate::depth::spec_depth_gray;
use crate::format::Format;

verus! {

/// The 32 bits of the IEEE-754 depth sample held in the first four bytes of
/// a pixel slice, combined little-endian.
pub open spec fn f32_bits_of(px: Seq<u8>) -> u32
    recommends
        px.len() >= 4,
{
    ((px[0] as nat) + (px[1] as nat) * 0x100 + (px[2] as nat) * 0x1_0000 + (px[3] as nat)
        * 0x100_0000) as u32
}

/// Whether a pixel slice of `len` bytes is long enough for the format: the
/// Depth-Float sample is exactly the four bytes of one 32-bit number, while
/// the padded color formats read byte offsets up to 2 and so need at least
/// three bytes; any further bytes are padding and are ignored.
pub open spec fn stride_ok(f: Format, len: nat) -> bool {
    match f {
        Format::Float => len == 4,
        Format::Bgrx => len >= 3,
        Format::Rgbx => len >= 3,
    }
}

/// The RGB triple one pixel slice decodes to, for a slice whose length fits
/// the format.
///
/// `Bgrx` deliberately writes the byte at offset 1 to both the green and the
/// blue output channel and never reads the byte at offset 0; downstream
/// consumers rely on this exact mapping, odd as it looks.
pub open spec fn spec_decode_pixel(f: Format, px: Seq<u8>) -> Rgb
    recommends
        stride_ok(f, px.len()),
{
    match f {
        Format::Float => {
            let v = spec_depth_gray(f32_bits_of(px));
            Rgb { r: v, g: v, b: v }
        },
        Format::Bgrx => Rgb { r: px[2], g: px[1], b: px[1] },
        Format::Rgbx => Rgb { r: px[0], g: px[1], b: px[2] },
    }
}

/// The triple that cell `i` of an RGB-padded payload decodes to: the first
/// three bytes of its slice, in order.
pub open spec fn rgbx_cell(payload: Seq<u8>, bpp: nat, i: int) -> Rgb {
    Rgb { r: payload[i * bpp], g: payload[i * bpp + 1], b: payload[i * bpp + 2] }
}

/// Decodes one pixel slice under the resolved format. Returns `None` when
/// the slice does not fit the format; the caller supplies the failing
/// coordinate for the error it reports.
pub fn decode_pixel(format: Format, px: &[u8]) -> (r: Option<Rgb>)
    ensures
        r == if stride_ok(format, px@.len()) {
            Some(spec_decode_pixel(format, px@))
        } else {
            None::<Rgb>
        },
{
    match format {
        Format::Float => {
            if px.len() == 4 {
                let bits: u32 = px[0] as u32 + (px[1] as u32) * 0x100 + (px[2] as u32) * 0x1_0000
                    + (px[3] as u32) * 0x100_0000;
                let v: u8 = depth_gray(bits);
                Some(Rgb { r: v, g: v, b: v })
            } else {
                None
            }
        },
        Format::Bgrx => {
            if px.len() >= 3 {
                Some(Rgb { r: px[2], g: px[1], b: px[1] })
            } else {
                None
            }
        },
        Format::Rgbx => {
            if px.len() >= 3 {
                Some(Rgb { r: px[0], g: px[1], b: px[2] })
            } else {
                None
            }
        },
    }
}

} // verus!
