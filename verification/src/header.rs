use vstd::prelude::*;

use crate::bytes::le64_of;
use crate::bytes::le8_bytes_of;
use crate::bytes::lemma_le8_roundtrip;
use crate::bytes::read_u64_le;
use crate::errors::DecodeError;
use crate::errors::HeaderField;

verus! {

/// The byte length of the fixed header region at the start of a capture.
pub const HEADER_LEN: usize = 32;

/// The four fixed header fields of a capture, already narrowed to 32 bits.
#[derive(Clone, Copy, Debug, PartialEq, Eq, Structural)]
pub struct Header {
    pub width: u32,
    pub height: u32,
    pub bytes_per_pixel: u32,
    pub format_tag: u32,
}

/// What parsing the header of `d` yields: `TruncatedInput` when fewer than
/// 32 bytes are present, `FieldOverflow` (checked field by field, in file
/// order) when an 8-byte field exceeds the 32-bit range, and otherwise the
/// four narrowed fields. Fields sit at byte offsets 0, 8, 16 and 24,
/// little-endian.
pub open spec fn spec_parse_header(d: Seq<u8>) -> Result<Header, DecodeError> {
    if d.len() < 32 {
        Err(DecodeError::TruncatedInput)
    } else if le64_of(d, 0) > u32::MAX {
        Err(DecodeError::FieldOverflow(HeaderField::Width))
    } else if le64_of(d, 8) > u32::MAX {
        Err(DecodeError::FieldOverflow(HeaderField::Height))
    } else if le64_of(d, 16) > u32::MAX {
        Err(DecodeError::FieldOverflow(HeaderField::BytesPerPixel))
    } else if le64_of(d, 24) > u32::MAX {
        Err(DecodeError::FieldOverflow(HeaderField::FormatTag))
    } else {
        Ok(
            Header {
                width: le64_of(d, 0) as u32,
                height: le64_of(d, 8) as u32,
                bytes_per_pixel: le64_of(d, 16) as u32,
                format_tag: le64_of(d, 24) as u32,
            },
        )
    }
}

/// A whole capture laid out from its parts: the four 8-byte little-endian
/// header fields in file order, then the pixel payload.
pub open spec fn spec_capture_bytes(h: Header, payload: Seq<u8>) -> Seq<u8> {
    le8_bytes_of(h.width) + le8_bytes_of(h.height) + le8_bytes_of(h.bytes_per_pixel) + le8_bytes_of(
        h.format_tag,
    ) + payload
}

/// Round trip through the header: parsing a capture laid out from any
/// header yields exactly that header, whatever the payload.
pub proof fn lemma_header_roundtrip(h: Header, payload: Seq<u8>)
    ensures
        spec_parse_header(spec_capture_bytes(h, payload)) == Ok::<Header, DecodeError>(h),
        spec_capture_bytes(h, payload).subrange(32, spec_capture_bytes(h, payload).len() as int)
            == payload,
{
    let d = spec_capture_bytes(h, payload);
    let s0 = le8_bytes_of(h.width);
    let s1 = le8_bytes_of(h.height);
    let s2 = le8_bytes_of(h.bytes_per_pixel);
    let s3 = le8_bytes_of(h.format_tag);
    assert forall|k: int| 0 <= k < 8 implies d[k] == s0[k] && d[8 + k] == s1[k] && d[16 + k]
        == s2[k] && d[24 + k] == s3[k] by {}
    lemma_le8_roundtrip(h.width);
    lemma_le8_roundtrip(h.height);
    lemma_le8_roundtrip(h.bytes_per_pixel);
    lemma_le8_roundtrip(h.format_tag);
    assert(le64_of(d, 0) == le64_of(s0, 0));
    assert(le64_of(d, 8) == le64_of(s1, 0));
    assert(le64_of(d, 16) == le64_of(s2, 0));
    assert(le64_of(d, 24) == le64_of(s3, 0));
    assert(d.subrange(32, d.len() as int) =~= payload);
}

/// Parses the fixed header region of a capture. Pure read: the input is
/// untouched, and nothing past byte 31 is inspected.
pub fn parse_header(data: &[u8]) -> (r: Result<Header, DecodeError>)
    ensures
        r == spec_parse_header(data@),
{
    if data.len() < HEADER_LEN {
        return Err(DecodeError::TruncatedInput);
    }
    let width_raw: u64 = read_u64_le(data, 0);
    if width_raw > u32::MAX as u64 {
        return Err(DecodeError::FieldOverflow(HeaderField::Width));
    }
    let height_raw: u64 = read_u64_le(data, 8);
    if height_raw > u32::MAX as u64 {
        return Err(DecodeError::FieldOverflow(HeaderField::Height));
    }
    let bpp_raw: u64 = read_u64_le(data, 16);
    if bpp_raw > u32::MAX as u64 {
        return Err(DecodeError::FieldOverflow(HeaderField::BytesPerPixel));
    }
    let tag_raw: u64 = read_u64_le(data, 24);
    if tag_raw > u32::MAX as u64 {
        return Err(DecodeError::FieldOverflow(HeaderField::FormatTag));
    }
    Ok(
        Header {
            width: width_raw as u32,
            height: height_raw as u32,
            bytes_per_pixel: bpp_raw as u32,
            format_tag: tag_raw as u32,
        },
    )
}

} // verus!
