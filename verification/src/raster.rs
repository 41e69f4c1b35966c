use vstd::prelude::*;

use vstd::arithmetic::div_mod::lemma_div_multiples_vanish_fancy;
use vstd::arithmetic::div_mod::lemma_mod_bound;
use vstd::arithmetic::div_mod::lemma_multiply_divide_lt;
use vstd::arithmetic::mul::lemma_mul_inequality;

use crate::Rgb;
use crate::errors::DecodeError;
use crate::format::Format;
use crate::format::spec_format_from_raw;
use crate::header::HEADER_LEN;
use crate::header::Header;
use crate::header::lemma_header_roundtrip;
use crate::header::parse_header;
use crate::header::spec_capture_bytes;
use crate::header::spec_parse_header;
use crate::pixel::decode_pixel;
use crate::pixel::rgbx_cell;
use crate::pixel::spec_decode_pixel;
use crate::pixel::stride_ok;

verus! {

/// The decoded output: a width x height grid of RGB triples, fully
/// populated before it is handed on, never partial.
#[derive(Debug, PartialEq, Eq)]
pub struct Raster {
    pub width: u32,
    pub height: u32,
    /// Row-major cells; the pixel at (x, y) sits at index `y * width + x`.
    pub pixels: Vec<Rgb>,
}

impl Raster {
    /// A raster is well formed when it holds exactly one cell per
    /// coordinate of its grid.
    pub open spec fn wf(self) -> bool {
        self.pixels@.len() == self.width * self.height
    }
}

/// The cells a payload decodes to when every cell has its full slice:
/// cell `i` reads the `bpp` bytes at offset `i * bpp`.
pub open spec fn spec_cells(f: Format, payload: Seq<u8>, n: nat, bpp: nat) -> Seq<Rgb> {
    Seq::new(n, |i: int| spec_decode_pixel(f, payload.subrange(i * bpp, i * bpp + bpp)))
}

/// Everything decoding a capture yields, as a function of the raw input
/// bytes alone. In order: the header errors; `UnknownFormat` for a tag
/// outside the table, before any pixel is looked at; for a non-empty grid,
/// `PixelSliceTooShort` at (0, 0) when the stride does not fit the format,
/// or at the first under-supplied cell in row-major order when the payload
/// runs out; otherwise the full grid of decoded cells. A grid with zero
/// cells decodes to the empty raster without touching the payload.
pub open spec fn spec_decode(d: Seq<u8>) -> Result<Seq<Rgb>, DecodeError> {
    match spec_parse_header(d) {
        Err(e) => Err(e),
        Ok(h) => match spec_format_from_raw(h.format_tag) {
            Err(raw) => Err(DecodeError::UnknownFormat(raw)),
            Ok(f) => {
                let payload = d.subrange(32, d.len() as int);
                let n = (h.width * h.height) as nat;
                let bpp = h.bytes_per_pixel as nat;
                if n == 0 {
                    Ok(Seq::<Rgb>::empty())
                } else if !stride_ok(f, bpp) {
                    Err(DecodeError::PixelSliceTooShort { x: 0, y: 0 })
                } else if payload.len() < n * bpp {
                    let i0 = payload.len() / bpp;
                    Err(
                        DecodeError::PixelSliceTooShort {
                            x: (i0 % h.width as nat) as u32,
                            y: (i0 / h.width as nat) as u32,
                        },
                    )
                } else {
                    Ok(spec_cells(f, payload, n, bpp))
                }
            },
        },
    }
}

/// Decodes a whole capture: parses the header, resolves the pixel format,
/// and maps every payload cell to its RGB triple in row-major order. Any
/// failure aborts the conversion with no partial raster.
pub fn decode(data: &[u8]) -> (r: Result<Raster, DecodeError>)
    ensures
        match r {
            Ok(raster) => {
                &&& spec_decode(data@) == Ok::<Seq<Rgb>, DecodeError>(raster.pixels@)
                &&& raster.wf()
                &&& spec_parse_header(data@) matches Ok(h) && raster.width == h.width
                    && raster.height == h.height
            },
            Err(e) => spec_decode(data@) == Err::<Seq<Rgb>, DecodeError>(e),
        },
{
    let header = match parse_header(data) {
        Ok(h) => h,
        Err(e) => {
            return Err(e);
        },
    };
    let format = match Format::from_raw(header.format_tag) {
        Ok(f) => f,
        Err(raw) => {
            return Err(DecodeError::UnknownFormat(raw));
        },
    };
    let w: u32 = header.width;
    let hgt: u32 = header.height;
    let bpp32: u32 = header.bytes_per_pixel;
    proof {
        assert((w as int) * (hgt as int) < 0x1_0000_0000_0000_0000) by (nonlinear_arith)
            requires
                w < 0x1_0000_0000,
                hgt < 0x1_0000_0000,
        {}
    }
    let n: u64 = (w as u64) * (hgt as u64);
    if n == 0 {
        let raster = Raster { width: w, height: hgt, pixels: Vec::new() };
        proof {
            assert(raster.pixels@ =~= Seq::<Rgb>::empty());
        }
        return Ok(raster);
    }
    let stride_fits: bool = match format {
        Format::Float => bpp32 == 4,
        Format::Bgrx => bpp32 >= 3,
        Format::Rgbx => bpp32 >= 3,
    };
    if !stride_fits {
        return Err(DecodeError::PixelSliceTooShort { x: 0, y: 0 });
    }
    let payload: &[u8] = &data[HEADER_LEN..data.len()];
    let bpp: usize = bpp32 as usize;
    let mut pixels: Vec<Rgb> = Vec::new();
    let mut i: u64 = 0;
    let mut idx: usize = 0;
    while i < n
        invariant
            spec_parse_header(data@) == Ok::<Header, DecodeError>(header),
            spec_format_from_raw(header.format_tag) == Ok::<Format, u32>(format),
            w == header.width,
            hgt == header.height,
            bpp32 == header.bytes_per_pixel,
            n == (w as u64) * (hgt as u64),
            0 < n <= u64::MAX,
            stride_ok(format, bpp32 as nat),
            bpp == bpp32 as usize,
            payload@ == data@.subrange(32, data@.len() as int),
            i <= n,
            idx == i * bpp32,
            idx <= payload@.len(),
            pixels@.len() == i,
            forall|k: int|
                0 <= k < i ==> pixels@[k] == spec_decode_pixel(
                    format,
                    payload@.subrange(k * bpp32, k * bpp32 + bpp32),
                ),
        decreases n - i,
    {
        if payload.len() - idx < bpp {
            // the payload runs out here: cell i is the first one whose
            // slice cannot be carved out
            proof {
                let len: int = payload@.len() as int;
                let b: int = bpp32 as int;
                let ii: int = i as int;
                assert(ii * b + (len - idx) == len);
                assert(b * ii == ii * b) by (nonlinear_arith);
                assert((ii + 1) * b == ii * b + b) by (nonlinear_arith);
                lemma_div_multiples_vanish_fancy(ii, len - idx, b);
                lemma_mul_inequality(ii + 1, n as int, b);
                lemma_mod_bound(ii, w as int);
                lemma_multiply_divide_lt(ii, w as int, hgt as int);
                assert((w as int) * (hgt as int) == n);
            }
            let x: u32 = (i % (w as u64)) as u32;
            let y: u32 = (i / (w as u64)) as u32;
            return Err(DecodeError::PixelSliceTooShort { x, y });
        }
        let px: &[u8] = &payload[idx..idx + bpp];
        let cell: Rgb = decode_pixel(format, px).unwrap();
        pixels.push(cell);
        proof {
            let ii: int = i as int;
            let b: int = bpp32 as int;
            assert((ii + 1) * b == ii * b + b) by (nonlinear_arith);
        }
        idx = idx + bpp;
        i = i + 1;
    }
    proof {
        assert(pixels@ =~= spec_cells(format, payload@, n as nat, bpp32 as nat));
    }
    Ok(Raster { width: w, height: hgt, pixels })
}

} // verus!

verus! {

/// A valid header whose width or height is zero decodes successfully to a
/// raster with zero cells, whatever bytes follow the header: no payload
/// cell is ever looked at.
pub proof fn lemma_empty_grid_decodes(d: Seq<u8>)
    requires
        spec_parse_header(d) matches Ok(h) && (h.width == 0 || h.height == 0)
            && spec_format_from_raw(h.format_tag) is Ok,
    ensures
        spec_decode(d) == Ok::<Seq<Rgb>, DecodeError>(Seq::<Rgb>::empty()),
{
}

/// Round trip: a capture laid out from an RGB-padded payload decodes to
/// exactly the byte values that were laid in, cell by cell in row-major
/// order.
pub proof fn lemma_rgbx_round_trip(h: Header, payload: Seq<u8>)
    requires
        h.format_tag == 4,
        h.bytes_per_pixel >= 3,
        payload.len() == h.width * h.height * h.bytes_per_pixel,
    ensures
        spec_decode(spec_capture_bytes(h, payload)) == Ok::<Seq<Rgb>, DecodeError>(
            Seq::new(
                (h.width * h.height) as nat,
                |i: int| rgbx_cell(payload, h.bytes_per_pixel as nat, i),
            ),
        ),
{
    let d = spec_capture_bytes(h, payload);
    lemma_header_roundtrip(h, payload);
    let n = (h.width * h.height) as nat;
    let bpp = h.bytes_per_pixel as nat;
    let want = Seq::new(n, |i: int| rgbx_cell(payload, bpp, i));
    if n == 0 {
        assert(Seq::<Rgb>::empty() =~= want);
    } else {
        assert(payload.len() == n * bpp) by (nonlinear_arith)
            requires
                payload.len() == h.width * h.height * h.bytes_per_pixel,
                n == h.width * h.height,
                bpp == h.bytes_per_pixel,
        {}
        assert forall|i: int| 0 <= i < n implies spec_cells(Format::Rgbx, payload, n, bpp)[i]
            == want[i] by {
            lemma_mul_inequality(i + 1, n as int, bpp as int);
            assert((i + 1) * (bpp as int) == i * (bpp as int) + bpp) by (nonlinear_arith);
            assert(i * (bpp as int) >= 0) by (nonlinear_arith)
                requires
                    i >= 0,
                    bpp >= 3,
            {}
        }
        assert(spec_cells(Format::Rgbx, payload, n, bpp) =~= want);
    }
}

} // verus!
