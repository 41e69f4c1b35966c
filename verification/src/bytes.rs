use vstd::prelude::*;

use vstd::arithmetic::div_mod::lemma_div_denominator;
use vstd::arithmetic::div_mod::lemma_fundamental_div_mod;
use vstd::arithmetic::div_mod::lemma_multiply_divide_lt;
use vstd::arithmetic::div_mod::lemma_small_mod;

verus! {

/// The unsigned value of the eight bytes starting at `off`, combined
/// little-endian: byte `off` is least significant.
pub open spec fn le64_of(s: Seq<u8>, off: int) -> nat
    recommends
        0 <= off,
        off + 8 <= s.len(),
{
    (s[off] as nat) + (s[off + 1] as nat) * 0x100 + (s[off + 2] as nat) * 0x1_0000 + (s[off + 3]
        as nat) * 0x100_0000 + (s[off + 4] as nat) * 0x1_0000_0000 + (s[off + 5] as nat)
        * 0x100_0000_0000 + (s[off + 6] as nat) * 0x1_0000_0000_0000 + (s[off + 7] as nat)
        * 0x100_0000_0000_0000
}

/// The eight bytes that hold a 32-bit value in an 8-byte little-endian
/// field: byte `k` holds bits `8k..8k+8`, and the upper four bytes are zero.
pub open spec fn le8_bytes_of(v: u32) -> Seq<u8> {
    Seq::new(
        8,
        |k: int|
            if k == 0 {
                (v as nat % 0x100) as u8
            } else if k == 1 {
                (v as nat / 0x100 % 0x100) as u8
            } else if k == 2 {
                (v as nat / 0x1_0000 % 0x100) as u8
            } else if k == 3 {
                (v as nat / 0x100_0000 % 0x100) as u8
            } else {
                0u8
            },
    )
}

/// Reading the eight bytes of `le8_bytes_of` back as a little-endian value
/// yields the value that was laid in.
pub proof fn lemma_le8_roundtrip(v: u32)
    ensures
        le64_of(le8_bytes_of(v), 0) == v,
{
    let x: int = v as int;
    lemma_fundamental_div_mod(x, 0x100);
    lemma_fundamental_div_mod(x / 0x100, 0x100);
    lemma_fundamental_div_mod(x / 0x1_0000, 0x100);
    lemma_div_denominator(x, 0x100, 0x100);
    lemma_div_denominator(x, 0x1_0000, 0x100);
    lemma_multiply_divide_lt(x, 0x100_0000, 0x100);
    lemma_small_mod((x / 0x100_0000) as nat, 0x100);
}

/// Reads the eight bytes at `off` as one little-endian unsigned value.
pub fn read_u64_le(data: &[u8], off: usize) -> (r: u64)
    requires
        off + 8 <= data@.len(),
    ensures
        r == le64_of(data@, off as int),
{
    (data[off] as u64) + (data[off + 1] as u64) * 0x100 + (data[off + 2] as u64) * 0x1_0000 + (
    data[off + 3] as u64) * 0x100_0000 + (data[off + 4] as u64) * 0x1_0000_0000 + (data[off + 5]
        as u64) * 0x100_0000_0000 + (data[off + 6] as u64) * 0x1_0000_0000_0000 + (data[off + 7]
        as u64) * 0x100_0000_0000_0000
}

} // verus!
