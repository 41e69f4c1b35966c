use vstd::prelude::*;

use vstd::arithmetic::div_mod::lemma_basic_div;
use vstd::arithmetic::div_mod::lemma_div_is_ordered;
use vstd::arithmetic::div_mod::lemma_div_multiples_vanish;
use vstd::arithmetic::div_mod::lemma_div_multiples_vanish_quotient;
use vstd::arithmetic::power2::lemma2_to64;
use vstd::arithmetic::power2::lemma_pow2_adds;
use vstd::arithmetic::power2::lemma_pow2_pos;
use vstd::arithmetic::power2::lemma_pow2_strictly_increases;
use vstd::arithmetic::power2::pow2;

verus! {

/// Sign bit of a 32-bit IEEE-754 sample.
pub open spec fn depth_sign(bits: u32) -> u32 {
    bits >> 31
}

/// Biased exponent field of a 32-bit IEEE-754 sample.
pub open spec fn depth_exp(bits: u32) -> u32 {
    (bits >> 23) & 0xff
}

/// Mantissa field of a 32-bit IEEE-754 sample.
pub open spec fn depth_man(bits: u32) -> u32 {
    bits & 0x7f_ffff
}

/// The grayscale level of a finite non-negative depth sample, before
/// saturation. The sample's value is `m * 2^e / 2^150`, where `m` is the
/// full significand and `e` the adjusted exponent; the level is that value
/// divided by the 4000-unit depth range, scaled to 255 and truncated —
/// `floor(value * 255 / 4000)` computed in exact integer arithmetic.
pub open spec fn depth_scale(m: nat, e: nat) -> nat {
    (m * pow2(e) * 255) / (4000 * pow2(150))
}

/// The 8-bit grayscale value of one raw depth sample, given as the 32 bits
/// of an IEEE-754 single-precision number.
///
/// The sample is the depth in domain units; it is divided by the fixed
/// maximum depth of 4000 units, scaled to 255 and truncated, with explicit
/// saturation to the 0..=255 range: negative samples (and NaN) map to 0,
/// samples at or beyond 4000 (and positive infinity) map to 255.
pub open spec fn spec_depth_gray(bits: u32) -> u8 {
    let exp = depth_exp(bits);
    let man = depth_man(bits);
    if exp == 255 && man != 0 {
        0u8  // NaN: saturate to black
    } else if depth_sign(bits) == 1 {
        0u8  // negative depth: saturate to black
    } else if exp == 255 {
        255u8  // positive infinity: saturate to white
    } else {
        let e: nat = if exp == 0 {
            1nat
        } else {
            exp as nat
        };
        let m: nat = man as nat + if exp == 0 {
            0nat
        } else {
            0x80_0000nat
        };
        let q: nat = depth_scale(m, e);
        if q >= 255 {
            255u8
        } else {
            q as u8
        }
    }
}

/// A normal sample with biased exponent 139 or more is at least 4096 depth
/// units, past the 4000-unit range, so its level saturates.
proof fn lemma_scale_saturates(m: nat, e: nat)
    requires
        0x80_0000 <= m,
        139 <= e,
    ensures
        depth_scale(m, e) >= 255,
{
    let pe = pow2(e);
    let p139 = pow2(139);
    let p150 = pow2(150);
    let den = 4000 * p150;
    lemma2_to64();
    lemma_pow2_adds(23, 139);
    lemma_pow2_adds(12, 150);
    lemma_pow2_pos(150);
    lemma_pow2_pos(139);
    if e > 139 {
        lemma_pow2_strictly_increases(139, e);
    }
    assert(0x80_0000 * p139 == 0x1000 * p150);
    assert(m * pe * 255 >= 255 * den) by (nonlinear_arith)
        requires
            0x80_0000 <= m,
            pe >= p139,
            0x80_0000 * p139 == 0x1000 * p150,
            p139 > 0,
            p150 > 0,
            den == 4000 * p150,
    {}
    lemma_div_is_ordered(255 * den as int, (m * pe * 255) as int, den as int);
    lemma_div_multiples_vanish(255, den as int);
    assert(255 * den == den * 255) by (nonlinear_arith);
}

/// A sample with adjusted exponent 129 or less is below 16 depth units,
/// and 16 units of a 4000-unit range scale to less than one level.
proof fn lemma_scale_zero(m: nat, e: nat)
    requires
        m < 0x100_0000,
        1 <= e <= 129,
    ensures
        depth_scale(m, e) == 0,
{
    let pe = pow2(e);
    let p129 = pow2(129);
    let p150 = pow2(150);
    let den = 4000 * p150;
    lemma2_to64();
    lemma_pow2_adds(24, 129);
    lemma_pow2_adds(3, 150);
    lemma_pow2_pos(150);
    lemma_pow2_pos(129);
    lemma_pow2_pos(e);
    if e < 129 {
        lemma_pow2_strictly_increases(e, 129);
    }
    assert(0x100_0000 * p129 == 8 * p150);
    assert(m * pe * 255 < den) by (nonlinear_arith)
        requires
            m < 0x100_0000,
            0 < pe <= p129,
            0x100_0000 * p129 == 8 * p150,
            p129 > 0,
            p150 > 0,
            den == 4000 * p150,
    {}
    lemma_basic_div((m * pe * 255) as int, den as int);
}

/// For a normal sample the common power of two cancels: the level equals
/// `m * 255` divided by `4000 * 2^(150 - e)`, which fits machine words.
proof fn lemma_scale_cancel(m: nat, e: nat)
    requires
        1 <= e <= 149,
    ensures
        depth_scale(m, e) == (m * 255) / (4000 * pow2((150 - e) as nat)),
{
    let pe = pow2(e);
    let pr = pow2((150 - e) as nat);
    let p150 = pow2(150);
    lemma_pow2_adds(e, (150 - e) as nat);
    lemma_pow2_pos(e);
    lemma_pow2_pos((150 - e) as nat);
    lemma_div_multiples_vanish_quotient(pe as int, (m * 255) as int, (4000 * pr) as int);
    assert(pe * (m * 255) == m * pe * 255) by (nonlinear_arith);
    assert(pe * (4000 * pr) == 4000 * p150) by (nonlinear_arith)
        requires
            pe * pr == p150,
    {}
}

/// Computes the 8-bit grayscale value of one raw 32-bit depth sample.
pub fn depth_gray(bits: u32) -> (r: u8)
    ensures
        r == spec_depth_gray(bits),
{
    let sign: u32 = bits >> 31;
    let exp: u32 = (bits >> 23) & 0xff;
    let man: u32 = bits & 0x7f_ffff;
    proof {
        assert((bits >> 23) & 0xff < 256 && (bits & 0x7f_ffff) < 0x80_0000) by (bit_vector);
    }
    if exp == 255 && man != 0 {
        0
    } else if sign == 1 {
        0
    } else if exp == 255 {
        255
    } else if exp >= 139 {
        proof {
            lemma_scale_saturates(man as nat + 0x80_0000, exp as nat);
        }
        255
    } else if exp <= 129 {
        proof {
            let e: nat = if exp == 0 {
                1nat
            } else {
                exp as nat
            };
            let m: nat = man as nat + if exp == 0 {
                0nat
            } else {
                0x80_0000nat
            };
            lemma_scale_zero(m, e);
        }
        0
    } else {
        // 130 <= exp <= 138: a normal sample in roughly the 16..4096 unit range
        let m: u64 = man as u64 + 0x80_0000;
        let shift: u32 = 150 - exp;
        let mut p: u64 = 1;
        let mut j: u32 = 0;
        proof {
            lemma2_to64();
        }
        while j < shift
            invariant
                j <= shift <= 20,
                p == pow2(j as nat),
            decreases shift - j,
        {
            proof {
                lemma2_to64();
                if (j as nat) < 20 {
                    lemma_pow2_strictly_increases(j as nat, 20);
                }
                lemma_pow2_adds(1, j as nat);
            }
            p = p * 2;
            j = j + 1;
        }
        proof {
            lemma2_to64();
            lemma_pow2_strictly_increases(shift as nat, 21);
        }
        let q: u64 = (m * 255) / (4000 * p);
        proof {
            lemma_scale_cancel(m as nat, exp as nat);
        }
        if q >= 255 {
            255
        } else {
            q as u8
        }
    }
}

} // verus!

