//! Facts relating the bit operations on machine words to arithmetic, shared
//! by the proofs of the decoders, the MMU, the CSRs and the devices.
use vstd::prelude::*;

verus! {

/// Masking, shifting and testing the bits of a 32-bit word agree with
/// division and remainder by powers of two.
pub proof fn lemma_u32_bits(x: u32)
    by (bit_vector)
    ensures
        x & 1u32 == x % 2,
        x >> 1u32 == x / 2,
        x & !1u32 == x / 2 * 2,
        x & 0x2u32 <= 2,
        x & 0x3u32 == x % 4,
        x & 0x3u32 <= 3,
        x & 0x7u32 == x % 8,
        x & 0x7u32 < 8,
        x < 8 ==> x & 0x7u32 == x,
        x & 0x1Fu32 == x % 0x20,
        x & 0x1Fu32 < 32,
        x & 0x7Fu32 == x % 0x80,
        x & 0xFFFu32 == x % 0x1000,
        x & 0x3F_FFFFu32 == x % 0x40_0000,
        (x >> 10u32) & 0x3FFu32 == (x / 0x400) % 0x400,
        (x >> 10u32) & 0x3F_FFFFu32 == x / 0x400,
        (x >> 12u32) & 0x3FFu32 == (x / 0x1000) % 0x400,
        (x >> 20u32) & 0xFFFu32 == x / 0x10_0000,
        (x >> 22u32) & 0x3FFu32 == x / 0x40_0000,
        (x >> 31u32) & 1u32 == x / 0x8000_0000,
        ((x & 0x8000_0000u32) != 0) == (x >= 0x8000_0000u32),
        x & !0x8000_0000u32 == x % 0x8000_0000u32,
        x < 0x8000_0000u32 ==> (0x8000_0000u32 | x) == 0x8000_0000u32 + x,
        x << 2u32 == ((x as u64 * 4) % 0x1_0000_0000) as u32,
        ((x & 1u32) & 1u32 != 0) == (x & 1u32 != 0),
{
}

/// Testing, setting and clearing bit `s` of a word.
pub proof fn lemma_bit_ops(x: u32, y: u32, s: u32)
    by (bit_vector)
    requires
        s < 32,
    ensures
        ((x & (1u32 << s)) != 0) == ((x >> s) & 1u32 != 0),
        (0u32 >> s) & 1u32 == 0,
        ((x | (1u32 << s)) >> s) & 1u32 != 0,
        ((x & !(1u32 << s)) >> s) & 1u32 == 0,
        (y >> s) & 1u32 != 0 ==> ((x & !y) >> s) & 1u32 == 0,
        (x >> s) & 1u32 == 0 ==> ((x & y) >> s) & 1u32 == 0,
{
}

/// Clearing bit `s` of `x` leaves every other bit as it was.
pub proof fn lemma_clear_bit_frame(x: u32, s: u32, t: u32)
    by (bit_vector)
    requires
        s < 32,
        t < 32,
        s != t,
    ensures
        ((x & !(1u32 << s)) >> t) & 1u32 == (x >> t) & 1u32,
{
}

/// Clearing the two low bits of a word rounds it down to a multiple of 4.
pub proof fn lemma_align4(x: u32)
    by (bit_vector)
    ensures
        x & !0x3u32 == x / 4 * 4,
        x & 0x3u32 == x % 4,
{
}

/// The low and high 32-bit halves of a 64-bit word.
pub proof fn lemma_u64_halves(x: u64)
    by (bit_vector)
    ensures
        x as u32 == x % 0x1_0000_0000,
        (x >> 32u64) as u32 == x / 0x1_0000_0000,
{
}

/// Splitting a 64-bit word into 32-bit halves and joining them again, and
/// NaN-boxing a 32-bit value in a 64-bit register.
pub proof fn lemma_u64_bits(x: u64, lo: u32, hi: u32)
    by (bit_vector)
    ensures
        (((x & 0xFFFF_FFFF_0000_0000u64) | (lo as u64)) & 0x0000_0000_FFFF_FFFFu64) | ((hi as u64)
            << 32u64) == hi as u64 * 0x1_0000_0000 + lo as u64,
        ((((x & 0xFFFF_FFFF_0000_0000u64) | (lo as u64)) & 0x0000_0000_FFFF_FFFFu64) | ((hi as u64)
            << 32u64)) as u32 == lo,
        (((((x & 0xFFFF_FFFF_0000_0000u64) | (lo as u64)) & 0x0000_0000_FFFF_FFFFu64) | ((hi as u64)
            << 32u64)) >> 32u64) as u32 == hi,
        ((hi as u64) << 32u64) | (lo as u64) == hi as u64 * 0x1_0000_0000 + lo as u64,
        x as u32 == x % 0x1_0000_0000,
        (x >> 32u64) as u32 == x / 0x1_0000_0000,
        ((x & 0xFFFF_FFFF_0000_0000u64) == 0xFFFF_FFFF_0000_0000u64) <==> x / 0x1_0000_0000
            == 0xFFFF_FFFF,
        (lo as u64 | 0xFFFF_FFFF_0000_0000u64) == 0xFFFF_FFFF_0000_0000u64 + lo,
{
}

/// A 32-bit instruction fetched as two halfwords, and the compressed-length test.
pub proof fn lemma_u16_bits(lo: u16, hi: u16)
    by (bit_vector)
    ensures
        (lo & 0x3u16) == lo % 4,
        (((hi as u32) << 16u32) | lo as u32) == ((hi as u32) * 0x1_0000 + lo as u32) as u32,
{
}

} // verus!
