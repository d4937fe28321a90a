//! Modular arithmetic on machine words, as used by the specifications.
use vstd::prelude::*;

verus! {

/// `x` reduced modulo 2^32: the result of 32-bit wrapping arithmetic.
pub open spec fn wrap32(x: int) -> u32 {
    (x % 0x1_0000_0000) as u32
}

/// `x` reduced modulo 2^64: the result of 64-bit wrapping arithmetic.
pub open spec fn wrap64(x: int) -> u64 {
    (x % 0x1_0000_0000_0000_0000) as u64
}

} // verus!
