//! Narrow (byte and halfword) access to 32-bit device registers.
use crate::trap::Trap;
use crate::bits::lemma_u32_bits;
use vstd::prelude::*;

verus! {

/// Byte `offset & 3` of a word read.
pub open spec fn byte_of_word(r: Result<u32, Trap>, offset: u32) -> Result<u8, Trap> {
    match r {
        Ok(w) => Ok(((w >> ((offset & 0x3u32) * 8u32)) & 0xFFu32) as u8),
        Err(t) => Err(t),
    }
}

/// Halfword `(offset & 2) / 2` of a word read.
pub open spec fn half_of_word(r: Result<u32, Trap>, offset: u32) -> Result<u16, Trap> {
    match r {
        Ok(w) => Ok(((w >> ((offset & 0x2u32) * 8u32)) & 0xFFFFu32) as u16),
        Err(t) => Err(t),
    }
}

/// A word read with byte `offset & 3` replaced; an unreadable word counts as 0.
pub open spec fn merge_byte(r: Result<u32, Trap>, offset: u32, val: u8) -> u32 {
    let cur = match r {
        Ok(w) => w,
        Err(_) => 0,
    };
    let shift = (offset & 0x3u32) * 8u32;
    (cur & !(0xFFu32 << shift)) | ((val as u32) << shift)
}

/// A word read with halfword `(offset & 2) / 2` replaced; an unreadable word counts as 0.
pub open spec fn merge_half(r: Result<u32, Trap>, offset: u32, val: u16) -> u32 {
    let cur = match r {
        Ok(w) => w,
        Err(_) => 0,
    };
    let shift = (offset & 0x2u32) * 8u32;
    (cur & !(0xFFFFu32 << shift)) | ((val as u32) << shift)
}

pub fn extract_byte(r: Result<u32, Trap>, offset: u32) -> (b: Result<u8, Trap>)
    ensures
        b == byte_of_word(r, offset),
{
    match r {
        Ok(word) => {
            proof {
        lemma_u32_bits(offset);
    }
    let shift = (offset & 0x3) * 8;
            Ok(((word >> shift) & 0xFF) as u8)
        },
        Err(t) => Err(t),
    }
}

pub fn extract_half(r: Result<u32, Trap>, offset: u32) -> (h: Result<u16, Trap>)
    ensures
        h == half_of_word(r, offset),
{
    match r {
        Ok(word) => {
            proof {
        lemma_u32_bits(offset);
    }
    let shift = (offset & 0x2) * 8;
            Ok(((word >> shift) & 0xFFFF) as u16)
        },
        Err(t) => Err(t),
    }
}

pub fn insert_byte(r: Result<u32, Trap>, offset: u32, val: u8) -> (w: u32)
    ensures
        w == merge_byte(r, offset, val),
{
    let cur = match r {
        Ok(w) => w,
        Err(_) => 0,
    };
    proof {
        lemma_u32_bits(offset);
    }
    let shift = (offset & 0x3) * 8;
    (cur & !(0xFF << shift)) | ((val as u32) << shift)
}

pub fn insert_half(r: Result<u32, Trap>, offset: u32, val: u16) -> (w: u32)
    ensures
        w == merge_half(r, offset, val),
{
    let cur = match r {
        Ok(w) => w,
        Err(_) => 0,
    };
    proof {
        lemma_u32_bits(offset);
    }
    let shift = (offset & 0x2) * 8;
    (cur & !(0xFFFF << shift)) | ((val as u32) << shift)
}

} // verus!
