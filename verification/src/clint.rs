//! Core-Local Interruptor (CLINT) for a single hart.
//!
//! Register layout (relative to base):
//! - 0x0000: msip   (4 B)   — software interrupt pending; bit 0 only
//! - 0x4000: mtime_compare (8 B) — timer compare
//! - 0xBFF8: mtime    (8 B) — monotonic counter
//!
//! On RV32, `mtime`/`mtime_compare` are accessed as two 32-bit halves. mtime is
//! driven by [`Clint::tick`] from the simulation loop (cycle-based,
//! deterministic).
use crate::mmio::{
    byte_of_word, extract_byte, extract_half, half_of_word, insert_byte, insert_half, merge_byte,
    merge_half,
};
use crate::trap::Trap;
use crate::bits::{lemma_u32_bits, lemma_u64_bits};
use vstd::prelude::*;

verus! {

pub const CLINT_BASE: u32 = 0x0200_0000;
pub const CLINT_SIZE: u32 = 0x0001_0000;

pub const OFF_MSIP: u32 = 0x0000;
pub const OFF_MTIME_COMPARE_LO: u32 = 0x4000;
pub const OFF_MTIME_COMPARE_HI: u32 = 0x4004;
pub const OFF_MTIME_LO: u32 = 0xBFF8;
pub const OFF_MTIME_HI: u32 = 0xBFFC;

/// The CLINT registers.
pub ghost struct ClintView {
    pub mtime: u64,
    pub mtime_compare: u64,
    pub msip: u32,
}

pub struct Clint {
    mtime: u64,
    mtime_compare: u64,
    msip: u32,
}

impl View for Clint {
    type V = ClintView;

    closed spec fn view(&self) -> ClintView {
        ClintView { mtime: self.mtime, mtime_compare: self.mtime_compare, msip: self.msip }
    }
}

/// The msip register holds a single bit: it is 0 or 1.
pub open spec fn clint_wf(c: ClintView) -> bool {
    c.msip <= 1
}

impl Clint {
    #[verifier::type_invariant]
    spec fn inv(&self) -> bool {
        self.msip <= 1
    }
}

/// A 32-bit register read at `offset`; unmapped offsets fault.
pub open spec fn clint_read32(c: ClintView, offset: u32) -> Result<u32, Trap> {
    if offset == OFF_MSIP {
        Ok(c.msip)
    } else if offset == OFF_MTIME_COMPARE_LO {
        Ok(c.mtime_compare as u32)
    } else if offset == OFF_MTIME_COMPARE_HI {
        Ok((c.mtime_compare >> 32) as u32)
    } else if offset == OFF_MTIME_LO {
        Ok(c.mtime as u32)
    } else if offset == OFF_MTIME_HI {
        Ok((c.mtime >> 32) as u32)
    } else {
        Err(Trap::LoadAccessFault)
    }
}

/// A 32-bit register write at `offset`: msip keeps bit 0; a half of
/// mtime_compare or mtime is replaced; unmapped offsets fault.
pub open spec fn clint_write32(c: ClintView, offset: u32, val: u32) -> (Result<(), Trap>, ClintView) {
    if offset == OFF_MSIP {
        (Ok(()), ClintView { msip: val & 1, ..c })
    } else if offset == OFF_MTIME_COMPARE_LO {
        (Ok(()), ClintView { mtime_compare: (c.mtime_compare & 0xFFFF_FFFF_0000_0000) | (val as u64), ..c })
    } else if offset == OFF_MTIME_COMPARE_HI {
        (Ok(()), ClintView { mtime_compare: (c.mtime_compare & 0x0000_0000_FFFF_FFFF) | ((val as u64) << 32), ..c })
    } else if offset == OFF_MTIME_LO {
        (Ok(()), ClintView { mtime: (c.mtime & 0xFFFF_FFFF_0000_0000) | (val as u64), ..c })
    } else if offset == OFF_MTIME_HI {
        (Ok(()), ClintView { mtime: (c.mtime & 0x0000_0000_FFFF_FFFF) | ((val as u64) << 32), ..c })
    } else {
        (Err(Trap::StoreAccessFault), c)
    }
}

/// Writing the two halves of mtime_compare (or of mtime) makes the register
/// their 64-bit combination, and each half reads back as written; msip keeps
/// only bit 0 of what is written.
pub proof fn law_clint_write_read(c: ClintView, lo: u32, hi: u32, val: u32)
    ensures
        ({
            let c2 = clint_write32(clint_write32(c, OFF_MTIME_COMPARE_LO, lo).1, OFF_MTIME_COMPARE_HI, hi).1;
            &&& c2.mtime_compare == hi as u64 * 0x1_0000_0000 + lo as u64
            &&& clint_read32(c2, OFF_MTIME_COMPARE_LO) == Ok::<u32, Trap>(lo)
            &&& clint_read32(c2, OFF_MTIME_COMPARE_HI) == Ok::<u32, Trap>(hi)
            &&& c2.mtime == c.mtime && c2.msip == c.msip
        }),
        ({
            let c2 = clint_write32(clint_write32(c, OFF_MTIME_LO, lo).1, OFF_MTIME_HI, hi).1;
            &&& c2.mtime == hi as u64 * 0x1_0000_0000 + lo as u64
            &&& clint_read32(c2, OFF_MTIME_LO) == Ok::<u32, Trap>(lo)
            &&& clint_read32(c2, OFF_MTIME_HI) == Ok::<u32, Trap>(hi)
            &&& c2.mtime_compare == c.mtime_compare && c2.msip == c.msip
        }),
        ({
            let c2 = clint_write32(c, OFF_MSIP, val).1;
            &&& (c2.msip & 1 != 0) == (val & 1 != 0)
            &&& clint_read32(c2, OFF_MSIP) == Ok::<u32, Trap>(val & 1)
        }),
        clint_wf(c) ==> forall|off: u32, v: u32| #[trigger] clint_wf(clint_write32(c, off, v).1),
{
    assert forall|off: u32, v: u32| clint_wf(c) implies #[trigger] clint_wf(clint_write32(c, off, v).1) by {
        lemma_u32_bits(v);
    }
    lemma_u64_bits(c.mtime_compare, lo, hi);
    lemma_u64_bits(c.mtime, lo, hi);
    lemma_u32_bits(val);
}

/// Reading msip gives 1 exactly when the software interrupt is pending, and
/// 0 otherwise.
pub proof fn law_clint_msip_read(c: ClintView)
    requires
        clint_wf(c),
    ensures
        clint_read32(c, OFF_MSIP) == Ok::<u32, Trap>(if c.msip & 1 != 0 { 1u32 } else { 0u32 }),
{
    lemma_u32_bits(c.msip);
}

impl Clint {
    /// mtime = 0, msip = 0, and mtime_compare = max so MTIP starts deasserted.
    pub fn new() -> (r: Self)
        ensures
            r@ == (ClintView { mtime: 0, mtime_compare: u64::MAX, msip: 0 }),
            clint_wf(r@),
    {
        Self { mtime: 0, mtime_compare: u64::MAX, msip: 0 }
    }

    /// Advance the monotonic counter. Called once per simulator tick.
    pub fn tick(&mut self, cycle: u64)
        ensures
            final(self)@ == (ClintView { mtime: cycle, ..old(self)@ }),
            clint_wf(final(self)@),
    {
        proof {
            use_type_invariant(&*self);
        }
        self.mtime = cycle;
    }

    /// Is the M-mode software-interrupt line asserted? (drives mip.MSIP)
    pub fn msip_pending(&self) -> (r: bool)
        ensures
            r == (self@.msip & 1 != 0),
            r == (self@.msip == 1),
            clint_wf(self@),
    {
        proof {
            use_type_invariant(self);
            lemma_u32_bits(self.msip);
        }
        self.msip & 1 != 0
    }

    /// Is the M-mode timer-interrupt line asserted? (drives mip.MTIP)
    pub fn mtip_pending(&self) -> (r: bool)
        ensures
            r == (self@.mtime >= self@.mtime_compare),
    {
        self.mtime >= self.mtime_compare
    }

    pub fn read32(&self, offset: u32) -> (r: Result<u32, Trap>)
        ensures
            r == clint_read32(self@, offset),
            clint_wf(self@),
    {
        proof {
            use_type_invariant(self);
        }
        if offset == OFF_MSIP {
            Ok(self.msip)
        } else if offset == OFF_MTIME_COMPARE_LO {
            Ok(self.mtime_compare as u32)
        } else if offset == OFF_MTIME_COMPARE_HI {
            Ok((self.mtime_compare >> 32) as u32)
        } else if offset == OFF_MTIME_LO {
            Ok(self.mtime as u32)
        } else if offset == OFF_MTIME_HI {
            Ok((self.mtime >> 32) as u32)
        } else {
            Err(Trap::LoadAccessFault)
        }
    }

    pub fn write32(&mut self, offset: u32, val: u32) -> (r: Result<(), Trap>)
        ensures
            (r, final(self)@) == clint_write32(old(self)@, offset, val),
            clint_wf(final(self)@),
    {
        proof {
            use_type_invariant(&*self);
        }
        if offset == OFF_MSIP {
            proof {
                lemma_u32_bits(val);
            }
            self.msip = val & 1;
            Ok(())
        } else if offset == OFF_MTIME_COMPARE_LO {
            self.mtime_compare = (self.mtime_compare & 0xFFFF_FFFF_0000_0000) | (val as u64);
            Ok(())
        } else if offset == OFF_MTIME_COMPARE_HI {
            self.mtime_compare = (self.mtime_compare & 0x0000_0000_FFFF_FFFF) | ((val as u64) << 32);
            Ok(())
        } else if offset == OFF_MTIME_LO {
            self.mtime = (self.mtime & 0xFFFF_FFFF_0000_0000) | (val as u64);
            Ok(())
        } else if offset == OFF_MTIME_HI {
            self.mtime = (self.mtime & 0x0000_0000_FFFF_FFFF) | ((val as u64) << 32);
            Ok(())
        } else {
            Err(Trap::StoreAccessFault)
        }
    }

    // Byte/halfword accesses on CLINT registers aren't used by OpenSBI/Linux,
    // but are provided so stray probes don't fault.
    pub fn read8(&self, offset: u32) -> (r: Result<u8, Trap>)
        ensures
            r == byte_of_word(clint_read32(self@, offset & !0x3u32), offset),
    {
        extract_byte(self.read32(offset & !0x3), offset)
    }

    pub fn read16(&self, offset: u32) -> (r: Result<u16, Trap>)
        ensures
            r == half_of_word(clint_read32(self@, offset & !0x3u32), offset),
    {
        extract_half(self.read32(offset & !0x3), offset)
    }

    pub fn write8(&mut self, offset: u32, val: u8) -> (r: Result<(), Trap>)
        ensures
            (r, final(self)@) == clint_write32(
                old(self)@,
                offset & !0x3u32,
                merge_byte(clint_read32(old(self)@, offset & !0x3u32), offset, val),
            ),
            clint_wf(final(self)@),
    {
        let aligned = offset & !0x3;
        let new = insert_byte(self.read32(aligned), offset, val);
        self.write32(aligned, new)
    }

    pub fn write16(&mut self, offset: u32, val: u16) -> (r: Result<(), Trap>)
        ensures
            (r, final(self)@) == clint_write32(
                old(self)@,
                offset & !0x3u32,
                merge_half(clint_read32(old(self)@, offset & !0x3u32), offset, val),
            ),
            clint_wf(final(self)@),
    {
        let aligned = offset & !0x3;
        let new = insert_half(self.read32(aligned), offset, val);
        self.write32(aligned, new)
    }
}

impl Default for Clint {
    fn default() -> (r: Self)
        ensures
            r@ == (ClintView { mtime: 0, mtime_compare: u64::MAX, msip: 0 }),
    {
        Self::new()
    }
}

} // verus!
