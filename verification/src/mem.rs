//! The physical memory interface seen by a hart.
use crate::trap::Trap;
use vstd::prelude::*;

verus! {

/// A physical address space. Reads may have side effects on devices (a PLIC
/// claim, a UART interrupt acknowledgement), so every access may change the
/// state; each access is modelled as a function from the abstract state (the
/// view) before it to its result and the abstract state after it.
pub trait Memory: Sized + View {
    /// Result of a byte read at `addr`, and the state after it.
    spec fn read8_spec(m: Self::V, addr: u32) -> (Result<u8, Trap>, Self::V);

    /// Result of a halfword read at `addr`, and the state after it.
    spec fn read16_spec(m: Self::V, addr: u32) -> (Result<u16, Trap>, Self::V);

    /// Result of a word read at `addr`, and the state after it.
    spec fn read32_spec(m: Self::V, addr: u32) -> (Result<u32, Trap>, Self::V);

    /// Result of a byte write at `addr`, and the state after it.
    spec fn write8_spec(m: Self::V, addr: u32, val: u8) -> (Result<(), Trap>, Self::V);

    /// Result of a halfword write at `addr`, and the state after it.
    spec fn write16_spec(m: Self::V, addr: u32, val: u16) -> (Result<(), Trap>, Self::V);

    /// Result of a word write at `addr`, and the state after it.
    spec fn write32_spec(m: Self::V, addr: u32, val: u32) -> (Result<(), Trap>, Self::V);

    fn read8(&mut self, addr: u32) -> (r: Result<u8, Trap>)
        ensures
            (r, final(self)@) == Self::read8_spec(old(self)@, addr),
    ;

    fn read16(&mut self, addr: u32) -> (r: Result<u16, Trap>)
        ensures
            (r, final(self)@) == Self::read16_spec(old(self)@, addr),
    ;

    fn read32(&mut self, addr: u32) -> (r: Result<u32, Trap>)
        ensures
            (r, final(self)@) == Self::read32_spec(old(self)@, addr),
    ;

    fn write8(&mut self, addr: u32, val: u8) -> (r: Result<(), Trap>)
        ensures
            (r, final(self)@) == Self::write8_spec(old(self)@, addr, val),
    ;

    fn write16(&mut self, addr: u32, val: u16) -> (r: Result<(), Trap>)
        ensures
            (r, final(self)@) == Self::write16_spec(old(self)@, addr, val),
    ;

    fn write32(&mut self, addr: u32, val: u32) -> (r: Result<(), Trap>)
        ensures
            (r, final(self)@) == Self::write32_spec(old(self)@, addr, val),
    ;
}

} // verus!
