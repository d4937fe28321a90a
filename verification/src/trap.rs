//! Synchronous exception causes and the cause/tval payload of a trap.
use crate::bits::lemma_u32_bits;
use vstd::prelude::*;

verus! {

/// Synchronous exceptions raised by instruction execution or memory access.
#[derive(Debug, Clone, Copy, PartialEq, Eq, Structural)]
pub enum Trap {
    InstructionAddressMisaligned,
    InstructionAccessFault,
    IllegalInstruction,
    Breakpoint,
    LoadAddressMisaligned,
    LoadAccessFault,
    StoreAddressMisaligned,
    StoreAccessFault,
    EnvironmentCallFromUMode,
    EnvironmentCallFromSMode,
    EnvironmentCallFromMMode,
    InstructionPageFault,
    LoadPageFault,
    StorePageFault,
}

/// The exception code that the privileged architecture assigns to each cause.
pub open spec fn trap_code(t: Trap) -> u32 {
    match t {
        Trap::InstructionAddressMisaligned => 0,
        Trap::InstructionAccessFault => 1,
        Trap::IllegalInstruction => 2,
        Trap::Breakpoint => 3,
        Trap::LoadAddressMisaligned => 4,
        Trap::LoadAccessFault => 5,
        Trap::StoreAddressMisaligned => 6,
        Trap::StoreAccessFault => 7,
        Trap::EnvironmentCallFromUMode => 8,
        Trap::EnvironmentCallFromSMode => 9,
        Trap::EnvironmentCallFromMMode => 11,
        Trap::InstructionPageFault => 12,
        Trap::LoadPageFault => 13,
        Trap::StorePageFault => 15,
    }
}

impl Trap {
    pub fn cause_code(self) -> (r: u32)
        ensures
            r == trap_code(self),
    {
        match self {
            Trap::InstructionAddressMisaligned => 0,
            Trap::InstructionAccessFault => 1,
            Trap::IllegalInstruction => 2,
            Trap::Breakpoint => 3,
            Trap::LoadAddressMisaligned => 4,
            Trap::LoadAccessFault => 5,
            Trap::StoreAddressMisaligned => 6,
            Trap::StoreAccessFault => 7,
            Trap::EnvironmentCallFromUMode => 8,
            Trap::EnvironmentCallFromSMode => 9,
            Trap::EnvironmentCallFromMMode => 11,
            Trap::InstructionPageFault => 12,
            Trap::LoadPageFault => 13,
            Trap::StorePageFault => 15,
        }
    }
}

/// Combined cause + tval payload for trap entry.
///
/// `cause` is the full mcause/scause value, including bit 31 for interrupts.
/// `tval` is the value to write into mtval/stval (faulting VA for page faults,
/// 0 for most traps).
#[derive(Debug, Clone, Copy, PartialEq, Eq, Structural)]
pub struct TrapInfo {
    pub cause: u32,
    pub tval: u32,
}

pub const INTERRUPT_BIT: u32 = 0x8000_0000;

/// The payload of a synchronous exception `t` with trap value `tval`.
pub open spec fn exception_info(t: Trap, tval: u32) -> TrapInfo {
    TrapInfo { cause: trap_code(t), tval }
}

/// Whether a cause word denotes an interrupt (bit 31 set).
pub open spec fn cause_is_interrupt(cause: u32) -> bool {
    cause >= INTERRUPT_BIT
}

/// The low 31 bits of a cause word.
pub open spec fn cause_index_of(cause: u32) -> u32 {
    (cause % 0x8000_0000) as u32
}

impl TrapInfo {
    /// Build an exception trap (bit 31 clear).
    pub fn new(trap: Trap, tval: u32) -> (r: Self)
        ensures
            r == exception_info(trap, tval),
    {
        Self { cause: trap.cause_code(), tval }
    }

    /// Build an interrupt trap (bit 31 set). `code` is 0..31 (e.g. 7 for MTI).
    pub fn interrupt(code: u32) -> (r: Self)
        ensures
            r.cause == (INTERRUPT_BIT | code),
            r.tval == 0,
            code < INTERRUPT_BIT ==> r.cause == INTERRUPT_BIT + code,
    {
        proof {
            lemma_u32_bits(code);
        }
        Self { cause: INTERRUPT_BIT | code, tval: 0 }
    }

    pub fn is_interrupt(self) -> (r: bool)
        ensures
            r == cause_is_interrupt(self.cause),
    {
        proof {
            lemma_u32_bits(self.cause);
        }
        (self.cause & INTERRUPT_BIT) != 0
    }

    /// The low 31 bits of `cause` — the exception code or interrupt index.
    pub fn cause_index(self) -> (r: u32)
        ensures
            r == cause_index_of(self.cause),
    {
        proof {
            lemma_u32_bits(self.cause);
        }
        self.cause & !INTERRUPT_BIT
    }

    /// The payload of exception `trap` with a zero trap value.
    pub fn from_trap(trap: Trap) -> (r: Self)
        ensures
            r == exception_info(trap, 0),
    {
        Self::new(trap, 0)
    }
}

/// An interrupt's cause word has bit 31 set and carries the interrupt
/// number in its low bits; an exception's cause word has bit 31 clear and is
/// its exception code.
pub proof fn law_cause_encoding(code: u32, t: Trap)
    requires
        code < INTERRUPT_BIT,
    ensures
        cause_is_interrupt(INTERRUPT_BIT | code),
        cause_index_of(INTERRUPT_BIT | code) == code,
        !cause_is_interrupt(exception_info(t, 0).cause),
        cause_index_of(exception_info(t, 0).cause) == trap_code(t),
{
    lemma_u32_bits(code);
}

impl From<Trap> for TrapInfo {
    fn from(trap: Trap) -> (r: Self) {
        Self::new(trap, 0)
    }
}

impl vstd::std_specs::convert::FromSpecImpl<Trap> for TrapInfo {
    open spec fn obeys_from_spec() -> bool {
        true
    }

    open spec fn from_spec(trap: Trap) -> Self {
        exception_info(trap, 0)
    }
}

} // verus!
