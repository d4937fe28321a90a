//! The hart: architectural state, memory access through the MMU, trap entry,
//! interrupt selection, and the fetch–decode–execute step.
use crate::arith::{wrap32, wrap64};
use crate::csr::{
    law_machine_trap_round_trip, law_supervisor_trap_round_trip, trap_enter_spec, trap_return_priv,
    CsrFile, CSR_MCAUSE, CSR_MCOUNTINHIBIT, CSR_MEDELEG, CSR_MEPC, CSR_MIDELEG,
    CSR_MIE, CSR_MIP, CSR_MISA, CSR_MSTATUS, CSR_MTVAL, CSR_MTVEC, CSR_SATP, CSR_SCAUSE,
    CSR_SEPC, CSR_STVAL, CSR_STVEC, MCOUNTINHIBIT_CY, MCOUNTINHIBIT_IR, MIP_SW_WRITABLE_PUB,
    MISA_RESET, MSTATUS_MIE, MSTATUS_MIE_BIT, MSTATUS_MPIE_BIT, MSTATUS_MPP_MASK,
    MSTATUS_MPP_SHIFT, MSTATUS_SIE, MSTATUS_SIE_BIT, MSTATUS_SPIE_BIT, MSTATUS_SPP_BIT,
    MSTATUS_SPP_MASK,
};
use crate::decode::{decode, decode_spec, expand_compressed, expand_spec, Instruction};
use crate::execute::{
    accrue_flags, complete_fp_spec, execute, execute_spec, lemma_decode_wf, mark_fs_dirty,
    needs_fpu, needs_fpu_spec, inst_wf,
};
use crate::mem::Memory;
use crate::mmu::{
    effective_priv, law_translate_bypass, translate, translate_spec, translation_bypassed, AccessType,
};
use crate::flat::{flat_offset, flat_write, law_flat_write_read, pow256, FlatMemory, FlatView};
use crate::reg::{reg_write, FpRegFile, RegFile};
use crate::trap::{cause_index_of, cause_is_interrupt, exception_info, Trap, TrapInfo, INTERRUPT_BIT};
use crate::bits::{lemma_align4, lemma_u16_bits, lemma_u64_bits};
use vstd::prelude::*;

verus! {

/// Privilege levels
pub const PRIV_U: u8 = 0;
pub const PRIV_S: u8 = 1;
pub const PRIV_M: u8 = 3;

pub const COUNTER_WRITTEN_CYCLE: u8 = 1;
pub const COUNTER_WRITTEN_INSTRET: u8 = 2;

/// A single RV32 hardware thread.
pub struct Hart {
    pub pc: u32,
    pub regs: RegFile,
    pub fregs: FpRegFile,
    pub csrs: CsrFile,
    pub cycle: u64,
    pub instret: u64,
    /// Current value of the platform timer, as read through the `time` CSR.
    pub mtime: u64,
    /// Load-reserved address for LR/SC (None = no reservation)
    pub reservation: Option<u32>,
    /// Current privilege mode (0=U, 1=S, 3=M)
    pub priv_mode: u8,
    /// Set during execute when this instruction wrote mcycle/minstret — the
    /// explicit write supersedes the implicit retire bump for that counter.
    /// Bit 0 = cycle, bit 1 = instret. Reset at the start of each step.
    pub counter_written: u8,
}

/// The architectural state of a hart, with register files and CSRs as sequences.
#[verifier::ext_equal]
pub ghost struct HartView {
    pub pc: u32,
    pub regs: Seq<u32>,
    pub fregs: Seq<u64>,
    pub csrs: Seq<u32>,
    pub cycle: u64,
    pub instret: u64,
    pub mtime: u64,
    pub reservation: Option<u32>,
    pub priv_mode: u8,
    pub counter_written: u8,
}

impl HartView {
    /// Register files and CSR file have their architectural sizes; `x0` reads 0.
    pub open spec fn wf(self) -> bool {
        &&& self.regs.len() == 32
        &&& self.regs[0] == 0
        &&& self.fregs.len() == 32
        &&& self.csrs.len() == 4096
    }

    /// Integer register `r`.
    pub open spec fn x(self, r: u8) -> u32 {
        self.regs[r as int]
    }

    /// Floating-point register `r` (raw bits).
    pub open spec fn f(self, r: u8) -> u64 {
        self.fregs[r as int]
    }

    /// CSR `a` (raw storage).
    pub open spec fn csr(self, a: u16) -> u32 {
        self.csrs[a as int]
    }

    /// The state with integer register `rd` written (writes to `x0` discarded).
    pub open spec fn with_reg(self, rd: u8, v: u32) -> HartView {
        HartView { regs: reg_write(self.regs, rd, v), ..self }
    }

    /// The state with floating-point register `rd` written.
    pub open spec fn with_freg(self, rd: u8, v: u64) -> HartView {
        HartView { fregs: self.fregs.update(rd as int, v), ..self }
    }

    /// The state with CSR `a` written (raw).
    pub open spec fn with_csr(self, a: u16, v: u32) -> HartView {
        HartView { csrs: self.csrs.update(a as int, v), ..self }
    }

    /// The state with the program counter set.
    pub open spec fn with_pc(self, pc: u32) -> HartView {
        HartView { pc, ..self }
    }
}

impl View for Hart {
    type V = HartView;

    open spec fn view(&self) -> HartView {
        HartView {
            pc: self.pc,
            regs: self.regs@,
            fregs: self.fregs@,
            csrs: self.csrs@,
            cycle: self.cycle,
            instret: self.instret,
            mtime: self.mtime,
            reservation: self.reservation,
            priv_mode: self.priv_mode,
            counter_written: self.counter_written,
        }
    }
}

/// Translation of `va` for an access by a hart in state `s`.
pub open spec fn hart_translate_spec<M: Memory>(s: HartView, mem: M::V, va: u32, access: AccessType) -> (Result<u32, TrapInfo>, M::V) {
    translate_spec::<M>(s.priv_mode, s.csr(CSR_MSTATUS), s.csr(CSR_SATP), mem, va, access)
}

/// A device access fault reported by memory becomes a trap with zero trap value.
pub open spec fn device_result<T>(r: Result<T, Trap>) -> Result<T, TrapInfo> {
    match r {
        Ok(v) => Ok(v),
        Err(t) => Err(exception_info(t, 0)),
    }
}

#[verifier::opaque]
pub open spec fn load8_spec<M: Memory>(s: HartView, mem: M::V, va: u32) -> (Result<u8, TrapInfo>, M::V) {
    let (t, m1) = hart_translate_spec::<M>(s, mem, va, AccessType::Load);
    match t {
        Err(e) => (Err(e), m1),
        Ok(pa) => {
            let (r, m2) = M::read8_spec(m1, pa);
            (device_result(r), m2)
        },
    }
}

#[verifier::opaque]
pub open spec fn load16_spec<M: Memory>(s: HartView, mem: M::V, va: u32) -> (Result<u16, TrapInfo>, M::V) {
    let (t, m1) = hart_translate_spec::<M>(s, mem, va, AccessType::Load);
    match t {
        Err(e) => (Err(e), m1),
        Ok(pa) => {
            let (r, m2) = M::read16_spec(m1, pa);
            (device_result(r), m2)
        },
    }
}

#[verifier::opaque]
pub open spec fn load32_spec<M: Memory>(s: HartView, mem: M::V, va: u32) -> (Result<u32, TrapInfo>, M::V) {
    let (t, m1) = hart_translate_spec::<M>(s, mem, va, AccessType::Load);
    match t {
        Err(e) => (Err(e), m1),
        Ok(pa) => {
            let (r, m2) = M::read32_spec(m1, pa);
            (device_result(r), m2)
        },
    }
}

#[verifier::opaque]
pub open spec fn store8_spec<M: Memory>(s: HartView, mem: M::V, va: u32, val: u8) -> (Result<(), TrapInfo>, M::V) {
    let (t, m1) = hart_translate_spec::<M>(s, mem, va, AccessType::Store);
    match t {
        Err(e) => (Err(e), m1),
        Ok(pa) => {
            let (r, m2) = M::write8_spec(m1, pa, val);
            (device_result(r), m2)
        },
    }
}

#[verifier::opaque]
pub open spec fn store16_spec<M: Memory>(s: HartView, mem: M::V, va: u32, val: u16) -> (Result<(), TrapInfo>, M::V) {
    let (t, m1) = hart_translate_spec::<M>(s, mem, va, AccessType::Store);
    match t {
        Err(e) => (Err(e), m1),
        Ok(pa) => {
            let (r, m2) = M::write16_spec(m1, pa, val);
            (device_result(r), m2)
        },
    }
}

#[verifier::opaque]
pub open spec fn store32_spec<M: Memory>(s: HartView, mem: M::V, va: u32, val: u32) -> (Result<(), TrapInfo>, M::V) {
    let (t, m1) = hart_translate_spec::<M>(s, mem, va, AccessType::Store);
    match t {
        Err(e) => (Err(e), m1),
        Ok(pa) => {
            let (r, m2) = M::write32_spec(m1, pa, val);
            (device_result(r), m2)
        },
    }
}

/// With translation bypassed for loads and stores (effective M-mode, or
/// satp Bare) and RAM as memory, a doubleword load at `va` gives back the
/// value that a successful doubleword store at `va` wrote.
pub proof fn law_store64_load64(s: HartView, m: FlatView, va: u32, v: u64)
    requires
        translation_bypassed(
            effective_priv(s.priv_mode, s.csr(CSR_MSTATUS), AccessType::Load),
            s.csr(CSR_SATP),
        ),
        translation_bypassed(
            effective_priv(s.priv_mode, s.csr(CSR_MSTATUS), AccessType::Store),
            s.csr(CSR_SATP),
        ),
        store64_spec::<FlatMemory>(s, m, va, v).0 is Ok,
    ensures
        load64_spec::<FlatMemory>(s, store64_spec::<FlatMemory>(s, m, va, v).1, va).0 == Ok::<
            u64,
            TrapInfo,
        >(v),
{
    reveal(load64_spec);
    reveal(store64_spec);
    reveal(load32_spec);
    reveal(store32_spec);
    let lo = (v % 0x1_0000_0000) as u32;
    let hi = (v / 0x1_0000_0000) as u32;
    let a2 = wrap32(va + 4);
    let mstatus = s.csr(CSR_MSTATUS);
    let satp = s.csr(CSR_SATP);
    law_translate_bypass::<FlatMemory>(s.priv_mode, mstatus, satp, m, va, AccessType::Store);
    let m1 = flat_write(m, va, lo as int, 4).1;
    law_translate_bypass::<FlatMemory>(s.priv_mode, mstatus, satp, m1, a2, AccessType::Store);
    let m2 = flat_write(m1, a2, hi as int, 4).1;
    assert(pow256(4) == 0x1_0000_0000) by {
        reveal_with_fuel(pow256, 5);
    }
    law_flat_write_read(m, va, lo as int, 4, a2, 4);
    law_flat_write_read(m1, a2, hi as int, 4, va, 4);
    let o1 = flat_offset(m1, va)->0;
    let o2 = flat_offset(m1, a2)->0;
    assert(o1 + 4 <= o2 || o2 + 4 <= o1);
    law_translate_bypass::<FlatMemory>(s.priv_mode, mstatus, satp, m2, va, AccessType::Load);
    law_translate_bypass::<FlatMemory>(s.priv_mode, mstatus, satp, m2, a2, AccessType::Load);
    assert(hi as u64 * 0x1_0000_0000 + lo as u64 == v);
}

/// Doubleword load as two word loads, low word first.
#[verifier::opaque]
pub open spec fn load64_spec<M: Memory>(s: HartView, mem: M::V, va: u32) -> (Result<u64, TrapInfo>, M::V) {
    let (r1, m1) = load32_spec::<M>(s, mem, va);
    match r1 {
        Err(e) => (Err(e), m1),
        Ok(lo) => {
            let (r2, m2) = load32_spec::<M>(s, m1, wrap32(va + 4));
            match r2 {
                Err(e) => (Err(e), m2),
                Ok(hi) => (Ok(((hi as u64) * 0x1_0000_0000 + lo as u64) as u64), m2),
            }
        },
    }
}

/// Doubleword store as two word stores, low word first.
#[verifier::opaque]
pub open spec fn store64_spec<M: Memory>(s: HartView, mem: M::V, va: u32, val: u64) -> (Result<(), TrapInfo>, M::V) {
    let (r1, m1) = store32_spec::<M>(s, mem, va, (val % 0x1_0000_0000) as u32);
    match r1 {
        Err(e) => (Err(e), m1),
        Ok(_) => store32_spec::<M>(s, m1, wrap32(va + 4), (val / 0x1_0000_0000) as u32),
    }
}

/// Instruction fetch at `s.pc`: the (expanded) 32-bit instruction and its
/// width in bytes. The two halfwords of a 4-byte instruction are translated
/// separately, so the second may fault with its own address as trap value.
#[verifier::opaque]
pub open spec fn fetch_spec<M: Memory>(s: HartView, mem: M::V) -> (Result<(u32, u8), TrapInfo>, M::V) {
    let (t1, m1) = hart_translate_spec::<M>(s, mem, s.pc, AccessType::Fetch);
    match t1 {
        Err(e) => (Err(e), m1),
        Ok(pa_lo) => {
            let (r1, m2) = M::read16_spec(m1, pa_lo);
            match r1 {
                Err(_) => (Err(exception_info(Trap::InstructionAccessFault, s.pc)), m2),
                Ok(lo) => if lo % 4 != 3 {
                    (
                        match expand_spec(lo) {
                            Ok(raw) => Ok((raw, 2u8)),
                            Err(t) => Err(exception_info(t, lo as u32)),
                        },
                        m2,
                    )
                } else {
                    let pc_hi = wrap32(s.pc + 2);
                    let (t2, m3) = hart_translate_spec::<M>(s, m2, pc_hi, AccessType::Fetch);
                    match t2 {
                        Err(e) => (Err(e), m3),
                        Ok(pa_hi) => {
                            let (r2, m4) = M::read16_spec(m3, pa_hi);
                            match r2 {
                                Err(_) => (
                                    Err(exception_info(Trap::InstructionAccessFault, pc_hi)),
                                    m4,
                                ),
                                Ok(hi) => (Ok((((hi as u32) * 0x1_0000 + lo as u32) as u32, 4u8)), m4),
                            }
                        },
                    }
                },
            }
        },
    }
}

impl Hart {
    /// Every hart's register files and CSR file have their architectural sizes.
    pub proof fn lemma_wf(&self)
        ensures
            self@.wf(),
    {
        self.regs.lemma_view_wf();
        self.fregs.lemma_view_wf();
        self.csrs.lemma_view_wf();
    }

    /// Translate `va` with the given access type. Page-fault errors carry the VA as `tval`.
    pub fn translate<M: Memory>(&self, mem: &mut M, va: u32, access: AccessType) -> (r: Result<
        u32,
        TrapInfo,
    >)
        ensures
            (r, final(mem)@) == hart_translate_spec::<M>(self@, old(mem)@, va, access),
    {
        translate(self, mem, va, access)
    }

    /// Fetch the next instruction at `self.pc`, returning the (expanded) 32-bit
    /// form plus its width in bytes (2 for compressed, 4 for full). Halfwords
    /// are translated separately so a 4-byte instruction can straddle a page
    /// boundary — the second halfword may fault independently with the correct
    /// VA in tval.
    pub fn fetch_inst<M: Memory>(&self, mem: &mut M) -> (r: Result<(u32, u8), TrapInfo>)
        ensures
            (r, final(mem)@) == fetch_spec::<M>(self@, old(mem)@),
    {
        proof {
            reveal(fetch_spec);
        }
        let pa_lo = match self.translate(mem, self.pc, AccessType::Fetch) {
            Ok(pa) => pa,
            Err(e) => return Err(e),
        };
        let lo = match mem.read16(pa_lo) {
            Ok(v) => v,
            Err(_) => return Err(TrapInfo::new(Trap::InstructionAccessFault, self.pc)),
        };
        proof {
            lemma_u16_bits(lo, 0);
        }
        if lo & 0x3 != 0x3 {
            return match expand_compressed(lo) {
                Ok(raw) => Ok((raw, 2)),
                Err(t) => Err(TrapInfo::new(t, lo as u32)),
            };
        }
        let pc_hi = self.pc.wrapping_add(2);
        let pa_hi = match self.translate(mem, pc_hi, AccessType::Fetch) {
            Ok(pa) => pa,
            Err(e) => return Err(e),
        };
        let hi = match mem.read16(pa_hi) {
            Ok(v) => v,
            Err(_) => return Err(TrapInfo::new(Trap::InstructionAccessFault, pc_hi)),
        };
        proof {
            lemma_u16_bits(lo, hi);
        }
        Ok((((hi as u32) << 16) | lo as u32, 4))
    }

    pub fn load8<M: Memory>(&self, mem: &mut M, va: u32) -> (r: Result<u8, TrapInfo>)
        ensures
            (r, final(mem)@) == load8_spec::<M>(self@, old(mem)@, va),
    {
        proof {
            reveal(load8_spec);
        }
        let pa = match self.translate(mem, va, AccessType::Load) {
            Ok(pa) => pa,
            Err(e) => return Err(e),
        };
        match mem.read8(pa) {
            Ok(v) => Ok(v),
            Err(t) => Err(TrapInfo::new(t, 0)),
        }
    }

    pub fn load16<M: Memory>(&self, mem: &mut M, va: u32) -> (r: Result<u16, TrapInfo>)
        ensures
            (r, final(mem)@) == load16_spec::<M>(self@, old(mem)@, va),
    {
        proof {
            reveal(load16_spec);
        }
        let pa = match self.translate(mem, va, AccessType::Load) {
            Ok(pa) => pa,
            Err(e) => return Err(e),
        };
        match mem.read16(pa) {
            Ok(v) => Ok(v),
            Err(t) => Err(TrapInfo::new(t, 0)),
        }
    }

    pub fn load32<M: Memory>(&self, mem: &mut M, va: u32) -> (r: Result<u32, TrapInfo>)
        ensures
            (r, final(mem)@) == load32_spec::<M>(self@, old(mem)@, va),
    {
        proof {
            reveal(load32_spec);
        }
        let pa = match self.translate(mem, va, AccessType::Load) {
            Ok(pa) => pa,
            Err(e) => return Err(e),
        };
        match mem.read32(pa) {
            Ok(v) => Ok(v),
            Err(t) => Err(TrapInfo::new(t, 0)),
        }
    }

    pub fn store8<M: Memory>(&self, mem: &mut M, va: u32, val: u8) -> (r: Result<(), TrapInfo>)
        ensures
            (r, final(mem)@) == store8_spec::<M>(self@, old(mem)@, va, val),
    {
        proof {
            reveal(store8_spec);
        }
        let pa = match self.translate(mem, va, AccessType::Store) {
            Ok(pa) => pa,
            Err(e) => return Err(e),
        };
        match mem.write8(pa, val) {
            Ok(v) => Ok(v),
            Err(t) => Err(TrapInfo::new(t, 0)),
        }
    }

    pub fn store16<M: Memory>(&self, mem: &mut M, va: u32, val: u16) -> (r: Result<(), TrapInfo>)
        ensures
            (r, final(mem)@) == store16_spec::<M>(self@, old(mem)@, va, val),
    {
        proof {
            reveal(store16_spec);
        }
        let pa = match self.translate(mem, va, AccessType::Store) {
            Ok(pa) => pa,
            Err(e) => return Err(e),
        };
        match mem.write16(pa, val) {
            Ok(v) => Ok(v),
            Err(t) => Err(TrapInfo::new(t, 0)),
        }
    }

    pub fn store32<M: Memory>(&self, mem: &mut M, va: u32, val: u32) -> (r: Result<(), TrapInfo>)
        ensures
            (r, final(mem)@) == store32_spec::<M>(self@, old(mem)@, va, val),
    {
        proof {
            reveal(store32_spec);
        }
        let pa = match self.translate(mem, va, AccessType::Store) {
            Ok(pa) => pa,
            Err(e) => return Err(e),
        };
        match mem.write32(pa, val) {
            Ok(v) => Ok(v),
            Err(t) => Err(TrapInfo::new(t, 0)),
        }
    }

    pub fn load64<M: Memory>(&self, mem: &mut M, va: u32) -> (r: Result<u64, TrapInfo>)
        ensures
            (r, final(mem)@) == load64_spec::<M>(self@, old(mem)@, va),
    {
        proof {
            reveal(load64_spec);
        }
        let lo = match self.load32(mem, va) {
            Ok(v) => v as u64,
            Err(e) => return Err(e),
        };
        let hi = match self.load32(mem, va.wrapping_add(4)) {
            Ok(v) => v as u64,
            Err(e) => return Err(e),
        };
        proof {
            lemma_u64_bits(0, lo as u32, hi as u32);
        }
        Ok((hi << 32) | lo)
    }

    pub fn store64<M: Memory>(&self, mem: &mut M, va: u32, val: u64) -> (r: Result<(), TrapInfo>)
        ensures
            (r, final(mem)@) == store64_spec::<M>(self@, old(mem)@, va, val),
    {
        proof {
            reveal(store64_spec);
        }
        proof {
            lemma_u64_bits(val, 0, 0);
        }
        match self.store32(mem, va, val as u32) {
            Ok(_) => {},
            Err(e) => return Err(e),
        }
        self.store32(mem, va.wrapping_add(4), (val >> 32) as u32)
    }
}

impl Hart {
    pub fn new(start_pc: u32) -> (r: Self)
        ensures
            r.pc == start_pc,
            r.regs@ == Seq::new(32, |i: int| 0u32),
            r.fregs@ == Seq::new(32, |i: int| 0u64),
            r.csrs@ == Seq::new(4096, |i: int| 0u32).update(CSR_MISA as int, MISA_RESET),
            r.cycle == 0,
            r.instret == 0,
            r.mtime == 0,
            r.reservation is None,
            r.priv_mode == PRIV_M,
            r.counter_written == 0,
    {
        Self {
            pc: start_pc,
            regs: RegFile::new(),
            fregs: FpRegFile::new(),
            csrs: CsrFile::new(),
            cycle: 0,
            instret: 0,
            mtime: 0,
            reservation: None,
            priv_mode: PRIV_M,
            counter_written: 0,
        }
    }
}

// ---------------------------------------------------------------------------
// Interrupts, trap entry and the step function
// ---------------------------------------------------------------------------

/// Interrupt `bit` (mask `mask = 1 << bit`) is pending, enabled in mie, and
/// deliverable at the current privilege: mideleg sends it to S-mode (taken
/// below S, or in S with SIE) or leaves it for M-mode (taken below M, or in
/// M with MIE).
pub open spec fn interrupt_deliverable(s: HartView, mask: u32) -> bool {
    let pending = s.csr(CSR_MIP) & s.csr(CSR_MIE);
    let mstatus = s.csr(CSR_MSTATUS);
    let m_enabled = s.priv_mode < PRIV_M || (s.priv_mode == PRIV_M && (mstatus & MSTATUS_MIE) != 0);
    let s_enabled = s.priv_mode < PRIV_S || (s.priv_mode == PRIV_S && (mstatus & MSTATUS_SIE) != 0);
    (pending & mask) != 0 && if (s.csr(CSR_MIDELEG) & mask) != 0 {
        s_enabled
    } else {
        m_enabled
    }
}

/// The highest-priority deliverable interrupt, in the order MEI, MSI, MTI,
/// SEI, SSI, STI, as its bit index.
pub open spec fn take_interrupt_spec(s: HartView) -> Option<u32> {
    if interrupt_deliverable(s, 0x800) {
        Some(11)
    } else if interrupt_deliverable(s, 0x8) {
        Some(3)
    } else if interrupt_deliverable(s, 0x80) {
        Some(7)
    } else if interrupt_deliverable(s, 0x200) {
        Some(9)
    } else if interrupt_deliverable(s, 0x2) {
        Some(1)
    } else if interrupt_deliverable(s, 0x20) {
        Some(5)
    } else {
        None
    }
}

/// The trap entry PC from xtvec. MODE=0 (direct) sends everything to BASE;
/// MODE=1 (vectored) sends interrupts to BASE + 4*cause and exceptions to BASE.
pub open spec fn trap_target_spec(xtvec: u32, info: TrapInfo) -> u32 {
    let base = xtvec & !0x3u32;
    if xtvec & 0x3 == 1 && cause_is_interrupt(info.cause) {
        wrap32(base + 4 * cause_index_of(info.cause))
    } else {
        base
    }
}

/// Trap entry: the reservation is dropped; the trap goes to S-mode when taken
/// below M and the cause's bit is set in mideleg (interrupts) or medeleg
/// (exceptions), else to M-mode; xepc, xcause, xtval are written, mstatus
/// records the previous privilege and interrupt enable, and the pc moves to
/// the handler.
pub open spec fn handle_trap_spec(s: HartView, info: TrapInfo, trap_pc: u32) -> HartView {
    let idx = cause_index_of(info.cause);
    let deleg = if cause_is_interrupt(info.cause) {
        s.csr(CSR_MIDELEG)
    } else {
        s.csr(CSR_MEDELEG)
    };
    let to_s = s.priv_mode < PRIV_M && (deleg & (1u32 << (idx % 32))) != 0;
    let s0 = HartView { reservation: None, ..s };
    if to_s {
        let s1 = s0.with_csr(CSR_SEPC, trap_pc).with_csr(CSR_SCAUSE, info.cause).with_csr(
            CSR_STVAL,
            info.tval,
        );
        let s2 = s1.with_csr(
            CSR_MSTATUS,
            trap_enter_spec(
                s1.csr(CSR_MSTATUS),
                s.priv_mode,
                MSTATUS_SIE_BIT,
                MSTATUS_SPIE_BIT,
                MSTATUS_SPP_BIT,
                MSTATUS_SPP_MASK,
            ),
        );
        HartView { priv_mode: PRIV_S, pc: trap_target_spec(s2.csr(CSR_STVEC), info), ..s2 }
    } else {
        let s1 = s0.with_csr(CSR_MEPC, trap_pc).with_csr(CSR_MCAUSE, info.cause).with_csr(
            CSR_MTVAL,
            info.tval,
        );
        let s2 = s1.with_csr(
            CSR_MSTATUS,
            trap_enter_spec(
                s1.csr(CSR_MSTATUS),
                s.priv_mode,
                MSTATUS_MIE_BIT,
                MSTATUS_MPIE_BIT,
                MSTATUS_MPP_SHIFT,
                MSTATUS_MPP_MASK,
            ),
        );
        HartView { priv_mode: PRIV_M, pc: trap_target_spec(s2.csr(CSR_MTVEC), info), ..s2 }
    }
}

/// Trap entry records the trap: the handler's mode gets the trapping pc in
/// xepc, the cause in xcause and the trap value in xtval, its interrupt
/// enable is cleared and the previous privilege is kept in xPP; a trap taken
/// in M-mode is never delegated, and any LR reservation is dropped.
pub proof fn law_trap_entry(s: HartView, info: TrapInfo, trap_pc: u32)
    requires
        s.wf(),
        s.priv_mode == PRIV_U || s.priv_mode == PRIV_S || s.priv_mode == PRIV_M,
    ensures
        ({
            let t = handle_trap_spec(s, info, trap_pc);
            &&& t.wf()
            &&& t.reservation is None
            &&& s.priv_mode == PRIV_M ==> t.priv_mode == PRIV_M
            &&& t.priv_mode == PRIV_M ==> {
                &&& t.csr(CSR_MEPC) == trap_pc
                &&& t.csr(CSR_MCAUSE) == info.cause
                &&& t.csr(CSR_MTVAL) == info.tval
                &&& t.csr(CSR_MSTATUS) & MSTATUS_MIE == 0
                &&& trap_return_priv(t.csr(CSR_MSTATUS), MSTATUS_MPP_SHIFT, MSTATUS_MPP_MASK)
                    == s.priv_mode
                &&& t.pc == trap_target_spec(s.csr(CSR_MTVEC), info)
            }
            &&& t.priv_mode == PRIV_S ==> {
                &&& t.csr(CSR_SEPC) == trap_pc
                &&& t.csr(CSR_SCAUSE) == info.cause
                &&& t.csr(CSR_STVAL) == info.tval
                &&& t.csr(CSR_MSTATUS) & MSTATUS_SIE == 0
                &&& trap_return_priv(t.csr(CSR_MSTATUS), MSTATUS_SPP_BIT, MSTATUS_SPP_MASK)
                    == s.priv_mode
                &&& t.pc == trap_target_spec(s.csr(CSR_STVEC), info)
            }
        }),
{
    let m = s.csr(CSR_MSTATUS);
    if handle_trap_spec(s, info, trap_pc).priv_mode == PRIV_M {
        law_machine_trap_round_trip(m, s.priv_mode);
    } else {
        law_supervisor_trap_round_trip(m, s.priv_mode);
    }
}

/// Where a trap goes: the handler base is xtvec (mtvec for a trap taken in
/// M-mode, stvec for one delegated to S-mode) with its two MODE bits
/// cleared. An exception always goes to the base, whatever the MODE; only an
/// interrupt in vectored mode (MODE = 1) goes to base + 4 * cause.
#[verifier::spinoff_prover]
pub proof fn law_trap_vector(s: HartView, info: TrapInfo, trap_pc: u32)
    requires
        s.wf(),
        s.priv_mode == PRIV_U || s.priv_mode == PRIV_S || s.priv_mode == PRIV_M,
    ensures
        ({
            let t = handle_trap_spec(s, info, trap_pc);
            let xtvec = if t.priv_mode == PRIV_M { s.csr(CSR_MTVEC) } else { s.csr(CSR_STVEC) };
            let base = xtvec / 4 * 4;
            &&& t.priv_mode == PRIV_M || t.priv_mode == PRIV_S
            &&& info.cause < 0x8000_0000 ==> t.pc == base
            &&& info.cause >= 0x8000_0000 && xtvec % 4 == 1 ==> t.pc == ((base + 4 * (info.cause
                - 0x8000_0000)) % 0x1_0000_0000) as u32
            &&& info.cause >= 0x8000_0000 && xtvec % 4 != 1 ==> t.pc == base
        }),
{
    law_trap_entry(s, info, trap_pc);
    lemma_align4(s.csr(CSR_MTVEC));
    lemma_align4(s.csr(CSR_STVEC));
}

/// Bit `x / p % 2` of a word, for `p` a power of two.
pub open spec fn bit_at(x: u32, p: u32) -> bool {
    (x / p) % 2 == 1
}

/// Interrupt `p` (given as the power of two of its bit in mip) can be
/// taken: it is pending and enabled in mip & mie, and either delegated by
/// mideleg to S-mode (taken below S, or in S with sstatus.SIE) or kept for
/// M-mode (taken below M, or in M with mstatus.MIE).
pub open spec fn irq_ready(s: HartView, p: u32) -> bool {
    let ms = s.csr(CSR_MSTATUS);
    &&& bit_at(s.csr(CSR_MIP) & s.csr(CSR_MIE), p)
    &&& if bit_at(s.csr(CSR_MIDELEG), p) {
        s.priv_mode < 1 || (s.priv_mode == 1 && bit_at(ms, 2))
    } else {
        s.priv_mode < 3 || (s.priv_mode == 3 && bit_at(ms, 8))
    }
}

/// Single-bit masks as arithmetic.
proof fn lemma_irq_bits(x: u32)
    by (bit_vector)
    ensures
        (x & 0x800u32 != 0) == ((x / 0x800) % 2 == 1),
        (x & 0x8u32 != 0) == ((x / 0x8) % 2 == 1),
        (x & 0x80u32 != 0) == ((x / 0x80) % 2 == 1),
        (x & 0x200u32 != 0) == ((x / 0x200) % 2 == 1),
        (x & 0x2u32 != 0) == ((x / 0x2) % 2 == 1),
        (x & 0x20u32 != 0) == ((x / 0x20) % 2 == 1),
{
}

/// Which interrupt is taken: the first ready one in the order MEI (11),
/// MSI (3), MTI (7), SEI (9), SSI (1), STI (5); none when none is ready.
#[verifier::spinoff_prover]
pub proof fn law_interrupt_priority(s: HartView)
    ensures
        take_interrupt_spec(s) == if irq_ready(s, 0x800) {
            Some(11u32)
        } else if irq_ready(s, 0x8) {
            Some(3u32)
        } else if irq_ready(s, 0x80) {
            Some(7u32)
        } else if irq_ready(s, 0x200) {
            Some(9u32)
        } else if irq_ready(s, 0x2) {
            Some(1u32)
        } else if irq_ready(s, 0x20) {
            Some(5u32)
        } else {
            None
        },
{
    lemma_irq_bits(s.csr(CSR_MIP) & s.csr(CSR_MIE));
    lemma_irq_bits(s.csr(CSR_MIDELEG));
    lemma_irq_bits(s.csr(CSR_MSTATUS));
}

/// Where a trap is handled: in S-mode exactly when it is taken below M-mode
/// and its cause number (the low 31 bits of the cause) has its bit set in
/// mideleg for an interrupt or medeleg for an exception; in M-mode
/// otherwise. The reservation is always dropped.
#[verifier::spinoff_prover]
pub proof fn law_trap_delegation(s: HartView, info: TrapInfo, trap_pc: u32)
    ensures
        ({
            let t = handle_trap_spec(s, info, trap_pc);
            let idx = info.cause % 0x8000_0000;
            let deleg = if info.cause >= 0x8000_0000 { s.csr(CSR_MIDELEG) } else { s.csr(CSR_MEDELEG) };
            let to_s = s.priv_mode < 3 && (deleg >> ((idx % 32) as u32)) & 1 == 1;
            &&& to_s ==> t.priv_mode == PRIV_S
            &&& !to_s ==> t.priv_mode == PRIV_M
            &&& t.reservation is None
        }),
{
    let idx = (info.cause % 0x8000_0000) as u32;
    let deleg = if info.cause >= 0x8000_0000 { s.csr(CSR_MIDELEG) } else { s.csr(CSR_MEDELEG) };
    crate::bits::lemma_bit_ops(deleg, 0, idx % 32);
    assert(((deleg >> (idx % 32)) & 1u32 != 0) == ((deleg >> (idx % 32)) & 1 == 1)) by {
        crate::bits::lemma_u32_bits(deleg >> (idx % 32));
    }
}

/// Instruction fetch reads the halfword at `pc`. A halfword whose low two
/// bits are not `11` is a compressed instruction: it is expanded and the
/// width is 2 (a reserved encoding is an illegal-instruction fault whose
/// trap value is the halfword). Otherwise the halfword at `pc + 2` is
/// fetched (translated on its own) and the instruction is `hi * 2^16 + lo`
/// with width 4. A device error on either read is an instruction access
/// fault at that halfword's address.
#[verifier::spinoff_prover]
pub proof fn law_fetch<M: Memory>(s: HartView, mem: M::V)
    ensures
        ({
            let (t1, m1) = hart_translate_spec::<M>(s, mem, s.pc, AccessType::Fetch);
            fetch_spec::<M>(s, mem) == match t1 {
                Err(e) => (Err(e), m1),
                Ok(pa_lo) => {
                    let (r1, m2) = M::read16_spec(m1, pa_lo);
                    match r1 {
                        Err(_) => (Err(TrapInfo { cause: 1, tval: s.pc }), m2),
                        Ok(lo) => if lo % 4 != 3 {
                            (
                                match expand_spec(lo) {
                                    Ok(raw) => Ok((raw, 2u8)),
                                    Err(_) => Err(TrapInfo { cause: 2, tval: lo as u32 }),
                                },
                                m2,
                            )
                        } else {
                            let pc_hi = ((s.pc + 2) % 0x1_0000_0000) as u32;
                            let (t2, m3) = hart_translate_spec::<M>(s, m2, pc_hi, AccessType::Fetch);
                            match t2 {
                                Err(e) => (Err(e), m3),
                                Ok(pa_hi) => {
                                    let (r2, m4) = M::read16_spec(m3, pa_hi);
                                    match r2 {
                                        Err(_) => (Err(TrapInfo { cause: 1, tval: pc_hi }), m4),
                                        Ok(hi) => (Ok(((hi as int * 0x1_0000 + lo as int) as u32, 4u8)), m4),
                                    }
                                },
                            }
                        },
                    }
                },
            }
        }),
{
    reveal(fetch_spec);
    let (t1, m1) = hart_translate_spec::<M>(s, mem, s.pc, AccessType::Fetch);
    if let Ok(pa_lo) = t1 {
        let (r1, m2) = M::read16_spec(m1, pa_lo);
        if let Ok(lo) = r1 {
            if lo % 4 != 3 {
                crate::rvc::law_expansion_decodes(lo);
            }
        }
    }
}

/// Interrupts are taken between instructions: when one is deliverable after
/// the hardware lines are merged into mip, the step fetches nothing, leaves
/// memory alone, and enters the trap with the interrupted instruction's pc
/// as the return address and the interrupt's cause.
pub proof fn law_step_interrupt<M: Memory>(s: HartView, mem: M::V, pending_hw: u32)
    requires
        s.wf(),
        s.priv_mode == PRIV_U || s.priv_mode == PRIV_S || s.priv_mode == PRIV_M,
    ensures
        ({
            let s0 = s.with_csr(CSR_MIP, (s.csr(CSR_MIP) & MIP_SW_WRITABLE_PUB) | pending_hw);
            let s1 = HartView { counter_written: 0, ..s0 };
            let (out, t, m) = step_spec::<M>(s, mem, pending_hw);
            take_interrupt_spec(s1) matches Some(code) ==> {
                &&& out is None
                &&& m == mem
                &&& t.priv_mode == PRIV_M ==> t.csr(CSR_MEPC) == s.pc && t.csr(CSR_MCAUSE) == (
                INTERRUPT_BIT | code)
                &&& t.priv_mode == PRIV_S ==> t.csr(CSR_SEPC) == s.pc && t.csr(CSR_SCAUSE) == (
                INTERRUPT_BIT | code)
            }
        }),
{
    let s0 = s.with_csr(CSR_MIP, (s.csr(CSR_MIP) & MIP_SW_WRITABLE_PUB) | pending_hw);
    let s1 = HartView { counter_written: 0, ..s0 };
    if let Some(code) = take_interrupt_spec(s1) {
        law_trap_entry(s1, interrupt_info(code), s1.pc);
    }
}

/// The payload of interrupt `code`: bit 31 set, trap value zero.
pub open spec fn interrupt_info(code: u32) -> TrapInfo {
    TrapInfo { cause: INTERRUPT_BIT | code, tval: 0 }
}

/// Fetch, decode and execute from state `s1` (counter flags already cleared):
/// what the caller must still compute, the state and the memory afterwards.
#[verifier::opaque]
pub open spec fn retire_spec<M: Memory>(s1: HartView, mem: M::V, tick_instret: bool) -> (Option<Instruction>, HartView, M::V) {
    let trap_pc = s1.pc;
    let (f, m1) = fetch_spec::<M>(s1, mem);
    match f {
        Err(e) => (None, handle_trap_spec(s1, e, trap_pc), m1),
        Ok((raw, width)) => match decode_spec(raw) {
            Err(t) => (None, handle_trap_spec(s1, exception_info(t, 0), trap_pc), m1),
            Ok(inst) => {
                let s2 = s1.with_pc(wrap32(s1.pc + width));
                let (r, s3, m2) = execute_spec::<M>(s2, m1, inst, trap_pc);
                match r {
                    Err(e) => (None, handle_trap_spec(s3, e, trap_pc), m2),
                    Ok(_) => (
                        if needs_fpu_spec(inst) {
                            Some(inst)
                        } else {
                            None
                        },
                        if tick_instret && (s3.counter_written & COUNTER_WRITTEN_INSTRET) == 0 {
                            HartView { instret: wrap64(s3.instret + 1), ..s3 }
                        } else {
                            s3
                        },
                        m2,
                    ),
                }
            },
        },
    }
}

/// One step of the hart with hardware interrupt lines `pending_hw`: merge
/// them into mip (keeping the software-writable bits), clear the per-step
/// counter flags, take a deliverable interrupt if there is one, else fetch,
/// decode and execute one instruction (trapping on any fault); then advance
/// the counters that mcountinhibit leaves running and that the instruction
/// did not write. The result names an instruction whose IEEE-754 result the
/// caller must still supply through `complete_fp`.
pub open spec fn step_spec<M: Memory>(s: HartView, mem: M::V, pending_hw: u32) -> (Option<Instruction>, HartView, M::V) {
    let s0 = s.with_csr(CSR_MIP, (s.csr(CSR_MIP) & MIP_SW_WRITABLE_PUB) | pending_hw);
    let inhibit = s0.csr(CSR_MCOUNTINHIBIT);
    let tick_cycle = (inhibit & MCOUNTINHIBIT_CY) == 0;
    let tick_instret = (inhibit & MCOUNTINHIBIT_IR) == 0;
    let s1 = HartView { counter_written: 0, ..s0 };
    match take_interrupt_spec(s1) {
        Some(code) => {
            let s2 = handle_trap_spec(s1, interrupt_info(code), s1.pc);
            (
                None,
                if tick_cycle {
                    HartView { cycle: wrap64(s2.cycle + 1), ..s2 }
                } else {
                    s2
                },
                mem,
            )
        },
        None => {
            let (out, s3, m) = retire_spec::<M>(s1, mem, tick_instret);
            (
                out,
                if tick_cycle && (s3.counter_written & COUNTER_WRITTEN_CYCLE) == 0 {
                    HartView { cycle: wrap64(s3.cycle + 1), ..s3 }
                } else {
                    s3
                },
                m,
            )
        },
    }
}

/// `n` steps with no hardware interrupt line raised, stopping after a step
/// whose floating-point result is left to the caller: the number of steps
/// taken, that instruction, and the state and memory afterwards.
pub open spec fn run_spec<M: Memory>(s: HartView, mem: M::V, n: nat) -> (nat, Option<Instruction>, HartView, M::V)
    decreases n,
{
    if n == 0 {
        (0, None, s, mem)
    } else {
        let (out, s1, m1) = step_spec::<M>(s, mem, 0);
        if out is Some {
            (1, out, s1, m1)
        } else {
            let (k, o, s2, m2) = run_spec::<M>(s1, m1, (n - 1) as nat);
            (k + 1, o, s2, m2)
        }
    }
}

/// mcountinhibit bits as arithmetic.
proof fn lemma_inhibit_bits(x: u32, c: u8)
    by (bit_vector)
    ensures
        ((x & 0x1u32) == 0) == (x % 2 == 0),
        ((x & 0x4u32) == 0) == ((x / 4) % 2 == 0),
        c == 0 ==> (c & 1u8) == 0 && (c & 2u8) == 0,
{
}

/// The state a step starts from: hardware interrupt lines merged into mip
/// (the software-writable bits kept) and the per-step counter flags clear.
pub open spec fn step_start(s: HartView, hw: u32) -> HartView {
    HartView { counter_written: 0, ..s.with_csr(CSR_MIP, (s.csr(CSR_MIP) & MIP_SW_WRITABLE_PUB) | hw) }
}

/// A step with no interrupt to take, whose instruction (fetched at `pc`,
/// `w` bytes wide) executes with the pc already advanced past it and
/// completes without writing a counter or needing a host floating-point
/// result: the step's outcome is that execution, with instret and cycle
/// each advanced by one modulo 2^64 unless mcountinhibit's IR (bit 2) or CY
/// (bit 0) freezes them.
#[verifier::spinoff_prover]
pub proof fn law_step_completes<M: Memory>(s: HartView, mem: M::V, hw: u32, raw: u32, w: u8, m1: M::V, inst: Instruction)
    requires
        s.wf(),
        take_interrupt_spec(step_start(s, hw)) is None,
        fetch_spec::<M>(step_start(s, hw), mem) == (Ok::<(u32, u8), TrapInfo>((raw, w)), m1),
        decode_spec(raw) == Ok::<Instruction, Trap>(inst),
        !needs_fpu_spec(inst),
        ({
            let s2 = step_start(s, hw).with_pc(((s.pc + w) % 0x1_0000_0000) as u32);
            let (r, s3, m2) = execute_spec::<M>(s2, m1, inst, s.pc);
            r is Ok && s3.counter_written == 0
        }),
    ensures
        ({
            let s2 = step_start(s, hw).with_pc(((s.pc + w) % 0x1_0000_0000) as u32);
            let (r, s3, m2) = execute_spec::<M>(s2, m1, inst, s.pc);
            let inh = s.csr(CSR_MCOUNTINHIBIT);
            step_spec::<M>(s, mem, hw) == (
                None::<Instruction>,
                HartView {
                    instret: if (inh / 4) % 2 == 0 { ((s3.instret + 1) % 0x1_0000_0000_0000_0000) as u64 } else { s3.instret },
                    cycle: if inh % 2 == 0 { ((s3.cycle + 1) % 0x1_0000_0000_0000_0000) as u64 } else { s3.cycle },
                    ..s3
                },
                m2,
            )
        }),
{
    reveal(retire_spec);
    let s1 = step_start(s, hw);
    let inh = s.csr(CSR_MCOUNTINHIBIT);
    assert(s1.csr(CSR_MCOUNTINHIBIT) == inh);
    let s2 = s1.with_pc(wrap32(s.pc + w));
    let (r, s3, m2) = execute_spec::<M>(s2, m1, inst, s.pc);
    lemma_inhibit_bits(inh, s3.counter_written);
}

/// A step with no interrupt to take whose instruction traps during
/// execution: the trap is entered from the state execution left, with the
/// instruction's own `pc` as the faulting pc; instret does not advance and
/// cycle advances by one (unless frozen by mcountinhibit.CY, or the
/// instruction wrote mcycle: bit 0 of the per-step counter flags).
#[verifier::spinoff_prover]
pub proof fn law_step_traps<M: Memory>(s: HartView, mem: M::V, hw: u32, raw: u32, w: u8, m1: M::V, inst: Instruction, e: TrapInfo)
    requires
        s.wf(),
        take_interrupt_spec(step_start(s, hw)) is None,
        fetch_spec::<M>(step_start(s, hw), mem) == (Ok::<(u32, u8), TrapInfo>((raw, w)), m1),
        decode_spec(raw) == Ok::<Instruction, Trap>(inst),
        execute_spec::<M>(step_start(s, hw).with_pc(((s.pc + w) % 0x1_0000_0000) as u32), m1, inst, s.pc).0
            == Err::<(), TrapInfo>(e),
    ensures
        ({
            let s2 = step_start(s, hw).with_pc(((s.pc + w) % 0x1_0000_0000) as u32);
            let (r, s3, m2) = execute_spec::<M>(s2, m1, inst, s.pc);
            let t = handle_trap_spec(s3, e, s.pc);
            let inh = s.csr(CSR_MCOUNTINHIBIT);
            step_spec::<M>(s, mem, hw) == (
                None::<Instruction>,
                HartView {
                    cycle: if inh % 2 == 0 && (t.counter_written & 1u8) == 0 { ((t.cycle + 1) % 0x1_0000_0000_0000_0000) as u64 } else { t.cycle },
                    ..t
                },
                m2,
            )
        }),
{
    reveal(retire_spec);
    let s1 = step_start(s, hw);
    let inh = s.csr(CSR_MCOUNTINHIBIT);
    assert(s1.csr(CSR_MCOUNTINHIBIT) == inh);
    let s2 = s1.with_pc(wrap32(s.pc + w));
    let (r, s3, m2) = execute_spec::<M>(s2, m1, inst, s.pc);
    let t = handle_trap_spec(s3, e, s.pc);
    lemma_inhibit_bits(inh, t.counter_written);
}

/// A step that takes interrupt `code` fetches nothing and leaves memory
/// alone: it enters the trap with cause `0x8000_0000 + code`, trap value 0
/// and the current pc as the interrupted pc; instret does not advance and
/// cycle advances by one modulo 2^64 unless mcountinhibit.CY freezes it.
#[verifier::spinoff_prover]
pub proof fn law_step_interrupt_entry<M: Memory>(s: HartView, mem: M::V, hw: u32, code: u32)
    requires
        s.wf(),
        take_interrupt_spec(step_start(s, hw)) == Some(code),
    ensures
        ({
            let t = handle_trap_spec(
                step_start(s, hw),
                TrapInfo { cause: (0x8000_0000 + code) as u32, tval: 0 },
                s.pc,
            );
            let inh = s.csr(CSR_MCOUNTINHIBIT);
            step_spec::<M>(s, mem, hw) == (
                None::<Instruction>,
                HartView {
                    cycle: if inh % 2 == 0 { ((t.cycle + 1) % 0x1_0000_0000_0000_0000) as u64 } else { t.cycle },
                    ..t
                },
                mem,
            )
        }),
{
    let inh = s.csr(CSR_MCOUNTINHIBIT);
    assert(step_start(s, hw).csr(CSR_MCOUNTINHIBIT) == inh);
    lemma_inhibit_bits(inh, 0);
    assert(code < 12);
    assert((0x8000_0000u32 | code) == 0x8000_0000u32 + code) by (bit_vector)
        requires
            code < 12,
    ;
}

/// `n` successive steps with no hardware interrupt line raised.
pub open spec fn steps<M: Memory>(s: HartView, mem: M::V, n: nat) -> (HartView, M::V)
    decreases n,
{
    if n == 0 {
        (s, mem)
    } else {
        let (_, s1, m1) = step_spec::<M>(s, mem, 0);
        steps::<M>(s1, m1, (n - 1) as nat)
    }
}

/// A run of `n` cycles is `n` successive steps: zero cycles change nothing;
/// a run that hands no floating-point instruction back takes all `n` steps;
/// one that does stops right after the `k`-th step (`1 <= k <= n`), the one
/// that handed it back, in the state `k` steps reach.
pub proof fn law_run_steps<M: Memory>(s: HartView, mem: M::V, n: nat)
    ensures
        run_spec::<M>(s, mem, 0) == (0nat, None::<Instruction>, s, mem),
        ({
            let (k, o, s2, m2) = run_spec::<M>(s, mem, n);
            &&& o is None ==> k == n
            &&& o is Some ==> 1 <= k <= n
            &&& (s2, m2) == steps::<M>(s, mem, k)
        }),
    decreases n,
{
    if n > 0 {
        let (out, s1, m1) = step_spec::<M>(s, mem, 0);
        if out is None {
            law_run_steps::<M>(s1, m1, (n - 1) as nat);
        } else {
            assert(steps::<M>(s1, m1, 0) == (s1, m1));
        }
    }
}

/// Compute the trap entry PC from xtvec.
fn trap_target(xtvec: u32, info: TrapInfo) -> (r: u32)
    ensures
        r == trap_target_spec(xtvec, info),
{
    let base = xtvec & !0x3;
    let mode = xtvec & 0x3;
    if mode == 1 && info.is_interrupt() {
        base.wrapping_add(info.cause_index().wrapping_mul(4))
    } else {
        base
    }
}

impl Hart {
    fn deliverable(&self, mask: u32) -> (r: bool)
        ensures
            r == interrupt_deliverable(self@, mask),
    {
        proof {
            self.lemma_wf();
        }
        let pending = self.csrs.read_raw(CSR_MIP) & self.csrs.read_raw(CSR_MIE);
        let mstatus = self.csrs.read_raw(CSR_MSTATUS);
        let m_enabled = self.priv_mode < PRIV_M || (self.priv_mode == PRIV_M && (mstatus
            & MSTATUS_MIE) != 0);
        let s_enabled = self.priv_mode < PRIV_S || (self.priv_mode == PRIV_S && (mstatus
            & MSTATUS_SIE) != 0);
        // Delivery target is decided per-bit by mideleg, not by which interrupt it is.
        let to_s = self.csrs.read_raw(CSR_MIDELEG) & mask != 0;
        (pending & mask) != 0 && if to_s {
            s_enabled
        } else {
            m_enabled
        }
    }

    /// Compute the highest-priority deliverable interrupt, or `None`.
    /// Returns the bit index (0..31), not the full cause word.
    fn take_interrupt(&self) -> (r: Option<u32>)
        ensures
            r == take_interrupt_spec(self@),
    {
        // Priority order per privileged spec: MEI, MSI, MTI, SEI, SSI, STI.
        if self.deliverable(0x800) {
            Some(11)
        } else if self.deliverable(0x8) {
            Some(3)
        } else if self.deliverable(0x80) {
            Some(7)
        } else if self.deliverable(0x200) {
            Some(9)
        } else if self.deliverable(0x2) {
            Some(1)
        } else if self.deliverable(0x20) {
            Some(5)
        } else {
            None
        }
    }

    /// Enter the trap described by `info`, raised by the instruction at `trap_pc`.
    pub fn handle_trap(&mut self, info: TrapInfo, trap_pc: u32)
        ensures
            final(self)@ == handle_trap_spec(old(self)@, info, trap_pc),
    {
        proof {
            self.lemma_wf();
        }
        // Any trap entry invalidates an outstanding LR reservation.
        self.reservation = None;
        let cause = info.cause;
        let tval = info.tval;
        let idx = info.cause_index();
        // Delegation: interrupts use mideleg, exceptions use medeleg.
        let deleg = if info.is_interrupt() {
            self.csrs.read_raw(CSR_MIDELEG)
        } else {
            self.csrs.read_raw(CSR_MEDELEG)
        };
        let delegate_to_s = self.priv_mode < PRIV_M && (deleg & 1u32.wrapping_shl(idx)) != 0;
        let prev = self.priv_mode;
        if delegate_to_s {
            self.csrs.write_raw(CSR_SEPC, trap_pc);
            self.csrs.write_raw(CSR_SCAUSE, cause);
            self.csrs.write_raw(CSR_STVAL, tval);
            self.csrs.mstatus_trap_enter(
                prev,
                MSTATUS_SIE_BIT,
                MSTATUS_SPIE_BIT,
                MSTATUS_SPP_BIT,
                MSTATUS_SPP_MASK,
            );
            self.priv_mode = PRIV_S;
            self.pc = trap_target(self.csrs.read_raw(CSR_STVEC), info);
        } else {
            self.csrs.write_raw(CSR_MEPC, trap_pc);
            self.csrs.write_raw(CSR_MCAUSE, cause);
            self.csrs.write_raw(CSR_MTVAL, tval);
            self.csrs.mstatus_trap_enter(
                prev,
                MSTATUS_MIE_BIT,
                MSTATUS_MPIE_BIT,
                MSTATUS_MPP_SHIFT,
                MSTATUS_MPP_MASK,
            );
            self.priv_mode = PRIV_M;
            self.pc = trap_target(self.csrs.read_raw(CSR_MTVEC), info);
        }
    }

    /// Fetch, decode and execute one instruction (no interrupt pending).
    fn retire<M: Memory>(&mut self, mem: &mut M, tick_instret: bool) -> (r: Option<Instruction>)
        ensures
            (r, final(self)@, final(mem)@) == retire_spec::<M>(old(self)@, old(mem)@, tick_instret),
            r matches Some(i) ==> inst_wf(i) && needs_fpu_spec(i),
    {
        proof {
            reveal(retire_spec);
        }
        let trap_pc = self.pc;
        let (raw, width) = match self.fetch_inst(mem) {
            Ok(f) => f,
            Err(info) => {
                self.handle_trap(info, trap_pc);
                return None;
            },
        };
        let inst = match decode(raw) {
            Ok(i) => i,
            Err(t) => {
                self.handle_trap(TrapInfo::new(t, 0), trap_pc);
                return None;
            },
        };
        proof {
            lemma_decode_wf(raw);
        }
        self.pc = self.pc.wrapping_add(width as u32);
        match execute(self, mem, inst, trap_pc) {
            Ok(_) => {},
            Err(info) => {
                self.handle_trap(info, trap_pc);
                return None;
            },
        }
        if tick_instret && (self.counter_written & COUNTER_WRITTEN_INSTRET) == 0 {
            self.instret = self.instret.wrapping_add(1);
        }
        if needs_fpu(inst) {
            Some(inst)
        } else {
            None
        }
    }

    /// Drive one instruction. `pending_hw` carries mip bits set by hardware
    /// sources outside the CPU (CLINT MTIP/MSIP, PLIC SEIP). Software-writable
    /// bits already in `mip` are preserved. When the instruction's result
    /// needs IEEE-754 arithmetic, it is returned; the caller computes the
    /// result and applies it with `complete_fp`.
    pub fn step<M: Memory>(&mut self, mem: &mut M, pending_hw: u32) -> (r: Option<Instruction>)
        ensures
            (r, final(self)@, final(mem)@) == step_spec::<M>(old(self)@, old(mem)@, pending_hw),
            r matches Some(i) ==> inst_wf(i) && needs_fpu_spec(i),
    {
        proof {
            self.lemma_wf();
        }
        // Merge HW-driven mip bits with software-set bits.
        let sw = self.csrs.read_raw(CSR_MIP) & MIP_SW_WRITABLE_PUB;
        self.csrs.write_raw(CSR_MIP, sw | pending_hw);
        // mcountinhibit freezes counters when its bit is set.
        let inhibit = self.csrs.read_raw(CSR_MCOUNTINHIBIT);
        let tick_cycle = inhibit & MCOUNTINHIBIT_CY == 0;
        let tick_instret = inhibit & MCOUNTINHIBIT_IR == 0;
        // Clear the per-instruction counter-write flags.
        self.counter_written = 0;
        // Interrupts checked before fetch — taken between instructions.
        if let Some(code) = self.take_interrupt() {
            let pc = self.pc;
            self.handle_trap(TrapInfo::interrupt(code), pc);
            if tick_cycle {
                self.cycle = self.cycle.wrapping_add(1);
            }
            return None;
        }
        let r = self.retire(mem, tick_instret);
        if tick_cycle && (self.counter_written & COUNTER_WRITTEN_CYCLE) == 0 {
            self.cycle = self.cycle.wrapping_add(1);
        }
        r
    }

    /// Run up to `max_cycles` steps with no hardware interrupt lines raised.
    /// Returns early, after the step, when an instruction needs its IEEE-754
    /// result from the caller (see `complete_fp`): the number of steps taken
    /// and that instruction.
    pub fn run<M: Memory>(&mut self, mem: &mut M, max_cycles: u64) -> (r: (u64, Option<Instruction>))
        ensures
            ({
                let (k, o, s, m) = run_spec::<M>(old(self)@, old(mem)@, max_cycles as nat);
                r.0 == k && r.1 == o && final(self)@ == s && final(mem)@ == m
            }),
            r.1 matches Some(i) ==> inst_wf(i) && needs_fpu_spec(i),
    {
        let mut i: u64 = 0;
        while i < max_cycles
            invariant
                i <= max_cycles,
                run_spec::<M>(old(self)@, old(mem)@, max_cycles as nat) == ({
                    let (k, o, s, m) = run_spec::<M>(self@, mem@, (max_cycles - i) as nat);
                    ((k + i) as nat, o, s, m)
                }),
            decreases max_cycles - i,
        {
            let ghost s0 = self@;
            let ghost m0 = mem@;
            let out = self.step(mem, 0);
            proof {
                assert(run_spec::<M>(s0, m0, (max_cycles - i) as nat) == (if out is Some {
                    (1nat, out, self@, mem@)
                } else {
                    let (k, o, s2, m2) = run_spec::<M>(self@, mem@, (max_cycles - i - 1) as nat);
                    (k + 1, o, s2, m2)
                }));
            }
            i = i + 1;
            if out.is_some() {
                return (i, out);
            }
        }
        (i, None)
    }

    /// Write back the IEEE-754 result `bits` (and exception `flags`) of a
    /// floating-point instruction that `step` returned.
    pub fn complete_fp(&mut self, inst: Instruction, bits: u64, flags: u32)
        requires
            inst_wf(inst),
        ensures
            final(self)@ == complete_fp_spec(old(self)@, inst, bits, flags),
    {
        match inst {
            Instruction::FaddS { rd, .. } | Instruction::FsubS { rd, .. } | Instruction::FmulS {
                rd,
                ..
            } | Instruction::FdivS { rd, .. } | Instruction::FsqrtS { rd, .. }
            | Instruction::FmaddS { rd, .. } | Instruction::FmsubS { rd, .. }
            | Instruction::FnmsubS { rd, .. } | Instruction::FnmaddS { rd, .. }
            | Instruction::FminS { rd, .. } | Instruction::FmaxS { rd, .. } | Instruction::FcvtSW {
                rd,
                ..
            } | Instruction::FcvtSWu { rd, .. } | Instruction::FcvtSD { rd, .. } => {
                self.fregs.set_f32(rd, bits as u32);
                accrue_flags(self, flags);
                mark_fs_dirty(self);
            },
            Instruction::FaddD { rd, .. } | Instruction::FsubD { rd, .. } | Instruction::FmulD {
                rd,
                ..
            } | Instruction::FdivD { rd, .. } | Instruction::FsqrtD { rd, .. }
            | Instruction::FmaddD { rd, .. } | Instruction::FmsubD { rd, .. }
            | Instruction::FnmsubD { rd, .. } | Instruction::FnmaddD { rd, .. }
            | Instruction::FminD { rd, .. } | Instruction::FmaxD { rd, .. } | Instruction::FcvtDS {
                rd,
                ..
            } | Instruction::FcvtDW { rd, .. } | Instruction::FcvtDWu { rd, .. } => {
                self.fregs.set(rd, bits);
                accrue_flags(self, flags);
                mark_fs_dirty(self);
            },
            Instruction::FeqS { rd, .. } | Instruction::FltS { rd, .. } | Instruction::FleS { rd, .. }
            | Instruction::FcvtWS { rd, .. } | Instruction::FcvtWuS { rd, .. }
            | Instruction::FeqD { rd, .. } | Instruction::FltD { rd, .. } | Instruction::FleD {
                rd,
                ..
            } | Instruction::FcvtWD { rd, .. } | Instruction::FcvtWuD { rd, .. } => {
                self.regs.set(rd, bits as u32);
                accrue_flags(self, flags);
            },
            _ => {},
        }
    }
}

} // verus!
