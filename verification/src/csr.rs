//! Control and status registers: addresses, field layouts, and the
//! privilege-checked CSR file.
use crate::trap::Trap;
use crate::bits::lemma_u64_halves;
use vstd::prelude::*;

verus! {

// F-extension CSRs
pub const CSR_FFLAGS: u16 = 0x001;
pub const CSR_FRM: u16 = 0x002;
pub const CSR_FCSR: u16 = 0x003;

pub const CSR_CYCLE: u16 = 0xC00;
pub const CSR_TIME: u16 = 0xC01;
pub const CSR_CYCLEH: u16 = 0xC80;
pub const CSR_TIMEH: u16 = 0xC81;
pub const CSR_INSTRET: u16 = 0xC02;
pub const CSR_INSTRETH: u16 = 0xC82;
pub const CSR_MVENDORID: u16 = 0xF11;
pub const CSR_MARCHID: u16 = 0xF12;
pub const CSR_MIMPID: u16 = 0xF13;
pub const CSR_MHARTID: u16 = 0xF14;
pub const CSR_MCONFIGPTR: u16 = 0xF15;
pub const CSR_MSTATUS: u16 = 0x300;
pub const CSR_MISA: u16 = 0x301;
pub const CSR_MTVEC: u16 = 0x305;
pub const CSR_MCOUNTEREN: u16 = 0x306;
pub const CSR_MENVCFG: u16 = 0x30A;
pub const CSR_MSTATUSH: u16 = 0x310;
pub const CSR_MENVCFGH: u16 = 0x31A;
pub const CSR_MCOUNTINHIBIT: u16 = 0x320;
// mcountinhibit bits: setting a bit freezes the corresponding counter.
pub const MCOUNTINHIBIT_CY: u32 = 0x1;
pub const MCOUNTINHIBIT_IR: u32 = 0x4;
// Performance-counter CSRs (mhpmevent3..31, mhpmcounter3..31, *h variants).
// OpenSBI probes / clears these during init; they read as zero and ignore
// writes.
pub const CSR_MCYCLE: u16 = 0xB00;
pub const CSR_MINSTRET: u16 = 0xB02;
pub const CSR_MCYCLEH: u16 = 0xB80;
pub const CSR_MINSTRETH: u16 = 0xB82;
pub const CSR_MHPMEVENT_BASE: u16 = 0x323;  // mhpmevent3..31 = 0x323..0x33F
pub const CSR_MHPMCOUNTER_BASE: u16 = 0xB03;  // mhpmcounter3..31 = 0xB03..0xB1F
pub const CSR_MHPMCOUNTERH_BASE: u16 = 0xB83;  // mhpmcounter3h..31h = 0xB83..0xB9F
pub const CSR_MEPC: u16 = 0x341;
pub const CSR_MCAUSE: u16 = 0x342;
pub const CSR_MTVAL: u16 = 0x343;
pub const CSR_MEDELEG: u16 = 0x302;
pub const CSR_MIDELEG: u16 = 0x303;
pub const CSR_MIE: u16 = 0x304;
pub const CSR_MIP: u16 = 0x344;
pub const CSR_MSCRATCH: u16 = 0x340;
pub const CSR_SATP: u16 = 0x180;
pub const CSR_STVEC: u16 = 0x105;
pub const CSR_SCOUNTEREN: u16 = 0x106;
pub const CSR_SENVCFG: u16 = 0x10A;
// PMP CSRs (RV32: 4 cfg registers × 4 entries = 16 entries; 16 addr registers).
pub const CSR_PMPCFG0: u16 = 0x3A0;
pub const CSR_PMPCFG1: u16 = 0x3A1;
pub const CSR_PMPCFG2: u16 = 0x3A2;
pub const CSR_PMPCFG3: u16 = 0x3A3;
pub const CSR_PMPADDR0: u16 = 0x3B0;
pub const PMP_NUM_ENTRIES: usize = 16;
pub const PMP_R: u8 = 0x01;
pub const PMP_W: u8 = 0x02;
pub const PMP_X: u8 = 0x04;
pub const PMP_A_SHIFT: u8 = 3;
pub const PMP_A_MASK: u8 = 0x18;
pub const PMP_A_OFF: u8 = 0;
pub const PMP_A_TOR: u8 = 1;
pub const PMP_A_NA4: u8 = 2;
pub const PMP_A_NAPOT: u8 = 3;
pub const PMP_L: u8 = 0x80;

// S-mode CSRs
pub const CSR_SSTATUS: u16 = 0x100;
pub const CSR_SIE: u16 = 0x104;
pub const CSR_SSCRATCH: u16 = 0x140;
pub const CSR_SEPC: u16 = 0x141;
pub const CSR_SCAUSE: u16 = 0x142;
pub const CSR_STVAL: u16 = 0x143;
pub const CSR_SIP: u16 = 0x144;

// Trigger module CSRs (debug) — read as zero, writes ignored (no triggers implemented).
pub const CSR_TSELECT: u16 = 0x7A0;
pub const CSR_TDATA1: u16 = 0x7A1;
pub const CSR_TDATA2: u16 = 0x7A2;
pub const CSR_TCONTROL: u16 = 0x7A5;

// mstatus field bit positions
pub const MSTATUS_SIE_BIT: u32 = 1;
pub const MSTATUS_MIE_BIT: u32 = 3;
pub const MSTATUS_SPIE_BIT: u32 = 5;
pub const MSTATUS_MPIE_BIT: u32 = 7;
pub const MSTATUS_SPP_BIT: u32 = 8;
pub const MSTATUS_MPP_SHIFT: u32 = 11;
pub const MSTATUS_MPP_MASK: u32 = 0x1800;
pub const MSTATUS_MPRV: u32 = 0x2_0000;
pub const MSTATUS_SUM: u32 = 0x4_0000;
pub const MSTATUS_MXR: u32 = 0x8_0000;
pub const MSTATUS_TVM: u32 = 0x10_0000;
pub const MSTATUS_TW: u32 = 0x20_0000;
pub const MSTATUS_TSR: u32 = 0x40_0000;
pub const MSTATUS_FS_SHIFT: u32 = 13;
pub const MSTATUS_FS_MASK: u32 = 0x6000;
pub const MSTATUS_FS_DIRTY: u32 = 0x6000;
pub const MSTATUS_SD: u32 = 0x8000_0000;
/// The SPP field as a one-bit mask.
pub const MSTATUS_SPP_MASK: u32 = 0x100;

// mip / mie bit positions
pub const MIP_SSIP_BIT: u32 = 1;
pub const MIP_MSIP_BIT: u32 = 3;
pub const MIP_STIP_BIT: u32 = 5;
pub const MIP_MTIP_BIT: u32 = 7;
pub const MIP_SEIP_BIT: u32 = 9;
pub const MIP_MEIP_BIT: u32 = 11;

pub const MIP_SSIP: u32 = 0x2;
pub const MIP_MSIP: u32 = 0x8;
pub const MIP_STIP: u32 = 0x20;
pub const MIP_MTIP: u32 = 0x80;
pub const MIP_SEIP: u32 = 0x200;
pub const MIP_MEIP: u32 = 0x800;

/// Bits of mip that software (CSR instructions) may modify directly.
/// Hardware-driven bits (MTIP, MEIP, SEIP) are read-only from software.
pub const MIP_SW_WRITABLE_PUB: u32 = 0x2A;

// Convenience bitmasks for mstatus.MIE / mstatus.SIE
pub const MSTATUS_MIE: u32 = 0x8;
pub const MSTATUS_SIE: u32 = 0x2;

/// sstatus is a masked view of mstatus; these bits are visible in S-mode:
/// SIE(1), SPIE(5), UBE(6), SPP(8), VS(10:9), FS(14:13), XS(16:15), SUM(18), MXR(19), SD(31)
pub const SSTATUS_MASK: u32 = 0x800D_E762;

/// sie / sip are masked views of mie / mip: SSIP/STIP/SEIP only.
pub const SIE_SIP_MASK: u32 = 0x222;

/// Number of CSR addresses (12-bit address space).
pub const NUM_CSRS: usize = 4096;

/// The value of misa at reset: RV32IMAFDC plus S and U modes.
pub const MISA_RESET: u32 = 0x4014_112D;

/// mstatus as software reads it: SD summarises FS == Dirty.
pub open spec fn mstatus_with_sd_spec(v: u32) -> u32 {
    if v & MSTATUS_FS_MASK == MSTATUS_FS_DIRTY {
        v | MSTATUS_SD
    } else {
        v & !MSTATUS_SD
    }
}

fn mstatus_with_sd(v: u32) -> (r: u32)
    ensures
        r == mstatus_with_sd_spec(v),
{
    if v & MSTATUS_FS_MASK == MSTATUS_FS_DIRTY {
        v | MSTATUS_SD
    } else {
        v & !MSTATUS_SD
    }
}

/// CSRs whose address has top two bits 0b11 are read-only.
pub open spec fn csr_read_only(addr: u16) -> bool {
    (addr / 0x400) % 4 == 3
}

/// The least privilege that may access a CSR (address bits 9:8; the
/// reserved encoding 0b10 is treated as machine level).
pub open spec fn csr_min_priv(addr: u16) -> u8 {
    let p = (addr / 0x100) % 4;
    if p == 0 {
        0
    } else if p == 1 {
        1
    } else {
        3
    }
}

/// Which counter-enable bit (CY = 0, TM = 1, IR = 2) gates a user-visible counter CSR.
pub open spec fn counter_enable_bit(addr: u16) -> Option<u32> {
    if addr == CSR_CYCLE || addr == CSR_CYCLEH {
        Some(0)
    } else if addr == CSR_TIME || addr == CSR_TIMEH {
        Some(1)
    } else if addr == CSR_INSTRET || addr == CSR_INSTRETH {
        Some(2)
    } else {
        None
    }
}

/// Bit `b` of `x` is set.
pub open spec fn bit_set(x: u32, b: u32) -> bool {
    (x >> b) & 1 != 0
}

/// A CSR read that privilege and counter-enable rules allow.
pub open spec fn csr_read_allowed(regs: Seq<u32>, addr: u16, priv_mode: u8) -> bool {
    &&& priv_mode >= csr_min_priv(addr)
    &&& (priv_mode != 3 && counter_enable_bit(addr) is Some) ==> {
        let b = counter_enable_bit(addr)->0;
        &&& bit_set(regs[CSR_MCOUNTEREN as int], b)
        &&& (priv_mode == 0 ==> bit_set(regs[CSR_SCOUNTEREN as int], b))
    }
}

/// The hardware performance-monitoring CSRs (mhpmevent3..31,
/// mhpmcounter3..31, mhpmcounter3h..31h): they read as zero and ignore
/// writes.
pub open spec fn csr_hpm(addr: u16) -> bool {
    ||| CSR_MHPMEVENT_BASE <= addr <= 0x33F
    ||| CSR_MHPMCOUNTER_BASE <= addr <= 0xB1F
    ||| CSR_MHPMCOUNTERH_BASE <= addr <= 0xB9F
}

/// Whether `addr` is a hardware performance-monitoring CSR.
fn is_hpm(addr: u16) -> (r: bool)
    ensures
        r == csr_hpm(addr),
{
    (CSR_MHPMEVENT_BASE <= addr && addr <= 0x33F) || (CSR_MHPMCOUNTER_BASE <= addr && addr <= 0xB1F)
        || (CSR_MHPMCOUNTERH_BASE <= addr && addr <= 0xB9F)
}

/// The value software reads from a CSR (when the read is allowed).
pub open spec fn csr_value(regs: Seq<u32>, addr: u16, cycle: u64, instret: u64, mtime: u64) -> u32 {
    if addr == CSR_CYCLE || addr == CSR_MCYCLE {
        cycle as u32
    } else if addr == CSR_CYCLEH || addr == CSR_MCYCLEH {
        (cycle >> 32) as u32
    } else if addr == CSR_TIME {
        mtime as u32
    } else if addr == CSR_TIMEH {
        (mtime >> 32) as u32
    } else if addr == CSR_INSTRET || addr == CSR_MINSTRET {
        instret as u32
    } else if addr == CSR_INSTRETH || addr == CSR_MINSTRETH {
        (instret >> 32) as u32
    } else if addr == CSR_FCSR {
        regs[CSR_FCSR as int] & 0xFF
    } else if addr == CSR_FFLAGS {
        regs[CSR_FCSR as int] & 0x1F
    } else if addr == CSR_FRM {
        (regs[CSR_FCSR as int] >> 5) & 0x7
    } else if addr == CSR_MSTATUS {
        mstatus_with_sd_spec(regs[CSR_MSTATUS as int])
    } else if addr == CSR_SSTATUS {
        mstatus_with_sd_spec(regs[CSR_MSTATUS as int]) & SSTATUS_MASK
    } else if addr == CSR_SIE {
        regs[CSR_MIE as int] & SIE_SIP_MASK
    } else if addr == CSR_SIP {
        regs[CSR_MIP as int] & SIE_SIP_MASK
    } else if addr == CSR_TSELECT || addr == CSR_TDATA1 || addr == CSR_TDATA2 || addr
        == CSR_TCONTROL || csr_hpm(addr) {
        0
    } else {
        regs[addr as int]
    }
}

/// Outcome of a CSR read instruction.
pub open spec fn csr_read_spec(
    regs: Seq<u32>,
    addr: u16,
    cycle: u64,
    instret: u64,
    mtime: u64,
    priv_mode: u8,
) -> Result<u32, Trap> {
    if csr_read_allowed(regs, addr, priv_mode) {
        Ok(csr_value(regs, addr, cycle, instret, mtime))
    } else {
        Err(Trap::IllegalInstruction)
    }
}

/// Outcome of a CSR write instruction: the new register contents, or the trap.
pub open spec fn csr_write_spec(regs: Seq<u32>, addr: u16, val: u32, priv_mode: u8) -> Result<
    Seq<u32>,
    Trap,
> {
    if priv_mode < csr_min_priv(addr) || csr_read_only(addr) {
        Err(Trap::IllegalInstruction)
    } else if addr == CSR_CYCLE || addr == CSR_CYCLEH || addr == CSR_INSTRET || addr
        == CSR_INSTRETH {
        Err(Trap::IllegalInstruction)
    } else if addr == CSR_MISA {
        Ok(regs)
    } else if addr == CSR_FCSR {
        Ok(regs.update(CSR_FCSR as int, val & 0xFF))
    } else if addr == CSR_FFLAGS {
        Ok(regs.update(CSR_FCSR as int, (regs[CSR_FCSR as int] & !0x1Fu32) | (val & 0x1F)))
    } else if addr == CSR_FRM {
        Ok(regs.update(CSR_FCSR as int, (regs[CSR_FCSR as int] & !0xE0u32) | ((val & 0x7) << 5)))
    } else if addr == CSR_SSTATUS {
        Ok(
            regs.update(
                CSR_MSTATUS as int,
                (regs[CSR_MSTATUS as int] & !SSTATUS_MASK) | (val & SSTATUS_MASK),
            ),
        )
    } else if addr == CSR_SIE {
        Ok(regs.update(CSR_MIE as int, (regs[CSR_MIE as int] & !SIE_SIP_MASK) | (val & SIE_SIP_MASK)))
    } else if addr == CSR_SIP {
        Ok(regs.update(CSR_MIP as int, (regs[CSR_MIP as int] & !MIP_SSIP) | (val & MIP_SSIP)))
    } else if addr == CSR_TSELECT || addr == CSR_TDATA1 || addr == CSR_TDATA2 || addr
        == CSR_TCONTROL || csr_hpm(addr) {
        Ok(regs)
    } else if addr == CSR_MIP {
        Ok(
            regs.update(
                CSR_MIP as int,
                (regs[CSR_MIP as int] & !MIP_SW_WRITABLE_PUB) | (val & MIP_SW_WRITABLE_PUB),
            ),
        )
    } else {
        Ok(regs.update(addr as int, val))
    }
}

/// mstatus after trap entry: xPP := prev_priv, xPIE := xIE, xIE := 0.
pub open spec fn trap_enter_spec(v: u32, prev_priv: u8, ie_bit: u32, pie_bit: u32, pp_shift: u32, pp_mask: u32) -> u32 {
    let v1 = (v & !pp_mask) | ((prev_priv as u32) << pp_shift);
    let ie = (v1 >> ie_bit) & 1;
    let v2 = (v1 & !(1u32 << pie_bit)) | (ie << pie_bit);
    v2 & !(1u32 << ie_bit)
}

/// The privilege level that trap return goes back to: the xPP field.
pub open spec fn trap_return_priv(v: u32, pp_shift: u32, pp_mask: u32) -> u8 {
    ((v >> pp_shift) & (pp_mask >> pp_shift)) as u8
}

/// mstatus after trap return: xIE := xPIE, xPIE := 1, xPP := 0, and MPRV
/// cleared when returning below machine mode.
pub open spec fn trap_return_spec(v: u32, ie_bit: u32, pie_bit: u32, pp_shift: u32, pp_mask: u32) -> u32 {
    let pie = (v >> pie_bit) & 1;
    let v1 = (v & !(1u32 << ie_bit)) | (pie << ie_bit);
    let v2 = v1 | (1u32 << pie_bit);
    let v3 = v2 & !pp_mask;
    if trap_return_priv(v, pp_shift, pp_mask) != 3 {
        v3 & !MSTATUS_MPRV
    } else {
        v3
    }
}

/// Replacing the bits of `m` selected by a mask with those of `val`: the
/// masks are those of mip (software-writable bits), sip (SSIP) and sstatus.
proof fn lemma_masked_merge(m: u32, val: u32)
    by (bit_vector)
    ensures
        ((m & !0x2Au32) | (val & 0x2Au32)) & !0x2Au32 == m & !0x2Au32,
        ((m & !0x2u32) | (val & 0x2u32)) & !0x2Au32 == m & !0x2Au32,
        ((m & !0x800D_E762u32) | (val & 0x800D_E762u32)) & !0x800D_E762u32 == m & !0x800D_E762u32,
        ((m & !0x800D_E762u32) | (val & 0x800D_E762u32)) & 0x800D_E762u32 == val & 0x800D_E762u32,
{
}

/// Trap entry then trap return on mstatus, for the M-mode and S-mode field
/// layouts: xIE is clear in between, xPP holds the previous privilege, and
/// the return restores xIE and sets xPIE.
proof fn lemma_trap_round_trip(v: u32, prev: u8, ie_bit: u32, pie_bit: u32, pp_shift: u32, pp_mask: u32)
    by (bit_vector)
    requires
        (ie_bit == 3 && pie_bit == 7 && pp_shift == 11 && pp_mask == 0x1800 && prev < 4) || (ie_bit
            == 1 && pie_bit == 5 && pp_shift == 8 && pp_mask == 0x100 && prev < 2),
    ensures
        trap_enter_spec(v, prev, ie_bit, pie_bit, pp_shift, pp_mask) & (1u32 << ie_bit) == 0,
        trap_return_priv(trap_enter_spec(v, prev, ie_bit, pie_bit, pp_shift, pp_mask), pp_shift, pp_mask) == prev,
        trap_return_spec(trap_enter_spec(v, prev, ie_bit, pie_bit, pp_shift, pp_mask), ie_bit, pie_bit, pp_shift, pp_mask)
            & (1u32 << ie_bit) == v & (1u32 << ie_bit),
        trap_return_spec(trap_enter_spec(v, prev, ie_bit, pie_bit, pp_shift, pp_mask), ie_bit, pie_bit, pp_shift, pp_mask)
            & (1u32 << pie_bit) != 0,
        1u32 << 3u32 == 0x8 && 1u32 << 7u32 == 0x80 && 1u32 << 1u32 == 0x2 && 1u32 << 5u32 == 0x20,
{
}

/// A CSR whose value is stored as written and read back unchanged: not a
/// counter, a floating-point status view, mstatus or one of its views, mip,
/// misa, a debug-trigger or a performance-monitoring register.
pub open spec fn csr_plain(addr: u16) -> bool {
    &&& counter_enable_bit(addr) is None
    &&& addr != CSR_MCYCLE && addr != CSR_MCYCLEH && addr != CSR_MINSTRET && addr
        != CSR_MINSTRETH
    &&& addr != CSR_FCSR && addr != CSR_FFLAGS && addr != CSR_FRM
    &&& addr != CSR_MSTATUS && addr != CSR_SSTATUS && addr != CSR_SIE && addr != CSR_SIP
    &&& addr != CSR_MIP && addr != CSR_MISA
    &&& addr != CSR_TSELECT && addr != CSR_TDATA1 && addr != CSR_TDATA2 && addr != CSR_TCONTROL
    &&& !csr_hpm(addr)
}

/// A plain CSR reads back what a successful write stored in it; a write to a
/// read-only CSR, or from too low a privilege, raises IllegalInstruction and
/// changes nothing.
pub proof fn law_csr_write_read(
    regs: Seq<u32>,
    addr: u16,
    val: u32,
    priv_mode: u8,
    cycle: u64,
    instret: u64,
    mtime: u64,
)
    requires
        regs.len() == 4096,
        addr < 4096,
    ensures
        csr_read_only(addr) || priv_mode < csr_min_priv(addr) ==> csr_write_spec(
            regs,
            addr,
            val,
            priv_mode,
        ) == Err::<Seq<u32>, Trap>(Trap::IllegalInstruction),
        csr_plain(addr) && !csr_read_only(addr) && priv_mode >= csr_min_priv(addr) ==> (
        csr_write_spec(regs, addr, val, priv_mode) matches Ok(r2) && csr_read_spec(
            r2,
            addr,
            cycle,
            instret,
            mtime,
            priv_mode,
        ) == Ok::<u32, Trap>(val)),
{
}

/// Software writes to mip (directly or through sip) change only the bits it
/// may modify; the hardware-driven bits and every other CSR keep their values.
pub proof fn law_mip_hardware_bits_read_only(regs: Seq<u32>, addr: u16, val: u32, priv_mode: u8)
    requires
        regs.len() == 4096,
        addr == CSR_MIP || addr == CSR_SIP,
    ensures
        csr_write_spec(regs, addr, val, priv_mode) matches Ok(r2) ==> {
            &&& r2[CSR_MIP as int] & !MIP_SW_WRITABLE_PUB == regs[CSR_MIP as int]
                & !MIP_SW_WRITABLE_PUB
            &&& forall|i: int| 0 <= i < 4096 && i != CSR_MIP ==> r2[i] == regs[i]
        },
{
    lemma_masked_merge(regs[CSR_MIP as int], val);
}

/// sstatus is a view of mstatus: it reads as mstatus restricted to the
/// supervisor-visible bits, and writing it changes only those bits of mstatus.
pub proof fn law_sstatus_view(regs: Seq<u32>, val: u32, priv_mode: u8, cycle: u64, instret: u64, mtime: u64)
    requires
        regs.len() == 4096,
        priv_mode >= 1,
    ensures
        csr_read_spec(regs, CSR_SSTATUS, cycle, instret, mtime, priv_mode) == Ok::<u32, Trap>(
            mstatus_with_sd_spec(regs[CSR_MSTATUS as int]) & SSTATUS_MASK,
        ),
        csr_write_spec(regs, CSR_SSTATUS, val, priv_mode) matches Ok(r2) && r2[CSR_MSTATUS as int]
            & !SSTATUS_MASK == regs[CSR_MSTATUS as int] & !SSTATUS_MASK && r2[CSR_MSTATUS as int]
            & SSTATUS_MASK == val & SSTATUS_MASK,
{
    lemma_masked_merge(regs[CSR_MSTATUS as int], val);
}

/// Trap entry into M-mode followed by mret returns to the interrupted
/// privilege level with the interrupt-enable bit it had; the handler runs
/// with MIE clear, and after mret MPIE is set.
pub proof fn law_machine_trap_round_trip(v: u32, prev: u8)
    requires
        prev == 0 || prev == 1 || prev == 3,
    ensures
        ({
            let e = trap_enter_spec(v, prev, MSTATUS_MIE_BIT, MSTATUS_MPIE_BIT, MSTATUS_MPP_SHIFT, MSTATUS_MPP_MASK);
            let r = trap_return_spec(e, MSTATUS_MIE_BIT, MSTATUS_MPIE_BIT, MSTATUS_MPP_SHIFT, MSTATUS_MPP_MASK);
            &&& e & MSTATUS_MIE == 0
            &&& trap_return_priv(e, MSTATUS_MPP_SHIFT, MSTATUS_MPP_MASK) == prev
            &&& r & MSTATUS_MIE == v & MSTATUS_MIE
            &&& r & 0x80 != 0
        }),
{
    lemma_trap_round_trip(v, prev, MSTATUS_MIE_BIT, MSTATUS_MPIE_BIT, MSTATUS_MPP_SHIFT, MSTATUS_MPP_MASK);
}

/// Trap entry into S-mode followed by sret returns to the interrupted
/// privilege level (U or S) with the SIE bit it had; the handler runs with
/// SIE clear, and after sret SPIE is set.
pub proof fn law_supervisor_trap_round_trip(v: u32, prev: u8)
    requires
        prev == 0 || prev == 1,
    ensures
        ({
            let e = trap_enter_spec(v, prev, MSTATUS_SIE_BIT, MSTATUS_SPIE_BIT, MSTATUS_SPP_BIT, MSTATUS_SPP_MASK);
            let r = trap_return_spec(e, MSTATUS_SIE_BIT, MSTATUS_SPIE_BIT, MSTATUS_SPP_BIT, MSTATUS_SPP_MASK);
            &&& e & MSTATUS_SIE == 0
            &&& trap_return_priv(e, MSTATUS_SPP_BIT, MSTATUS_SPP_MASK) == prev
            &&& r & MSTATUS_SIE == v & MSTATUS_SIE
            &&& r & 0x20 != 0
        }),
{
    lemma_trap_round_trip(v, prev, MSTATUS_SIE_BIT, MSTATUS_SPIE_BIT, MSTATUS_SPP_BIT, MSTATUS_SPP_MASK);
}

/// CSR address fields: bits 11:10 (read-only when 0b11) and bits 9:8 (privilege).
proof fn lemma_addr_bits(addr: u16)
    by (bit_vector)
    ensures
        (((addr >> 10u16) & 0x3u16) == 0x3u16) == ((addr / 0x400) % 4 == 3),
        ((addr >> 8u16) & 0x3u16) == (addr / 0x100) % 4,
{
}

/// The 4096 control and status registers.
pub struct CsrFile {
    regs: [u32; 4096],
}

impl View for CsrFile {
    type V = Seq<u32>;

    closed spec fn view(&self) -> Seq<u32> {
        self.regs@
    }
}

impl CsrFile {
    /// Every CSR file holds one word per 12-bit address.
    pub proof fn lemma_view_wf(&self)
        ensures
            self@.len() == 4096,
    {
    }

    /// Reset state: every CSR zero except misa.
    pub fn new() -> (r: Self)
        ensures
            r@ == Seq::new(4096, |i: int| 0u32).update(CSR_MISA as int, MISA_RESET),
    {
        let mut regs = [0u32;4096];
        // misa: RV32IMACSU. Treated as WARL — writes are ignored (see write()).
        // S and U are required for OpenSBI: it probes misa to decide whether
        // to bring up an S-mode payload.
        // MXL = 1 (32-bit), U, S, M, I, F, D, C, A
        regs[CSR_MISA as usize] = MISA_RESET;
        let r = Self { regs };
        assert(r@ =~= Seq::new(4096, |i: int| 0u32).update(CSR_MISA as int, MISA_RESET));
        r
    }

    fn is_read_only(addr: u16) -> (r: bool)
        ensures
            r == csr_read_only(addr),
    {
        proof {
            lemma_addr_bits(addr);
        }
        // CSRs with top 2 bits = 11 are read-only
        (addr >> 10) & 0x3 == 0x3
    }

    /// Minimum privilege level required to access this CSR (from addr bits [9:8])
    fn min_priv(addr: u16) -> (r: u8)
        ensures
            r == csr_min_priv(addr),
    {
        proof {
            lemma_addr_bits(addr);
        }
        match (addr >> 8) & 0x3 {
            0 => 0,  // U-mode
            1 => 1,  // S-mode
            _ => 3,  // reserved (treated as M) and M-mode
        }
    }

    /// Privilege- and counter-enable-checked CSR read. The debug-trigger and
    /// hardware performance-monitoring CSRs read as zero.
    pub fn read(&self, addr: u16, cycle: u64, instret: u64, mtime: u64, priv_mode: u8) -> (r:
        Result<u32, Trap>)
        requires
            addr < 4096,
        ensures
            r == csr_read_spec(self@, addr, cycle, instret, mtime, priv_mode),
    {
        if priv_mode < Self::min_priv(addr) {
            return Err(Trap::IllegalInstruction);
        }
        // mcounteren / scounteren gating for the U/S-visible counters.
        // M-mode always reads; S-mode needs mcounteren[bit]; U-mode needs both.
        if priv_mode != 3 {
            let counter_bit: Option<u32> = if addr == CSR_CYCLE || addr == CSR_CYCLEH {
                Some(0)  // CY
            } else if addr == CSR_TIME || addr == CSR_TIMEH {
                Some(1)  // TM
            } else if addr == CSR_INSTRET || addr == CSR_INSTRETH {
                Some(2)  // IR
            } else {
                None
            };
            if let Some(bit) = counter_bit {
                let mcen = self.regs[CSR_MCOUNTEREN as usize];
                if (mcen >> bit) & 1 == 0 {
                    return Err(Trap::IllegalInstruction);
                }
                if priv_mode == 0 {
                    let scen = self.regs[CSR_SCOUNTEREN as usize];
                    if (scen >> bit) & 1 == 0 {
                        return Err(Trap::IllegalInstruction);
                    }
                }
            }
        }
        if addr == CSR_CYCLE || addr == CSR_MCYCLE {
            Ok(cycle as u32)
        } else if addr == CSR_CYCLEH || addr == CSR_MCYCLEH {
            Ok((cycle >> 32) as u32)
        } else if addr == CSR_TIME {
            Ok(mtime as u32)
        } else if addr == CSR_TIMEH {
            Ok((mtime >> 32) as u32)
        } else if addr == CSR_INSTRET || addr == CSR_MINSTRET {
            Ok(instret as u32)
        } else if addr == CSR_INSTRETH || addr == CSR_MINSTRETH {
            Ok((instret >> 32) as u32)
        } else if addr == CSR_FCSR {
            Ok(self.regs[CSR_FCSR as usize] & 0xFF)
        } else if addr == CSR_FFLAGS {
            Ok(self.regs[CSR_FCSR as usize] & 0x1F)
        } else if addr == CSR_FRM {
            Ok((self.regs[CSR_FCSR as usize] >> 5) & 0x7)
        } else if addr == CSR_MSTATUS {
            Ok(mstatus_with_sd(self.regs[CSR_MSTATUS as usize]))
        } else if addr == CSR_SSTATUS {
            Ok(mstatus_with_sd(self.regs[CSR_MSTATUS as usize]) & SSTATUS_MASK)
        } else if addr == CSR_SIE {
            Ok(self.regs[CSR_MIE as usize] & SIE_SIP_MASK)
        } else if addr == CSR_SIP {
            Ok(self.regs[CSR_MIP as usize] & SIE_SIP_MASK)
        } else if addr == CSR_TSELECT || addr == CSR_TDATA1 || addr == CSR_TDATA2 || addr
            == CSR_TCONTROL || is_hpm(addr) {
            Ok(0)
        } else {
            Ok(self.regs[addr as usize])
        }
    }

    /// Privilege-checked CSR write, applying each register's write mask;
    /// writes to the debug-trigger and performance-monitoring CSRs are ignored.
    pub fn write(&mut self, addr: u16, val: u32, priv_mode: u8) -> (r: Result<(), Trap>)
        requires
            addr < 4096,
        ensures
            match csr_write_spec(old(self)@, addr, val, priv_mode) {
                Ok(regs) => r == Ok::<(), Trap>(()) && final(self)@ == regs,
                Err(t) => r == Err::<(), Trap>(t) && final(self)@ == old(self)@,
            },
    {
        if priv_mode < Self::min_priv(addr) {
            return Err(Trap::IllegalInstruction);
        }
        if Self::is_read_only(addr) {
            return Err(Trap::IllegalInstruction);
        }
        if addr == CSR_CYCLE || addr == CSR_CYCLEH || addr == CSR_INSTRET || addr == CSR_INSTRETH {
            Err(Trap::IllegalInstruction)
        } else if addr == CSR_MISA {
            Ok(())
        } else if addr == CSR_FCSR {
            self.regs[CSR_FCSR as usize] = val & 0xFF;
            Ok(())
        } else if addr == CSR_FFLAGS {
            self.regs[CSR_FCSR as usize] = (self.regs[CSR_FCSR as usize] & !0x1F) | (val & 0x1F);
            Ok(())
        } else if addr == CSR_FRM {
            self.regs[CSR_FCSR as usize] = (self.regs[CSR_FCSR as usize] & !0xE0) | ((val & 0x7)
                << 5);
            Ok(())
        } else if addr == CSR_SSTATUS {
            self.regs[CSR_MSTATUS as usize] = (self.regs[CSR_MSTATUS as usize] & !SSTATUS_MASK) | (
            val & SSTATUS_MASK);
            Ok(())
        } else if addr == CSR_SIE {
            self.regs[CSR_MIE as usize] = (self.regs[CSR_MIE as usize] & !SIE_SIP_MASK) | (val
                & SIE_SIP_MASK);
            Ok(())
        } else if addr == CSR_SIP {
            self.regs[CSR_MIP as usize] = (self.regs[CSR_MIP as usize] & !MIP_SSIP) | (val
                & MIP_SSIP);
            Ok(())
        } else if addr == CSR_TSELECT || addr == CSR_TDATA1 || addr == CSR_TDATA2 || addr
            == CSR_TCONTROL || is_hpm(addr) {
            Ok(())
        } else if addr == CSR_MIP {
            self.regs[CSR_MIP as usize] = (self.regs[CSR_MIP as usize] & !MIP_SW_WRITABLE_PUB) | (
            val & MIP_SW_WRITABLE_PUB);
            Ok(())
        } else {
            self.regs[addr as usize] = val;
            Ok(())
        }
    }

    /// Direct read of a register (bypasses privilege checks) — used internally by Hart
    pub fn read_raw(&self, addr: u16) -> (r: u32)
        requires
            addr < 4096,
        ensures
            r == self@[addr as int],
    {
        self.regs[addr as usize]
    }

    /// Direct write of a register (bypasses privilege checks) — used internally by Hart
    pub fn write_raw(&mut self, addr: u16, val: u32)
        requires
            addr < 4096,
        ensures
            final(self)@ == old(self)@.update(addr as int, val),
    {
        self.regs[addr as usize] = val;
    }

    /// Trap entry: save priv to xPP, copy xIE to xPIE, clear xIE.
    pub fn mstatus_trap_enter(
        &mut self,
        prev_priv: u8,
        ie_bit: u32,
        pie_bit: u32,
        pp_shift: u32,
        pp_mask: u32,
    )
        requires
            ie_bit < 32,
            pie_bit < 32,
            pp_shift < 32,
        ensures
            final(self)@ == old(self)@.update(
                CSR_MSTATUS as int,
                trap_enter_spec(old(self)@[CSR_MSTATUS as int], prev_priv, ie_bit, pie_bit, pp_shift, pp_mask),
            ),
    {
        let mut v = self.regs[CSR_MSTATUS as usize];
        v = (v & !pp_mask) | ((prev_priv as u32) << pp_shift);
        let ie = (v >> ie_bit) & 1;
        v = (v & !(1 << pie_bit)) | (ie << pie_bit);
        v &= !(1 << ie_bit);
        self.regs[CSR_MSTATUS as usize] = v;
    }

    /// Trap return: restore priv from xPP, copy xPIE to xIE, set xPIE=1, clear xPP.
    /// Also clears MPRV when returning to a mode less privileged than M
    /// (privileged spec 1.12+).
    pub fn mstatus_trap_return(&mut self, ie_bit: u32, pie_bit: u32, pp_shift: u32, pp_mask: u32) -> (r: u8)
        requires
            ie_bit < 32,
            pie_bit < 32,
            pp_shift < 32,
        ensures
            r == trap_return_priv(old(self)@[CSR_MSTATUS as int], pp_shift, pp_mask),
            final(self)@ == old(self)@.update(
                CSR_MSTATUS as int,
                trap_return_spec(old(self)@[CSR_MSTATUS as int], ie_bit, pie_bit, pp_shift, pp_mask),
            ),
    {
        let mut v = self.regs[CSR_MSTATUS as usize];
        let priv_mode = ((v >> pp_shift) & (pp_mask >> pp_shift)) as u8;
        let pie = (v >> pie_bit) & 1;
        v = (v & !(1 << ie_bit)) | (pie << ie_bit);
        v |= 1 << pie_bit;
        v &= !pp_mask;
        if priv_mode != 3 {
            v &= !MSTATUS_MPRV;
        }
        self.regs[CSR_MSTATUS as usize] = v;
        priv_mode
    }
}

impl Default for CsrFile {
    fn default() -> (r: Self)
        ensures
            r@ == Seq::new(4096, |i: int| 0u32).update(CSR_MISA as int, MISA_RESET),
    {
        Self::new()
    }
}


/// Whether a counter gated by counter-enable bit `b` may be read at
/// privilege `p`: always in M-mode; in S-mode when mcounteren has bit `b`;
/// in U-mode when both mcounteren and scounteren have it.
pub open spec fn counter_readable(regs: Seq<u32>, p: u8, b: u32) -> bool {
    p == 3 || ((regs[0x306] >> b) & 1 != 0 && (p != 0 || (regs[0x106] >> b) & 1 != 0))
}

/// The counter CSRs read the 64-bit counters handed to the read, a half at
/// a time: cycle/time/instret give the low word of the cycle count, mtime
/// and instruction count, cycleh/timeh/instreth their high word (a read of
/// timeh with mtime = 0x1_0000_0005 gives 1). The user-level counters obey
/// mcounteren/scounteren; mcycle/minstret (and their high halves) are
/// machine-only.
#[verifier::spinoff_prover]
pub proof fn law_counter_reads(regs: Seq<u32>, c: u64, i: u64, t: u64, p: u8)
    ensures
        ({
            let ill = Err::<u32, Trap>(Trap::IllegalInstruction);
            &&& csr_read_spec(regs, 0xC00, c, i, t, p) == if counter_readable(regs, p, 0) { Ok((c % 0x1_0000_0000) as u32) } else { ill }
            &&& csr_read_spec(regs, 0xC80, c, i, t, p) == if counter_readable(regs, p, 0) { Ok((c / 0x1_0000_0000) as u32) } else { ill }
            &&& csr_read_spec(regs, 0xC01, c, i, t, p) == if counter_readable(regs, p, 1) { Ok((t % 0x1_0000_0000) as u32) } else { ill }
            &&& csr_read_spec(regs, 0xC81, c, i, t, p) == if counter_readable(regs, p, 1) { Ok((t / 0x1_0000_0000) as u32) } else { ill }
            &&& csr_read_spec(regs, 0xC02, c, i, t, p) == if counter_readable(regs, p, 2) { Ok((i % 0x1_0000_0000) as u32) } else { ill }
            &&& csr_read_spec(regs, 0xC82, c, i, t, p) == if counter_readable(regs, p, 2) { Ok((i / 0x1_0000_0000) as u32) } else { ill }
            &&& csr_read_spec(regs, 0xB00, c, i, t, p) == if p >= 3 { Ok((c % 0x1_0000_0000) as u32) } else { ill }
            &&& csr_read_spec(regs, 0xB80, c, i, t, p) == if p >= 3 { Ok((c / 0x1_0000_0000) as u32) } else { ill }
            &&& csr_read_spec(regs, 0xB02, c, i, t, p) == if p >= 3 { Ok((i % 0x1_0000_0000) as u32) } else { ill }
            &&& csr_read_spec(regs, 0xB82, c, i, t, p) == if p >= 3 { Ok((i / 0x1_0000_0000) as u32) } else { ill }
        }),
{
    lemma_u64_halves(c);
    lemma_u64_halves(i);
    lemma_u64_halves(t);
}


/// Field arithmetic of fcsr: fflags is bits 4:0, frm bits 7:5.
proof fn lemma_fcsr_bits(f: u32, v: u32)
    by (bit_vector)
    ensures
        f & 0xFFu32 == f % 256,
        f & 0x1Fu32 == f % 32,
        (f >> 5u32) & 0x7u32 == (f / 32) % 8,
        ((f & !0x1Fu32) | (v & 0x1Fu32)) & 0x1Fu32 == v % 32,
        (((f & !0x1Fu32) | (v & 0x1Fu32)) >> 5u32) & 0x7u32 == (f >> 5u32) & 0x7u32,
        (((f & !0xE0u32) | ((v & 0x7u32) << 5u32)) >> 5u32) & 0x7u32 == v % 8,
        ((f & !0xE0u32) | ((v & 0x7u32) << 5u32)) & 0x1Fu32 == f & 0x1Fu32,
        (v & 0xFFu32) & 0xFFu32 == v % 256,
{
}

/// Privilege and read-only rules of CSR addresses: a CSR whose address
/// bits 9:8 name a more privileged level (S = 1, M = 2 or 3) than the
/// accessor can neither be read nor written, and one whose bits 11:10 are
/// both set is read-only; either access raises IllegalInstruction.
#[verifier::spinoff_prover]
pub proof fn law_csr_access(regs: Seq<u32>, addr: u16, val: u32, p: u8, c: u64, i: u64, t: u64)
    ensures
        ({
            let need: u8 = if (addr / 0x100) % 4 == 0 { 0 } else if (addr / 0x100) % 4 == 1 { 1 } else { 3 };
            &&& p < need ==> csr_read_spec(regs, addr, c, i, t, p) == Err::<u32, Trap>(Trap::IllegalInstruction)
            &&& (p < need || addr / 0x400 == 3) ==> csr_write_spec(regs, addr, val, p) == Err::<Seq<u32>, Trap>(
                Trap::IllegalInstruction)
        }),
{
}

/// fflags (bits 4:0 of fcsr) and frm (bits 7:5) are views of fcsr: writing
/// one reads back its low 5 or 3 bits and leaves the other field alone;
/// writing fcsr keeps its low 8 bits.
#[verifier::spinoff_prover]
pub proof fn law_fcsr_fields(regs: Seq<u32>, val: u32, c: u64, i: u64, t: u64)
    requires
        regs.len() == 4096,
    ensures
        ({
            let f = regs[0x003];
            &&& csr_read_spec(regs, 0x001, c, i, t, 0) == Ok::<u32, Trap>(f % 32)
            &&& csr_read_spec(regs, 0x002, c, i, t, 0) == Ok::<u32, Trap>((f / 32) % 8)
            &&& csr_read_spec(regs, 0x003, c, i, t, 0) == Ok::<u32, Trap>(f % 256)
            &&& csr_write_spec(regs, 0x001, val, 0) matches Ok(r2)
                && csr_read_spec(r2, 0x001, c, i, t, 0) == Ok::<u32, Trap>(val % 32)
                && csr_read_spec(r2, 0x002, c, i, t, 0) == csr_read_spec(regs, 0x002, c, i, t, 0)
            &&& csr_write_spec(regs, 0x002, val, 0) matches Ok(r2)
                && csr_read_spec(r2, 0x002, c, i, t, 0) == Ok::<u32, Trap>(val % 8)
                && csr_read_spec(r2, 0x001, c, i, t, 0) == csr_read_spec(regs, 0x001, c, i, t, 0)
            &&& csr_write_spec(regs, 0x003, val, 0) matches Ok(r2)
                && csr_read_spec(r2, 0x003, c, i, t, 0) == Ok::<u32, Trap>(val % 256)
        }),
{
    let f = regs[0x003];
    lemma_fcsr_bits(f, val);
    lemma_fcsr_bits(val & 0xFF, 0);
    lemma_fcsr_bits((f & !0x1Fu32) | (val & 0x1Fu32), 0);
    lemma_fcsr_bits((f & !0xE0u32) | ((val & 0x7u32) << 5u32), 0);
}


/// The SD bit of mstatus, as arithmetic.
proof fn lemma_sd_bits(v: u32)
    by (bit_vector)
    ensures
        ((v & 0x6000u32) == 0x6000u32) == ((v / 0x2000) % 4 == 3),
        (v | 0x8000_0000u32) == if v >= 0x8000_0000u32 { v } else { (v + 0x8000_0000u32) as u32 },
        (v & !0x8000_0000u32) == v % 0x8000_0000,
{
}

/// What the other special CSRs read (in M-mode): mstatus reads its stored
/// value with SD (bit 31) set exactly when FS (bits 14:13) is Dirty (3);
/// sstatus reads that masked to the supervisor-visible bits; sie and sip
/// read mie and mip masked to the supervisor interrupt bits (1, 5, 9);
/// the debug-trigger registers and the performance-monitoring counters read
/// 0; any other CSR reads its stored value.
#[verifier::spinoff_prover]
pub proof fn law_special_csr_reads(regs: Seq<u32>, addr: u16, c: u64, i: u64, t: u64)
    requires
        regs.len() == 4096,
        addr < 4096,
    ensures
        ({
            let rd = |a: u16| csr_read_spec(regs, a, c, i, t, 3);
            let ms = regs[0x300];
            let msd: u32 = if (ms / 0x2000) % 4 == 3 {
                (ms % 0x8000_0000 + 0x8000_0000) as u32
            } else {
                ms % 0x8000_0000
            };
            &&& rd(0x300) == Ok::<u32, Trap>(msd)
            &&& rd(0x100) == Ok::<u32, Trap>(msd & 0x800D_E762)
            &&& rd(0x104) == Ok::<u32, Trap>(regs[0x304] & 0x222)
            &&& rd(0x144) == Ok::<u32, Trap>(regs[0x344] & 0x222)
            &&& rd(0x7A0) == Ok::<u32, Trap>(0) && rd(0x7A1) == Ok::<u32, Trap>(0)
            &&& rd(0x7A2) == Ok::<u32, Trap>(0) && rd(0x7A5) == Ok::<u32, Trap>(0)
            &&& (0x323 <= addr <= 0x33F || 0xB03 <= addr <= 0xB1F || 0xB83 <= addr <= 0xB9F)
                ==> rd(addr) == Ok::<u32, Trap>(0)
            &&& csr_plain(addr) ==> rd(addr) == Ok::<u32, Trap>(regs[addr as int])
        }),
{
    lemma_sd_bits(regs[0x300]);
}

} // verus!
