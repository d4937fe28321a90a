//! Execution of one decoded instruction.
//!
//! Floating-point arithmetic (add, multiply, divide, square root, fused
//! multiply-add, min/max, comparisons and conversions) needs IEEE-754
//! arithmetic; `execute` only validates such an instruction (its rounding
//! mode) and leaves the computation to the caller, which hands the result
//! back through `Hart::complete_fp`.
use crate::arith::{wrap32, wrap64};
use crate::cpu::{
    device_result, hart_translate_spec, load16_spec, load32_spec, load64_spec, load8_spec,
    store16_spec, store32_spec, store64_spec, store8_spec, Hart, HartView, COUNTER_WRITTEN_CYCLE,
    COUNTER_WRITTEN_INSTRET, PRIV_M, PRIV_S, PRIV_U,
};
use crate::csr::{
    csr_plain, csr_read_spec, csr_write_spec, trap_return_priv, trap_return_spec, CSR_FCSR, CSR_MCYCLE,
    CSR_MCYCLEH, CSR_MEPC, CSR_MINSTRET, CSR_MINSTRETH, CSR_MSTATUS, CSR_SATP, CSR_SEPC,
    MSTATUS_FS_DIRTY, MSTATUS_FS_MASK, MSTATUS_MIE_BIT, MSTATUS_MPIE_BIT, MSTATUS_MPP_MASK,
    MSTATUS_MPP_SHIFT, MSTATUS_SIE_BIT, MSTATUS_SPIE_BIT, MSTATUS_SPP_BIT, MSTATUS_SPP_MASK,
    MSTATUS_TSR, MSTATUS_TVM, MSTATUS_TW,
};
use crate::decode::{decode_spec, Instruction};
use crate::mem::Memory;
use crate::mmu::AccessType;
use crate::reg::{nan_box, nan_unbox};
use crate::trap::{exception_info, Trap, TrapInfo};
use crate::bits::lemma_u32_bits;
use vstd::prelude::*;

verus! {

// ---------------------------------------------------------------------------
// Integer semantics
// ---------------------------------------------------------------------------

/// A register value read as a signed (two's-complement) integer.
pub open spec fn sx(v: u32) -> int {
    (v as i32) as int
}

pub open spec fn abs(a: int) -> int {
    if a >= 0 {
        a
    } else {
        -a
    }
}

/// Quotient rounded toward zero.
pub open spec fn trunc_div(a: int, b: int) -> int {
    if (a >= 0) == (b >= 0) {
        abs(a) / abs(b)
    } else {
        -(abs(a) / abs(b))
    }
}

/// Remainder of the division rounded toward zero (takes the sign of the dividend).
pub open spec fn trunc_rem(a: int, b: int) -> int {
    if a >= 0 {
        abs(a) % abs(b)
    } else {
        -(abs(a) % abs(b))
    }
}

/// `DIV`: signed quotient; division by zero gives all ones; overflow gives the dividend.
pub open spec fn div_spec(a: u32, b: u32) -> u32 {
    if b == 0 {
        0xFFFF_FFFF
    } else if sx(a) == -0x8000_0000 && sx(b) == -1 {
        a
    } else {
        wrap32(trunc_div(sx(a), sx(b)))
    }
}

/// `REM`: signed remainder; by zero gives the dividend; overflow gives 0.
pub open spec fn rem_spec(a: u32, b: u32) -> u32 {
    if b == 0 {
        a
    } else if sx(a) == -0x8000_0000 && sx(b) == -1 {
        0
    } else {
        wrap32(trunc_rem(sx(a), sx(b)))
    }
}

/// Result of an instruction that only writes an integer register from
/// integer registers, immediates and the pc: its destination and value.
pub open spec fn int_op_result(s: HartView, inst: Instruction, pc: u32) -> Option<(u8, u32)> {
    match inst {
        Instruction::Add { rd, rs1, rs2 } => Some((rd, wrap32(s.x(rs1) + s.x(rs2)))),
        Instruction::Sub { rd, rs1, rs2 } => Some((rd, wrap32(s.x(rs1) - s.x(rs2)))),
        Instruction::Sll { rd, rs1, rs2 } => Some((rd, s.x(rs1) << (s.x(rs2) & 0x1F))),
        Instruction::Slt { rd, rs1, rs2 } => Some(
            (
                rd,
                if sx(s.x(rs1)) < sx(s.x(rs2)) {
                    1
                } else {
                    0
                },
            ),
        ),
        Instruction::Sltu { rd, rs1, rs2 } => Some(
            (
                rd,
                if s.x(rs1) < s.x(rs2) {
                    1
                } else {
                    0
                },
            ),
        ),
        Instruction::Xor { rd, rs1, rs2 } => Some((rd, s.x(rs1) ^ s.x(rs2))),
        Instruction::Srl { rd, rs1, rs2 } => Some((rd, s.x(rs1) >> (s.x(rs2) & 0x1F))),
        Instruction::Sra { rd, rs1, rs2 } => Some(
            (rd, ((s.x(rs1) as i32) >> (s.x(rs2) & 0x1F)) as u32),
        ),
        Instruction::Or { rd, rs1, rs2 } => Some((rd, s.x(rs1) | s.x(rs2))),
        Instruction::And { rd, rs1, rs2 } => Some((rd, s.x(rs1) & s.x(rs2))),
        Instruction::Mul { rd, rs1, rs2 } => Some((rd, wrap32(s.x(rs1) * s.x(rs2)))),
        Instruction::Mulh { rd, rs1, rs2 } => Some(
            (rd, ((sx(s.x(rs1)) * sx(s.x(rs2))) / 0x1_0000_0000) as u32),
        ),
        Instruction::Mulhsu { rd, rs1, rs2 } => Some(
            (rd, ((sx(s.x(rs1)) * s.x(rs2)) / 0x1_0000_0000) as u32),
        ),
        Instruction::Mulhu { rd, rs1, rs2 } => Some(
            (rd, ((s.x(rs1) as int * s.x(rs2)) / 0x1_0000_0000) as u32),
        ),
        Instruction::Div { rd, rs1, rs2 } => Some((rd, div_spec(s.x(rs1), s.x(rs2)))),
        Instruction::Divu { rd, rs1, rs2 } => Some(
            (
                rd,
                if s.x(rs2) == 0 {
                    0xFFFF_FFFF
                } else {
                    s.x(rs1) / s.x(rs2)
                },
            ),
        ),
        Instruction::Rem { rd, rs1, rs2 } => Some((rd, rem_spec(s.x(rs1), s.x(rs2)))),
        Instruction::Remu { rd, rs1, rs2 } => Some(
            (
                rd,
                if s.x(rs2) == 0 {
                    s.x(rs1)
                } else {
                    s.x(rs1) % s.x(rs2)
                },
            ),
        ),
        Instruction::Addi { rd, rs1, imm } => Some((rd, wrap32(s.x(rs1) + (imm as u32)))),
        Instruction::Slti { rd, rs1, imm } => Some(
            (
                rd,
                if sx(s.x(rs1)) < imm {
                    1
                } else {
                    0
                },
            ),
        ),
        Instruction::Sltiu { rd, rs1, imm } => Some(
            (
                rd,
                if s.x(rs1) < (imm as u32) {
                    1
                } else {
                    0
                },
            ),
        ),
        Instruction::Xori { rd, rs1, imm } => Some((rd, s.x(rs1) ^ (imm as u32))),
        Instruction::Ori { rd, rs1, imm } => Some((rd, s.x(rs1) | (imm as u32))),
        Instruction::Andi { rd, rs1, imm } => Some((rd, s.x(rs1) & (imm as u32))),
        Instruction::Slli { rd, rs1, shamt } => Some((rd, s.x(rs1) << shamt)),
        Instruction::Srli { rd, rs1, shamt } => Some((rd, s.x(rs1) >> shamt)),
        Instruction::Srai { rd, rs1, shamt } => Some((rd, ((s.x(rs1) as i32) >> shamt) as u32)),
        Instruction::Lui { rd, imm } => Some((rd, imm)),
        Instruction::Auipc { rd, imm } => Some((rd, wrap32(pc + imm))),
        _ => None,
    }
}

// ---------------------------------------------------------------------------
// Floating-point helpers that work on raw bits
// ---------------------------------------------------------------------------

/// mstatus.FS := Dirty.
pub open spec fn fs_dirty(s: HartView) -> HartView {
    s.with_csr(CSR_MSTATUS, (s.csr(CSR_MSTATUS) & !MSTATUS_FS_MASK) | MSTATUS_FS_DIRTY)
}

/// OR exception flags into fcsr.
pub open spec fn accrue_spec(s: HartView, flags: u32) -> HartView {
    if flags != 0 {
        s.with_csr(CSR_FCSR, s.csr(CSR_FCSR) | flags)
    } else {
        s
    }
}

/// The rounding mode in effect: `rm`, or frm for the dynamic mode 7.
pub open spec fn effective_rm(s: HartView, rm: u8) -> u8 {
    if rm == 7 {
        ((s.csr(CSR_FCSR) >> 5) as u8) & 7
    } else {
        rm
    }
}

/// Rounding modes 5 and 6 are reserved (as is a dynamic frm holding them).
pub open spec fn rm_check(s: HartView, rm: u8) -> Result<(), TrapInfo> {
    if effective_rm(s, rm) >= 5 {
        Err(exception_info(Trap::IllegalInstruction, 0))
    } else {
        Ok(())
    }
}

/// The fclass mask of a single-precision bit pattern.
pub open spec fn classify32_spec(b: u32) -> u32 {
    let sign = b >> 31;
    let exp = (b >> 23) & 0xFF;
    let frac = b & 0x007F_FFFF;
    if exp == 0xFF {
        if frac == 0 {
            if sign != 0 {
                1
            } else {
                0x80
            }
        } else if frac & 0x0040_0000 != 0 {
            0x200
        } else {
            0x100
        }
    } else if exp == 0 {
        if frac == 0 {
            if sign != 0 {
                0x8
            } else {
                0x10
            }
        } else if sign != 0 {
            0x4
        } else {
            0x20
        }
    } else if sign != 0 {
        0x2
    } else {
        0x40
    }
}

/// The fclass mask of a double-precision bit pattern.
pub open spec fn classify64_spec(b: u64) -> u32 {
    let sign = b >> 63;
    let exp = (b >> 52) & 0x7FF;
    let frac = b & 0x000F_FFFF_FFFF_FFFF;
    if exp == 0x7FF {
        if frac == 0 {
            if sign != 0 {
                1
            } else {
                0x80
            }
        } else if frac & 0x0008_0000_0000_0000 != 0 {
            0x200
        } else {
            0x100
        }
    } else if exp == 0 {
        if frac == 0 {
            if sign != 0 {
                0x8
            } else {
                0x10
            }
        } else if sign != 0 {
            0x4
        } else {
            0x20
        }
    } else if sign != 0 {
        0x2
    } else {
        0x40
    }
}

/// Signaling NaN (single precision): exponent all ones, nonzero fraction, quiet bit clear.
pub open spec fn is_snan32_spec(b: u32) -> bool {
    (b & 0x7F80_0000) == 0x7F80_0000 && (b & 0x007F_FFFF) != 0 && (b & 0x0040_0000) == 0
}

/// Signaling NaN (double precision).
pub open spec fn is_snan64_spec(b: u64) -> bool {
    (b & 0x7FF0_0000_0000_0000) == 0x7FF0_0000_0000_0000 && (b & 0x000F_FFFF_FFFF_FFFF) != 0 && (b
        & 0x0008_0000_0000_0000) == 0
}

/// The rounding-mode operand of floating-point instructions whose result is
/// computed with IEEE-754 arithmetic and that check their rounding mode.
pub open spec fn fp_rounding_operand(inst: Instruction) -> Option<u8> {
    match inst {
        Instruction::FaddS { rm, .. } | Instruction::FsubS { rm, .. } | Instruction::FmulS {
            rm,
            ..
        } | Instruction::FdivS { rm, .. } | Instruction::FsqrtS { rm, .. } | Instruction::FmaddS {
            rm,
            ..
        } | Instruction::FmsubS { rm, .. } | Instruction::FnmsubS { rm, .. }
        | Instruction::FnmaddS { rm, .. } | Instruction::FcvtWS { rm, .. } | Instruction::FcvtWuS {
            rm,
            ..
        } | Instruction::FcvtSW { rm, .. } | Instruction::FcvtSWu { rm, .. } | Instruction::FcvtSD {
            rm,
            ..
        } | Instruction::FcvtDS { rm, .. } | Instruction::FaddD { rm, .. } | Instruction::FsubD {
            rm,
            ..
        } | Instruction::FmulD { rm, .. } | Instruction::FdivD { rm, .. } | Instruction::FsqrtD {
            rm,
            ..
        } | Instruction::FmaddD { rm, .. } | Instruction::FmsubD { rm, .. }
        | Instruction::FnmsubD { rm, .. } | Instruction::FnmaddD { rm, .. } | Instruction::FcvtWD {
            rm,
            ..
        } | Instruction::FcvtWuD { rm, .. } => Some(rm),
        _ => None,
    }
}

/// Floating-point instructions whose result needs IEEE-754 arithmetic.
pub open spec fn needs_fpu_spec(inst: Instruction) -> bool {
    fp_rounding_operand(inst) is Some || match inst {
        Instruction::FminS { .. } | Instruction::FmaxS { .. } | Instruction::FeqS { .. }
        | Instruction::FltS { .. } | Instruction::FleS { .. } | Instruction::FminD { .. }
        | Instruction::FmaxD { .. } | Instruction::FeqD { .. } | Instruction::FltD { .. }
        | Instruction::FleD { .. } | Instruction::FcvtDW { .. } | Instruction::FcvtDWu { .. } => true,
        _ => false,
    }
}

// ---------------------------------------------------------------------------
// Control transfer, atomics, system, CSR
// ---------------------------------------------------------------------------

/// A conditional branch to `pc + imm`; a taken branch to an odd target faults.
pub open spec fn branch_spec(s: HartView, taken: bool, pc: u32, imm: i32) -> (Result<(), TrapInfo>, HartView) {
    let target = wrap32(pc + (imm as u32));
    if !taken {
        (Ok(()), s)
    } else if target % 2 != 0 {
        (Err(exception_info(Trap::InstructionAddressMisaligned, target)), s)
    } else {
        (Ok(()), s.with_pc(target))
    }
}

/// A branch leaves memory untouched.
pub open spec fn branch_outcome<V>(p: (Result<(), TrapInfo>, HartView), mem: V) -> (Result<(), TrapInfo>, HartView, V) {
    (p.0, p.1, mem)
}

/// The value an AMO writes back, from the old memory word and rs2.
pub open spec fn amo_value(inst: Instruction, old: u32, v: u32) -> u32 {
    match inst {
        Instruction::AmoswapW { .. } => v,
        Instruction::AmoaddW { .. } => wrap32(old + v),
        Instruction::AmoxorW { .. } => old ^ v,
        Instruction::AmoandW { .. } => old & v,
        Instruction::AmoorW { .. } => old | v,
        Instruction::AmominW { .. } => if sx(old) < sx(v) {
            old
        } else {
            v
        },
        Instruction::AmomaxW { .. } => if sx(old) > sx(v) {
            old
        } else {
            v
        },
        Instruction::AmominuW { .. } => if old < v {
            old
        } else {
            v
        },
        _ => if old > v {
            old
        } else {
            v
        },
    }
}

/// Read-modify-write of the aligned word at `x[rs1]`: both translations
/// happen before any access, then the old value goes to `rd`.
pub open spec fn amo_spec<M: Memory>(s: HartView, mem: M::V, inst: Instruction, rd: u8, rs1: u8, rs2: u8) -> (Result<(), TrapInfo>, HartView, M::V) {
    let va = s.x(rs1);
    if va % 4 != 0 {
        (Err(exception_info(Trap::StoreAddressMisaligned, va)), s, mem)
    } else {
        let (t1, m1) = hart_translate_spec::<M>(s, mem, va, AccessType::Load);
        match t1 {
            Err(e) => (Err(e), s, m1),
            Ok(pa_load) => {
                let (t2, m2) = hart_translate_spec::<M>(s, m1, va, AccessType::Store);
                match t2 {
                    Err(e) => (Err(e), s, m2),
                    Ok(pa_store) => {
                        let (r, m3) = M::read32_spec(m2, pa_load);
                        match r {
                            Err(t) => (Err(exception_info(t, 0)), s, m3),
                            Ok(old) => {
                                let (w, m4) = M::write32_spec(m3, 
                                    pa_store,
                                    amo_value(inst, old, s.x(rs2)),
                                );
                                match w {
                                    Err(t) => (Err(exception_info(t, 0)), s, m4),
                                    Ok(_) => (Ok(()), s.with_reg(rd, old), m4),
                                }
                            },
                        }
                    },
                }
            },
        }
    }
}

/// The hart state after a successful CSR write, including the mcycle /
/// minstret aliases of the hart's counters.
pub open spec fn csr_write_effect(s: HartView, csr: u16, val: u32) -> Result<HartView, Trap> {
    match csr_write_spec(s.csrs, csr, val, s.priv_mode) {
        Err(t) => Err(t),
        Ok(regs) => {
            let s1 = HartView { csrs: regs, ..s };
            Ok(
                if csr == CSR_MCYCLE {
                    HartView {
                        cycle: (s.cycle & 0xFFFF_FFFF_0000_0000) | (val as u64),
                        counter_written: s.counter_written | COUNTER_WRITTEN_CYCLE,
                        ..s1
                    }
                } else if csr == CSR_MCYCLEH {
                    HartView {
                        cycle: (s.cycle & 0x0000_0000_FFFF_FFFF) | ((val as u64) << 32),
                        counter_written: s.counter_written | COUNTER_WRITTEN_CYCLE,
                        ..s1
                    }
                } else if csr == CSR_MINSTRET {
                    HartView {
                        instret: (s.instret & 0xFFFF_FFFF_0000_0000) | (val as u64),
                        counter_written: s.counter_written | COUNTER_WRITTEN_INSTRET,
                        ..s1
                    }
                } else if csr == CSR_MINSTRETH {
                    HartView {
                        instret: (s.instret & 0x0000_0000_FFFF_FFFF) | ((val as u64) << 32),
                        counter_written: s.counter_written | COUNTER_WRITTEN_INSTRET,
                        ..s1
                    }
                } else {
                    s1
                },
            )
        },
    }
}

/// How a CSR instruction combines the old value with its operand.
pub enum CsrOp {
    Write,
    SetBits,
    ClearBits,
}

/// A Zicsr instruction: the TVM check on satp, the read, the optional write,
/// then `rd` receives the old value.
pub open spec fn csr_instr_spec(s: HartView, rd: u8, csr: u16, operand: u32, op: CsrOp, skip_write: bool) -> (Result<(), TrapInfo>, HartView) {
    if csr == CSR_SATP && s.priv_mode == PRIV_S && (s.csr(CSR_MSTATUS) & MSTATUS_TVM) != 0 {
        (Err(exception_info(Trap::IllegalInstruction, 0)), s)
    } else {
        match csr_read_spec(s.csrs, csr, s.cycle, s.instret, s.mtime, s.priv_mode) {
            Err(t) => (Err(exception_info(t, 0)), s),
            Ok(old) => if skip_write {
                (Ok(()), s.with_reg(rd, old))
            } else {
                let new = match op {
                    CsrOp::Write => operand,
                    CsrOp::SetBits => old | operand,
                    CsrOp::ClearBits => old & !operand,
                };
                match csr_write_effect(s, csr, new) {
                    Err(t) => (Err(exception_info(t, 0)), s),
                    Ok(s2) => (Ok(()), s2.with_reg(rd, old)),
                }
            },
        }
    }
}

/// The environment-call exception of the current privilege level.
pub open spec fn ecall_trap(priv_mode: u8) -> Trap {
    if priv_mode == PRIV_U {
        Trap::EnvironmentCallFromUMode
    } else if priv_mode == PRIV_S {
        Trap::EnvironmentCallFromSMode
    } else {
        Trap::EnvironmentCallFromMMode
    }
}

pub open spec fn illegal_info() -> TrapInfo {
    exception_info(Trap::IllegalInstruction, 0)
}

/// Register fields below 32, shift amounts below 32, CSR addresses below 4096.
pub open spec fn inst_wf(inst: Instruction) -> bool {
    match inst {
        Instruction::Slli { rd, rs1, shamt } | Instruction::Srli { rd, rs1, shamt }
        | Instruction::Srai { rd, rs1, shamt } => rd < 32 && rs1 < 32 && shamt < 32,
        Instruction::Add { rd, rs1, rs2 } | Instruction::Sub { rd, rs1, rs2 } | Instruction::Sll {
            rd,
            rs1,
            rs2,
        } | Instruction::Slt { rd, rs1, rs2 } | Instruction::Sltu { rd, rs1, rs2 }
        | Instruction::Xor { rd, rs1, rs2 } | Instruction::Srl { rd, rs1, rs2 } | Instruction::Sra {
            rd,
            rs1,
            rs2,
        } | Instruction::Or { rd, rs1, rs2 } | Instruction::And { rd, rs1, rs2 }
        | Instruction::ScW { rd, rs1, rs2 } | Instruction::AmoswapW { rd, rs1, rs2 }
        | Instruction::AmoaddW { rd, rs1, rs2 } | Instruction::AmoxorW { rd, rs1, rs2 }
        | Instruction::AmoandW { rd, rs1, rs2 } | Instruction::AmoorW { rd, rs1, rs2 }
        | Instruction::AmominW { rd, rs1, rs2 } | Instruction::AmomaxW { rd, rs1, rs2 }
        | Instruction::AmominuW { rd, rs1, rs2 } | Instruction::AmomaxuW { rd, rs1, rs2 }
        | Instruction::Mul { rd, rs1, rs2 } | Instruction::Mulh { rd, rs1, rs2 }
        | Instruction::Mulhsu { rd, rs1, rs2 } | Instruction::Mulhu { rd, rs1, rs2 }
        | Instruction::Div { rd, rs1, rs2 } | Instruction::Divu { rd, rs1, rs2 } | Instruction::Rem {
            rd,
            rs1,
            rs2,
        } | Instruction::Remu { rd, rs1, rs2 } | Instruction::FsgnjS { rd, rs1, rs2 }
        | Instruction::FsgnjnS { rd, rs1, rs2 } | Instruction::FsgnjxS { rd, rs1, rs2 }
        | Instruction::FminS { rd, rs1, rs2 } | Instruction::FmaxS { rd, rs1, rs2 }
        | Instruction::FeqS { rd, rs1, rs2 } | Instruction::FltS { rd, rs1, rs2 } | Instruction::FleS {
            rd,
            rs1,
            rs2,
        } | Instruction::FsgnjD { rd, rs1, rs2 } | Instruction::FsgnjnD { rd, rs1, rs2 }
        | Instruction::FsgnjxD { rd, rs1, rs2 } | Instruction::FminD { rd, rs1, rs2 }
        | Instruction::FmaxD { rd, rs1, rs2 } | Instruction::FeqD { rd, rs1, rs2 }
        | Instruction::FltD { rd, rs1, rs2 } | Instruction::FleD { rd, rs1, rs2 } => rd < 32 && rs1
            < 32 && rs2 < 32,
        Instruction::FaddS { rd, rs1, rs2, .. } | Instruction::FsubS { rd, rs1, rs2, .. }
        | Instruction::FmulS { rd, rs1, rs2, .. } | Instruction::FdivS { rd, rs1, rs2, .. }
        | Instruction::FaddD { rd, rs1, rs2, .. } | Instruction::FsubD { rd, rs1, rs2, .. }
        | Instruction::FmulD { rd, rs1, rs2, .. } | Instruction::FdivD { rd, rs1, rs2, .. } => rd
            < 32 && rs1 < 32 && rs2 < 32,
        Instruction::FmaddS { rd, rs1, rs2, rs3, .. } | Instruction::FmsubS { rd, rs1, rs2, rs3, .. }
        | Instruction::FnmsubS { rd, rs1, rs2, rs3, .. } | Instruction::FnmaddS {
            rd,
            rs1,
            rs2,
            rs3,
            ..
        } | Instruction::FmaddD { rd, rs1, rs2, rs3, .. } | Instruction::FmsubD {
            rd,
            rs1,
            rs2,
            rs3,
            ..
        } | Instruction::FnmsubD { rd, rs1, rs2, rs3, .. } | Instruction::FnmaddD {
            rd,
            rs1,
            rs2,
            rs3,
            ..
        } => rd < 32 && rs1 < 32 && rs2 < 32 && rs3 < 32,
        Instruction::Addi { rd, rs1, .. } | Instruction::Slti { rd, rs1, .. } | Instruction::Sltiu {
            rd,
            rs1,
            ..
        } | Instruction::Xori { rd, rs1, .. } | Instruction::Ori { rd, rs1, .. } | Instruction::Andi {
            rd,
            rs1,
            ..
        } | Instruction::Lb { rd, rs1, .. } | Instruction::Lh { rd, rs1, .. } | Instruction::Lw {
            rd,
            rs1,
            ..
        } | Instruction::Lbu { rd, rs1, .. } | Instruction::Lhu { rd, rs1, .. } | Instruction::Jalr {
            rd,
            rs1,
            ..
        } | Instruction::LrW { rd, rs1 } | Instruction::Flw { rd, rs1, .. } | Instruction::Fld {
            rd,
            rs1,
            ..
        } | Instruction::FsqrtS { rd, rs1, .. } | Instruction::FsqrtD { rd, rs1, .. }
        | Instruction::FclassS { rd, rs1 } | Instruction::FclassD { rd, rs1 } | Instruction::FcvtWS {
            rd,
            rs1,
            ..
        } | Instruction::FcvtWuS { rd, rs1, .. } | Instruction::FcvtSW { rd, rs1, .. }
        | Instruction::FcvtSWu { rd, rs1, .. } | Instruction::FmvXW { rd, rs1 } | Instruction::FmvWX {
            rd,
            rs1,
        } | Instruction::FcvtSD { rd, rs1, .. } | Instruction::FcvtDS { rd, rs1, .. }
        | Instruction::FcvtWD { rd, rs1, .. } | Instruction::FcvtWuD { rd, rs1, .. }
        | Instruction::FcvtDW { rd, rs1, .. } | Instruction::FcvtDWu { rd, rs1, .. } => rd < 32
            && rs1 < 32,
        Instruction::Sb { rs1, rs2, .. } | Instruction::Sh { rs1, rs2, .. } | Instruction::Sw {
            rs1,
            rs2,
            ..
        } | Instruction::Beq { rs1, rs2, .. } | Instruction::Bne { rs1, rs2, .. } | Instruction::Blt {
            rs1,
            rs2,
            ..
        } | Instruction::Bge { rs1, rs2, .. } | Instruction::Bltu { rs1, rs2, .. }
        | Instruction::Bgeu { rs1, rs2, .. } | Instruction::Fsw { rs1, rs2, .. } | Instruction::Fsd {
            rs1,
            rs2,
            ..
        } => rs1 < 32 && rs2 < 32,
        Instruction::Lui { rd, .. } | Instruction::Auipc { rd, .. } | Instruction::Jal { rd, .. } => rd
            < 32,
        Instruction::Csrrw { rd, rs1, csr } | Instruction::Csrrs { rd, rs1, csr } | Instruction::Csrrc {
            rd,
            rs1,
            csr,
        } => rd < 32 && rs1 < 32 && csr < 4096,
        Instruction::Csrrwi { rd, csr, .. } | Instruction::Csrrsi { rd, csr, .. }
        | Instruction::Csrrci { rd, csr, .. } => rd < 32 && csr < 4096,
        _ => true,
    }
}

/// Address of a load or store: `x[rs1] + imm` (wrapping).
pub open spec fn ea(s: HartView, rs1: u8, imm: i32) -> u32 {
    wrap32(s.x(rs1) + (imm as u32))
}

/// A load into an integer register of an already-extended value.
pub open spec fn load_into<V>(s: HartView, rd: u8, r: Result<u32, TrapInfo>, m: V) -> (Result<(), TrapInfo>, HartView, V) {
    match r {
        Ok(v) => (Ok(()), s.with_reg(rd, v), m),
        Err(e) => (Err(e), s, m),
    }
}

/// Byte load result widened to a register value.
pub open spec fn widen8<V>(p: (Result<u8, TrapInfo>, V), signed: bool) -> (Result<u32, TrapInfo>, V) {
    (
        match p.0 {
            Ok(v) => Ok(
                if signed {
                    ((v as i8) as i32) as u32
                } else {
                    v as u32
                },
            ),
            Err(e) => Err(e),
        },
        p.1,
    )
}

/// Halfword load result widened to a register value.
pub open spec fn widen16<V>(p: (Result<u16, TrapInfo>, V), signed: bool) -> (Result<u32, TrapInfo>, V) {
    (
        match p.0 {
            Ok(v) => Ok(
                if signed {
                    ((v as i16) as i32) as u32
                } else {
                    v as u32
                },
            ),
            Err(e) => Err(e),
        },
        p.1,
    )
}

/// A store: the hart state is unchanged whatever the outcome.
pub open spec fn store_outcome<V>(s: HartView, p: (Result<(), TrapInfo>, V)) -> (Result<(), TrapInfo>, HartView, V) {
    (p.0, s, p.1)
}

/// Integer and floating-point loads and stores.
pub open spec fn mem_spec<M: Memory>(s: HartView, mem: M::V, inst: Instruction) -> (Result<(), TrapInfo>, HartView, M::V) {
    match inst {
            // Loads — no register update on fault.
            Instruction::Lb { rd, rs1, imm } => {
                let p = widen8(load8_spec::<M>(s, mem, ea(s, rs1, imm)), true);
                load_into(s, rd, p.0, p.1)
            },
            Instruction::Lh { rd, rs1, imm } => {
                let p = widen16(load16_spec::<M>(s, mem, ea(s, rs1, imm)), true);
                load_into(s, rd, p.0, p.1)
            },
            Instruction::Lw { rd, rs1, imm } => {
                let p = load32_spec::<M>(s, mem, ea(s, rs1, imm));
                load_into(s, rd, p.0, p.1)
            },
            Instruction::Lbu { rd, rs1, imm } => {
                let p = widen8(load8_spec::<M>(s, mem, ea(s, rs1, imm)), false);
                load_into(s, rd, p.0, p.1)
            },
            Instruction::Lhu { rd, rs1, imm } => {
                let p = widen16(load16_spec::<M>(s, mem, ea(s, rs1, imm)), false);
                load_into(s, rd, p.0, p.1)
            },
            // Stores
            Instruction::Sb { rs1, rs2, imm } => store_outcome(
                s,
                store8_spec::<M>(s, mem, ea(s, rs1, imm), s.x(rs2) as u8),
            ),
            Instruction::Sh { rs1, rs2, imm } => store_outcome(
                s,
                store16_spec::<M>(s, mem, ea(s, rs1, imm), s.x(rs2) as u16),
            ),
            Instruction::Sw { rs1, rs2, imm } => store_outcome(
                s,
                store32_spec::<M>(s, mem, ea(s, rs1, imm), s.x(rs2)),
            ),
            // F/D loads and stores
            Instruction::Flw { rd, rs1, imm } => {
                let (r, m) = load32_spec::<M>(s, mem, ea(s, rs1, imm));
                match r {
                    Ok(v) => (Ok(()), fs_dirty(s.with_freg(rd, nan_box(v))), m),
                    Err(e) => (Err(e), s, m),
                }
            },
            Instruction::Fsw { rs1, rs2, imm } => store_outcome(
                s,
                store32_spec::<M>(s, mem, ea(s, rs1, imm), s.f(rs2) as u32),
            ),
            Instruction::Fld { rd, rs1, imm } => {
                let (r, m) = load64_spec::<M>(s, mem, ea(s, rs1, imm));
                match r {
                    Ok(v) => (Ok(()), fs_dirty(s.with_freg(rd, v)), m),
                    Err(e) => (Err(e), s, m),
                }
            },
            Instruction::Fsd { rs1, rs2, imm } => store_outcome(
                s,
                store64_spec::<M>(s, mem, ea(s, rs1, imm), s.f(rs2)),
            ),
            _ => (Ok(()), s, mem),
    }
}

/// Branches and jumps.
pub open spec fn control_spec<V>(s: HartView, mem: V, inst: Instruction, pc: u32) -> (Result<(), TrapInfo>, HartView, V) {
    match inst {
            // Branches
            Instruction::Beq { rs1, rs2, imm } => branch_outcome(branch_spec(s, s.x(rs1) == s.x(rs2), pc, imm), mem),
            Instruction::Bne { rs1, rs2, imm } => branch_outcome(branch_spec(s, s.x(rs1) != s.x(rs2), pc, imm), mem),
            Instruction::Blt { rs1, rs2, imm } => branch_outcome(branch_spec(s, sx(s.x(rs1)) < sx(s.x(rs2)), pc, imm), mem),
            Instruction::Bge { rs1, rs2, imm } => branch_outcome(branch_spec(s, sx(s.x(rs1)) >= sx(s.x(rs2)), pc, imm), mem),
            Instruction::Bltu { rs1, rs2, imm } => branch_outcome(branch_spec(s, s.x(rs1) < s.x(rs2), pc, imm), mem),
            Instruction::Bgeu { rs1, rs2, imm } => branch_outcome(branch_spec(s, s.x(rs1) >= s.x(rs2), pc, imm), mem),
            // Jumps: the link register receives the address of the next instruction.
            Instruction::Jal { rd, imm } => {
                let target = wrap32(pc + (imm as u32));
                if target % 2 != 0 {
                    (Err(exception_info(Trap::InstructionAddressMisaligned, target)), s, mem)
                } else {
                    (Ok(()), s.with_reg(rd, s.pc).with_pc(target), mem)
                }
            },
            Instruction::Jalr { rd, rs1, imm } => {
                let target = (ea(s, rs1, imm) / 2 * 2) as u32;
                (Ok(()), s.with_reg(rd, s.pc).with_pc(target), mem)
            },
            _ => (Ok(()), s, mem),
    }
}

/// LR/SC and AMOs.
pub open spec fn atomic_spec<M: Memory>(s: HartView, mem: M::V, inst: Instruction) -> (Result<(), TrapInfo>, HartView, M::V) {
    match inst {
            // A extension
            Instruction::LrW { rd, rs1 } => {
                let va = s.x(rs1);
                if va % 4 != 0 {
                    (Err(exception_info(Trap::LoadAddressMisaligned, va)), s, mem)
                } else {
                    let (r, m) = load32_spec::<M>(s, mem, va);
                    match r {
                        Ok(v) => (Ok(()), HartView { reservation: Some(va), ..s.with_reg(rd, v) }, m),
                        Err(e) => (Err(e), s, m),
                    }
                }
            },
            Instruction::ScW { rd, rs1, rs2 } => {
                let va = s.x(rs1);
                if va % 4 != 0 {
                    (Err(exception_info(Trap::StoreAddressMisaligned, va)), s, mem)
                } else {
                    // SC always clears the reservation, even when the store faults.
                    let s1 = HartView { reservation: None, ..s };
                    if s.reservation == Some(va) {
                        let (r, m) = store32_spec::<M>(s1, mem, va, s.x(rs2));
                        match r {
                            Ok(_) => (Ok(()), s1.with_reg(rd, 0), m),
                            Err(e) => (Err(e), s1, m),
                        }
                    } else {
                        (Ok(()), s1.with_reg(rd, 1), mem)
                    }
                }
            },
            Instruction::AmoswapW { rd, rs1, rs2 } | Instruction::AmoaddW { rd, rs1, rs2 }
            | Instruction::AmoxorW { rd, rs1, rs2 } | Instruction::AmoandW { rd, rs1, rs2 }
            | Instruction::AmoorW { rd, rs1, rs2 } | Instruction::AmominW { rd, rs1, rs2 }
            | Instruction::AmomaxW { rd, rs1, rs2 } | Instruction::AmominuW { rd, rs1, rs2 }
            | Instruction::AmomaxuW { rd, rs1, rs2 } => amo_spec::<M>(s, mem, inst, rd, rs1, rs2),
            _ => (Ok(()), s, mem),
    }
}

/// Environment calls, breakpoints, trap returns, fences, WFI.
pub open spec fn system_spec<V>(s: HartView, mem: V, inst: Instruction) -> (Result<(), TrapInfo>, HartView, V) {
    match inst {
            // System
            Instruction::Ecall => (Err(exception_info(ecall_trap(s.priv_mode), 0)), s, mem),
            Instruction::Ebreak => (Err(exception_info(Trap::Breakpoint, 0)), s, mem),
            Instruction::Mret => if s.priv_mode < PRIV_M {
                (Err(illegal_info()), s, mem)
            } else {
                let v = s.csr(CSR_MSTATUS);
                (
                    Ok(()),
                    HartView {
                        pc: s.csr(CSR_MEPC),
                        priv_mode: trap_return_priv(v, MSTATUS_MPP_SHIFT, MSTATUS_MPP_MASK),
                        ..s.with_csr(
                            CSR_MSTATUS,
                            trap_return_spec(
                                v,
                                MSTATUS_MIE_BIT,
                                MSTATUS_MPIE_BIT,
                                MSTATUS_MPP_SHIFT,
                                MSTATUS_MPP_MASK,
                            ),
                        )
                    },
                    mem,
                )
            },
            Instruction::Sret => {
                let v = s.csr(CSR_MSTATUS);
                if s.priv_mode < PRIV_S || (s.priv_mode == PRIV_S && (v & MSTATUS_TSR) != 0) {
                    (Err(illegal_info()), s, mem)
                } else {
                    (
                        Ok(()),
                        HartView {
                            pc: s.csr(CSR_SEPC),
                            priv_mode: trap_return_priv(v, MSTATUS_SPP_BIT, MSTATUS_SPP_MASK),
                            ..s.with_csr(
                                CSR_MSTATUS,
                                trap_return_spec(
                                    v,
                                    MSTATUS_SIE_BIT,
                                    MSTATUS_SPIE_BIT,
                                    MSTATUS_SPP_BIT,
                                    MSTATUS_SPP_MASK,
                                ),
                            )
                        },
                        mem,
                    )
                }
            },
            Instruction::SfenceVma => if s.priv_mode == PRIV_U || (s.priv_mode == PRIV_S && (s.csr(
                CSR_MSTATUS,
            ) & MSTATUS_TVM) != 0) {
                (Err(illegal_info()), s, mem)
            } else {
                (Ok(()), s, mem)
            },
            Instruction::Wfi => if s.priv_mode < PRIV_M && (s.csr(CSR_MSTATUS) & MSTATUS_TW) != 0 {
                (Err(illegal_info()), s, mem)
            } else {
                (Ok(()), s, mem)
            },
            Instruction::Fence => (Ok(()), s, mem),
            _ => (Ok(()), s, mem),
    }
}

/// Floating-point sign injection, classification and moves (bit-level).
pub open spec fn fp_bits_spec<V>(s: HartView, mem: V, inst: Instruction) -> (Result<(), TrapInfo>, HartView, V) {
    match inst {
            // Sign injection, classification and moves work on raw bits.
            Instruction::FsgnjS { rd, rs1, rs2 } => {
                let (a, b) = (nan_unbox(s.f(rs1)), nan_unbox(s.f(rs2)));
                (Ok(()), fs_dirty(s.with_freg(rd, nan_box((a & 0x7FFF_FFFF) | (b & 0x8000_0000)))), mem)
            },
            Instruction::FsgnjnS { rd, rs1, rs2 } => {
                let (a, b) = (nan_unbox(s.f(rs1)), nan_unbox(s.f(rs2)));
                (Ok(()), fs_dirty(s.with_freg(rd, nan_box((a & 0x7FFF_FFFF) | (!b & 0x8000_0000)))), mem)
            },
            Instruction::FsgnjxS { rd, rs1, rs2 } => {
                let (a, b) = (nan_unbox(s.f(rs1)), nan_unbox(s.f(rs2)));
                (Ok(()), fs_dirty(s.with_freg(rd, nan_box(a ^ (b & 0x8000_0000)))), mem)
            },
            Instruction::FsgnjD { rd, rs1, rs2 } => {
                let (a, b) = (s.f(rs1), s.f(rs2));
                (
                    Ok(()),
                    fs_dirty(
                        s.with_freg(
                            rd,
                            (a & 0x7FFF_FFFF_FFFF_FFFF) | (b & 0x8000_0000_0000_0000),
                        ),
                    ),
                    mem,
                )
            },
            Instruction::FsgnjnD { rd, rs1, rs2 } => {
                let (a, b) = (s.f(rs1), s.f(rs2));
                (
                    Ok(()),
                    fs_dirty(
                        s.with_freg(
                            rd,
                            (a & 0x7FFF_FFFF_FFFF_FFFF) | (!b & 0x8000_0000_0000_0000),
                        ),
                    ),
                    mem,
                )
            },
            Instruction::FsgnjxD { rd, rs1, rs2 } => {
                let (a, b) = (s.f(rs1), s.f(rs2));
                (Ok(()), fs_dirty(s.with_freg(rd, a ^ (b & 0x8000_0000_0000_0000))), mem)
            },
            Instruction::FclassS { rd, rs1 } => (
                Ok(()),
                s.with_reg(rd, classify32_spec(nan_unbox(s.f(rs1)))),
                mem,
            ),
            Instruction::FclassD { rd, rs1 } => (Ok(()), s.with_reg(rd, classify64_spec(s.f(rs1))), mem),
            Instruction::FmvXW { rd, rs1 } => (Ok(()), s.with_reg(rd, s.f(rs1) as u32), mem),
            Instruction::FmvWX { rd, rs1 } => (Ok(()), fs_dirty(s.with_freg(rd, nan_box(s.x(rs1)))), mem),
            _ => (Ok(()), s, mem),
    }
}

/// Zicsr instructions.
pub open spec fn csr_spec<V>(s: HartView, mem: V, inst: Instruction) -> (Result<(), TrapInfo>, HartView, V) {
    match inst {
            // Zicsr
            Instruction::Csrrw { rd, rs1, csr } => {
                let (r, s2) = csr_instr_spec(s, rd, csr, s.x(rs1), CsrOp::Write, false);
                (r, s2, mem)
            },
            Instruction::Csrrs { rd, rs1, csr } => {
                let (r, s2) = csr_instr_spec(s, rd, csr, s.x(rs1), CsrOp::SetBits, rs1 == 0);
                (r, s2, mem)
            },
            Instruction::Csrrc { rd, rs1, csr } => {
                let (r, s2) = csr_instr_spec(s, rd, csr, s.x(rs1), CsrOp::ClearBits, rs1 == 0);
                (r, s2, mem)
            },
            Instruction::Csrrwi { rd, uimm, csr } => {
                let (r, s2) = csr_instr_spec(s, rd, csr, uimm as u32, CsrOp::Write, false);
                (r, s2, mem)
            },
            Instruction::Csrrsi { rd, uimm, csr } => {
                let (r, s2) = csr_instr_spec(s, rd, csr, uimm as u32, CsrOp::SetBits, uimm == 0);
                (r, s2, mem)
            },
            Instruction::Csrrci { rd, uimm, csr } => {
                let (r, s2) = csr_instr_spec(s, rd, csr, uimm as u32, CsrOp::ClearBits, uimm == 0);
                (r, s2, mem)
            },
            _ => (Ok(()), s, mem),
    }
}

/// Which group of instructions `inst` belongs to.
pub enum InstClass {
    IntOp,
    FpCompute,
    Memory,
    Control,
    Atomic,
    System,
    FpBits,
    Csr,
}

pub open spec fn inst_class(inst: Instruction) -> InstClass {
    match inst {
        Instruction::Lb { .. } | Instruction::Lh { .. } | Instruction::Lw { .. } | Instruction::Lbu {
            ..
        } | Instruction::Lhu { .. } | Instruction::Sb { .. } | Instruction::Sh { .. }
        | Instruction::Sw { .. } | Instruction::Flw { .. } | Instruction::Fsw { .. }
        | Instruction::Fld { .. } | Instruction::Fsd { .. } => InstClass::Memory,
        Instruction::Beq { .. } | Instruction::Bne { .. } | Instruction::Blt { .. }
        | Instruction::Bge { .. } | Instruction::Bltu { .. } | Instruction::Bgeu { .. }
        | Instruction::Jal { .. } | Instruction::Jalr { .. } => InstClass::Control,
        Instruction::LrW { .. } | Instruction::ScW { .. } | Instruction::AmoswapW { .. }
        | Instruction::AmoaddW { .. } | Instruction::AmoxorW { .. } | Instruction::AmoandW { .. }
        | Instruction::AmoorW { .. } | Instruction::AmominW { .. } | Instruction::AmomaxW { .. }
        | Instruction::AmominuW { .. } | Instruction::AmomaxuW { .. } => InstClass::Atomic,
        Instruction::Ecall | Instruction::Ebreak | Instruction::Mret | Instruction::Sret
        | Instruction::SfenceVma | Instruction::Wfi | Instruction::Fence => InstClass::System,
        Instruction::FsgnjS { .. } | Instruction::FsgnjnS { .. } | Instruction::FsgnjxS { .. }
        | Instruction::FsgnjD { .. } | Instruction::FsgnjnD { .. } | Instruction::FsgnjxD { .. }
        | Instruction::FclassS { .. } | Instruction::FclassD { .. } | Instruction::FmvXW { .. }
        | Instruction::FmvWX { .. } => InstClass::FpBits,
        Instruction::Csrrw { .. } | Instruction::Csrrs { .. } | Instruction::Csrrc { .. }
        | Instruction::Csrrwi { .. } | Instruction::Csrrsi { .. } | Instruction::Csrrci { .. } => InstClass::Csr,
        _ => if needs_fpu_spec(inst) {
            InstClass::FpCompute
        } else {
            InstClass::IntOp
        },
    }
}

/// The effect of executing `inst` (fetched from `pc`; `s.pc` already points
/// past it) on hart state `s` and memory `mem`.
#[verifier::opaque]
pub open spec fn execute_spec<M: Memory>(s: HartView, mem: M::V, inst: Instruction, pc: u32) -> (Result<(), TrapInfo>, HartView, M::V) {
    match inst_class(inst) {
        InstClass::IntOp => match int_op_result(s, inst, pc) {
            Some((rd, v)) => (Ok(()), s.with_reg(rd, v), mem),
            None => (Ok(()), s, mem),
        },
        InstClass::FpCompute => match fp_rounding_operand(inst) {
            Some(rm) => (rm_check(s, rm), s, mem),
            None => (Ok(()), s, mem),
        },
        InstClass::Memory => mem_spec::<M>(s, mem, inst),
        InstClass::Control => control_spec(s, mem, inst, pc),
        InstClass::Atomic => atomic_spec::<M>(s, mem, inst),
        InstClass::System => system_spec(s, mem, inst),
        InstClass::FpBits => fp_bits_spec(s, mem, inst),
        InstClass::Csr => csr_spec(s, mem, inst),
    }
}

/// Every instruction that decoding produces is well-formed.
pub proof fn lemma_decode_wf(raw: u32)
    ensures
        decode_spec(raw) matches Ok(inst) ==> inst_wf(inst),
{
    reveal(decode_spec);
}

/// Where the result of an IEEE-754 computation goes.
pub enum FpDest {
    Single(u8),
    Double(u8),
    Int(u8),
    Nowhere,
}

/// The destination of a floating-point instruction's computed result.
pub open spec fn fp_dest(inst: Instruction) -> FpDest {
    match inst {
        Instruction::FaddS { rd, .. } | Instruction::FsubS { rd, .. } | Instruction::FmulS { rd, .. }
        | Instruction::FdivS { rd, .. } | Instruction::FsqrtS { rd, .. } | Instruction::FmaddS {
            rd,
            ..
        } | Instruction::FmsubS { rd, .. } | Instruction::FnmsubS { rd, .. }
        | Instruction::FnmaddS { rd, .. } | Instruction::FminS { rd, .. } | Instruction::FmaxS {
            rd,
            ..
        } | Instruction::FcvtSW { rd, .. } | Instruction::FcvtSWu { rd, .. } | Instruction::FcvtSD {
            rd,
            ..
        } => FpDest::Single(rd),
        Instruction::FaddD { rd, .. } | Instruction::FsubD { rd, .. } | Instruction::FmulD { rd, .. }
        | Instruction::FdivD { rd, .. } | Instruction::FsqrtD { rd, .. } | Instruction::FmaddD {
            rd,
            ..
        } | Instruction::FmsubD { rd, .. } | Instruction::FnmsubD { rd, .. }
        | Instruction::FnmaddD { rd, .. } | Instruction::FminD { rd, .. } | Instruction::FmaxD {
            rd,
            ..
        } | Instruction::FcvtDS { rd, .. } | Instruction::FcvtDW { rd, .. } | Instruction::FcvtDWu {
            rd,
            ..
        } => FpDest::Double(rd),
        Instruction::FeqS { rd, .. } | Instruction::FltS { rd, .. } | Instruction::FleS { rd, .. }
        | Instruction::FcvtWS { rd, .. } | Instruction::FcvtWuS { rd, .. } | Instruction::FeqD {
            rd,
            ..
        } | Instruction::FltD { rd, .. } | Instruction::FleD { rd, .. } | Instruction::FcvtWD {
            rd,
            ..
        } | Instruction::FcvtWuD { rd, .. } => FpDest::Int(rd),
        _ => FpDest::Nowhere,
    }
}

/// Writing back a computed floating-point result: single-precision results
/// are NaN-boxed; results in floating-point registers also set FS = Dirty;
/// exception flags accrue into fcsr.
pub open spec fn complete_fp_spec(s: HartView, inst: Instruction, bits: u64, flags: u32) -> HartView {
    match fp_dest(inst) {
        FpDest::Single(rd) => fs_dirty(accrue_spec(s.with_freg(rd, nan_box(bits as u32)), flags)),
        FpDest::Double(rd) => fs_dirty(accrue_spec(s.with_freg(rd, bits), flags)),
        FpDest::Int(rd) => accrue_spec(s.with_reg(rd, bits as u32), flags),
        FpDest::Nowhere => s,
    }
}

// ---------------------------------------------------------------------------
// Executable semantics
// ---------------------------------------------------------------------------

proof fn lemma_sx(a: u32)
    ensures
        sx(a) == if a >= 0x8000_0000 {
            a - 0x1_0000_0000
        } else {
            a as int
        },
{
    assert(sx(a) == if a >= 0x8000_0000 {
        a - 0x1_0000_0000
    } else {
        a as int
    }) by (bit_vector);
}

/// The high 32 bits of a 64-bit product, signed and unsigned.
proof fn lemma_high_word(p: i64, q: u64)
    by (bit_vector)
    ensures
        (p >> 32i64) as u32 == (p as int / 0x1_0000_0000) as u32,
        (q >> 32u64) as u32 == (q as int / 0x1_0000_0000) as u32,
{
}

fn mulh(x: u32, y: u32) -> (r: u32)
    ensures
        r == ((sx(x) * sx(y)) / 0x1_0000_0000) as u32,
{
    let a = x as i32 as i64;
    let b = y as i32 as i64;
    assert(a * b <= 0x4000_0000_0000_0000 && a * b >= -0x4000_0000_0000_0000) by (nonlinear_arith)
        requires
            -0x8000_0000 <= a <= 0x7FFF_FFFF,
            -0x8000_0000 <= b <= 0x7FFF_FFFF,
    ;
    let p = a * b;
    let r = (p >> 32) as u32;
    proof {
        lemma_high_word(p, 0);
    }
    r
}

fn mulhsu(x: u32, y: u32) -> (r: u32)
    ensures
        r == ((sx(x) * y) / 0x1_0000_0000) as u32,
{
    let a = x as i32 as i64;
    let b = y as u64 as i64;
    assert(a * b <= 0x7FFF_FFFF_0000_0000 && a * b >= -0x7FFF_FFFF_8000_0000) by (nonlinear_arith)
        requires
            -0x8000_0000 <= a <= 0x7FFF_FFFF,
            0 <= b <= 0xFFFF_FFFF,
    ;
    let p = a * b;
    let r = (p >> 32) as u32;
    proof {
        lemma_high_word(p, 0);
    }
    r
}

fn mulhu(x: u32, y: u32) -> (r: u32)
    ensures
        r == ((x as int * y as int) / 0x1_0000_0000) as u32,
{
    let a = x as u64;
    let b = y as u64;
    assert(a * b <= 0xFFFF_FFFF_FFFF_FFFF) by (nonlinear_arith)
        requires
            a <= 0xFFFF_FFFF,
            b <= 0xFFFF_FFFF,
    ;
    let p = a * b;
    let r = (p >> 32) as u32;
    proof {
        lemma_high_word(0, p);
    }
    r
}

/// Signed division on two's-complement words, computed on magnitudes.
fn div_op(a: u32, b: u32) -> (r: u32)
    ensures
        r == div_spec(a, b),
{
    proof {
        lemma_sx(a);
        lemma_sx(b);
    }
    if b == 0 {
        0xFFFF_FFFF
    } else if a == 0x8000_0000 && b == 0xFFFF_FFFF {
        a
    } else {
        let neg_a = a >= 0x8000_0000;
        let neg_b = b >= 0x8000_0000;
        let ua = if neg_a {
            0u32.wrapping_sub(a)
        } else {
            a
        };
        let ub = if neg_b {
            0u32.wrapping_sub(b)
        } else {
            b
        };
        assert(ua == abs(sx(a)) && ub == abs(sx(b)));
        let q = ua / ub;
        if neg_a != neg_b {
            0u32.wrapping_sub(q)
        } else {
            q
        }
    }
}

/// Signed remainder on two's-complement words, computed on magnitudes.
fn rem_op(a: u32, b: u32) -> (r: u32)
    ensures
        r == rem_spec(a, b),
{
    proof {
        lemma_sx(a);
        lemma_sx(b);
    }
    if b == 0 {
        a
    } else if a == 0x8000_0000 && b == 0xFFFF_FFFF {
        0
    } else {
        let neg_a = a >= 0x8000_0000;
        let neg_b = b >= 0x8000_0000;
        let ua = if neg_a {
            0u32.wrapping_sub(a)
        } else {
            a
        };
        let ub = if neg_b {
            0u32.wrapping_sub(b)
        } else {
            b
        };
        assert(ua == abs(sx(a)) && ub == abs(sx(b)));
        let m = ua % ub;
        if neg_a {
            0u32.wrapping_sub(m)
        } else {
            m
        }
    }
}

/// The destination and value of an integer-only instruction.
fn int_op(hart: &Hart, inst: Instruction, pc: u32) -> (r: Option<(u8, u32)>)
    requires
        inst_wf(inst),
    ensures
        r == int_op_result(hart@, inst, pc),
{
    let regs = &hart.regs;
    match inst {
        Instruction::Add { rd, rs1, rs2 } => Some((rd, regs.get(rs1).wrapping_add(regs.get(rs2)))),
        Instruction::Sub { rd, rs1, rs2 } => Some((rd, regs.get(rs1).wrapping_sub(regs.get(rs2)))),
        Instruction::Sll { rd, rs1, rs2 } => {
            let b = regs.get(rs2);
            let shamt = b & 0x1F;
            proof {
                lemma_u32_bits(b);
            }
            Some((rd, regs.get(rs1) << shamt))
        },
        Instruction::Slt { rd, rs1, rs2 } => {
            let val = if (regs.get(rs1) as i32) < (regs.get(rs2) as i32) {
                1
            } else {
                0
            };
            Some((rd, val))
        },
        Instruction::Sltu { rd, rs1, rs2 } => {
            let val = if regs.get(rs1) < regs.get(rs2) {
                1
            } else {
                0
            };
            Some((rd, val))
        },
        Instruction::Xor { rd, rs1, rs2 } => Some((rd, regs.get(rs1) ^ regs.get(rs2))),
        Instruction::Srl { rd, rs1, rs2 } => {
            let b = regs.get(rs2);
            let shamt = b & 0x1F;
            proof {
                lemma_u32_bits(b);
            }
            Some((rd, regs.get(rs1) >> shamt))
        },
        Instruction::Sra { rd, rs1, rs2 } => {
            let b = regs.get(rs2);
            let shamt = b & 0x1F;
            proof {
                lemma_u32_bits(b);
            }
            Some((rd, ((regs.get(rs1) as i32) >> shamt) as u32))
        },
        Instruction::Or { rd, rs1, rs2 } => Some((rd, regs.get(rs1) | regs.get(rs2))),
        Instruction::And { rd, rs1, rs2 } => Some((rd, regs.get(rs1) & regs.get(rs2))),
        // M extension
        Instruction::Mul { rd, rs1, rs2 } => Some((rd, regs.get(rs1).wrapping_mul(regs.get(rs2)))),
        Instruction::Mulh { rd, rs1, rs2 } => Some((rd, mulh(regs.get(rs1), regs.get(rs2)))),
        Instruction::Mulhsu { rd, rs1, rs2 } => Some((rd, mulhsu(regs.get(rs1), regs.get(rs2)))),
        Instruction::Mulhu { rd, rs1, rs2 } => Some((rd, mulhu(regs.get(rs1), regs.get(rs2)))),
        Instruction::Div { rd, rs1, rs2 } => Some((rd, div_op(regs.get(rs1), regs.get(rs2)))),
        Instruction::Divu { rd, rs1, rs2 } => {
            let a = regs.get(rs1);
            let b = regs.get(rs2);
            Some((rd, a.checked_div(b).unwrap_or(u32::MAX)))
        },
        Instruction::Rem { rd, rs1, rs2 } => Some((rd, rem_op(regs.get(rs1), regs.get(rs2)))),
        Instruction::Remu { rd, rs1, rs2 } => {
            let a = regs.get(rs1);
            let b = regs.get(rs2);
            Some(
                (
                    rd,
                    if b == 0 {
                        a
                    } else {
                        a % b
                    },
                ),
            )
        },
        // I-type arithmetic
        Instruction::Addi { rd, rs1, imm } => Some((rd, regs.get(rs1).wrapping_add(imm as u32))),
        Instruction::Slti { rd, rs1, imm } => {
            let val = if (regs.get(rs1) as i32) < imm {
                1
            } else {
                0
            };
            Some((rd, val))
        },
        Instruction::Sltiu { rd, rs1, imm } => {
            // imm is sign-extended, then compared as unsigned
            let val = if regs.get(rs1) < (imm as u32) {
                1
            } else {
                0
            };
            Some((rd, val))
        },
        Instruction::Xori { rd, rs1, imm } => Some((rd, regs.get(rs1) ^ (imm as u32))),
        Instruction::Ori { rd, rs1, imm } => Some((rd, regs.get(rs1) | (imm as u32))),
        Instruction::Andi { rd, rs1, imm } => Some((rd, regs.get(rs1) & (imm as u32))),
        Instruction::Slli { rd, rs1, shamt } => Some((rd, regs.get(rs1) << shamt)),
        Instruction::Srli { rd, rs1, shamt } => Some((rd, regs.get(rs1) >> shamt)),
        Instruction::Srai { rd, rs1, shamt } => Some((rd, ((regs.get(rs1) as i32) >> shamt) as u32)),
        // U-type
        Instruction::Lui { rd, imm } => Some((rd, imm)),
        Instruction::Auipc { rd, imm } => Some((rd, pc.wrapping_add(imm))),
        _ => None,
    }
}

/// The rounding-mode operand of an instruction that needs IEEE-754 arithmetic.
fn fp_rounding_operand_of(inst: Instruction) -> (r: Option<u8>)
    ensures
        r == fp_rounding_operand(inst),
{
    match inst {
        Instruction::FaddS { rm, .. } | Instruction::FsubS { rm, .. } | Instruction::FmulS {
            rm,
            ..
        } | Instruction::FdivS { rm, .. } | Instruction::FsqrtS { rm, .. } | Instruction::FmaddS {
            rm,
            ..
        } | Instruction::FmsubS { rm, .. } | Instruction::FnmsubS { rm, .. }
        | Instruction::FnmaddS { rm, .. } | Instruction::FcvtWS { rm, .. } | Instruction::FcvtWuS {
            rm,
            ..
        } | Instruction::FcvtSW { rm, .. } | Instruction::FcvtSWu { rm, .. } | Instruction::FcvtSD {
            rm,
            ..
        } | Instruction::FcvtDS { rm, .. } | Instruction::FaddD { rm, .. } | Instruction::FsubD {
            rm,
            ..
        } | Instruction::FmulD { rm, .. } | Instruction::FdivD { rm, .. } | Instruction::FsqrtD {
            rm,
            ..
        } | Instruction::FmaddD { rm, .. } | Instruction::FmsubD { rm, .. }
        | Instruction::FnmsubD { rm, .. } | Instruction::FnmaddD { rm, .. } | Instruction::FcvtWD {
            rm,
            ..
        } | Instruction::FcvtWuD { rm, .. } => Some(rm),
        _ => None,
    }
}

/// Whether the result of `inst` needs IEEE-754 arithmetic, which `execute`
/// leaves to the caller.
pub fn needs_fpu(inst: Instruction) -> (r: bool)
    ensures
        r == needs_fpu_spec(inst),
{
    if fp_rounding_operand_of(inst).is_some() {
        return true;
    }
    match inst {
        Instruction::FminS { .. } | Instruction::FmaxS { .. } | Instruction::FeqS { .. }
        | Instruction::FltS { .. } | Instruction::FleS { .. } | Instruction::FminD { .. }
        | Instruction::FmaxD { .. } | Instruction::FeqD { .. } | Instruction::FltD { .. }
        | Instruction::FleD { .. } | Instruction::FcvtDW { .. } | Instruction::FcvtDWu { .. } => true,
        _ => false,
    }
}

/// Set mstatus.FS to Dirty.
pub fn mark_fs_dirty(hart: &mut Hart)
    ensures
        final(hart)@ == fs_dirty(old(hart)@),
{
    let ms = hart.csrs.read_raw(CSR_MSTATUS);
    hart.csrs.write_raw(CSR_MSTATUS, (ms & !MSTATUS_FS_MASK) | MSTATUS_FS_DIRTY);
}

/// OR IEEE-754 exception flags into fcsr.
pub fn accrue_flags(hart: &mut Hart, flags: u32)
    ensures
        final(hart)@ == accrue_spec(old(hart)@, flags),
{
    if flags != 0 {
        let fcsr = hart.csrs.read_raw(CSR_FCSR);
        hart.csrs.write_raw(CSR_FCSR, fcsr | flags);
    }
}

/// The rounding mode in effect, or IllegalInstruction for a reserved one.
pub fn resolve_rm(hart: &Hart, rm: u8) -> (r: Result<u8, TrapInfo>)
    ensures
        match r {
            Ok(e) => rm_check(hart@, rm) is Ok && e == effective_rm(hart@, rm),
            Err(e) => rm_check(hart@, rm) == Err::<(), TrapInfo>(e),
        },
{
    let effective = if rm == 7 {
        (hart.csrs.read_raw(CSR_FCSR) >> 5) as u8 & 0x7
    } else {
        rm
    };
    if effective >= 5 {
        return Err(TrapInfo::new(Trap::IllegalInstruction, 0));
    }
    Ok(effective)
}

/// Signaling NaN test on single-precision bits.
pub fn is_snan_f32_bits(b: u32) -> (r: bool)
    ensures
        r == is_snan32_spec(b),
{
    (b & 0x7F80_0000) == 0x7F80_0000 && (b & 0x007F_FFFF) != 0 && (b & 0x0040_0000) == 0
}

/// Signaling NaN test on double-precision bits.
pub fn is_snan_f64_bits(b: u64) -> (r: bool)
    ensures
        r == is_snan64_spec(b),
{
    (b & 0x7FF0_0000_0000_0000) == 0x7FF0_0000_0000_0000 && (b & 0x000F_FFFF_FFFF_FFFF) != 0 && (b
        & 0x0008_0000_0000_0000) == 0
}

/// fclass.s on single-precision bits.
pub fn classify_f32_bits(b: u32) -> (r: u32)
    ensures
        r == classify32_spec(b),
{
    let sign = b >> 31;
    let exp = (b >> 23) & 0xFF;
    let frac = b & 0x007F_FFFF;
    if exp == 0xFF {
        if frac == 0 {
            if sign != 0 {
                1
            } else {
                0x80
            }  // ±inf

        } else if frac & 0x0040_0000 != 0 {
            0x200  // quiet NaN

        } else {
            0x100  // signaling NaN

        }
    } else if exp == 0 {
        if frac == 0 {
            if sign != 0 {
                0x8
            } else {
                0x10
            }  // ±zero

        } else if sign != 0 {
            0x4  // negative subnormal

        } else {
            0x20  // positive subnormal

        }
    } else if sign != 0 {
        0x2  // negative normal

    } else {
        0x40  // positive normal

    }
}

/// fclass.d on double-precision bits.
pub fn classify_f64_bits(b: u64) -> (r: u32)
    ensures
        r == classify64_spec(b),
{
    let sign = b >> 63;
    let exp = (b >> 52) & 0x7FF;
    let frac = b & 0x000F_FFFF_FFFF_FFFF;
    if exp == 0x7FF {
        if frac == 0 {
            if sign != 0 {
                1
            } else {
                0x80
            }
        } else if frac & 0x0008_0000_0000_0000 != 0 {
            0x200
        } else {
            0x100
        }
    } else if exp == 0 {
        if frac == 0 {
            if sign != 0 {
                0x8
            } else {
                0x10
            }
        } else if sign != 0 {
            0x4
        } else {
            0x20
        }
    } else if sign != 0 {
        0x2
    } else {
        0x40
    }
}

/// CSR write with mcycle/minstret alias handling. Writes to those CSRs update
/// `hart.cycle`/`hart.instret` directly and mark the counter as written so the
/// implicit post-retire bump is skipped this step.
fn csr_write(hart: &mut Hart, csr: u16, val: u32) -> (r: Result<(), Trap>)
    requires
        csr < 4096,
    ensures
        match csr_write_effect(old(hart)@, csr, val) {
            Ok(s2) => r is Ok && final(hart)@ == s2,
            Err(t) => r == Err::<(), Trap>(t) && final(hart)@ == old(hart)@,
        },
{
    let p = hart.priv_mode;
    match hart.csrs.write(csr, val, p) {
        Ok(_) => {},
        Err(t) => return Err(t),
    }
    if csr == CSR_MCYCLE {
        hart.cycle = (hart.cycle & 0xFFFF_FFFF_0000_0000) | (val as u64);
        hart.counter_written = hart.counter_written | COUNTER_WRITTEN_CYCLE;
    } else if csr == CSR_MCYCLEH {
        hart.cycle = (hart.cycle & 0x0000_0000_FFFF_FFFF) | ((val as u64) << 32);
        hart.counter_written = hart.counter_written | COUNTER_WRITTEN_CYCLE;
    } else if csr == CSR_MINSTRET {
        hart.instret = (hart.instret & 0xFFFF_FFFF_0000_0000) | (val as u64);
        hart.counter_written = hart.counter_written | COUNTER_WRITTEN_INSTRET;
    } else if csr == CSR_MINSTRETH {
        hart.instret = (hart.instret & 0x0000_0000_FFFF_FFFF) | ((val as u64) << 32);
        hart.counter_written = hart.counter_written | COUNTER_WRITTEN_INSTRET;
    }
    Ok(())
}

/// mstatus.TVM=1 traps S-mode accesses to satp as IllegalInstruction.
fn tvm_check(hart: &Hart, csr: u16) -> (r: Result<(), TrapInfo>)
    ensures
        r == (if csr == CSR_SATP && hart@.priv_mode == PRIV_S && (hart@.csr(CSR_MSTATUS)
            & MSTATUS_TVM) != 0 {
            Err(exception_info(Trap::IllegalInstruction, 0))
        } else {
            Ok(())
        }),
{
    proof {
        hart.lemma_wf();
    }
    if csr == CSR_SATP && hart.priv_mode == PRIV_S {
        let mstatus = hart.csrs.read_raw(CSR_MSTATUS);
        if mstatus & MSTATUS_TVM != 0 {
            return Err(TrapInfo::new(Trap::IllegalInstruction, 0));
        }
    }
    Ok(())
}

/// A Zicsr instruction: mstatus.TVM=1 traps S-mode accesses to satp; then
/// read, optional write, and `rd` receives the old value.
fn csr_instr(hart: &mut Hart, rd: u8, csr: u16, operand: u32, op: CsrOp, skip_write: bool) -> (r: Result<(), TrapInfo>)
    requires
        rd < 32,
        csr < 4096,
    ensures
        (r, final(hart)@) == csr_instr_spec(old(hart)@, rd, csr, operand, op, skip_write),
{
    match tvm_check(hart, csr) {
        Ok(_) => {},
        Err(e) => return Err(e),
    }
    let old = match hart.csrs.read(csr, hart.cycle, hart.instret, hart.mtime, hart.priv_mode) {
        Ok(v) => v,
        Err(t) => return Err(TrapInfo::new(t, 0)),
    };
    if !skip_write {
        let new = match op {
            CsrOp::Write => operand,
            CsrOp::SetBits => old | operand,
            CsrOp::ClearBits => old & !operand,
        };
        match csr_write(hart, csr, new) {
            Ok(_) => {},
            Err(t) => return Err(TrapInfo::new(t, 0)),
        }
    }
    hart.regs.set(rd, old);
    Ok(())
}

/// AMO helper: translate twice (Load then Store), read, compute new value, write.
/// Both translations happen up front so that a D-bit fault on the store side is
/// raised before any architectural side effects. AMOs require 4-byte alignment.
fn amo_load_store<M: Memory>(hart: &mut Hart, mem: &mut M, inst: Instruction, rd: u8, rs1: u8, rs2: u8) -> (r: Result<(), TrapInfo>)
    requires
        rd < 32,
        rs1 < 32,
        rs2 < 32,
    ensures
        (r, final(hart)@, final(mem)@) == amo_spec::<M>(old(hart)@, old(mem)@, inst, rd, rs1, rs2),
{
    let va = hart.regs.get(rs1);
    if va & 0x3 != 0 {
        proof {
            lemma_u32_bits(va);
        }
        return Err(TrapInfo::new(Trap::StoreAddressMisaligned, va));
    }
    proof {
        lemma_u32_bits(va);
    }
    let pa_load = match hart.translate(mem, va, AccessType::Load) {
        Ok(pa) => pa,
        Err(e) => return Err(e),
    };
    let pa_store = match hart.translate(mem, va, AccessType::Store) {
        Ok(pa) => pa,
        Err(e) => return Err(e),
    };
    let old = match mem.read32(pa_load) {
        Ok(v) => v,
        Err(t) => return Err(TrapInfo::new(t, 0)),
    };
    let v = hart.regs.get(rs2);
    let new = match inst {
        Instruction::AmoswapW { .. } => v,
        Instruction::AmoaddW { .. } => old.wrapping_add(v),
        Instruction::AmoxorW { .. } => old ^ v,
        Instruction::AmoandW { .. } => old & v,
        Instruction::AmoorW { .. } => old | v,
        Instruction::AmominW { .. } => if (old as i32) < (v as i32) {
            old
        } else {
            v
        },
        Instruction::AmomaxW { .. } => if (old as i32) > (v as i32) {
            old
        } else {
            v
        },
        Instruction::AmominuW { .. } => if old < v {
            old
        } else {
            v
        },
        _ => if old > v {
            old
        } else {
            v
        },
    };
    match mem.write32(pa_store, new) {
        Ok(_) => {},
        Err(t) => return Err(TrapInfo::new(t, 0)),
    }
    hart.regs.set(rd, old);
    Ok(())
}

/// A conditional branch: a taken branch to an odd target faults.
fn branch(hart: &mut Hart, taken: bool, pc: u32, imm: i32) -> (r: Result<(), TrapInfo>)
    ensures
        (r, final(hart)@) == branch_spec(old(hart)@, taken, pc, imm),
{
    if taken {
        let target = pc.wrapping_add(imm as u32);
        proof {
            lemma_u32_bits(target);
        }
        if target & 1 != 0 {
            return Err(TrapInfo::new(Trap::InstructionAddressMisaligned, target));
        }
        hart.pc = target;
    }
    Ok(())
}

#[verifier::rlimit(50)]
fn exec_int_load<M: Memory>(hart: &mut Hart, mem: &mut M, inst: Instruction) -> (r: Result<(), TrapInfo>)
    requires
        inst_wf(inst),
        !(inst is Sb || inst is Sh || inst is Sw || inst is Fsw || inst is Fsd || inst is Flw || inst is Fld),
    ensures
        (r, final(hart)@, final(mem)@) == mem_spec::<M>(old(hart)@, old(mem)@, inst),
{
    match inst {
        // Loads — translate, read, then write rd (no rd update on fault).
        Instruction::Lb { rd, rs1, imm } => {
            let va = hart.regs.get(rs1).wrapping_add(imm as u32);
            match hart.load8(mem, va) {
                Ok(v) => hart.regs.set(rd, v as i8 as i32 as u32),
                Err(e) => return Err(e),
            }
        },
        Instruction::Lh { rd, rs1, imm } => {
            let va = hart.regs.get(rs1).wrapping_add(imm as u32);
            match hart.load16(mem, va) {
                Ok(v) => hart.regs.set(rd, v as i16 as i32 as u32),
                Err(e) => return Err(e),
            }
        },
        Instruction::Lw { rd, rs1, imm } => {
            let va = hart.regs.get(rs1).wrapping_add(imm as u32);
            match hart.load32(mem, va) {
                Ok(v) => hart.regs.set(rd, v),
                Err(e) => return Err(e),
            }
        },
        Instruction::Lbu { rd, rs1, imm } => {
            let va = hart.regs.get(rs1).wrapping_add(imm as u32);
            match hart.load8(mem, va) {
                Ok(v) => hart.regs.set(rd, v as u32),
                Err(e) => return Err(e),
            }
        },
        Instruction::Lhu { rd, rs1, imm } => {
            let va = hart.regs.get(rs1).wrapping_add(imm as u32);
            match hart.load16(mem, va) {
                Ok(v) => hart.regs.set(rd, v as u32),
                Err(e) => return Err(e),
            }
        },
        _ => {},
    }
    Ok(())
}

fn exec_fp_load<M: Memory>(hart: &mut Hart, mem: &mut M, inst: Instruction) -> (r: Result<(), TrapInfo>)
    requires
        inst_wf(inst),
        inst is Flw || inst is Fld,
    ensures
        (r, final(hart)@, final(mem)@) == mem_spec::<M>(old(hart)@, old(mem)@, inst),
{
    match inst {
        // F/D loads
        Instruction::Flw { rd, rs1, imm } => {
            let va = hart.regs.get(rs1).wrapping_add(imm as u32);
            match hart.load32(mem, va) {
                Ok(v) => {
                    hart.fregs.set_f32(rd, v);
                    mark_fs_dirty(hart);
                },
                Err(e) => return Err(e),
            }
        },
        Instruction::Fld { rd, rs1, imm } => {
            let va = hart.regs.get(rs1).wrapping_add(imm as u32);
            match hart.load64(mem, va) {
                Ok(v) => {
                    hart.fregs.set(rd, v);
                    mark_fs_dirty(hart);
                },
                Err(e) => return Err(e),
            }
        },
        _ => {},
    }
    Ok(())
}

fn exec_load<M: Memory>(hart: &mut Hart, mem: &mut M, inst: Instruction) -> (r: Result<(), TrapInfo>)
    requires
        inst_wf(inst),
        !(inst is Sb || inst is Sh || inst is Sw || inst is Fsw || inst is Fsd),
    ensures
        (r, final(hart)@, final(mem)@) == mem_spec::<M>(old(hart)@, old(mem)@, inst),
{
    match inst {
        Instruction::Flw { .. } | Instruction::Fld { .. } => exec_fp_load(hart, mem, inst),
        _ => exec_int_load(hart, mem, inst),
    }
}

#[verifier::rlimit(30)]
fn exec_store<M: Memory>(hart: &mut Hart, mem: &mut M, inst: Instruction) -> (r: Result<(), TrapInfo>)
    requires
        inst_wf(inst),
        (inst is Sb || inst is Sh || inst is Sw || inst is Fsw || inst is Fsd),
    ensures
        (r, final(hart)@, final(mem)@) == mem_spec::<M>(old(hart)@, old(mem)@, inst),
{
    match inst {
        // Stores
        Instruction::Sb { rs1, rs2, imm } => {
            let va = hart.regs.get(rs1).wrapping_add(imm as u32);
            return hart.store8(mem, va, hart.regs.get(rs2) as u8);
        },
        Instruction::Sh { rs1, rs2, imm } => {
            let va = hart.regs.get(rs1).wrapping_add(imm as u32);
            return hart.store16(mem, va, hart.regs.get(rs2) as u16);
        },
        Instruction::Sw { rs1, rs2, imm } => {
            let va = hart.regs.get(rs1).wrapping_add(imm as u32);
            return hart.store32(mem, va, hart.regs.get(rs2));
        },
        // F/D stores
        Instruction::Fsw { rs1, rs2, imm } => {
            let va = hart.regs.get(rs1).wrapping_add(imm as u32);
            return hart.store32(mem, va, hart.fregs.get(rs2) as u32);
        },
        Instruction::Fsd { rs1, rs2, imm } => {
            let va = hart.regs.get(rs1).wrapping_add(imm as u32);
            return hart.store64(mem, va, hart.fregs.get(rs2));
        },
        _ => {},
    }
    Ok(())
}

/// Loads and stores, integer and floating-point.
fn exec_mem<M: Memory>(hart: &mut Hart, mem: &mut M, inst: Instruction) -> (r: Result<(), TrapInfo>)
    requires
        inst_wf(inst),
    ensures
        (r, final(hart)@, final(mem)@) == mem_spec::<M>(old(hart)@, old(mem)@, inst),
{
    match inst {
        Instruction::Sb { .. } | Instruction::Sh { .. } | Instruction::Sw { .. }
        | Instruction::Fsw { .. } | Instruction::Fsd { .. } => exec_store(hart, mem, inst),
        _ => exec_load(hart, mem, inst),
    }
}

fn exec_cond_branch<M: Memory>(hart: &mut Hart, mem: &mut M, inst: Instruction, pc: u32) -> (r: Result<(), TrapInfo>)
    requires
        inst_wf(inst),
        (inst is Beq || inst is Bne || inst is Blt || inst is Bge || inst is Bltu || inst is Bgeu),
    ensures
        (r, final(hart)@, final(mem)@) == control_spec(old(hart)@, old(mem)@, inst, pc),
{
    match inst {
        // Branches
        Instruction::Beq { rs1, rs2, imm } => {
            let taken = hart.regs.get(rs1) == hart.regs.get(rs2);
            return branch(hart, taken, pc, imm);
        },
        Instruction::Bne { rs1, rs2, imm } => {
            let taken = hart.regs.get(rs1) != hart.regs.get(rs2);
            return branch(hart, taken, pc, imm);
        },
        Instruction::Blt { rs1, rs2, imm } => {
            let taken = (hart.regs.get(rs1) as i32) < (hart.regs.get(rs2) as i32);
            return branch(hart, taken, pc, imm);
        },
        Instruction::Bge { rs1, rs2, imm } => {
            let taken = (hart.regs.get(rs1) as i32) >= (hart.regs.get(rs2) as i32);
            return branch(hart, taken, pc, imm);
        },
        Instruction::Bltu { rs1, rs2, imm } => {
            let taken = hart.regs.get(rs1) < hart.regs.get(rs2);
            return branch(hart, taken, pc, imm);
        },
        Instruction::Bgeu { rs1, rs2, imm } => {
            let taken = hart.regs.get(rs1) >= hart.regs.get(rs2);
            return branch(hart, taken, pc, imm);
        },
        _ => {},
    }
    Ok(())
}

fn exec_jump<M: Memory>(hart: &mut Hart, mem: &mut M, inst: Instruction, pc: u32) -> (r: Result<(), TrapInfo>)
    requires
        inst_wf(inst),
        !(inst is Beq || inst is Bne || inst is Blt || inst is Bge || inst is Bltu || inst is Bgeu),
    ensures
        (r, final(hart)@, final(mem)@) == control_spec(old(hart)@, old(mem)@, inst, pc),
{
    match inst {
        // Jumps
        Instruction::Jal { rd, imm } => {
            let target = pc.wrapping_add(imm as u32);
            proof {
                lemma_u32_bits(target);
            }
            if target & 1 != 0 {
                return Err(TrapInfo::new(Trap::InstructionAddressMisaligned, target));
            }
            let link = hart.pc;
            hart.regs.set(rd, link);  // link address (PC + instruction width)
            hart.pc = target;
        },
        Instruction::Jalr { rd, rs1, imm } => {
            let sum = hart.regs.get(rs1).wrapping_add(imm as u32);
            let target = sum & !1;
            proof {
                lemma_u32_bits(sum);
            }
            let link = hart.pc;
            hart.regs.set(rd, link);  // link address (PC + instruction width)
            hart.pc = target;
        },
        _ => {},
    }
    Ok(())
}

fn exec_control<M: Memory>(hart: &mut Hart, mem: &mut M, inst: Instruction, pc: u32) -> (r: Result<(), TrapInfo>)
    requires
        inst_wf(inst),
    ensures
        (r, final(hart)@, final(mem)@) == control_spec(old(hart)@, old(mem)@, inst, pc),
{
    match inst {
        Instruction::Beq { .. } | Instruction::Bne { .. } | Instruction::Blt { .. }
        | Instruction::Bge { .. } | Instruction::Bltu { .. } | Instruction::Bgeu { .. } => {
            exec_cond_branch(hart, mem, inst, pc)
        },
        _ => exec_jump(hart, mem, inst, pc),
    }
}

fn exec_atomic<M: Memory>(hart: &mut Hart, mem: &mut M, inst: Instruction) -> (r: Result<(), TrapInfo>)
    requires
        inst_wf(inst),
    ensures
        (r, final(hart)@, final(mem)@) == atomic_spec::<M>(old(hart)@, old(mem)@, inst),
{
    match inst {
        // A extension — translate before any side effects (rd write, reservation set).
        // LR/SC/AMO require natural alignment (4 bytes for .W).
        Instruction::LrW { rd, rs1 } => {
            let va = hart.regs.get(rs1);
            proof {
                lemma_u32_bits(va);
            }
            if va & 0x3 != 0 {
                return Err(TrapInfo::new(Trap::LoadAddressMisaligned, va));
            }
            match hart.load32(mem, va) {
                Ok(v) => {
                    hart.regs.set(rd, v);
                    hart.reservation = Some(va);
                },
                Err(e) => return Err(e),
            }
        },
        Instruction::ScW { rd, rs1, rs2 } => {
            let va = hart.regs.get(rs1);
            proof {
                lemma_u32_bits(va);
            }
            if va & 0x3 != 0 {
                return Err(TrapInfo::new(Trap::StoreAddressMisaligned, va));
            }
            // SC unconditionally clears the reservation, even when the store
            // itself faults — do it before the fallible store.
            let matched = match hart.reservation {
                Some(a) => a == va,
                None => false,
            };
            hart.reservation = None;
            if matched {
                let v = hart.regs.get(rs2);
                match hart.store32(mem, va, v) {
                    Ok(_) => {},
                    Err(e) => return Err(e),
                }
                hart.regs.set(rd, 0);  // success
            } else {
                hart.regs.set(rd, 1);  // failure
            }
        },
        Instruction::AmoswapW { rd, rs1, rs2 } | Instruction::AmoaddW { rd, rs1, rs2 }
        | Instruction::AmoxorW { rd, rs1, rs2 } | Instruction::AmoandW { rd, rs1, rs2 }
        | Instruction::AmoorW { rd, rs1, rs2 } | Instruction::AmominW { rd, rs1, rs2 }
        | Instruction::AmomaxW { rd, rs1, rs2 } | Instruction::AmominuW { rd, rs1, rs2 }
        | Instruction::AmomaxuW { rd, rs1, rs2 } => {
            return amo_load_store(hart, mem, inst, rd, rs1, rs2);
        },
        _ => {},
    }
    Ok(())
}

fn exec_system<M: Memory>(hart: &mut Hart, mem: &mut M, inst: Instruction) -> (r: Result<(), TrapInfo>)
    requires
        inst_wf(inst),
    ensures
        (r, final(hart)@, final(mem)@) == system_spec(old(hart)@, old(mem)@, inst),
{
    match inst {
        // System
        Instruction::Ecall => {
            let t = if hart.priv_mode == PRIV_U {
                Trap::EnvironmentCallFromUMode
            } else if hart.priv_mode == PRIV_S {
                Trap::EnvironmentCallFromSMode
            } else {
                Trap::EnvironmentCallFromMMode
            };
            return Err(TrapInfo::new(t, 0));
        },
        Instruction::Ebreak => {
            return Err(TrapInfo::new(Trap::Breakpoint, 0));
        },
        Instruction::Mret => {
            if hart.priv_mode < PRIV_M {
                return Err(TrapInfo::new(Trap::IllegalInstruction, 0));
            }
            hart.pc = hart.csrs.read_raw(CSR_MEPC);
            hart.priv_mode = hart.csrs.mstatus_trap_return(
                MSTATUS_MIE_BIT,
                MSTATUS_MPIE_BIT,
                MSTATUS_MPP_SHIFT,
                MSTATUS_MPP_MASK,
            );
        },
        Instruction::Sret => {
            // SRET requires at least S; mstatus.TSR=1 traps SRET in S-mode.
            let mstatus = hart.csrs.read_raw(CSR_MSTATUS);
            if hart.priv_mode < PRIV_S || (hart.priv_mode == PRIV_S && (mstatus & MSTATUS_TSR)
                != 0) {
                return Err(TrapInfo::new(Trap::IllegalInstruction, 0));
            }
            hart.pc = hart.csrs.read_raw(CSR_SEPC);
            hart.priv_mode = hart.csrs.mstatus_trap_return(
                MSTATUS_SIE_BIT,
                MSTATUS_SPIE_BIT,
                MSTATUS_SPP_BIT,
                MSTATUS_SPP_MASK,
            );
        },
        Instruction::SfenceVma => {
            // U-mode always traps; S-mode traps when mstatus.TVM=1.
            let mstatus = hart.csrs.read_raw(CSR_MSTATUS);
            if hart.priv_mode == PRIV_U || (hart.priv_mode == PRIV_S && (mstatus & MSTATUS_TVM)
                != 0) {
                return Err(TrapInfo::new(Trap::IllegalInstruction, 0));
            }
            // No TLB to flush.

        },
        Instruction::Wfi => {
            // mstatus.TW=1 traps WFI when executed below M-mode.
            let mstatus = hart.csrs.read_raw(CSR_MSTATUS);
            if hart.priv_mode < PRIV_M && (mstatus & MSTATUS_TW) != 0 {
                return Err(TrapInfo::new(Trap::IllegalInstruction, 0));
            }
            // No-op — in a simple simulator, just continue

        },
        Instruction::Fence => {
            // No-op in single-hart, in-order simulator
        },
        _ => {},
    }
    Ok(())
}

fn exec_fp_bits<M: Memory>(hart: &mut Hart, mem: &mut M, inst: Instruction) -> (r: Result<(), TrapInfo>)
    requires
        inst_wf(inst),
    ensures
        (r, final(hart)@, final(mem)@) == fp_bits_spec(old(hart)@, old(mem)@, inst),
{
    match inst {
        // Sign injection
        Instruction::FsgnjS { rd, rs1, rs2 } => {
            let a = hart.fregs.get_f32(rs1);
            let b = hart.fregs.get_f32(rs2);
            hart.fregs.set_f32(rd, (a & 0x7FFF_FFFF) | (b & 0x8000_0000));
            mark_fs_dirty(hart);
        },
        Instruction::FsgnjnS { rd, rs1, rs2 } => {
            let a = hart.fregs.get_f32(rs1);
            let b = hart.fregs.get_f32(rs2);
            hart.fregs.set_f32(rd, (a & 0x7FFF_FFFF) | (!b & 0x8000_0000));
            mark_fs_dirty(hart);
        },
        Instruction::FsgnjxS { rd, rs1, rs2 } => {
            let a = hart.fregs.get_f32(rs1);
            let b = hart.fregs.get_f32(rs2);
            hart.fregs.set_f32(rd, a ^ (b & 0x8000_0000));
            mark_fs_dirty(hart);
        },
        Instruction::FsgnjD { rd, rs1, rs2 } => {
            let a = hart.fregs.get(rs1);
            let b = hart.fregs.get(rs2);
            hart.fregs.set(rd, (a & 0x7FFF_FFFF_FFFF_FFFF) | (b & 0x8000_0000_0000_0000));
            mark_fs_dirty(hart);
        },
        Instruction::FsgnjnD { rd, rs1, rs2 } => {
            let a = hart.fregs.get(rs1);
            let b = hart.fregs.get(rs2);
            hart.fregs.set(rd, (a & 0x7FFF_FFFF_FFFF_FFFF) | (!b & 0x8000_0000_0000_0000));
            mark_fs_dirty(hart);
        },
        Instruction::FsgnjxD { rd, rs1, rs2 } => {
            let a = hart.fregs.get(rs1);
            let b = hart.fregs.get(rs2);
            hart.fregs.set(rd, a ^ (b & 0x8000_0000_0000_0000));
            mark_fs_dirty(hart);
        },
        // Classify
        Instruction::FclassS { rd, rs1 } => {
            let v = hart.fregs.get_f32(rs1);
            hart.regs.set(rd, classify_f32_bits(v));
        },
        Instruction::FclassD { rd, rs1 } => {
            let v = hart.fregs.get(rs1);
            hart.regs.set(rd, classify_f64_bits(v));
        },
        // Move/reinterpret
        Instruction::FmvXW { rd, rs1 } => {
            let v = hart.fregs.get(rs1) as u32;
            hart.regs.set(rd, v);
        },
        Instruction::FmvWX { rd, rs1 } => {
            let v = hart.regs.get(rs1);
            hart.fregs.set_f32(rd, v);
            mark_fs_dirty(hart);
        },
        _ => {},
    }
    Ok(())
}

fn exec_csr<M: Memory>(hart: &mut Hart, mem: &mut M, inst: Instruction) -> (r: Result<(), TrapInfo>)
    requires
        inst_wf(inst),
    ensures
        (r, final(hart)@, final(mem)@) == csr_spec(old(hart)@, old(mem)@, inst),
{
    match inst {
        // CSR instructions
        Instruction::Csrrw { rd, rs1, csr } => {
            let v = hart.regs.get(rs1);
            return csr_instr(hart, rd, csr, v, CsrOp::Write, false);
        },
        Instruction::Csrrs { rd, rs1, csr } => {
            let v = hart.regs.get(rs1);
            return csr_instr(hart, rd, csr, v, CsrOp::SetBits, rs1 == 0);
        },
        Instruction::Csrrc { rd, rs1, csr } => {
            let v = hart.regs.get(rs1);
            return csr_instr(hart, rd, csr, v, CsrOp::ClearBits, rs1 == 0);
        },
        Instruction::Csrrwi { rd, uimm, csr } => {
            return csr_instr(hart, rd, csr, uimm as u32, CsrOp::Write, false);
        },
        Instruction::Csrrsi { rd, uimm, csr } => {
            return csr_instr(hart, rd, csr, uimm as u32, CsrOp::SetBits, uimm == 0);
        },
        Instruction::Csrrci { rd, uimm, csr } => {
            return csr_instr(hart, rd, csr, uimm as u32, CsrOp::ClearBits, uimm == 0);
        },
        _ => {},
    }
    Ok(())
}

fn inst_class_of(inst: Instruction) -> (r: InstClass)
    ensures
        r == inst_class(inst),
{
    match inst {
        Instruction::Lb { .. } | Instruction::Lh { .. } | Instruction::Lw { .. } | Instruction::Lbu {
            ..
        } | Instruction::Lhu { .. } | Instruction::Sb { .. } | Instruction::Sh { .. }
        | Instruction::Sw { .. } | Instruction::Flw { .. } | Instruction::Fsw { .. }
        | Instruction::Fld { .. } | Instruction::Fsd { .. } => InstClass::Memory,
        Instruction::Beq { .. } | Instruction::Bne { .. } | Instruction::Blt { .. }
        | Instruction::Bge { .. } | Instruction::Bltu { .. } | Instruction::Bgeu { .. }
        | Instruction::Jal { .. } | Instruction::Jalr { .. } => InstClass::Control,
        Instruction::LrW { .. } | Instruction::ScW { .. } | Instruction::AmoswapW { .. }
        | Instruction::AmoaddW { .. } | Instruction::AmoxorW { .. } | Instruction::AmoandW { .. }
        | Instruction::AmoorW { .. } | Instruction::AmominW { .. } | Instruction::AmomaxW { .. }
        | Instruction::AmominuW { .. } | Instruction::AmomaxuW { .. } => InstClass::Atomic,
        Instruction::Ecall | Instruction::Ebreak | Instruction::Mret | Instruction::Sret
        | Instruction::SfenceVma | Instruction::Wfi | Instruction::Fence => InstClass::System,
        Instruction::FsgnjS { .. } | Instruction::FsgnjnS { .. } | Instruction::FsgnjxS { .. }
        | Instruction::FsgnjD { .. } | Instruction::FsgnjnD { .. } | Instruction::FsgnjxD { .. }
        | Instruction::FclassS { .. } | Instruction::FclassD { .. } | Instruction::FmvXW { .. }
        | Instruction::FmvWX { .. } => InstClass::FpBits,
        Instruction::Csrrw { .. } | Instruction::Csrrs { .. } | Instruction::Csrrc { .. }
        | Instruction::Csrrwi { .. } | Instruction::Csrrsi { .. } | Instruction::Csrrci { .. } => InstClass::Csr,
        _ => if needs_fpu(inst) {
            InstClass::FpCompute
        } else {
            InstClass::IntOp
        },
    }
}

/// Execute one already-decoded instruction. `pc` is the address of this
/// instruction (i.e. the value of PC before step() advanced it by the
/// instruction width). Instructions whose result needs IEEE-754 arithmetic
/// (see `needs_fpu`) are only validated here.
pub fn execute<M: Memory>(hart: &mut Hart, mem: &mut M, inst: Instruction, pc: u32) -> (r: Result<(), TrapInfo>)
    requires
        inst_wf(inst),
    ensures
        (r, final(hart)@, final(mem)@) == execute_spec::<M>(old(hart)@, old(mem)@, inst, pc),
{
    proof {
        reveal(execute_spec);
    }
    match inst_class_of(inst) {
        InstClass::IntOp => {
            if let Some((rd, v)) = int_op(hart, inst, pc) {
                hart.regs.set(rd, v);
            }
            Ok(())
        },
        InstClass::FpCompute => match fp_rounding_operand_of(inst) {
            Some(rm) => match resolve_rm(hart, rm) {
                Ok(_) => Ok(()),
                Err(e) => Err(e),
            },
            None => Ok(()),
        },
        InstClass::Memory => exec_mem(hart, mem, inst),
        InstClass::Control => exec_control(hart, mem, inst, pc),
        InstClass::Atomic => exec_atomic(hart, mem, inst),
        InstClass::System => exec_system(hart, mem, inst),
        InstClass::FpBits => exec_fp_bits(hart, mem, inst),
        InstClass::Csr => exec_csr(hart, mem, inst),
    }
}


/// The effect of a register-register ALU instruction on the hart: `rd`
/// receives the stated function of `x[rs1]` and `x[rs2]` (nothing else
/// changes, and writes to x0 are dropped). Values are unsigned 32-bit words;
/// the signed comparisons read them as two's-complement `i32`. In
/// particular SLTU compares as unsigned (SLTU of 1 and 0xFFFF_FFFF gives 1)
/// and SLT as signed (SLT of 1 and 0xFFFF_FFFF gives 0).
#[verifier::spinoff_prover]
pub proof fn law_register_alu<M: Memory>(s: HartView, mem: M::V, rd: u8, rs1: u8, rs2: u8, pc: u32)
    ensures
        ({
            let a = s.x(rs1);
            let b = s.x(rs2);
            &&& execute_spec::<M>(s, mem, Instruction::Sltu { rd, rs1, rs2 }, pc) == (
                Ok::<(), TrapInfo>(()),
                s.with_reg(rd, if (a as int) < (b as int) { 1u32 } else { 0u32 }),
                mem,
            )
            &&& execute_spec::<M>(s, mem, Instruction::Slt { rd, rs1, rs2 }, pc) == (
                Ok::<(), TrapInfo>(()),
                s.with_reg(rd, if (a as i32) < (b as i32) { 1u32 } else { 0u32 }),
                mem,
            )
            &&& execute_spec::<M>(s, mem, Instruction::Add { rd, rs1, rs2 }, pc) == (
                Ok::<(), TrapInfo>(()),
                s.with_reg(rd, ((a + b) % 0x1_0000_0000) as u32),
                mem,
            )
            &&& execute_spec::<M>(s, mem, Instruction::Sub { rd, rs1, rs2 }, pc) == (
                Ok::<(), TrapInfo>(()),
                s.with_reg(rd, ((a - b) % 0x1_0000_0000) as u32),
                mem,
            )
            &&& execute_spec::<M>(s, mem, Instruction::Xor { rd, rs1, rs2 }, pc) == (
                Ok::<(), TrapInfo>(()),
                s.with_reg(rd, a ^ b),
                mem,
            )
            &&& execute_spec::<M>(s, mem, Instruction::Or { rd, rs1, rs2 }, pc) == (
                Ok::<(), TrapInfo>(()),
                s.with_reg(rd, a | b),
                mem,
            )
            &&& execute_spec::<M>(s, mem, Instruction::And { rd, rs1, rs2 }, pc) == (
                Ok::<(), TrapInfo>(()),
                s.with_reg(rd, a & b),
                mem,
            )
            &&& execute_spec::<M>(s, mem, Instruction::Sll { rd, rs1, rs2 }, pc) == (
                Ok::<(), TrapInfo>(()),
                s.with_reg(rd, a << (b % 32)),
                mem,
            )
            &&& execute_spec::<M>(s, mem, Instruction::Srl { rd, rs1, rs2 }, pc) == (
                Ok::<(), TrapInfo>(()),
                s.with_reg(rd, a >> (b % 32)),
                mem,
            )
            &&& execute_spec::<M>(s, mem, Instruction::Sra { rd, rs1, rs2 }, pc) == (
                Ok::<(), TrapInfo>(()),
                s.with_reg(rd, ((a as i32) >> (b % 32)) as u32),
                mem,
            )
            &&& execute_spec::<M>(s, mem, Instruction::Mul { rd, rs1, rs2 }, pc) == (
                Ok::<(), TrapInfo>(()),
                s.with_reg(rd, ((a * b) % 0x1_0000_0000) as u32),
                mem,
            )
            &&& execute_spec::<M>(s, mem, Instruction::Mulhu { rd, rs1, rs2 }, pc) == (
                Ok::<(), TrapInfo>(()),
                s.with_reg(rd, ((a as int * b as int) / 0x1_0000_0000) as u32),
                mem,
            )
            &&& execute_spec::<M>(s, mem, Instruction::Divu { rd, rs1, rs2 }, pc) == (
                Ok::<(), TrapInfo>(()),
                s.with_reg(rd, if b == 0 { 0xFFFF_FFFFu32 } else { a / b }),
                mem,
            )
            &&& execute_spec::<M>(s, mem, Instruction::Remu { rd, rs1, rs2 }, pc) == (
                Ok::<(), TrapInfo>(()),
                s.with_reg(rd, if b == 0 { a } else { a % b }),
                mem,
            )
        }),
{
    reveal(execute_spec);
    lemma_u32_bits(s.x(rs2));
}

/// The effect of a register-immediate ALU instruction: `rd` receives the
/// stated function of `x[rs1]` and the sign-extended immediate. SLTIU
/// compares `x[rs1]` with the immediate taken as an unsigned word, SLTI as
/// signed numbers; ADDI adds modulo 2^32.
#[verifier::spinoff_prover]
pub proof fn law_immediate_alu<M: Memory>(s: HartView, mem: M::V, rd: u8, rs1: u8, imm: i32, pc: u32)
    ensures
        ({
            let a = s.x(rs1);
            let u: int = if imm >= 0 { imm as int } else { imm + 0x1_0000_0000 };
            &&& execute_spec::<M>(s, mem, Instruction::Sltiu { rd, rs1, imm }, pc) == (
                Ok::<(), TrapInfo>(()),
                s.with_reg(rd, if (a as int) < u { 1u32 } else { 0u32 }),
                mem,
            )
            &&& execute_spec::<M>(s, mem, Instruction::Slti { rd, rs1, imm }, pc) == (
                Ok::<(), TrapInfo>(()),
                s.with_reg(rd, if (a as i32) < imm { 1u32 } else { 0u32 }),
                mem,
            )
            &&& execute_spec::<M>(s, mem, Instruction::Addi { rd, rs1, imm }, pc) == (
                Ok::<(), TrapInfo>(()),
                s.with_reg(rd, ((a + imm) % 0x1_0000_0000) as u32),
                mem,
            )
            &&& execute_spec::<M>(s, mem, Instruction::Xori { rd, rs1, imm }, pc) == (
                Ok::<(), TrapInfo>(()),
                s.with_reg(rd, a ^ (u as u32)),
                mem,
            )
            &&& execute_spec::<M>(s, mem, Instruction::Ori { rd, rs1, imm }, pc) == (
                Ok::<(), TrapInfo>(()),
                s.with_reg(rd, a | (u as u32)),
                mem,
            )
            &&& execute_spec::<M>(s, mem, Instruction::Andi { rd, rs1, imm }, pc) == (
                Ok::<(), TrapInfo>(()),
                s.with_reg(rd, a & (u as u32)),
                mem,
            )
        }),
{
    reveal(execute_spec);
    crate::rvc::lemma_i32_as_u32(imm);
}

/// A conditional branch is taken exactly when its condition holds of
/// `x[rs1]` and `x[rs2]`: equality for BEQ/BNE, signed order for BLT/BGE,
/// unsigned order for BLTU/BGEU. A taken branch moves the pc to
/// `pc + imm` (mod 2^32), or faults when that target is odd; a branch not
/// taken changes nothing. Memory is never touched.
#[verifier::spinoff_prover]
pub proof fn law_branch_conditions<M: Memory>(s: HartView, mem: M::V, rs1: u8, rs2: u8, imm: i32, pc: u32)
    ensures
        ({
            let a = s.x(rs1);
            let b = s.x(rs2);
            let t = ((pc + (imm as u32)) % 0x1_0000_0000) as u32;
            let taken = if t % 2 != 0 {
                (Err(exception_info(Trap::InstructionAddressMisaligned, t)), s, mem)
            } else {
                (Ok::<(), TrapInfo>(()), s.with_pc(t), mem)
            };
            let stay = (Ok::<(), TrapInfo>(()), s, mem);
            &&& execute_spec::<M>(s, mem, Instruction::Beq { rs1, rs2, imm }, pc) == if a == b { taken } else { stay }
            &&& execute_spec::<M>(s, mem, Instruction::Bne { rs1, rs2, imm }, pc) == if a != b { taken } else { stay }
            &&& execute_spec::<M>(s, mem, Instruction::Blt { rs1, rs2, imm }, pc) == if (a as i32) < (b as i32) { taken } else { stay }
            &&& execute_spec::<M>(s, mem, Instruction::Bge { rs1, rs2, imm }, pc) == if (a as i32) >= (b as i32) { taken } else { stay }
            &&& execute_spec::<M>(s, mem, Instruction::Bltu { rs1, rs2, imm }, pc) == if (a as int) < (b as int) { taken } else { stay }
            &&& execute_spec::<M>(s, mem, Instruction::Bgeu { rs1, rs2, imm }, pc) == if (a as int) >= (b as int) { taken } else { stay }
        }),
{
    reveal(execute_spec);
}


/// Sign extension of bytes and halfwords, as arithmetic.
proof fn lemma_sign_extend(b: u8, h: u16)
    by (bit_vector)
    ensures
        ((b as i8) as i32) as u32 == if b >= 0x80u8 { (b as int + 0xFFFF_FF00) as u32 } else { b as u32 },
        ((h as i16) as i32) as u32 == if h >= 0x8000u16 { (h as int + 0xFFFF_0000) as u32 } else { h as u32 },
        b as u32 == b as int,
        h as u32 == h as int,
{
}

/// The result of an integer load: on success `rd` gets the loaded value
/// extended by `ext`, on a fault nothing in the hart changes.
pub open spec fn loaded_into<V, T>(s: HartView, rd: u8, p: (Result<T, TrapInfo>, V), ext: spec_fn(T) -> u32) -> (Result<(), TrapInfo>, HartView, V) {
    match p.0 {
        Ok(v) => (Ok(()), s.with_reg(rd, ext(v)), p.1),
        Err(e) => (Err(e), s, p.1),
    }
}

/// Integer loads and stores access `x[rs1] + imm` (mod 2^32). LB and LH
/// sign-extend the byte or halfword read (adding 0xFFFF_FF00 or 0xFFFF_0000
/// when its top bit is set), LBU and LHU zero-extend it, LW takes the word;
/// SB, SH and SW store the low 8, 16 or 32 bits of `x[rs2]`. A faulting
/// load writes no register, and a store never changes the hart.
#[verifier::spinoff_prover]
pub proof fn law_load_store<M: Memory>(s: HartView, mem: M::V, rd: u8, rs1: u8, rs2: u8, imm: i32, pc: u32)
    ensures
        ({
            let addr = ((s.x(rs1) + imm) % 0x1_0000_0000) as u32;
            let v = s.x(rs2);
            &&& execute_spec::<M>(s, mem, Instruction::Lb { rd, rs1, imm }, pc) == loaded_into(
                s, rd, load8_spec::<M>(s, mem, addr),
                |b: u8| if b >= 0x80 { (b + 0xFFFF_FF00) as u32 } else { b as u32 })
            &&& execute_spec::<M>(s, mem, Instruction::Lbu { rd, rs1, imm }, pc) == loaded_into(
                s, rd, load8_spec::<M>(s, mem, addr), |b: u8| b as u32)
            &&& execute_spec::<M>(s, mem, Instruction::Lh { rd, rs1, imm }, pc) == loaded_into(
                s, rd, load16_spec::<M>(s, mem, addr),
                |h: u16| if h >= 0x8000 { (h + 0xFFFF_0000) as u32 } else { h as u32 })
            &&& execute_spec::<M>(s, mem, Instruction::Lhu { rd, rs1, imm }, pc) == loaded_into(
                s, rd, load16_spec::<M>(s, mem, addr), |h: u16| h as u32)
            &&& execute_spec::<M>(s, mem, Instruction::Lw { rd, rs1, imm }, pc) == loaded_into(
                s, rd, load32_spec::<M>(s, mem, addr), |w: u32| w)
            &&& execute_spec::<M>(s, mem, Instruction::Sb { rs1, rs2, imm }, pc) == ({
                let (r, m) = store8_spec::<M>(s, mem, addr, (v % 0x100) as u8);
                (r, s, m)
            })
            &&& execute_spec::<M>(s, mem, Instruction::Sh { rs1, rs2, imm }, pc) == ({
                let (r, m) = store16_spec::<M>(s, mem, addr, (v % 0x1_0000) as u16);
                (r, s, m)
            })
            &&& execute_spec::<M>(s, mem, Instruction::Sw { rs1, rs2, imm }, pc) == ({
                let (r, m) = store32_spec::<M>(s, mem, addr, v);
                (r, s, m)
            })
        }),
{
    reveal(execute_spec);
    crate::rvc::lemma_i32_as_u32(imm);
    let v = s.x(rs2);
    assert((v as u8) == (v % 0x100) as u8 && (v as u16) == (v % 0x1_0000) as u16) by (bit_vector);
    let (r8, m8) = load8_spec::<M>(s, mem, ea(s, rs1, imm));
    if let Ok(b) = r8 {
        lemma_sign_extend(b, 0);
    }
    let (r16, m16) = load16_spec::<M>(s, mem, ea(s, rs1, imm));
    if let Ok(h) = r16 {
        lemma_sign_extend(0, h);
    }
}

/// JAL and JALR link the address of the next instruction (`s.pc`, already
/// advanced past the jump) into `rd` and jump: JAL to `pc + imm`, faulting
/// on an odd target without writing `rd`; JALR to `x[rs1] + imm` with bit 0
/// cleared.
#[verifier::spinoff_prover]
pub proof fn law_jumps<M: Memory>(s: HartView, mem: M::V, rd: u8, rs1: u8, imm: i32, pc: u32)
    ensures
        ({
            let a = s.x(rs1);
            let t = ((pc + (imm as u32)) % 0x1_0000_0000) as u32;
            let tr = ((a + imm) % 0x1_0000_0000) as u32;
            &&& execute_spec::<M>(s, mem, Instruction::Jal { rd, imm }, pc) == if t % 2 != 0 {
                (Err(exception_info(Trap::InstructionAddressMisaligned, t)), s, mem)
            } else {
                (Ok::<(), TrapInfo>(()), s.with_reg(rd, s.pc).with_pc(t), mem)
            }
            &&& execute_spec::<M>(s, mem, Instruction::Jalr { rd, rs1, imm }, pc) == (
                Ok::<(), TrapInfo>(()),
                s.with_reg(rd, s.pc).with_pc((tr - tr % 2) as u32),
                mem,
            )
        }),
{
    reveal(execute_spec);
    crate::rvc::lemma_i32_as_u32(imm);
}

/// LUI writes the upper immediate, AUIPC `pc` plus it (mod 2^32); the
/// immediate shifts shift `x[rs1]` by the 5-bit shift amount, SRAI
/// arithmetically.
#[verifier::spinoff_prover]
pub proof fn law_upper_and_shifts<M: Memory>(s: HartView, mem: M::V, rd: u8, rs1: u8, up: u32, shamt: u8, pc: u32)
    requires
        shamt < 32,
    ensures
        ({
            let a = s.x(rs1);
            &&& execute_spec::<M>(s, mem, Instruction::Lui { rd, imm: up }, pc) == (
                Ok::<(), TrapInfo>(()),
                s.with_reg(rd, up),
                mem,
            )
            &&& execute_spec::<M>(s, mem, Instruction::Auipc { rd, imm: up }, pc) == (
                Ok::<(), TrapInfo>(()),
                s.with_reg(rd, ((pc + up) % 0x1_0000_0000) as u32),
                mem,
            )
            &&& execute_spec::<M>(s, mem, Instruction::Slli { rd, rs1, shamt }, pc) == (
                Ok::<(), TrapInfo>(()),
                s.with_reg(rd, a << shamt),
                mem,
            )
            &&& execute_spec::<M>(s, mem, Instruction::Srli { rd, rs1, shamt }, pc) == (
                Ok::<(), TrapInfo>(()),
                s.with_reg(rd, a >> shamt),
                mem,
            )
            &&& execute_spec::<M>(s, mem, Instruction::Srai { rd, rs1, shamt }, pc) == (
                Ok::<(), TrapInfo>(()),
                s.with_reg(rd, ((a as i32) >> shamt) as u32),
                mem,
            )
        }),
{
    reveal(execute_spec);
}

/// ECALL raises the environment call of the current privilege (cause 8
/// from U-mode, 9 from S-mode, 11 from M-mode) and EBREAK a breakpoint
/// (cause 3), both with trap value 0 and no other change.
#[verifier::spinoff_prover]
pub proof fn law_ecall_ebreak<M: Memory>(s: HartView, mem: M::V, pc: u32)
    requires
        s.priv_mode == PRIV_U || s.priv_mode == PRIV_S || s.priv_mode == PRIV_M,
    ensures
        execute_spec::<M>(s, mem, Instruction::Ecall, pc) == (
            Err::<(), TrapInfo>(TrapInfo { cause: (8 + s.priv_mode) as u32, tval: 0 }),
            s,
            mem,
        ),
        execute_spec::<M>(s, mem, Instruction::Ebreak, pc) == (
            Err::<(), TrapInfo>(TrapInfo { cause: 3, tval: 0 }),
            s,
            mem,
        ),
{
    reveal(execute_spec);
}


/// A 32-bit word read as signed and back.
proof fn lemma_i32_round_trip(i: i32)
    by (bit_vector)
    ensures
        ((i as u32) as i32) == i,
{
}

/// Wrapping a value in the `i32` range and reading it back as signed gives
/// the value.
proof fn lemma_wrap_signed(v: int)
    requires
        -0x8000_0000 <= v < 0x8000_0000,
    ensures
        (wrap32(v) as i32) as int == v,
{
    let i = v as i32;
    crate::rvc::lemma_i32_as_u32(i);
    lemma_i32_round_trip(i);
    assert(wrap32(v) == i as u32);
}

/// Truncating division: quotient times divisor plus remainder is the
/// dividend, the remainder is smaller than the divisor in magnitude and is
/// zero or has the dividend's sign.
#[verifier::spinoff_prover]
proof fn lemma_trunc_div_rem(x: int, y: int)
    requires
        y != 0,
    ensures
        trunc_div(x, y) * y + trunc_rem(x, y) == x,
        abs(trunc_rem(x, y)) < abs(y),
        trunc_rem(x, y) == 0 || ((trunc_rem(x, y) < 0) == (x < 0)),
        abs(trunc_div(x, y)) <= abs(x),
{
    let ax = abs(x);
    let ay = abs(y);
    let q = ax / ay;
    let r = ax % ay;
    vstd::arithmetic::div_mod::lemma_fundamental_div_mod(ax, ay);
    vstd::arithmetic::div_mod::lemma_mod_bound(ax, ay);
    vstd::arithmetic::div_mod::lemma_div_pos_is_pos(ax, ay);
    vstd::arithmetic::div_mod::lemma_div_is_ordered_by_denominator(ax, 1, ay);
    vstd::arithmetic::div_mod::lemma_div_basics(ax);
    assert(ax == ay * q + r);
    assert(0 <= r < ay);
    assert(0 <= q <= ax);
    if x >= 0 && y > 0 {
        assert(trunc_div(x, y) == q && trunc_rem(x, y) == r);
        assert(q * y + r == x) by (nonlinear_arith)
            requires
                ax == ay * q + r,
                ay == y,
                ax == x,
        ;
    } else if x >= 0 && y < 0 {
        assert(trunc_div(x, y) == -q && trunc_rem(x, y) == r);
        assert((-q) * y + r == x) by (nonlinear_arith)
            requires
                ax == ay * q + r,
                ay == -y,
                ax == x,
        ;
    } else if x < 0 && y > 0 {
        assert(trunc_div(x, y) == -q && trunc_rem(x, y) == -r);
        assert((-q) * y + (-r) == x) by (nonlinear_arith)
            requires
                ax == ay * q + r,
                ay == y,
                ax == -x,
        ;
    } else {
        assert(trunc_div(x, y) == q && trunc_rem(x, y) == -r);
        assert(q * y + (-r) == x) by (nonlinear_arith)
            requires
                ax == ay * q + r,
                ay == -y,
                ax == -x,
        ;
    }
}

/// DIV and REM divide the operands read as signed `i32` values, rounding
/// toward zero: quotient × divisor + remainder = dividend, with the
/// remainder smaller than the divisor and of the dividend's sign. Division
/// by zero gives quotient -1 (all ones) and the dividend as remainder; the
/// overflowing -2^31 / -1 gives the dividend as quotient and remainder 0.
/// DIVU/REMU are covered by `law_register_alu`.
#[verifier::spinoff_prover]
pub proof fn law_div_rem<M: Memory>(s: HartView, mem: M::V, rd: u8, rs1: u8, rs2: u8, pc: u32)
    ensures
        execute_spec::<M>(s, mem, Instruction::Div { rd, rs1, rs2 }, pc) == (
            Ok::<(), TrapInfo>(()),
            s.with_reg(rd, div_spec(s.x(rs1), s.x(rs2))),
            mem,
        ),
        execute_spec::<M>(s, mem, Instruction::Rem { rd, rs1, rs2 }, pc) == (
            Ok::<(), TrapInfo>(()),
            s.with_reg(rd, rem_spec(s.x(rs1), s.x(rs2))),
            mem,
        ),
        ({
            let (a, b) = (s.x(rs1), s.x(rs2));
            let (x, y) = ((a as i32) as int, (b as i32) as int);
            let q = (div_spec(a, b) as i32) as int;
            let r = (rem_spec(a, b) as i32) as int;
            &&& b == 0 ==> div_spec(a, b) == 0xFFFF_FFFF && rem_spec(a, b) == a
            &&& (x == -0x8000_0000 && y == -1) ==> div_spec(a, b) == a && rem_spec(a, b) == 0
            &&& (b != 0 && !(x == -0x8000_0000 && y == -1)) ==> {
                &&& q * y + r == x
                &&& abs(r) < abs(y)
                &&& (r == 0 || ((r < 0) == (x < 0)))
            }
        }),
{
    reveal(execute_spec);
    let (a, b) = (s.x(rs1), s.x(rs2));
    let (x, y) = (sx(a), sx(b));
    if b != 0 {
        assert(y != 0) by {
            crate::rvc::lemma_i32_as_u32(b as i32);
            lemma_u32_i32(b);
        }
        if !(x == -0x8000_0000 && y == -1) {
            lemma_trunc_div_rem(x, y);
            let tq = trunc_div(x, y);
            let tr = trunc_rem(x, y);
            if abs(y) >= 2 {
                vstd::arithmetic::div_mod::lemma_div_is_ordered_by_denominator(abs(x), 2, abs(y));
            }
            assert(-0x8000_0000 <= tq < 0x8000_0000);
            assert(-0x8000_0000 <= tr < 0x8000_0000);
            lemma_wrap_signed(tq);
            lemma_wrap_signed(tr);
        }
    } else {
        lemma_u32_i32(b);
    }
}

/// A word is zero exactly when it is zero read as signed.
proof fn lemma_u32_i32(b: u32)
    by (bit_vector)
    ensures
        (b == 0) == ((b as i32) == 0),
        (b == 0xFFFF_FFFFu32) == ((b as i32) == -1i32),
        (b == 0x8000_0000u32) == ((b as i32) == -0x8000_0000i32),
{
}


/// MULH, MULHSU and MULHU give the upper 32 bits of the 64-bit product of
/// the operands read as signed × signed, signed × unsigned and unsigned ×
/// unsigned (the product divided by 2^32, rounded down).
#[verifier::spinoff_prover]
pub proof fn law_mul_high<M: Memory>(s: HartView, mem: M::V, rd: u8, rs1: u8, rs2: u8, pc: u32)
    ensures
        ({
            let (a, b) = (s.x(rs1), s.x(rs2));
            let (x, y) = ((a as i32) as int, (b as i32) as int);
            &&& execute_spec::<M>(s, mem, Instruction::Mulh { rd, rs1, rs2 }, pc) == (
                Ok::<(), TrapInfo>(()),
                s.with_reg(rd, ((x * y) / 0x1_0000_0000) as u32),
                mem,
            )
            &&& execute_spec::<M>(s, mem, Instruction::Mulhsu { rd, rs1, rs2 }, pc) == (
                Ok::<(), TrapInfo>(()),
                s.with_reg(rd, ((x * (b as int)) / 0x1_0000_0000) as u32),
                mem,
            )
            &&& execute_spec::<M>(s, mem, Instruction::Mulhu { rd, rs1, rs2 }, pc) == (
                Ok::<(), TrapInfo>(()),
                s.with_reg(rd, (((a as int) * (b as int)) / 0x1_0000_0000) as u32),
                mem,
            )
        }),
{
    reveal(execute_spec);
}


/// mstatus after MRET and SRET, bit by bit.
proof fn lemma_xret_bits(v: u32)
    by (bit_vector)
    ensures
        ({
            let r = trap_return_spec(v, 3, 7, 11, 0x1800);
            let prv = (v / 0x800) % 4;
            &&& trap_return_priv(v, 11, 0x1800) as u32 == prv
            &&& (r / 8) % 2 == (v / 0x80) % 2
            &&& (r / 0x80) % 2 == 1
            &&& (r / 0x800) % 4 == 0
            &&& (r / 0x2_0000) % 2 == if prv != 3 { 0 } else { (v / 0x2_0000) % 2 }
            &&& r & !0x2_1888u32 == v & !0x2_1888u32
        }),
        ({
            let r = trap_return_spec(v, 1, 5, 8, 0x100);
            &&& trap_return_priv(v, 8, 0x100) as u32 == (v / 0x100) % 2
            &&& (r / 2) % 2 == (v / 0x20) % 2
            &&& (r / 0x20) % 2 == 1
            &&& (r / 0x100) % 2 == 0
            &&& (r / 0x2_0000) % 2 == 0
            &&& r & !0x2_0122u32 == v & !0x2_0122u32
        }),
        ((v & 0x40_0000u32) != 0) == ((v / 0x40_0000) % 2 == 1),
{
}

/// MRET (M-mode only, else IllegalInstruction) returns to mepc at the
/// privilege in mstatus.MPP, and updates mstatus: MIE := MPIE, MPIE := 1,
/// MPP := U, MPRV cleared when returning below M; no other bit changes.
/// SRET (allowed above S-mode, and in S-mode unless mstatus.TSR is set)
/// returns to sepc at the privilege in SPP, with SIE := SPIE, SPIE := 1,
/// SPP := U and MPRV cleared.
#[verifier::spinoff_prover]
pub proof fn law_trap_return<M: Memory>(s: HartView, mem: M::V, pc: u32)
    requires
        s.wf(),
    ensures
        ({
            let v = s.csr(CSR_MSTATUS);
            let (r, t, m) = execute_spec::<M>(s, mem, Instruction::Mret, pc);
            let n = t.csr(CSR_MSTATUS);
            &&& s.priv_mode < 3 ==> (r, t, m) == (Err::<(), TrapInfo>(TrapInfo { cause: 2, tval: 0 }), s, mem)
            &&& s.priv_mode >= 3 ==> {
                &&& r is Ok && m == mem
                &&& t.pc == s.csr(CSR_MEPC)
                &&& t.priv_mode as u32 == (v / 0x800) % 4
                &&& (n / 8) % 2 == (v / 0x80) % 2 && (n / 0x80) % 2 == 1 && (n / 0x800) % 4 == 0
                &&& (n / 0x2_0000) % 2 == if (v / 0x800) % 4 != 3 { 0 } else { (v / 0x2_0000) % 2 }
                &&& n & !0x2_1888u32 == v & !0x2_1888u32
                &&& t == (HartView { pc: t.pc, priv_mode: t.priv_mode, ..s.with_csr(CSR_MSTATUS, n) })
            }
        }),
        ({
            let v = s.csr(CSR_MSTATUS);
            let (r, t, m) = execute_spec::<M>(s, mem, Instruction::Sret, pc);
            let n = t.csr(CSR_MSTATUS);
            let allowed = s.priv_mode >= 2 || (s.priv_mode == 1 && (v / 0x40_0000) % 2 == 0);
            &&& !allowed ==> (r, t, m) == (Err::<(), TrapInfo>(TrapInfo { cause: 2, tval: 0 }), s, mem)
            &&& allowed ==> {
                &&& r is Ok && m == mem
                &&& t.pc == s.csr(CSR_SEPC)
                &&& t.priv_mode as u32 == (v / 0x100) % 2
                &&& (n / 2) % 2 == (v / 0x20) % 2 && (n / 0x20) % 2 == 1 && (n / 0x100) % 2 == 0
                &&& (n / 0x2_0000) % 2 == 0
                &&& n & !0x2_0122u32 == v & !0x2_0122u32
                &&& t == (HartView { pc: t.pc, priv_mode: t.priv_mode, ..s.with_csr(CSR_MSTATUS, n) })
            }
        }),
{
    reveal(execute_spec);
    lemma_xret_bits(s.csr(CSR_MSTATUS));
}


/// The value an AMO stores, from the word in memory `old` and `v = x[rs2]`:
/// SWAP stores `v`; ADD the sum mod 2^32; XOR, AND, OR the bitwise result;
/// MIN/MAX the smaller/larger as signed `i32` values, MINU/MAXU as unsigned.
#[verifier::spinoff_prover]
pub proof fn law_amo_values(old: u32, v: u32, rd: u8, rs1: u8, rs2: u8)
    ensures
        amo_value(Instruction::AmoswapW { rd, rs1, rs2 }, old, v) == v,
        amo_value(Instruction::AmoaddW { rd, rs1, rs2 }, old, v) == ((old + v) % 0x1_0000_0000) as u32,
        amo_value(Instruction::AmoxorW { rd, rs1, rs2 }, old, v) == old ^ v,
        amo_value(Instruction::AmoandW { rd, rs1, rs2 }, old, v) == old & v,
        amo_value(Instruction::AmoorW { rd, rs1, rs2 }, old, v) == old | v,
        amo_value(Instruction::AmominW { rd, rs1, rs2 }, old, v) == if (old as i32) < (v as i32) { old } else { v },
        amo_value(Instruction::AmomaxW { rd, rs1, rs2 }, old, v) == if (old as i32) > (v as i32) { old } else { v },
        amo_value(Instruction::AmominuW { rd, rs1, rs2 }, old, v) == if old <= v { old } else { v },
        amo_value(Instruction::AmomaxuW { rd, rs1, rs2 }, old, v) == if old >= v { old } else { v },
{
}

/// LR.W and SC.W on the word at `x[rs1]`, which must be 4-byte aligned (a
/// misaligned LR is a load, a misaligned SC a store, address-misaligned
/// fault). LR loads the word into `rd` and reserves its address. SC always
/// drops the reservation; when it held exactly this address it stores
/// `x[rs2]` and writes 0 to `rd`, otherwise it stores nothing and writes 1.
#[verifier::spinoff_prover]
pub proof fn law_lr_sc<M: Memory>(s: HartView, mem: M::V, rd: u8, rs1: u8, rs2: u8, pc: u32)
    ensures
        ({
            let va = s.x(rs1);
            let s1 = HartView { reservation: None, ..s };
            &&& execute_spec::<M>(s, mem, Instruction::LrW { rd, rs1 }, pc) == if va % 4 != 0 {
                (Err(exception_info(Trap::LoadAddressMisaligned, va)), s, mem)
            } else {
                match load32_spec::<M>(s, mem, va) {
                    (Ok(w), m) => (Ok::<(), TrapInfo>(()), HartView { reservation: Some(va), ..s.with_reg(rd, w) }, m),
                    (Err(e), m) => (Err(e), s, m),
                }
            }
            &&& execute_spec::<M>(s, mem, Instruction::ScW { rd, rs1, rs2 }, pc) == if va % 4 != 0 {
                (Err(exception_info(Trap::StoreAddressMisaligned, va)), s, mem)
            } else if s.reservation == Some(va) {
                match store32_spec::<M>(s1, mem, va, s.x(rs2)) {
                    (Ok(_), m) => (Ok::<(), TrapInfo>(()), s1.with_reg(rd, 0), m),
                    (Err(e), m) => (Err(e), s1, m),
                }
            } else {
                (Ok::<(), TrapInfo>(()), s1.with_reg(rd, 1), mem)
            }
        }),
{
    reveal(execute_spec);
}


/// The Zicsr instructions on an ordinary CSR (one stored as written: not a
/// counter, status view, mip, misa, debug-trigger or performance-monitor
/// register) that the current privilege may access: `rd` receives the old
/// value, and the CSR becomes `x[rs1]` (CSRRW), old | `x[rs1]` (CSRRS),
/// old & !`x[rs1]` (CSRRC), or the same with the 5-bit immediate. CSRRS and
/// CSRRC with rs1 = x0 (or immediate 0) do not write at all, so they may
/// read a read-only CSR; any other access to a read-only CSR, or to one
/// above the current privilege, is IllegalInstruction and changes nothing.
#[verifier::spinoff_prover]
pub proof fn law_csr_instructions<M: Memory>(s: HartView, mem: M::V, rd: u8, rs1: u8, uimm: u8, csr: u16, pc: u32)
    requires
        s.wf(),
        csr < 4096,
        csr_plain(csr),
        csr != CSR_SATP,
    ensures
        ({
            let old = s.csrs[csr as int];
            let v = s.x(rs1);
            let u = uimm as u32;
            let need: u8 = if (csr / 0x100) % 4 == 0 { 0 } else if (csr / 0x100) % 4 == 1 { 1 } else { 3 };
            let can_read = s.priv_mode >= need;
            let can_write = can_read && csr / 0x400 != 3;
            let ill = (Err::<(), TrapInfo>(TrapInfo { cause: 2, tval: 0 }), s, mem);
            let wr = |n: u32| (Ok::<(), TrapInfo>(()), s.with_csr(csr, n).with_reg(rd, old), mem);
            &&& execute_spec::<M>(s, mem, Instruction::Csrrw { rd, rs1, csr }, pc) == if can_write { wr(v) } else { ill }
            &&& execute_spec::<M>(s, mem, Instruction::Csrrwi { rd, uimm, csr }, pc) == if can_write { wr(u) } else { ill }
            &&& execute_spec::<M>(s, mem, Instruction::Csrrs { rd, rs1, csr }, pc) == if !can_read { ill } else if rs1 == 0 {
                (Ok::<(), TrapInfo>(()), s.with_reg(rd, old), mem)
            } else if can_write { wr(old | v) } else { ill }
            &&& execute_spec::<M>(s, mem, Instruction::Csrrc { rd, rs1, csr }, pc) == if !can_read { ill } else if rs1 == 0 {
                (Ok::<(), TrapInfo>(()), s.with_reg(rd, old), mem)
            } else if can_write { wr(old & !v) } else { ill }
            &&& execute_spec::<M>(s, mem, Instruction::Csrrsi { rd, uimm, csr }, pc) == if !can_read { ill } else if uimm == 0 {
                (Ok::<(), TrapInfo>(()), s.with_reg(rd, old), mem)
            } else if can_write { wr(old | u) } else { ill }
            &&& execute_spec::<M>(s, mem, Instruction::Csrrci { rd, uimm, csr }, pc) == if !can_read { ill } else if uimm == 0 {
                (Ok::<(), TrapInfo>(()), s.with_reg(rd, old), mem)
            } else if can_write { wr(old & !u) } else { ill }
        }),
{
    reveal(execute_spec);
}

} // verus!
