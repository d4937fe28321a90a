//! RV32IMAFD + Zicsr instruction decoding, and expansion of 16-bit RVC
//! encodings into their canonical 32-bit equivalents.
use crate::trap::Trap;
use vstd::prelude::*;

verus! {

/// A decoded instruction: the operation and its register / immediate operands.
#[allow(inconsistent_fields)]
#[derive(Debug, Clone, Copy, PartialEq, Eq, Structural)]
pub enum Instruction {
    Add { rd: u8, rs1: u8, rs2: u8 },
    Sub { rd: u8, rs1: u8, rs2: u8 },
    Sll { rd: u8, rs1: u8, rs2: u8 },
    Slt { rd: u8, rs1: u8, rs2: u8 },
    Sltu { rd: u8, rs1: u8, rs2: u8 },
    Xor { rd: u8, rs1: u8, rs2: u8 },
    Srl { rd: u8, rs1: u8, rs2: u8 },
    Sra { rd: u8, rs1: u8, rs2: u8 },
    Or { rd: u8, rs1: u8, rs2: u8 },
    And { rd: u8, rs1: u8, rs2: u8 },
    Addi { rd: u8, rs1: u8, imm: i32 },
    Slti { rd: u8, rs1: u8, imm: i32 },
    Sltiu { rd: u8, rs1: u8, imm: i32 },
    Xori { rd: u8, rs1: u8, imm: i32 },
    Ori { rd: u8, rs1: u8, imm: i32 },
    Andi { rd: u8, rs1: u8, imm: i32 },
    Slli { rd: u8, rs1: u8, shamt: u8 },
    Srli { rd: u8, rs1: u8, shamt: u8 },
    Srai { rd: u8, rs1: u8, shamt: u8 },
    Lb { rd: u8, rs1: u8, imm: i32 },
    Lh { rd: u8, rs1: u8, imm: i32 },
    Lw { rd: u8, rs1: u8, imm: i32 },
    Lbu { rd: u8, rs1: u8, imm: i32 },
    Lhu { rd: u8, rs1: u8, imm: i32 },
    Sb { rs1: u8, rs2: u8, imm: i32 },
    Sh { rs1: u8, rs2: u8, imm: i32 },
    Sw { rs1: u8, rs2: u8, imm: i32 },
    Beq { rs1: u8, rs2: u8, imm: i32 },
    Bne { rs1: u8, rs2: u8, imm: i32 },
    Blt { rs1: u8, rs2: u8, imm: i32 },
    Bge { rs1: u8, rs2: u8, imm: i32 },
    Bltu { rs1: u8, rs2: u8, imm: i32 },
    Bgeu { rs1: u8, rs2: u8, imm: i32 },
    Lui { rd: u8, imm: u32 },
    Auipc { rd: u8, imm: u32 },
    Jal { rd: u8, imm: i32 },
    Jalr { rd: u8, rs1: u8, imm: i32 },
    LrW { rd: u8, rs1: u8 },
    ScW { rd: u8, rs1: u8, rs2: u8 },
    AmoswapW { rd: u8, rs1: u8, rs2: u8 },
    AmoaddW { rd: u8, rs1: u8, rs2: u8 },
    AmoxorW { rd: u8, rs1: u8, rs2: u8 },
    AmoandW { rd: u8, rs1: u8, rs2: u8 },
    AmoorW { rd: u8, rs1: u8, rs2: u8 },
    AmominW { rd: u8, rs1: u8, rs2: u8 },
    AmomaxW { rd: u8, rs1: u8, rs2: u8 },
    AmominuW { rd: u8, rs1: u8, rs2: u8 },
    AmomaxuW { rd: u8, rs1: u8, rs2: u8 },
    Mul { rd: u8, rs1: u8, rs2: u8 },
    Mulh { rd: u8, rs1: u8, rs2: u8 },
    Mulhsu { rd: u8, rs1: u8, rs2: u8 },
    Mulhu { rd: u8, rs1: u8, rs2: u8 },
    Div { rd: u8, rs1: u8, rs2: u8 },
    Divu { rd: u8, rs1: u8, rs2: u8 },
    Rem { rd: u8, rs1: u8, rs2: u8 },
    Remu { rd: u8, rs1: u8, rs2: u8 },
    Flw { rd: u8, rs1: u8, imm: i32 },
    Fsw { rs1: u8, rs2: u8, imm: i32 },
    FaddS { rd: u8, rs1: u8, rs2: u8, rm: u8 },
    FsubS { rd: u8, rs1: u8, rs2: u8, rm: u8 },
    FmulS { rd: u8, rs1: u8, rs2: u8, rm: u8 },
    FdivS { rd: u8, rs1: u8, rs2: u8, rm: u8 },
    FsqrtS { rd: u8, rs1: u8, rm: u8 },
    FmaddS { rd: u8, rs1: u8, rs2: u8, rs3: u8, rm: u8 },
    FmsubS { rd: u8, rs1: u8, rs2: u8, rs3: u8, rm: u8 },
    FnmsubS { rd: u8, rs1: u8, rs2: u8, rs3: u8, rm: u8 },
    FnmaddS { rd: u8, rs1: u8, rs2: u8, rs3: u8, rm: u8 },
    FsgnjS { rd: u8, rs1: u8, rs2: u8 },
    FsgnjnS { rd: u8, rs1: u8, rs2: u8 },
    FsgnjxS { rd: u8, rs1: u8, rs2: u8 },
    FminS { rd: u8, rs1: u8, rs2: u8 },
    FmaxS { rd: u8, rs1: u8, rs2: u8 },
    FeqS { rd: u8, rs1: u8, rs2: u8 },
    FltS { rd: u8, rs1: u8, rs2: u8 },
    FleS { rd: u8, rs1: u8, rs2: u8 },
    FclassS { rd: u8, rs1: u8 },
    FcvtWS { rd: u8, rs1: u8, rm: u8 },
    FcvtWuS { rd: u8, rs1: u8, rm: u8 },
    FcvtSW { rd: u8, rs1: u8, rm: u8 },
    FcvtSWu { rd: u8, rs1: u8, rm: u8 },
    FmvXW { rd: u8, rs1: u8 },
    FmvWX { rd: u8, rs1: u8 },
    FcvtSD { rd: u8, rs1: u8, rm: u8 },
    FcvtDS { rd: u8, rs1: u8, rm: u8 },
    Fld { rd: u8, rs1: u8, imm: i32 },
    Fsd { rs1: u8, rs2: u8, imm: i32 },
    FaddD { rd: u8, rs1: u8, rs2: u8, rm: u8 },
    FsubD { rd: u8, rs1: u8, rs2: u8, rm: u8 },
    FmulD { rd: u8, rs1: u8, rs2: u8, rm: u8 },
    FdivD { rd: u8, rs1: u8, rs2: u8, rm: u8 },
    FsqrtD { rd: u8, rs1: u8, rm: u8 },
    FmaddD { rd: u8, rs1: u8, rs2: u8, rs3: u8, rm: u8 },
    FmsubD { rd: u8, rs1: u8, rs2: u8, rs3: u8, rm: u8 },
    FnmsubD { rd: u8, rs1: u8, rs2: u8, rs3: u8, rm: u8 },
    FnmaddD { rd: u8, rs1: u8, rs2: u8, rs3: u8, rm: u8 },
    FsgnjD { rd: u8, rs1: u8, rs2: u8 },
    FsgnjnD { rd: u8, rs1: u8, rs2: u8 },
    FsgnjxD { rd: u8, rs1: u8, rs2: u8 },
    FminD { rd: u8, rs1: u8, rs2: u8 },
    FmaxD { rd: u8, rs1: u8, rs2: u8 },
    FeqD { rd: u8, rs1: u8, rs2: u8 },
    FltD { rd: u8, rs1: u8, rs2: u8 },
    FleD { rd: u8, rs1: u8, rs2: u8 },
    FclassD { rd: u8, rs1: u8 },
    FcvtWD { rd: u8, rs1: u8, rm: u8 },
    FcvtWuD { rd: u8, rs1: u8, rm: u8 },
    FcvtDW { rd: u8, rs1: u8, rm: u8 },
    FcvtDWu { rd: u8, rs1: u8, rm: u8 },
    Ecall,
    Ebreak,
    Mret,
    Sret,
    Wfi,
    SfenceVma,
    Fence,
    Csrrw { rd: u8, rs1: u8, csr: u16 },
    Csrrs { rd: u8, rs1: u8, csr: u16 },
    Csrrc { rd: u8, rs1: u8, csr: u16 },
    Csrrwi { rd: u8, uimm: u8, csr: u16 },
    Csrrsi { rd: u8, uimm: u8, csr: u16 },
    Csrrci { rd: u8, uimm: u8, csr: u16 },
}

// ---------------------------------------------------------------------------
// Instruction fields, stated arithmetically on the 32-bit word.
// ---------------------------------------------------------------------------

/// Two's-complement reading of `v`, an unsigned field whose sign bit has weight `half`.
pub open spec fn sext_spec(v: int, half: int) -> i32 {
    if v >= half {
        (v - 2 * half) as i32
    } else {
        v as i32
    }
}

/// Bits 6:0.
pub open spec fn opcode_of(raw: u32) -> u32 {
    raw % 0x80
}

/// Bits 11:7.
pub open spec fn rd_of(raw: u32) -> u8 {
    ((raw / 0x80) % 0x20) as u8
}

/// Bits 14:12.
pub open spec fn funct3_of(raw: u32) -> u32 {
    (raw / 0x1000) % 8
}

/// Bits 19:15.
pub open spec fn rs1_of(raw: u32) -> u8 {
    ((raw / 0x8000) % 0x20) as u8
}

/// Bits 24:20.
pub open spec fn rs2_of(raw: u32) -> u8 {
    ((raw / 0x10_0000) % 0x20) as u8
}

/// Bits 31:27.
pub open spec fn rs3_of(raw: u32) -> u8 {
    (raw / 0x800_0000) as u8
}

/// Bits 31:25.
pub open spec fn funct7_of(raw: u32) -> u32 {
    raw / 0x200_0000
}

/// I-type immediate: bits 31:20, sign-extended.
pub open spec fn imm_i_of(raw: u32) -> i32 {
    sext_spec((raw / 0x10_0000) as int, 0x800)
}

/// S-type immediate: imm[11:5] = bits 31:25, imm[4:0] = bits 11:7, sign-extended.
pub open spec fn imm_s_of(raw: u32) -> i32 {
    sext_spec(funct7_of(raw) * 0x20 + (raw / 0x80) % 0x20, 0x800)
}

/// B-type immediate: imm[12] = bit 31, imm[11] = bit 7, imm[10:5] = bits 30:25,
/// imm[4:1] = bits 11:8, imm[0] = 0, sign-extended.
pub open spec fn imm_b_of(raw: u32) -> i32 {
    sext_spec(
        (raw / 0x8000_0000) * 0x1000 + ((raw / 0x80) % 2) * 0x800 + ((raw / 0x200_0000) % 0x40)
            * 0x20 + ((raw / 0x100) % 0x10) * 2,
        0x1000,
    )
}

/// U-type immediate: bits 31:12 in place, low 12 bits zero.
pub open spec fn imm_u_of(raw: u32) -> u32 {
    ((raw / 0x1000) * 0x1000) as u32
}

/// J-type immediate: imm[20] = bit 31, imm[19:12] = bits 19:12, imm[11] = bit 20,
/// imm[10:1] = bits 30:21, imm[0] = 0, sign-extended.
pub open spec fn imm_j_of(raw: u32) -> i32 {
    sext_spec(
        (raw / 0x8000_0000) * 0x10_0000 + ((raw / 0x1000) % 0x100) * 0x1000 + ((raw / 0x10_0000)
            % 2) * 0x800 + ((raw / 0x20_0000) % 0x400) * 2,
        0x10_0000,
    )
}

/// Bits 31:20 as a CSR address.
pub open spec fn csr_of(raw: u32) -> u16 {
    (raw / 0x10_0000) as u16
}

/// Shift-and-mask field extraction on instruction words agrees with the
/// arithmetic field definitions.
proof fn lemma_word_bits(raw: u32)
    by (bit_vector)
    ensures
        ((raw >> 7u32) & 0x1Fu32) == (raw / 0x80) % 0x20,
        ((raw >> 15u32) & 0x1Fu32) == (raw / 0x8000) % 0x20,
        ((raw >> 20u32) & 0x1Fu32) == (raw / 0x10_0000) % 0x20,
        ((raw >> 27u32) & 0x1Fu32) == raw / 0x800_0000,
        ((raw >> 12u32) & 0x7u32) == (raw / 0x1000) % 8,
        ((raw >> 25u32) & 0x7Fu32) == raw / 0x200_0000,
        (raw & 0xFFFFF000u32) == (raw / 0x1000) * 0x1000,
        ((raw >> 20u32) & 0xFFFu32) == raw / 0x10_0000,
        ((raw >> 25u32) & 0x3u32) == (raw / 0x200_0000) % 4,
        (raw & 0x7Fu32) == raw % 0x80,
        ((raw as i32) >> 20u32) as int == (if raw / 0x10_0000 >= 0x800 {
            (raw / 0x10_0000) - 0x1000
        } else {
            (raw / 0x10_0000) as int
        }),
        (if raw & 0x8000_0000u32 != 0u32 {
            ((((raw >> 25u32) & 0x7Fu32) << 5u32) | ((raw >> 7u32) & 0x1Fu32) | 0xFFFFF000u32) as i32
        } else {
            ((((raw >> 25u32) & 0x7Fu32) << 5u32) | ((raw >> 7u32) & 0x1Fu32)) as i32
        }) as int == (if (raw / 0x200_0000) * 0x20 + (raw / 0x80) % 0x20 >= 0x800 {
            (raw / 0x200_0000) * 0x20 + (raw / 0x80) % 0x20 - 0x1000
        } else {
            (raw / 0x200_0000) * 0x20 + (raw / 0x80) % 0x20
        }),
        (if (raw >> 31u32) & 1u32 != 0u32 {
            ((((raw >> 31u32) & 1u32) << 12u32) | (((raw >> 7u32) & 1u32) << 11u32) | (((raw
                >> 25u32) & 0x3Fu32) << 5u32) | (((raw >> 8u32) & 0xFu32) << 1u32)) as i32
                | !0x1FFFi32
        } else {
            ((((raw >> 31u32) & 1u32) << 12u32) | (((raw >> 7u32) & 1u32) << 11u32) | (((raw
                >> 25u32) & 0x3Fu32) << 5u32) | (((raw >> 8u32) & 0xFu32) << 1u32)) as i32
        }) as int == (if (raw / 0x8000_0000) * 0x1000 + ((raw / 0x80) % 2) * 0x800 + ((raw
            / 0x200_0000) % 0x40) * 0x20 + ((raw / 0x100) % 0x10) * 2 >= 0x1000 {
            (raw / 0x8000_0000) * 0x1000 + ((raw / 0x80) % 2) * 0x800 + ((raw / 0x200_0000)
                % 0x40) * 0x20 + ((raw / 0x100) % 0x10) * 2 - 0x2000
        } else {
            (raw / 0x8000_0000) * 0x1000 + ((raw / 0x80) % 2) * 0x800 + ((raw / 0x200_0000)
                % 0x40) * 0x20 + ((raw / 0x100) % 0x10) * 2
        }),
        (if (raw >> 31u32) & 1u32 != 0u32 {
            ((((raw >> 31u32) & 1u32) << 20u32) | (((raw >> 12u32) & 0xFFu32) << 12u32) | (((raw
                >> 20u32) & 1u32) << 11u32) | (((raw >> 21u32) & 0x3FFu32) << 1u32)) as i32
                | !0x1FFFFFi32
        } else {
            ((((raw >> 31u32) & 1u32) << 20u32) | (((raw >> 12u32) & 0xFFu32) << 12u32) | (((raw
                >> 20u32) & 1u32) << 11u32) | (((raw >> 21u32) & 0x3FFu32) << 1u32)) as i32
        }) as int == (if (raw / 0x8000_0000) * 0x10_0000 + ((raw / 0x1000) % 0x100) * 0x1000
            + ((raw / 0x10_0000) % 2) * 0x800 + ((raw / 0x20_0000) % 0x400) * 2 >= 0x10_0000 {
            (raw / 0x8000_0000) * 0x10_0000 + ((raw / 0x1000) % 0x100) * 0x1000 + ((raw
                / 0x10_0000) % 2) * 0x800 + ((raw / 0x20_0000) % 0x400) * 2 - 0x20_0000
        } else {
            (raw / 0x8000_0000) * 0x10_0000 + ((raw / 0x1000) % 0x100) * 0x1000 + ((raw
                / 0x10_0000) % 2) * 0x800 + ((raw / 0x20_0000) % 0x400) * 2
        }),
{
}

fn rd(raw: u32) -> (r: u8)
    ensures
        r == rd_of(raw),
{
    proof {
        lemma_word_bits(raw);
    }
    ((raw >> 7) & 0x1F) as u8
}

fn rs1(raw: u32) -> (r: u8)
    ensures
        r == rs1_of(raw),
{
    proof {
        lemma_word_bits(raw);
    }
    ((raw >> 15) & 0x1F) as u8
}

fn rs2(raw: u32) -> (r: u8)
    ensures
        r == rs2_of(raw),
{
    proof {
        lemma_word_bits(raw);
    }
    ((raw >> 20) & 0x1F) as u8
}

fn rs3(raw: u32) -> (r: u8)
    ensures
        r == rs3_of(raw),
{
    proof {
        lemma_word_bits(raw);
    }
    ((raw >> 27) & 0x1F) as u8
}

fn funct3(raw: u32) -> (r: u32)
    ensures
        r == funct3_of(raw),
{
    proof {
        lemma_word_bits(raw);
    }
    (raw >> 12) & 0x7
}

fn funct7(raw: u32) -> (r: u32)
    ensures
        r == funct7_of(raw),
{
    proof {
        lemma_word_bits(raw);
    }
    (raw >> 25) & 0x7F
}

fn imm_i(raw: u32) -> (r: i32)
    ensures
        r == imm_i_of(raw),
{
    let r = (raw as i32) >> 20;
    proof {
        lemma_word_bits(raw);
    }
    r
}

fn imm_s(raw: u32) -> (r: i32)
    ensures
        r == imm_s_of(raw),
{
    let lo = (raw >> 7) & 0x1F;
    let hi = (raw >> 25) & 0x7F;
    let imm = (hi << 5) | lo;
    // Sign-extend from bit 11
    let r = if raw & 0x8000_0000 != 0 {
        (imm | 0xFFFFF000) as i32
    } else {
        imm as i32
    };
    proof {
        lemma_word_bits(raw);
    }
    r
}

fn imm_b(raw: u32) -> (r: i32)
    ensures
        r == imm_b_of(raw),
{
    let bit12 = (raw >> 31) & 1;
    let bit11 = (raw >> 7) & 1;
    let bits10_5 = (raw >> 25) & 0x3F;
    let bits4_1 = (raw >> 8) & 0xF;
    let imm = (bit12 << 12) | (bit11 << 11) | (bits10_5 << 5) | (bits4_1 << 1);
    let r = if bit12 != 0 {
        imm as i32 | !0x1FFF  // sign extend from bit 12

    } else {
        imm as i32
    };
    proof {
        lemma_word_bits(raw);
    }
    r
}

fn imm_u(raw: u32) -> (r: u32)
    ensures
        r == imm_u_of(raw),
{
    proof {
        lemma_word_bits(raw);
    }
    raw & 0xFFFFF000
}

fn imm_j(raw: u32) -> (r: i32)
    ensures
        r == imm_j_of(raw),
{
    let bit20 = (raw >> 31) & 1;
    let bits19_12 = (raw >> 12) & 0xFF;
    let bit11 = (raw >> 20) & 1;
    let bits10_1 = (raw >> 21) & 0x3FF;
    let imm = (bit20 << 20) | (bits19_12 << 12) | (bit11 << 11) | (bits10_1 << 1);
    let r = if bit20 != 0 {
        imm as i32 | !0x1FFFFF  // sign extend from bit 20

    } else {
        imm as i32
    };
    proof {
        lemma_word_bits(raw);
    }
    r
}

// ---------------------------------------------------------------------------
// The decoding table.
// ---------------------------------------------------------------------------

pub open spec fn illegal() -> Result<Instruction, Trap> {
    Err(Trap::IllegalInstruction)
}

/// BRANCH (opcode 0b1100011).
pub open spec fn decode_branch_spec(raw: u32) -> Result<Instruction, Trap> {
    let (rs1, rs2, imm) = (rs1_of(raw), rs2_of(raw), imm_b_of(raw));
    let f3 = funct3_of(raw);
    if f3 == 0 {
        Ok(Instruction::Beq { rs1, rs2, imm })
    } else if f3 == 1 {
        Ok(Instruction::Bne { rs1, rs2, imm })
    } else if f3 == 4 {
        Ok(Instruction::Blt { rs1, rs2, imm })
    } else if f3 == 5 {
        Ok(Instruction::Bge { rs1, rs2, imm })
    } else if f3 == 6 {
        Ok(Instruction::Bltu { rs1, rs2, imm })
    } else if f3 == 7 {
        Ok(Instruction::Bgeu { rs1, rs2, imm })
    } else {
        illegal()
    }
}

/// LOAD (opcode 0b0000011).
pub open spec fn decode_load_spec(raw: u32) -> Result<Instruction, Trap> {
    let (rd, rs1, imm) = (rd_of(raw), rs1_of(raw), imm_i_of(raw));
    let f3 = funct3_of(raw);
    if f3 == 0 {
        Ok(Instruction::Lb { rd, rs1, imm })
    } else if f3 == 1 {
        Ok(Instruction::Lh { rd, rs1, imm })
    } else if f3 == 2 {
        Ok(Instruction::Lw { rd, rs1, imm })
    } else if f3 == 4 {
        Ok(Instruction::Lbu { rd, rs1, imm })
    } else if f3 == 5 {
        Ok(Instruction::Lhu { rd, rs1, imm })
    } else {
        illegal()
    }
}

/// STORE (opcode 0b0100011).
pub open spec fn decode_store_spec(raw: u32) -> Result<Instruction, Trap> {
    let (rs1, rs2, imm) = (rs1_of(raw), rs2_of(raw), imm_s_of(raw));
    let f3 = funct3_of(raw);
    if f3 == 0 {
        Ok(Instruction::Sb { rs1, rs2, imm })
    } else if f3 == 1 {
        Ok(Instruction::Sh { rs1, rs2, imm })
    } else if f3 == 2 {
        Ok(Instruction::Sw { rs1, rs2, imm })
    } else {
        illegal()
    }
}

/// OP-IMM (opcode 0b0010011). Shift amounts are bits 24:20; on RV32 the
/// funct7 of a shift must be 0 (or 0b0100000 for SRAI).
pub open spec fn decode_op_imm_spec(raw: u32) -> Result<Instruction, Trap> {
    let (rd, rs1, imm) = (rd_of(raw), rs1_of(raw), imm_i_of(raw));
    let shamt = rs2_of(raw);
    let (f3, f7) = (funct3_of(raw), funct7_of(raw));
    if f3 == 0 {
        Ok(Instruction::Addi { rd, rs1, imm })
    } else if f3 == 2 {
        Ok(Instruction::Slti { rd, rs1, imm })
    } else if f3 == 3 {
        Ok(Instruction::Sltiu { rd, rs1, imm })
    } else if f3 == 4 {
        Ok(Instruction::Xori { rd, rs1, imm })
    } else if f3 == 6 {
        Ok(Instruction::Ori { rd, rs1, imm })
    } else if f3 == 7 {
        Ok(Instruction::Andi { rd, rs1, imm })
    } else if f3 == 1 {
        if f7 == 0 {
            Ok(Instruction::Slli { rd, rs1, shamt })
        } else {
            illegal()
        }
    } else {
        if f7 == 0 {
            Ok(Instruction::Srli { rd, rs1, shamt })
        } else if f7 == 0x20 {
            Ok(Instruction::Srai { rd, rs1, shamt })
        } else {
            illegal()
        }
    }
}

/// OP (opcode 0b0110011): base integer and M-extension register-register operations.
pub open spec fn decode_op_spec(raw: u32) -> Result<Instruction, Trap> {
    let (rd, rs1, rs2) = (rd_of(raw), rs1_of(raw), rs2_of(raw));
    let (f3, f7) = (funct3_of(raw), funct7_of(raw));
    if f7 == 0 {
        if f3 == 0 {
            Ok(Instruction::Add { rd, rs1, rs2 })
        } else if f3 == 1 {
            Ok(Instruction::Sll { rd, rs1, rs2 })
        } else if f3 == 2 {
            Ok(Instruction::Slt { rd, rs1, rs2 })
        } else if f3 == 3 {
            Ok(Instruction::Sltu { rd, rs1, rs2 })
        } else if f3 == 4 {
            Ok(Instruction::Xor { rd, rs1, rs2 })
        } else if f3 == 5 {
            Ok(Instruction::Srl { rd, rs1, rs2 })
        } else if f3 == 6 {
            Ok(Instruction::Or { rd, rs1, rs2 })
        } else {
            Ok(Instruction::And { rd, rs1, rs2 })
        }
    } else if f7 == 0x20 {
        if f3 == 0 {
            Ok(Instruction::Sub { rd, rs1, rs2 })
        } else if f3 == 5 {
            Ok(Instruction::Sra { rd, rs1, rs2 })
        } else {
            illegal()
        }
    } else if f7 == 1 {
        if f3 == 0 {
            Ok(Instruction::Mul { rd, rs1, rs2 })
        } else if f3 == 1 {
            Ok(Instruction::Mulh { rd, rs1, rs2 })
        } else if f3 == 2 {
            Ok(Instruction::Mulhsu { rd, rs1, rs2 })
        } else if f3 == 3 {
            Ok(Instruction::Mulhu { rd, rs1, rs2 })
        } else if f3 == 4 {
            Ok(Instruction::Div { rd, rs1, rs2 })
        } else if f3 == 5 {
            Ok(Instruction::Divu { rd, rs1, rs2 })
        } else if f3 == 6 {
            Ok(Instruction::Rem { rd, rs1, rs2 })
        } else {
            Ok(Instruction::Remu { rd, rs1, rs2 })
        }
    } else {
        illegal()
    }
}

/// AMO (opcode 0b0101111). Only the word width (funct3 = 0b010) exists on RV32;
/// the operation is selected by funct5 = bits 31:27.
pub open spec fn decode_amo_spec(raw: u32) -> Result<Instruction, Trap> {
    let (rd, rs1, rs2) = (rd_of(raw), rs1_of(raw), rs2_of(raw));
    let f5 = rs3_of(raw);
    if funct3_of(raw) != 2 {
        illegal()
    } else if f5 == 0x02 {
        Ok(Instruction::LrW { rd, rs1 })
    } else if f5 == 0x03 {
        Ok(Instruction::ScW { rd, rs1, rs2 })
    } else if f5 == 0x01 {
        Ok(Instruction::AmoswapW { rd, rs1, rs2 })
    } else if f5 == 0x00 {
        Ok(Instruction::AmoaddW { rd, rs1, rs2 })
    } else if f5 == 0x04 {
        Ok(Instruction::AmoxorW { rd, rs1, rs2 })
    } else if f5 == 0x0C {
        Ok(Instruction::AmoandW { rd, rs1, rs2 })
    } else if f5 == 0x08 {
        Ok(Instruction::AmoorW { rd, rs1, rs2 })
    } else if f5 == 0x10 {
        Ok(Instruction::AmominW { rd, rs1, rs2 })
    } else if f5 == 0x14 {
        Ok(Instruction::AmomaxW { rd, rs1, rs2 })
    } else if f5 == 0x18 {
        Ok(Instruction::AmominuW { rd, rs1, rs2 })
    } else if f5 == 0x1C {
        Ok(Instruction::AmomaxuW { rd, rs1, rs2 })
    } else {
        illegal()
    }
}

/// SYSTEM (opcode 0b1110011): privileged instructions (funct3 = 0) and Zicsr.
pub open spec fn decode_system_spec(raw: u32) -> Result<Instruction, Trap> {
    let f3 = funct3_of(raw);
    let (rd, rs1, csr) = (rd_of(raw), rs1_of(raw), csr_of(raw));
    if f3 == 0 {
        if funct7_of(raw) == 0x09 {
            Ok(Instruction::SfenceVma)
        } else if raw == 0x0000_0073 {
            Ok(Instruction::Ecall)
        } else if raw == 0x0010_0073 {
            Ok(Instruction::Ebreak)
        } else if raw == 0x3020_0073 {
            Ok(Instruction::Mret)
        } else if raw == 0x1020_0073 {
            Ok(Instruction::Sret)
        } else if raw == 0x1050_0073 {
            Ok(Instruction::Wfi)
        } else {
            illegal()
        }
    } else if f3 == 1 {
        Ok(Instruction::Csrrw { rd, rs1, csr })
    } else if f3 == 2 {
        Ok(Instruction::Csrrs { rd, rs1, csr })
    } else if f3 == 3 {
        Ok(Instruction::Csrrc { rd, rs1, csr })
    } else if f3 == 5 {
        Ok(Instruction::Csrrwi { rd, uimm: rs1, csr })
    } else if f3 == 6 {
        Ok(Instruction::Csrrsi { rd, uimm: rs1, csr })
    } else if f3 == 7 {
        Ok(Instruction::Csrrci { rd, uimm: rs1, csr })
    } else {
        illegal()
    }
}

/// LOAD-FP (opcode 0b0000111).
pub open spec fn decode_load_fp_spec(raw: u32) -> Result<Instruction, Trap> {
    let (rd, rs1, imm) = (rd_of(raw), rs1_of(raw), imm_i_of(raw));
    if funct3_of(raw) == 2 {
        Ok(Instruction::Flw { rd, rs1, imm })
    } else if funct3_of(raw) == 3 {
        Ok(Instruction::Fld { rd, rs1, imm })
    } else {
        illegal()
    }
}

/// STORE-FP (opcode 0b0100111).
pub open spec fn decode_store_fp_spec(raw: u32) -> Result<Instruction, Trap> {
    let (rs1, rs2, imm) = (rs1_of(raw), rs2_of(raw), imm_s_of(raw));
    if funct3_of(raw) == 2 {
        Ok(Instruction::Fsw { rs1, rs2, imm })
    } else if funct3_of(raw) == 3 {
        Ok(Instruction::Fsd { rs1, rs2, imm })
    } else {
        illegal()
    }
}

/// The four fused multiply-add opcodes; `fmt` = bits 26:25 selects single (0) or double (1).
pub open spec fn decode_fma_spec(raw: u32) -> Result<Instruction, Trap> {
    let (rd, rs1, rs2, rs3) = (rd_of(raw), rs1_of(raw), rs2_of(raw), rs3_of(raw));
    let rm = funct3_of(raw) as u8;
    let fmt = (raw / 0x200_0000) % 4;
    let op = opcode_of(raw);
    if fmt == 0 {
        if op == 0x43 {
            Ok(Instruction::FmaddS { rd, rs1, rs2, rs3, rm })
        } else if op == 0x47 {
            Ok(Instruction::FmsubS { rd, rs1, rs2, rs3, rm })
        } else if op == 0x4B {
            Ok(Instruction::FnmsubS { rd, rs1, rs2, rs3, rm })
        } else {
            Ok(Instruction::FnmaddS { rd, rs1, rs2, rs3, rm })
        }
    } else if fmt == 1 {
        if op == 0x43 {
            Ok(Instruction::FmaddD { rd, rs1, rs2, rs3, rm })
        } else if op == 0x47 {
            Ok(Instruction::FmsubD { rd, rs1, rs2, rs3, rm })
        } else if op == 0x4B {
            Ok(Instruction::FnmsubD { rd, rs1, rs2, rs3, rm })
        } else {
            Ok(Instruction::FnmaddD { rd, rs1, rs2, rs3, rm })
        }
    } else {
        illegal()
    }
}

/// OP-FP (opcode 0b1010011), single-precision half (funct7 bit 0 clear).
pub open spec fn decode_op_fp_s_spec(raw: u32) -> Result<Instruction, Trap> {
    let (rd, rs1, rs2) = (rd_of(raw), rs1_of(raw), rs2_of(raw));
    let rm = funct3_of(raw) as u8;
    let f7 = funct7_of(raw);
    if f7 == 0x00 {
        Ok(Instruction::FaddS { rd, rs1, rs2, rm })
    } else if f7 == 0x04 {
        Ok(Instruction::FsubS { rd, rs1, rs2, rm })
    } else if f7 == 0x08 {
        Ok(Instruction::FmulS { rd, rs1, rs2, rm })
    } else if f7 == 0x0C {
        Ok(Instruction::FdivS { rd, rs1, rs2, rm })
    } else if f7 == 0x2C {
        Ok(Instruction::FsqrtS { rd, rs1, rm })
    } else if f7 == 0x10 {
        if rm == 0 {
            Ok(Instruction::FsgnjS { rd, rs1, rs2 })
        } else if rm == 1 {
            Ok(Instruction::FsgnjnS { rd, rs1, rs2 })
        } else if rm == 2 {
            Ok(Instruction::FsgnjxS { rd, rs1, rs2 })
        } else {
            illegal()
        }
    } else if f7 == 0x14 {
        if rm == 0 {
            Ok(Instruction::FminS { rd, rs1, rs2 })
        } else if rm == 1 {
            Ok(Instruction::FmaxS { rd, rs1, rs2 })
        } else {
            illegal()
        }
    } else if f7 == 0x50 {
        if rm == 2 {
            Ok(Instruction::FeqS { rd, rs1, rs2 })
        } else if rm == 1 {
            Ok(Instruction::FltS { rd, rs1, rs2 })
        } else if rm == 0 {
            Ok(Instruction::FleS { rd, rs1, rs2 })
        } else {
            illegal()
        }
    } else if f7 == 0x60 {
        if rs2 == 0 {
            Ok(Instruction::FcvtWS { rd, rs1, rm })
        } else if rs2 == 1 {
            Ok(Instruction::FcvtWuS { rd, rs1, rm })
        } else {
            illegal()
        }
    } else if f7 == 0x68 {
        if rs2 == 0 {
            Ok(Instruction::FcvtSW { rd, rs1, rm })
        } else if rs2 == 1 {
            Ok(Instruction::FcvtSWu { rd, rs1, rm })
        } else {
            illegal()
        }
    } else if f7 == 0x70 {
        if rm == 0 {
            Ok(Instruction::FmvXW { rd, rs1 })
        } else if rm == 1 {
            Ok(Instruction::FclassS { rd, rs1 })
        } else {
            illegal()
        }
    } else if f7 == 0x78 {
        Ok(Instruction::FmvWX { rd, rs1 })
    } else if f7 == 0x20 {
        if rs2 == 1 {
            Ok(Instruction::FcvtSD { rd, rs1, rm })
        } else {
            illegal()
        }
    } else {
        illegal()
    }
}

/// OP-FP (opcode 0b1010011), double-precision half (funct7 bit 0 set).
pub open spec fn decode_op_fp_d_spec(raw: u32) -> Result<Instruction, Trap> {
    let (rd, rs1, rs2) = (rd_of(raw), rs1_of(raw), rs2_of(raw));
    let rm = funct3_of(raw) as u8;
    let f7 = funct7_of(raw);
    if f7 == 0x01 {
        Ok(Instruction::FaddD { rd, rs1, rs2, rm })
    } else if f7 == 0x05 {
        Ok(Instruction::FsubD { rd, rs1, rs2, rm })
    } else if f7 == 0x09 {
        Ok(Instruction::FmulD { rd, rs1, rs2, rm })
    } else if f7 == 0x0D {
        Ok(Instruction::FdivD { rd, rs1, rs2, rm })
    } else if f7 == 0x2D {
        Ok(Instruction::FsqrtD { rd, rs1, rm })
    } else if f7 == 0x11 {
        if rm == 0 {
            Ok(Instruction::FsgnjD { rd, rs1, rs2 })
        } else if rm == 1 {
            Ok(Instruction::FsgnjnD { rd, rs1, rs2 })
        } else if rm == 2 {
            Ok(Instruction::FsgnjxD { rd, rs1, rs2 })
        } else {
            illegal()
        }
    } else if f7 == 0x15 {
        if rm == 0 {
            Ok(Instruction::FminD { rd, rs1, rs2 })
        } else if rm == 1 {
            Ok(Instruction::FmaxD { rd, rs1, rs2 })
        } else {
            illegal()
        }
    } else if f7 == 0x51 {
        if rm == 2 {
            Ok(Instruction::FeqD { rd, rs1, rs2 })
        } else if rm == 1 {
            Ok(Instruction::FltD { rd, rs1, rs2 })
        } else if rm == 0 {
            Ok(Instruction::FleD { rd, rs1, rs2 })
        } else {
            illegal()
        }
    } else if f7 == 0x61 {
        if rs2 == 0 {
            Ok(Instruction::FcvtWD { rd, rs1, rm })
        } else if rs2 == 1 {
            Ok(Instruction::FcvtWuD { rd, rs1, rm })
        } else {
            illegal()
        }
    } else if f7 == 0x69 {
        if rs2 == 0 {
            Ok(Instruction::FcvtDW { rd, rs1, rm })
        } else if rs2 == 1 {
            Ok(Instruction::FcvtDWu { rd, rs1, rm })
        } else {
            illegal()
        }
    } else if f7 == 0x71 {
        if rm == 1 {
            Ok(Instruction::FclassD { rd, rs1 })
        } else {
            illegal()
        }
    } else if f7 == 0x21 {
        if rs2 == 0 {
            Ok(Instruction::FcvtDS { rd, rs1, rm })
        } else {
            illegal()
        }
    } else {
        illegal()
    }
}

/// OP-FP (opcode 0b1010011).
pub open spec fn decode_op_fp_spec(raw: u32) -> Result<Instruction, Trap> {
    if funct7_of(raw) % 2 == 0 {
        decode_op_fp_s_spec(raw)
    } else {
        decode_op_fp_d_spec(raw)
    }
}

/// What a 32-bit instruction word means: the instruction it encodes, or
/// `IllegalInstruction` for every reserved or unsupported encoding.
#[verifier::opaque]
pub open spec fn decode_spec(raw: u32) -> Result<Instruction, Trap> {
    let op = opcode_of(raw);
    if op == 0x37 {
        Ok(Instruction::Lui { rd: rd_of(raw), imm: imm_u_of(raw) })
    } else if op == 0x17 {
        Ok(Instruction::Auipc { rd: rd_of(raw), imm: imm_u_of(raw) })
    } else if op == 0x6F {
        Ok(Instruction::Jal { rd: rd_of(raw), imm: imm_j_of(raw) })
    } else if op == 0x67 {
        if funct3_of(raw) == 0 {
            Ok(Instruction::Jalr { rd: rd_of(raw), rs1: rs1_of(raw), imm: imm_i_of(raw) })
        } else {
            illegal()
        }
    } else if op == 0x63 {
        decode_branch_spec(raw)
    } else if op == 0x03 {
        decode_load_spec(raw)
    } else if op == 0x23 {
        decode_store_spec(raw)
    } else if op == 0x13 {
        decode_op_imm_spec(raw)
    } else if op == 0x33 {
        decode_op_spec(raw)
    } else if op == 0x2F {
        decode_amo_spec(raw)
    } else if op == 0x0F {
        Ok(Instruction::Fence)
    } else if op == 0x73 {
        decode_system_spec(raw)
    } else if op == 0x07 {
        decode_load_fp_spec(raw)
    } else if op == 0x27 {
        decode_store_fp_spec(raw)
    } else if op == 0x43 || op == 0x47 || op == 0x4B || op == 0x4F {
        decode_fma_spec(raw)
    } else if op == 0x53 {
        decode_op_fp_spec(raw)
    } else {
        illegal()
    }
}

fn decode_branch(raw: u32) -> (r: Result<Instruction, Trap>)
    ensures
        r == decode_branch_spec(raw),
{
    let r1 = rs1(raw);
    let r2 = rs2(raw);
    let imm = imm_b(raw);
    match funct3(raw) {
        0b000 => Ok(Instruction::Beq { rs1: r1, rs2: r2, imm }),
        0b001 => Ok(Instruction::Bne { rs1: r1, rs2: r2, imm }),
        0b100 => Ok(Instruction::Blt { rs1: r1, rs2: r2, imm }),
        0b101 => Ok(Instruction::Bge { rs1: r1, rs2: r2, imm }),
        0b110 => Ok(Instruction::Bltu { rs1: r1, rs2: r2, imm }),
        0b111 => Ok(Instruction::Bgeu { rs1: r1, rs2: r2, imm }),
        _ => Err(Trap::IllegalInstruction),
    }
}

fn decode_load(raw: u32) -> (r: Result<Instruction, Trap>)
    ensures
        r == decode_load_spec(raw),
{
    let d = rd(raw);
    let r1 = rs1(raw);
    let imm = imm_i(raw);
    match funct3(raw) {
        0b000 => Ok(Instruction::Lb { rd: d, rs1: r1, imm }),
        0b001 => Ok(Instruction::Lh { rd: d, rs1: r1, imm }),
        0b010 => Ok(Instruction::Lw { rd: d, rs1: r1, imm }),
        0b100 => Ok(Instruction::Lbu { rd: d, rs1: r1, imm }),
        0b101 => Ok(Instruction::Lhu { rd: d, rs1: r1, imm }),
        _ => Err(Trap::IllegalInstruction),
    }
}

fn decode_store(raw: u32) -> (r: Result<Instruction, Trap>)
    ensures
        r == decode_store_spec(raw),
{
    let r1 = rs1(raw);
    let r2 = rs2(raw);
    let imm = imm_s(raw);
    match funct3(raw) {
        0b000 => Ok(Instruction::Sb { rs1: r1, rs2: r2, imm }),
        0b001 => Ok(Instruction::Sh { rs1: r1, rs2: r2, imm }),
        0b010 => Ok(Instruction::Sw { rs1: r1, rs2: r2, imm }),
        _ => Err(Trap::IllegalInstruction),
    }
}

fn decode_op_imm(raw: u32) -> (r: Result<Instruction, Trap>)
    ensures
        r == decode_op_imm_spec(raw),
{
    let d = rd(raw);
    let r1 = rs1(raw);
    let imm = imm_i(raw);
    match funct3(raw) {
        0b000 => Ok(Instruction::Addi { rd: d, rs1: r1, imm }),
        0b010 => Ok(Instruction::Slti { rd: d, rs1: r1, imm }),
        0b011 => Ok(Instruction::Sltiu { rd: d, rs1: r1, imm }),
        0b100 => Ok(Instruction::Xori { rd: d, rs1: r1, imm }),
        0b110 => Ok(Instruction::Ori { rd: d, rs1: r1, imm }),
        0b111 => Ok(Instruction::Andi { rd: d, rs1: r1, imm }),
        0b001 => {
            // SLLI: funct7 must be 0 in RV32 (bit 25 set ⇒ shamt ≥ 32 ⇒ illegal).
            if funct7(raw) != 0 {
                return Err(Trap::IllegalInstruction);
            }
            Ok(Instruction::Slli { rd: d, rs1: r1, shamt: rs2(raw) })
        },
        _ => {
            let shamt = rs2(raw);
            match funct7(raw) {
                0b0000000 => Ok(Instruction::Srli { rd: d, rs1: r1, shamt }),
                0b0100000 => Ok(Instruction::Srai { rd: d, rs1: r1, shamt }),
                _ => Err(Trap::IllegalInstruction),
            }
        },
    }
}

fn decode_op(raw: u32) -> (r: Result<Instruction, Trap>)
    ensures
        r == decode_op_spec(raw),
{
    let d = rd(raw);
    let r1 = rs1(raw);
    let r2 = rs2(raw);
    match (funct3(raw), funct7(raw)) {
        (0b000, 0b0000000) => Ok(Instruction::Add { rd: d, rs1: r1, rs2: r2 }),
        (0b000, 0b0100000) => Ok(Instruction::Sub { rd: d, rs1: r1, rs2: r2 }),
        (0b001, 0b0000000) => Ok(Instruction::Sll { rd: d, rs1: r1, rs2: r2 }),
        (0b010, 0b0000000) => Ok(Instruction::Slt { rd: d, rs1: r1, rs2: r2 }),
        (0b011, 0b0000000) => Ok(Instruction::Sltu { rd: d, rs1: r1, rs2: r2 }),
        (0b100, 0b0000000) => Ok(Instruction::Xor { rd: d, rs1: r1, rs2: r2 }),
        (0b101, 0b0000000) => Ok(Instruction::Srl { rd: d, rs1: r1, rs2: r2 }),
        (0b101, 0b0100000) => Ok(Instruction::Sra { rd: d, rs1: r1, rs2: r2 }),
        (0b110, 0b0000000) => Ok(Instruction::Or { rd: d, rs1: r1, rs2: r2 }),
        (0b111, 0b0000000) => Ok(Instruction::And { rd: d, rs1: r1, rs2: r2 }),
        // M extension (funct7 = 0b0000001)
        (0b000, 0b0000001) => Ok(Instruction::Mul { rd: d, rs1: r1, rs2: r2 }),
        (0b001, 0b0000001) => Ok(Instruction::Mulh { rd: d, rs1: r1, rs2: r2 }),
        (0b010, 0b0000001) => Ok(Instruction::Mulhsu { rd: d, rs1: r1, rs2: r2 }),
        (0b011, 0b0000001) => Ok(Instruction::Mulhu { rd: d, rs1: r1, rs2: r2 }),
        (0b100, 0b0000001) => Ok(Instruction::Div { rd: d, rs1: r1, rs2: r2 }),
        (0b101, 0b0000001) => Ok(Instruction::Divu { rd: d, rs1: r1, rs2: r2 }),
        (0b110, 0b0000001) => Ok(Instruction::Rem { rd: d, rs1: r1, rs2: r2 }),
        (0b111, 0b0000001) => Ok(Instruction::Remu { rd: d, rs1: r1, rs2: r2 }),
        _ => Err(Trap::IllegalInstruction),
    }
}

fn decode_amo(raw: u32) -> (r: Result<Instruction, Trap>)
    ensures
        r == decode_amo_spec(raw),
{
    if funct3(raw) != 0b010 {
        return Err(Trap::IllegalInstruction);
    }
    let d = rd(raw);
    let r1 = rs1(raw);
    let r2 = rs2(raw);
    match rs3(raw) {
        0b00010 => Ok(Instruction::LrW { rd: d, rs1: r1 }),
        0b00011 => Ok(Instruction::ScW { rd: d, rs1: r1, rs2: r2 }),
        0b00001 => Ok(Instruction::AmoswapW { rd: d, rs1: r1, rs2: r2 }),
        0b00000 => Ok(Instruction::AmoaddW { rd: d, rs1: r1, rs2: r2 }),
        0b00100 => Ok(Instruction::AmoxorW { rd: d, rs1: r1, rs2: r2 }),
        0b01100 => Ok(Instruction::AmoandW { rd: d, rs1: r1, rs2: r2 }),
        0b01000 => Ok(Instruction::AmoorW { rd: d, rs1: r1, rs2: r2 }),
        0b10000 => Ok(Instruction::AmominW { rd: d, rs1: r1, rs2: r2 }),
        0b10100 => Ok(Instruction::AmomaxW { rd: d, rs1: r1, rs2: r2 }),
        0b11000 => Ok(Instruction::AmominuW { rd: d, rs1: r1, rs2: r2 }),
        0b11100 => Ok(Instruction::AmomaxuW { rd: d, rs1: r1, rs2: r2 }),
        _ => Err(Trap::IllegalInstruction),
    }
}

fn decode_system(raw: u32) -> (r: Result<Instruction, Trap>)
    ensures
        r == decode_system_spec(raw),
{
    let f3 = funct3(raw);
    if f3 == 0 {
        // sfence.vma has funct7 = 0b0001001
        if funct7(raw) == 0b0001001 {
            return Ok(Instruction::SfenceVma);
        }
        match raw {
            0x00000073 => Ok(Instruction::Ecall),
            0x00100073 => Ok(Instruction::Ebreak),
            0x30200073 => Ok(Instruction::Mret),
            0x10200073 => Ok(Instruction::Sret),
            0x10500073 => Ok(Instruction::Wfi),
            _ => Err(Trap::IllegalInstruction),
        }
    } else {
        let d = rd(raw);
        proof {
            lemma_word_bits(raw);
        }
        let csr = ((raw >> 20) & 0xFFF) as u16;
        match f3 {
            0b001 => Ok(Instruction::Csrrw { rd: d, rs1: rs1(raw), csr }),
            0b010 => Ok(Instruction::Csrrs { rd: d, rs1: rs1(raw), csr }),
            0b011 => Ok(Instruction::Csrrc { rd: d, rs1: rs1(raw), csr }),
            0b101 => Ok(Instruction::Csrrwi { rd: d, uimm: rs1(raw), csr }),
            0b110 => Ok(Instruction::Csrrsi { rd: d, uimm: rs1(raw), csr }),
            0b111 => Ok(Instruction::Csrrci { rd: d, uimm: rs1(raw), csr }),
            _ => Err(Trap::IllegalInstruction),
        }
    }
}

fn decode_load_fp(raw: u32) -> (r: Result<Instruction, Trap>)
    ensures
        r == decode_load_fp_spec(raw),
{
    let d = rd(raw);
    let r1 = rs1(raw);
    let imm = imm_i(raw);
    match funct3(raw) {
        0b010 => Ok(Instruction::Flw { rd: d, rs1: r1, imm }),
        0b011 => Ok(Instruction::Fld { rd: d, rs1: r1, imm }),
        _ => Err(Trap::IllegalInstruction),
    }
}

fn decode_store_fp(raw: u32) -> (r: Result<Instruction, Trap>)
    ensures
        r == decode_store_fp_spec(raw),
{
    let r1 = rs1(raw);
    let r2 = rs2(raw);
    let imm = imm_s(raw);
    match funct3(raw) {
        0b010 => Ok(Instruction::Fsw { rs1: r1, rs2: r2, imm }),
        0b011 => Ok(Instruction::Fsd { rs1: r1, rs2: r2, imm }),
        _ => Err(Trap::IllegalInstruction),
    }
}

fn decode_fma(raw: u32) -> (r: Result<Instruction, Trap>)
    requires
        opcode_of(raw) == 0x43 || opcode_of(raw) == 0x47 || opcode_of(raw) == 0x4B
            || opcode_of(raw) == 0x4F,
    ensures
        r == decode_fma_spec(raw),
{
    proof {
        lemma_word_bits(raw);
    }
    let fmt = (raw >> 25) & 0x3;
    let op = raw & 0x7F;
    let d = rd(raw);
    let r1 = rs1(raw);
    let r2 = rs2(raw);
    let r3 = rs3(raw);
    let rm = funct3(raw) as u8;
    match fmt {
        0b00 => match op {
            0b1000011 => Ok(Instruction::FmaddS { rd: d, rs1: r1, rs2: r2, rs3: r3, rm }),
            0b1000111 => Ok(Instruction::FmsubS { rd: d, rs1: r1, rs2: r2, rs3: r3, rm }),
            0b1001011 => Ok(Instruction::FnmsubS { rd: d, rs1: r1, rs2: r2, rs3: r3, rm }),
            _ => Ok(Instruction::FnmaddS { rd: d, rs1: r1, rs2: r2, rs3: r3, rm }),
        },
        0b01 => match op {
            0b1000011 => Ok(Instruction::FmaddD { rd: d, rs1: r1, rs2: r2, rs3: r3, rm }),
            0b1000111 => Ok(Instruction::FmsubD { rd: d, rs1: r1, rs2: r2, rs3: r3, rm }),
            0b1001011 => Ok(Instruction::FnmsubD { rd: d, rs1: r1, rs2: r2, rs3: r3, rm }),
            _ => Ok(Instruction::FnmaddD { rd: d, rs1: r1, rs2: r2, rs3: r3, rm }),
        },
        _ => Err(Trap::IllegalInstruction),
    }
}

fn decode_op_fp(raw: u32) -> (r: Result<Instruction, Trap>)
    ensures
        r == decode_op_fp_spec(raw),
{
    let d = rd(raw);
    let r1 = rs1(raw);
    let r2 = rs2(raw);
    let rm = funct3(raw) as u8;
    match funct7(raw) {
        // F (single)
        0x00 => Ok(Instruction::FaddS { rd: d, rs1: r1, rs2: r2, rm }),
        0x04 => Ok(Instruction::FsubS { rd: d, rs1: r1, rs2: r2, rm }),
        0x08 => Ok(Instruction::FmulS { rd: d, rs1: r1, rs2: r2, rm }),
        0x0C => Ok(Instruction::FdivS { rd: d, rs1: r1, rs2: r2, rm }),
        0x2C => Ok(Instruction::FsqrtS { rd: d, rs1: r1, rm }),
        0x10 => match rm {
            0b000 => Ok(Instruction::FsgnjS { rd: d, rs1: r1, rs2: r2 }),
            0b001 => Ok(Instruction::FsgnjnS { rd: d, rs1: r1, rs2: r2 }),
            0b010 => Ok(Instruction::FsgnjxS { rd: d, rs1: r1, rs2: r2 }),
            _ => Err(Trap::IllegalInstruction),
        },
        0x14 => match rm {
            0b000 => Ok(Instruction::FminS { rd: d, rs1: r1, rs2: r2 }),
            0b001 => Ok(Instruction::FmaxS { rd: d, rs1: r1, rs2: r2 }),
            _ => Err(Trap::IllegalInstruction),
        },
        0x50 => match rm {
            0b010 => Ok(Instruction::FeqS { rd: d, rs1: r1, rs2: r2 }),
            0b001 => Ok(Instruction::FltS { rd: d, rs1: r1, rs2: r2 }),
            0b000 => Ok(Instruction::FleS { rd: d, rs1: r1, rs2: r2 }),
            _ => Err(Trap::IllegalInstruction),
        },
        0x60 => match r2 {
            0 => Ok(Instruction::FcvtWS { rd: d, rs1: r1, rm }),
            1 => Ok(Instruction::FcvtWuS { rd: d, rs1: r1, rm }),
            _ => Err(Trap::IllegalInstruction),
        },
        0x68 => match r2 {
            0 => Ok(Instruction::FcvtSW { rd: d, rs1: r1, rm }),
            1 => Ok(Instruction::FcvtSWu { rd: d, rs1: r1, rm }),
            _ => Err(Trap::IllegalInstruction),
        },
        0x70 => match rm {
            0b000 => Ok(Instruction::FmvXW { rd: d, rs1: r1 }),
            0b001 => Ok(Instruction::FclassS { rd: d, rs1: r1 }),
            _ => Err(Trap::IllegalInstruction),
        },
        0x78 => Ok(Instruction::FmvWX { rd: d, rs1: r1 }),
        // D (double)
        0x01 => Ok(Instruction::FaddD { rd: d, rs1: r1, rs2: r2, rm }),
        0x05 => Ok(Instruction::FsubD { rd: d, rs1: r1, rs2: r2, rm }),
        0x09 => Ok(Instruction::FmulD { rd: d, rs1: r1, rs2: r2, rm }),
        0x0D => Ok(Instruction::FdivD { rd: d, rs1: r1, rs2: r2, rm }),
        0x2D => Ok(Instruction::FsqrtD { rd: d, rs1: r1, rm }),
        0x11 => match rm {
            0b000 => Ok(Instruction::FsgnjD { rd: d, rs1: r1, rs2: r2 }),
            0b001 => Ok(Instruction::FsgnjnD { rd: d, rs1: r1, rs2: r2 }),
            0b010 => Ok(Instruction::FsgnjxD { rd: d, rs1: r1, rs2: r2 }),
            _ => Err(Trap::IllegalInstruction),
        },
        0x15 => match rm {
            0b000 => Ok(Instruction::FminD { rd: d, rs1: r1, rs2: r2 }),
            0b001 => Ok(Instruction::FmaxD { rd: d, rs1: r1, rs2: r2 }),
            _ => Err(Trap::IllegalInstruction),
        },
        0x51 => match rm {
            0b010 => Ok(Instruction::FeqD { rd: d, rs1: r1, rs2: r2 }),
            0b001 => Ok(Instruction::FltD { rd: d, rs1: r1, rs2: r2 }),
            0b000 => Ok(Instruction::FleD { rd: d, rs1: r1, rs2: r2 }),
            _ => Err(Trap::IllegalInstruction),
        },
        0x61 => match r2 {
            0 => Ok(Instruction::FcvtWD { rd: d, rs1: r1, rm }),
            1 => Ok(Instruction::FcvtWuD { rd: d, rs1: r1, rm }),
            _ => Err(Trap::IllegalInstruction),
        },
        0x69 => match r2 {
            0 => Ok(Instruction::FcvtDW { rd: d, rs1: r1, rm }),
            1 => Ok(Instruction::FcvtDWu { rd: d, rs1: r1, rm }),
            _ => Err(Trap::IllegalInstruction),
        },
        0x71 => match rm {
            0b001 => Ok(Instruction::FclassD { rd: d, rs1: r1 }),
            _ => Err(Trap::IllegalInstruction),
        },
        // S ↔ D conversions
        0x20 => match r2 {
            1 => Ok(Instruction::FcvtSD { rd: d, rs1: r1, rm }),
            _ => Err(Trap::IllegalInstruction),
        },
        0x21 => match r2 {
            0 => Ok(Instruction::FcvtDS { rd: d, rs1: r1, rm }),
            _ => Err(Trap::IllegalInstruction),
        },
        _ => Err(Trap::IllegalInstruction),
    }
}

/// Decode a 32-bit instruction word. Every reserved or unsupported encoding
/// is an `IllegalInstruction`.
pub fn decode(raw: u32) -> (r: Result<Instruction, Trap>)
    ensures
        r == decode_spec(raw),
{
    proof {
        reveal(decode_spec);
        lemma_word_bits(raw);
    }
    let opcode = raw & 0x7F;
    match opcode {
        // LUI
        0b0110111 => Ok(Instruction::Lui { rd: rd(raw), imm: imm_u(raw) }),
        // AUIPC
        0b0010111 => Ok(Instruction::Auipc { rd: rd(raw), imm: imm_u(raw) }),
        // JAL
        0b1101111 => Ok(Instruction::Jal { rd: rd(raw), imm: imm_j(raw) }),
        // JALR (only funct3=000 is legal)
        0b1100111 => {
            if funct3(raw) != 0 {
                return Err(Trap::IllegalInstruction);
            }
            Ok(Instruction::Jalr { rd: rd(raw), rs1: rs1(raw), imm: imm_i(raw) })
        },
        0b1100011 => decode_branch(raw),
        0b0000011 => decode_load(raw),
        0b0100011 => decode_store(raw),
        0b0010011 => decode_op_imm(raw),
        0b0110011 => decode_op(raw),
        0b0101111 => decode_amo(raw),
        // MISC-MEM (FENCE)
        0b0001111 => Ok(Instruction::Fence),
        0b1110011 => decode_system(raw),
        0b0000111 => decode_load_fp(raw),
        0b0100111 => decode_store_fp(raw),
        0b1000011 | 0b1000111 | 0b1001011 | 0b1001111 => decode_fma(raw),
        0b1010011 => decode_op_fp(raw),
        _ => Err(Trap::IllegalInstruction),
    }
}

// ---------------------------------------------------------------------------
// Canonical 32-bit encoders, stated as sums of their fields.
// ---------------------------------------------------------------------------

pub open spec fn enc_r_spec(opcode: u32, funct3: u32, funct7: u32, rd: u32, rs1: u32, rs2: u32) -> u32 {
    (funct7 * 0x200_0000 + rs2 * 0x10_0000 + rs1 * 0x8000 + funct3 * 0x1000 + rd * 0x80
        + opcode) as u32
}

pub open spec fn enc_i_spec(opcode: u32, funct3: u32, rd: u32, rs1: u32, imm: i32) -> u32 {
    (((imm as u32) % 0x1000) * 0x10_0000 + rs1 * 0x8000 + funct3 * 0x1000 + rd * 0x80
        + opcode) as u32
}

pub open spec fn enc_s_spec(opcode: u32, funct3: u32, rs1: u32, rs2: u32, imm: i32) -> u32 {
    let i = imm as u32;
    (((i / 0x20) % 0x80) * 0x200_0000 + rs2 * 0x10_0000 + rs1 * 0x8000 + funct3 * 0x1000 + (i
        % 0x20) * 0x80 + opcode) as u32
}

pub open spec fn enc_b_spec(opcode: u32, funct3: u32, rs1: u32, rs2: u32, imm: i32) -> u32 {
    let i = imm as u32;
    (((i / 0x1000) % 2) * 0x8000_0000 + ((i / 0x20) % 0x40) * 0x200_0000 + rs2 * 0x10_0000 + rs1
        * 0x8000 + funct3 * 0x1000 + ((i / 2) % 0x10) * 0x100 + ((i / 0x800) % 2) * 0x80
        + opcode) as u32
}

pub open spec fn enc_j_spec(opcode: u32, rd: u32, imm: i32) -> u32 {
    let i = imm as u32;
    (((i / 0x10_0000) % 2) * 0x8000_0000 + ((i / 2) % 0x400) * 0x20_0000 + ((i / 0x800) % 2)
        * 0x10_0000 + ((i / 0x1000) % 0x100) * 0x1000 + rd * 0x80 + opcode) as u32
}

pub open spec fn enc_u_spec(opcode: u32, rd: u32, imm: u32) -> u32 {
    ((imm / 0x1000) * 0x1000 + rd * 0x80 + opcode) as u32
}

/// The shift-or encoders agree with the arithmetic encodings.
proof fn lemma_encoders(opcode: u32, funct3: u32, funct7: u32, rd: u32, rs1: u32, rs2: u32, i: u32, u: u32)
    by (bit_vector)
    requires
        opcode < 0x80,
        funct3 < 8,
        funct7 < 0x80,
        rd < 0x20,
        rs1 < 0x20,
        rs2 < 0x20,
    ensures
        (funct7 << 25u32) | (rs2 << 20u32) | (rs1 << 15u32) | (funct3 << 12u32) | (rd << 7u32)
            | opcode == (funct7 * 0x200_0000 + rs2 * 0x10_0000 + rs1 * 0x8000 + funct3 * 0x1000
            + rd * 0x80 + opcode) as u32,
        ((i & 0xFFFu32) << 20u32) | (rs1 << 15u32) | (funct3 << 12u32) | (rd << 7u32) | opcode == ((
        i % 0x1000) * 0x10_0000 + rs1 * 0x8000 + funct3 * 0x1000 + rd * 0x80 + opcode) as u32,
        (((i >> 5u32) & 0x7Fu32) << 25u32) | (rs2 << 20u32) | (rs1 << 15u32) | (funct3 << 12u32)
            | ((i & 0x1Fu32) << 7u32) | opcode == (((i / 0x20) % 0x80) * 0x200_0000 + rs2
            * 0x10_0000 + rs1 * 0x8000 + funct3 * 0x1000 + (i % 0x20) * 0x80 + opcode) as u32,
        (((i >> 12u32) & 1u32) << 31u32) | (((i >> 5u32) & 0x3Fu32) << 25u32) | (rs2 << 20u32) | (
        rs1 << 15u32) | (funct3 << 12u32) | (((i >> 1u32) & 0xFu32) << 8u32) | (((i >> 11u32)
            & 1u32) << 7u32) | opcode == (((i / 0x1000) % 2) * 0x8000_0000 + ((i / 0x20) % 0x40)
            * 0x200_0000 + rs2 * 0x10_0000 + rs1 * 0x8000 + funct3 * 0x1000 + ((i / 2) % 0x10)
            * 0x100 + ((i / 0x800) % 2) * 0x80 + opcode) as u32,
        (((i >> 20u32) & 1u32) << 31u32) | (((i >> 1u32) & 0x3FFu32) << 21u32) | (((i >> 11u32)
            & 1u32) << 20u32) | (((i >> 12u32) & 0xFFu32) << 12u32) | (rd << 7u32) | opcode == (((i
            / 0x10_0000) % 2) * 0x8000_0000 + ((i / 2) % 0x400) * 0x20_0000 + ((i / 0x800) % 2)
            * 0x10_0000 + ((i / 0x1000) % 0x100) * 0x1000 + rd * 0x80 + opcode) as u32,
        (u & 0xFFFFF000u32) | (rd << 7u32) | opcode == ((u / 0x1000) * 0x1000 + rd * 0x80
            + opcode) as u32,
{
}

fn enc_r(opcode: u32, funct3: u32, funct7: u32, rd: u32, rs1: u32, rs2: u32) -> (r: u32)
    requires
        opcode < 0x80,
        funct3 < 8,
        funct7 < 0x80,
        rd < 0x20,
        rs1 < 0x20,
        rs2 < 0x20,
    ensures
        r == enc_r_spec(opcode, funct3, funct7, rd, rs1, rs2),
{
    let r = (funct7 << 25) | (rs2 << 20) | (rs1 << 15) | (funct3 << 12) | (rd << 7) | opcode;
    proof {
        lemma_encoders(opcode, funct3, funct7, rd, rs1, rs2, 0, 0);
    }
    r
}

fn enc_i(opcode: u32, funct3: u32, rd: u32, rs1: u32, imm: i32) -> (r: u32)
    requires
        opcode < 0x80,
        funct3 < 8,
        rd < 0x20,
        rs1 < 0x20,
    ensures
        r == enc_i_spec(opcode, funct3, rd, rs1, imm),
{
    let r = (((imm as u32) & 0xFFF) << 20) | (rs1 << 15) | (funct3 << 12) | (rd << 7) | opcode;
    proof {
        lemma_encoders(opcode, funct3, 0, rd, rs1, 0, imm as u32, 0);
    }
    r
}

fn enc_s(opcode: u32, funct3: u32, rs1: u32, rs2: u32, imm: i32) -> (r: u32)
    requires
        opcode < 0x80,
        funct3 < 8,
        rs1 < 0x20,
        rs2 < 0x20,
    ensures
        r == enc_s_spec(opcode, funct3, rs1, rs2, imm),
{
    let i = imm as u32;
    let r = (((i >> 5) & 0x7F) << 25) | (rs2 << 20) | (rs1 << 15) | (funct3 << 12) | ((i & 0x1F)
        << 7) | opcode;
    proof {
        lemma_encoders(opcode, funct3, 0, 0, rs1, rs2, i, 0);
    }
    r
}

fn enc_b(opcode: u32, funct3: u32, rs1: u32, rs2: u32, imm: i32) -> (r: u32)
    requires
        opcode < 0x80,
        funct3 < 8,
        rs1 < 0x20,
        rs2 < 0x20,
    ensures
        r == enc_b_spec(opcode, funct3, rs1, rs2, imm),
{
    let i = imm as u32;
    let r = (((i >> 12) & 1) << 31) | (((i >> 5) & 0x3F) << 25) | (rs2 << 20) | (rs1 << 15) | (
    funct3 << 12) | (((i >> 1) & 0xF) << 8) | (((i >> 11) & 1) << 7) | opcode;
    proof {
        lemma_encoders(opcode, funct3, 0, 0, rs1, rs2, i, 0);
    }
    r
}

fn enc_j(opcode: u32, rd: u32, imm: i32) -> (r: u32)
    requires
        opcode < 0x80,
        rd < 0x20,
    ensures
        r == enc_j_spec(opcode, rd, imm),
{
    let i = imm as u32;
    let r = (((i >> 20) & 1) << 31) | (((i >> 1) & 0x3FF) << 21) | (((i >> 11) & 1) << 20) | (((i
        >> 12) & 0xFF) << 12) | (rd << 7) | opcode;
    proof {
        lemma_encoders(opcode, 0, 0, rd, 0, 0, i, 0);
    }
    r
}

fn enc_u(opcode: u32, rd: u32, imm: u32) -> (r: u32)
    requires
        opcode < 0x80,
        rd < 0x20,
    ensures
        r == enc_u_spec(opcode, rd, imm),
{
    let r = (imm & 0xFFFFF000) | (rd << 7) | opcode;
    proof {
        lemma_encoders(opcode, 0, 0, rd, 0, 0, 0, imm);
    }
    r
}

// ---------------------------------------------------------------------------
// RVC (16-bit) instruction fields, stated arithmetically on the halfword.
// ---------------------------------------------------------------------------

/// Bits 11:7 (full register number).
pub open spec fn c_rd_full(c: u32) -> u32 {
    (c / 0x80) % 0x20
}

/// Bits 6:2 (full register number).
pub open spec fn c_rs2_full(c: u32) -> u32 {
    (c / 4) % 0x20
}

/// Bits 4:2 as one of x8..x15.
pub open spec fn c_rd_p(c: u32) -> u32 {
    ((c / 4) % 8 + 8) as u32
}

/// Bits 9:7 as one of x8..x15.
pub open spec fn c_rs1_p(c: u32) -> u32 {
    ((c / 0x80) % 8 + 8) as u32
}

/// Bit 12 followed by bits 6:2 (CI-format immediate / shift amount), unsigned.
pub open spec fn ci_bits(c: u32) -> int {
    ((c / 0x1000) % 2) * 0x20 + (c / 4) % 0x20
}

/// C.ADDI4SPN: nzuimm[9:6] = bits 10:7, [5:4] = bits 12:11, [3] = bit 5, [2] = bit 6.
pub open spec fn addi4spn_imm(c: u32) -> int {
    ((c / 0x80) % 0x10) * 0x40 + ((c / 0x800) % 4) * 0x10 + ((c / 0x20) % 2) * 8 + ((c / 0x40)
        % 2) * 4
}

/// C.FLD / C.FSD: uimm[5:3] = bits 12:10, [7:6] = bits 6:5.
pub open spec fn cl_d_imm(c: u32) -> int {
    ((c / 0x400) % 8) * 8 + ((c / 0x20) % 4) * 0x40
}

/// C.LW / C.SW / C.FLW / C.FSW: uimm[6] = bit 5, [5:3] = bits 12:10, [2] = bit 6.
pub open spec fn cl_w_imm(c: u32) -> int {
    ((c / 0x20) % 2) * 0x40 + ((c / 0x400) % 8) * 8 + ((c / 0x40) % 2) * 4
}

/// CJ format: imm[11] = bit 12, [10] = bit 8, [9:8] = bits 10:9, [7] = bit 6, [6] = bit 7,
/// [5] = bit 2, [4] = bit 11, [3:1] = bits 5:3, sign-extended from bit 11.
pub open spec fn cj_imm(c: u32) -> i32 {
    sext_spec(
        ((c / 0x1000) % 2) * 0x800 + ((c / 0x100) % 2) * 0x400 + ((c / 0x200) % 4) * 0x100 + ((c
            / 0x40) % 2) * 0x80 + ((c / 0x80) % 2) * 0x40 + ((c / 4) % 2) * 0x20 + ((c / 0x800) % 2)
            * 0x10 + ((c / 8) % 8) * 2,
        0x800,
    )
}

/// C.ADDI16SP: nzimm[9] = bit 12, [8:7] = bits 4:3, [6] = bit 5, [5] = bit 2, [4] = bit 6.
pub open spec fn addi16sp_bits(c: u32) -> int {
    ((c / 0x1000) % 2) * 0x200 + ((c / 8) % 4) * 0x80 + ((c / 0x20) % 2) * 0x40 + ((c / 4) % 2)
        * 0x20 + ((c / 0x40) % 2) * 0x10
}

/// C.LUI: nzimm[17] = bit 12, nzimm[16:12] = bits 6:2.
pub open spec fn lui_bits(c: u32) -> int {
    ((c / 0x1000) % 2) * 0x20000 + ((c / 4) % 0x20) * 0x1000
}

/// CB format branch offset: imm[8] = bit 12, [7:6] = bits 6:5, [5] = bit 2, [4:3] = bits 11:10,
/// [2:1] = bits 4:3, sign-extended from bit 8.
pub open spec fn cb_imm(c: u32) -> i32 {
    sext_spec(
        ((c / 0x1000) % 2) * 0x100 + ((c / 0x20) % 4) * 0x40 + ((c / 4) % 2) * 0x20 + ((c / 0x400)
            % 4) * 8 + ((c / 8) % 4) * 2,
        0x100,
    )
}

/// C.FLDSP: uimm[5] = bit 12, [4:3] = bits 6:5, [8:6] = bits 4:2.
pub open spec fn ldsp_imm(c: u32) -> int {
    ((c / 0x1000) % 2) * 0x20 + ((c / 0x20) % 4) * 8 + ((c / 4) % 8) * 0x40
}

/// C.LWSP / C.FLWSP: uimm[5] = bit 12, [4:2] = bits 6:4, [7:6] = bits 3:2.
pub open spec fn lwsp_imm(c: u32) -> int {
    ((c / 0x1000) % 2) * 0x20 + ((c / 0x10) % 8) * 4 + ((c / 4) % 4) * 0x40
}

/// C.FSDSP: uimm[5:3] = bits 12:10, [8:6] = bits 9:7.
pub open spec fn sdsp_imm(c: u32) -> int {
    ((c / 0x400) % 8) * 8 + ((c / 0x80) % 8) * 0x40
}

/// C.SWSP / C.FSWSP: uimm[5:2] = bits 12:9, [7:6] = bits 8:7.
pub open spec fn swsp_imm(c: u32) -> int {
    ((c / 0x200) % 0x10) * 4 + ((c / 0x80) % 4) * 0x40
}

/// The canonical 32-bit encoding of a 16-bit RVC instruction, or
/// `IllegalInstruction` for reserved encodings and for words whose low two
/// bits are 0b11 (which are not compressed).
pub open spec fn expand_spec(half: u16) -> Result<u32, Trap> {
    let c = half as u32;
    let op = c % 4;
    let f3 = (c / 0x2000) % 8;
    let (rd, rs2, rd_p, rs1_p) = (c_rd_full(c), c_rs2_full(c), c_rd_p(c), c_rs1_p(c));
    if op == 0 {
        if f3 == 0 {
            // C.ADDI4SPN
            if addi4spn_imm(c) == 0 {
                Err(Trap::IllegalInstruction)
            } else {
                Ok(enc_i_spec(0x13, 0, rd_p, 2, addi4spn_imm(c) as i32))
            }
        } else if f3 == 1 {
            Ok(enc_i_spec(0x07, 3, rd_p, rs1_p, cl_d_imm(c) as i32))  // C.FLD
        } else if f3 == 2 {
            Ok(enc_i_spec(0x03, 2, rd_p, rs1_p, cl_w_imm(c) as i32))  // C.LW
        } else if f3 == 3 {
            Ok(enc_i_spec(0x07, 2, rd_p, rs1_p, cl_w_imm(c) as i32))  // C.FLW
        } else if f3 == 5 {
            Ok(enc_s_spec(0x27, 3, rs1_p, rd_p, cl_d_imm(c) as i32))  // C.FSD
        } else if f3 == 6 {
            Ok(enc_s_spec(0x23, 2, rs1_p, rd_p, cl_w_imm(c) as i32))  // C.SW
        } else if f3 == 7 {
            Ok(enc_s_spec(0x27, 2, rs1_p, rd_p, cl_w_imm(c) as i32))  // C.FSW
        } else {
            Err(Trap::IllegalInstruction)
        }
    } else if op == 1 {
        if f3 == 0 {
            // C.ADDI / C.NOP
            Ok(enc_i_spec(0x13, 0, rd, rd, sext_spec(ci_bits(c), 0x20)))
        } else if f3 == 1 {
            Ok(enc_j_spec(0x6F, 1, cj_imm(c)))  // C.JAL
        } else if f3 == 2 {
            Ok(enc_i_spec(0x13, 0, rd, 0, sext_spec(ci_bits(c), 0x20)))  // C.LI
        } else if f3 == 3 {
            if rd == 2 {
                // C.ADDI16SP
                if addi16sp_bits(c) == 0 {
                    Err(Trap::IllegalInstruction)
                } else {
                    Ok(enc_i_spec(0x13, 0, 2, 2, sext_spec(addi16sp_bits(c), 0x200)))
                }
            } else if rd != 0 {
                // C.LUI
                if lui_bits(c) == 0 {
                    Err(Trap::IllegalInstruction)
                } else {
                    Ok(enc_u_spec(0x37, rd, sext_spec(lui_bits(c), 0x20000) as u32))
                }
            } else {
                Err(Trap::IllegalInstruction)
            }
        } else if f3 == 4 {
            let funct2 = (c / 0x400) % 4;
            if funct2 == 0 || funct2 == 1 {
                // C.SRLI / C.SRAI
                if ci_bits(c) >= 0x20 {
                    Err(Trap::IllegalInstruction)
                } else {
                    Ok(
                        enc_r_spec(
                            0x13,
                            5,
                            if funct2 == 0 {
                                0
                            } else {
                                0x20
                            },
                            rs1_p,
                            rs1_p,
                            ci_bits(c) as u32,
                        ),
                    )
                }
            } else if funct2 == 2 {
                Ok(enc_i_spec(0x13, 7, rs1_p, rs1_p, sext_spec(ci_bits(c), 0x20)))  // C.ANDI
            } else if (c / 0x1000) % 2 != 0 {
                Err(Trap::IllegalInstruction)
            } else {
                // C.SUB / C.XOR / C.OR / C.AND
                let sel = (c / 0x20) % 4;
                let (g3, g7): (u32, u32) = if sel == 0 {
                    (0, 0x20)
                } else if sel == 1 {
                    (4, 0)
                } else if sel == 2 {
                    (6, 0)
                } else {
                    (7, 0)
                };
                Ok(enc_r_spec(0x33, g3, g7, rs1_p, rs1_p, rd_p))
            }
        } else if f3 == 5 {
            Ok(enc_j_spec(0x6F, 0, cj_imm(c)))  // C.J
        } else {
            // C.BEQZ / C.BNEZ
            Ok(
                enc_b_spec(
                    0x63,
                    if f3 == 6 {
                        0
                    } else {
                        1
                    },
                    rs1_p,
                    0,
                    cb_imm(c),
                ),
            )
        }
    } else if op == 2 {
        if f3 == 0 {
            // C.SLLI
            if ci_bits(c) >= 0x20 {
                Err(Trap::IllegalInstruction)
            } else {
                Ok(enc_r_spec(0x13, 1, 0, rd, rd, ci_bits(c) as u32))
            }
        } else if f3 == 1 {
            Ok(enc_i_spec(0x07, 3, rd, 2, ldsp_imm(c) as i32))  // C.FLDSP
        } else if f3 == 2 {
            // C.LWSP
            if rd == 0 {
                Err(Trap::IllegalInstruction)
            } else {
                Ok(enc_i_spec(0x03, 2, rd, 2, lwsp_imm(c) as i32))
            }
        } else if f3 == 3 {
            Ok(enc_i_spec(0x07, 2, rd, 2, lwsp_imm(c) as i32))  // C.FLWSP
        } else if f3 == 4 {
            if (c / 0x1000) % 2 == 0 {
                if rs2 == 0 {
                    // C.JR
                    if rd == 0 {
                        Err(Trap::IllegalInstruction)
                    } else {
                        Ok(enc_i_spec(0x67, 0, 0, rd, 0))
                    }
                } else {
                    Ok(enc_r_spec(0x33, 0, 0, rd, 0, rs2))  // C.MV
                }
            } else if rd == 0 && rs2 == 0 {
                Ok(0x0010_0073)  // C.EBREAK
            } else if rs2 == 0 {
                Ok(enc_i_spec(0x67, 0, 1, rd, 0))  // C.JALR
            } else {
                Ok(enc_r_spec(0x33, 0, 0, rd, rd, rs2))  // C.ADD
            }
        } else if f3 == 5 {
            Ok(enc_s_spec(0x27, 3, 2, rs2, sdsp_imm(c) as i32))  // C.FSDSP
        } else if f3 == 6 {
            Ok(enc_s_spec(0x23, 2, 2, rs2, swsp_imm(c) as i32))  // C.SWSP
        } else {
            Ok(enc_s_spec(0x27, 2, 2, rs2, swsp_imm(c) as i32))  // C.FSWSP
        }
    } else {
        Err(Trap::IllegalInstruction)
    }
}

/// Shift-and-mask extraction of the RVC fields and immediates agrees with
/// their arithmetic definitions.
proof fn lemma_half_bits(h: u32)
    by (bit_vector)
    ensures
        (h & 0x3u32) == h % 4,
        ((h >> 13u32) & 0x7u32) == (h / 0x2000) % 8,
        ((h >> 7u32) & 0x1Fu32) == (h / 0x80) % 0x20,
        ((h >> 2u32) & 0x1Fu32) == (h / 4) % 0x20,
        ((h >> 2u32) & 0x7u32) + 8 == (h / 4) % 8 + 8,
        ((h >> 7u32) & 0x7u32) + 8 == (h / 0x80) % 8 + 8,
        ((h >> 10u32) & 0x3u32) == (h / 0x400) % 4,
        ((h >> 12u32) & 1u32) == (h / 0x1000) % 2,
        ((h >> 5u32) & 0x3u32) == (h / 0x20) % 4,
        ((h >> 7u32) & 0x20u32) | ((h >> 2u32) & 0x1Fu32) == ((h / 0x1000) % 2) * 0x20 + (h / 4)
            % 0x20,
        ((h >> 7u32) & 0x20u32) | ((h >> 2u32) & 0x1Fu32) < 0x40,
        ((h >> 1u32) & 0x800u32) | ((h << 2u32) & 0x400u32) | ((h >> 1u32) & 0x300u32) | ((h
            << 1u32) & 0x80u32) | ((h >> 1u32) & 0x40u32) | ((h << 3u32) & 0x20u32) | ((h >> 7u32)
            & 0x10u32) | ((h >> 2u32) & 0xEu32) == ((h / 0x1000) % 2) * 0x800 + ((h / 0x100) % 2)
            * 0x400 + ((h / 0x200) % 4) * 0x100 + ((h / 0x40) % 2) * 0x80 + ((h / 0x80) % 2) * 0x40
            + ((h / 4) % 2) * 0x20 + ((h / 0x800) % 2) * 0x10 + ((h / 8) % 8) * 2,
        ((h >> 1u32) & 0x800u32) | ((h << 2u32) & 0x400u32) | ((h >> 1u32) & 0x300u32) | ((h
            << 1u32) & 0x80u32) | ((h >> 1u32) & 0x40u32) | ((h << 3u32) & 0x20u32) | ((h >> 7u32)
            & 0x10u32) | ((h >> 2u32) & 0xEu32) < 0x1000,
        ((h >> 1u32) & 0x3C0u32) | ((h >> 7u32) & 0x30u32) | ((h >> 2u32) & 0x8u32) | ((h >> 4u32)
            & 0x4u32) == ((h / 0x80) % 0x10) * 0x40 + ((h / 0x800) % 4) * 0x10 + ((h / 0x20) % 2)
            * 8 + ((h / 0x40) % 2) * 4,
        ((h >> 1u32) & 0x3C0u32) | ((h >> 7u32) & 0x30u32) | ((h >> 2u32) & 0x8u32) | ((h >> 4u32)
            & 0x4u32) < 0x400,
        ((h >> 7u32) & 0x38u32) | ((h << 1u32) & 0xC0u32) == ((h / 0x400) % 8) * 8 + ((h / 0x20)
            % 4) * 0x40,
        ((h >> 7u32) & 0x38u32) | ((h << 1u32) & 0xC0u32) < 0x100,
        ((h << 1u32) & 0x40u32) | ((h >> 7u32) & 0x38u32) | ((h >> 4u32) & 0x4u32) == ((h / 0x20)
            % 2) * 0x40 + ((h / 0x400) % 8) * 8 + ((h / 0x40) % 2) * 4,
        ((h << 1u32) & 0x40u32) | ((h >> 7u32) & 0x38u32) | ((h >> 4u32) & 0x4u32) < 0x80,
        ((h >> 3u32) & 0x200u32) | ((h << 4u32) & 0x180u32) | ((h << 1u32) & 0x40u32) | ((h
            << 3u32) & 0x20u32) | ((h >> 2u32) & 0x10u32) == ((h / 0x1000) % 2) * 0x200 + ((h / 8)
            % 4) * 0x80 + ((h / 0x20) % 2) * 0x40 + ((h / 4) % 2) * 0x20 + ((h / 0x40) % 2) * 0x10,
        ((h >> 3u32) & 0x200u32) | ((h << 4u32) & 0x180u32) | ((h << 1u32) & 0x40u32) | ((h
            << 3u32) & 0x20u32) | ((h >> 2u32) & 0x10u32) < 0x400,
        ((h << 5u32) & 0x20000u32) | ((h << 10u32) & 0x1F000u32) == ((h / 0x1000) % 2) * 0x20000
            + ((h / 4) % 0x20) * 0x1000,
        ((h << 5u32) & 0x20000u32) | ((h << 10u32) & 0x1F000u32) < 0x40000,
        ((h >> 4u32) & 0x100u32) | ((h << 1u32) & 0xC0u32) | ((h << 3u32) & 0x20u32) | ((h >> 7u32)
            & 0x18u32) | ((h >> 2u32) & 0x6u32) == ((h / 0x1000) % 2) * 0x100 + ((h / 0x20) % 4)
            * 0x40 + ((h / 4) % 2) * 0x20 + ((h / 0x400) % 4) * 8 + ((h / 8) % 4) * 2,
        ((h >> 4u32) & 0x100u32) | ((h << 1u32) & 0xC0u32) | ((h << 3u32) & 0x20u32) | ((h >> 7u32)
            & 0x18u32) | ((h >> 2u32) & 0x6u32) < 0x200,
        ((h >> 7u32) & 0x20u32) | ((h >> 2u32) & 0x18u32) | ((h << 4u32) & 0x1C0u32) == ((h
            / 0x1000) % 2) * 0x20 + ((h / 0x20) % 4) * 8 + ((h / 4) % 8) * 0x40,
        ((h >> 7u32) & 0x20u32) | ((h >> 2u32) & 0x18u32) | ((h << 4u32) & 0x1C0u32) < 0x200,
        ((h >> 7u32) & 0x20u32) | ((h >> 2u32) & 0x1Cu32) | ((h << 4u32) & 0xC0u32) == ((h
            / 0x1000) % 2) * 0x20 + ((h / 0x10) % 8) * 4 + ((h / 4) % 4) * 0x40,
        ((h >> 7u32) & 0x20u32) | ((h >> 2u32) & 0x1Cu32) | ((h << 4u32) & 0xC0u32) < 0x100,
        ((h >> 7u32) & 0x38u32) | ((h >> 1u32) & 0x1C0u32) == ((h / 0x400) % 8) * 8 + ((h / 0x80)
            % 8) * 0x40,
        ((h >> 7u32) & 0x38u32) | ((h >> 1u32) & 0x1C0u32) < 0x200,
        ((h >> 7u32) & 0x3Cu32) | ((h >> 1u32) & 0xC0u32) == ((h / 0x200) % 0x10) * 4 + ((h / 0x80)
            % 4) * 0x40,
        ((h >> 7u32) & 0x3Cu32) | ((h >> 1u32) & 0xC0u32) < 0x100,
        1u32 << 5u32 == 0x20 && 2u32 << 5u32 == 0x40,
        1u32 << 8u32 == 0x100 && 2u32 << 8u32 == 0x200,
        1u32 << 9u32 == 0x200 && 2u32 << 9u32 == 0x400,
        1u32 << 11u32 == 0x800 && 2u32 << 11u32 == 0x1000,
        1u32 << 17u32 == 0x20000 && 2u32 << 17u32 == 0x40000,
{
}

/// Bit 5 of a 6-bit value is its top bit.
proof fn lemma_bit5(x: u32)
    by (bit_vector)
    ensures
        x < 0x40 ==> ((x & 0x20u32) != 0u32) == (x >= 0x20),
{
}

/// Sign-extend `value` whose sign lives at `sign_bit` (0-indexed).
fn sext(value: u32, sign_bit: u32) -> (r: i32)
    requires
        sign_bit < 31,
        value < (2u32 << sign_bit),
    ensures
        r == sext_spec(value as int, (1u32 << sign_bit) as int),
{
    let shift = 31 - sign_bit;
    let r = ((value << shift) as i32) >> shift;
    proof {
        assert(r as int == (if value >= (1u32 << sign_bit) {
            value - 2 * (1u32 << sign_bit)
        } else {
            value as int
        })) by (bit_vector)
            requires
                sign_bit < 31u32,
                value < (2u32 << sign_bit),
                shift == 31u32 - sign_bit,
                r == ((value << shift) as i32) >> shift,
        ;
    }
    r
}

fn ci_imm(h: u32) -> (r: i32)
    ensures
        r == sext_spec(ci_bits(h), 0x20),
{
    let bits = ((h >> 7) & 0x20) | ((h >> 2) & 0x1F);
    proof {
        lemma_half_bits(h);
    }
    sext(bits, 5)
}

fn ci_shamt(h: u32) -> (r: u32)
    ensures
        r == ci_bits(h),
{
    let shamt = ((h >> 7) & 0x20) | ((h >> 2) & 0x1F);
    proof {
        lemma_half_bits(h);
    }
    shamt
}

/// CJ-type 12-bit signed immediate used by c.j and c.jal.
fn compressed_j_imm(h: u32) -> (r: i32)
    ensures
        r == cj_imm(h),
{
    let bits = ((h >> 1) & 0x800)  // imm[11] from inst[12]
     | ((h << 2) & 0x400)  // imm[10] from inst[8]
     | ((h >> 1) & 0x300)  // imm[9:8] from inst[10:9]
     | ((h << 1) & 0x80)  // imm[7]  from inst[6]
     | ((h >> 1) & 0x40)  // imm[6]  from inst[7]
     | ((h << 3) & 0x20)  // imm[5]  from inst[2]
     | ((h >> 7) & 0x10)  // imm[4]  from inst[11]
     | ((h >> 2) & 0xE);  // imm[3:1] from inst[5:3]
    proof {
        lemma_half_bits(h);
    }
    sext(bits, 11)
}

/// Expand a 16-bit compressed (RVC) encoding into its canonical 32-bit equivalent.
/// The result is fed back through `decode()` so the execute path remains
/// width-agnostic. Returns `IllegalInstruction` for reserved encodings (e.g.
/// c.addi4spn with imm=0, c.lui with rd∈{0,2}, RV32 shamt[5]=1, etc.).
/// HINTs (legal but no-effect encodings) expand to their nop equivalents.
#[verifier::rlimit(50)]
pub fn expand_compressed(half: u16) -> (r: Result<u32, Trap>)
    ensures
        r == expand_spec(half),
{
    let h = half as u32;
    proof {
        lemma_half_bits(h);
    }
    let op = h & 0x3;
    let funct3 = (h >> 13) & 0x7;
    let rd_full = (h >> 7) & 0x1F;  // bits 11:7
    let rs2_full = (h >> 2) & 0x1F;  // bits 6:2
    let rd_p = ((h >> 2) & 0x7) + 8;  // 3-bit compressed reg at bits 4:2
    let rs1_p = ((h >> 7) & 0x7) + 8;  // 3-bit compressed reg at bits 9:7
    if op == 0b00 {
        match funct3 {
            0b000 => {
                // C.ADDI4SPN — addi rd', x2, nzuimm
                let nz = ((h >> 1) & 0x3C0)  // nzuimm[9:6] from inst[10:7]
                 | ((h >> 7) & 0x30)  // nzuimm[5:4] from inst[12:11]
                 | ((h >> 2) & 0x8)  // nzuimm[3]   from inst[5]
                 | ((h >> 4) & 0x4);  // nzuimm[2]   from inst[6]
                proof {
                    lemma_half_bits(h);
                }
                if nz == 0 {
                    return Err(Trap::IllegalInstruction);
                }
                Ok(enc_i(0x13, 0x0, rd_p, 2, nz as i32))
            },
            0b001 | 0b101 => {
                // C.FLD / C.FSD — uimm[5:3|7:6]
                let uimm = ((h >> 7) & 0x38)  // uimm[5:3] from inst[12:10]
                 | ((h << 1) & 0xC0);  // uimm[7:6] from inst[6:5]
                proof {
                    lemma_half_bits(h);
                }
                if funct3 == 0b001 {
                    Ok(enc_i(0x07, 0x3, rd_p, rs1_p, uimm as i32))
                } else {
                    Ok(enc_s(0x27, 0x3, rs1_p, rd_p, uimm as i32))
                }
            },
            0b100 => Err(Trap::IllegalInstruction),
            _ => {
                // C.LW / C.FLW / C.SW / C.FSW
                let uimm = ((h << 1) & 0x40)  // uimm[6] from inst[5]
                 | ((h >> 7) & 0x38)  // uimm[5:3] from inst[12:10]
                 | ((h >> 4) & 0x4);  // uimm[2] from inst[6]
                proof {
                    lemma_half_bits(h);
                }
                match funct3 {
                    0b010 => Ok(enc_i(0x03, 0x2, rd_p, rs1_p, uimm as i32)),
                    0b011 => Ok(enc_i(0x07, 0x2, rd_p, rs1_p, uimm as i32)),
                    0b110 => Ok(enc_s(0x23, 0x2, rs1_p, rd_p, uimm as i32)),
                    _ => Ok(enc_s(0x27, 0x2, rs1_p, rd_p, uimm as i32)),
                }
            },
        }
    } else if op == 0b01 {
        match funct3 {
            // C.ADDI / C.NOP — addi rd, rd, nzimm (rd=0 ⇒ NOP/HINT)
            0b000 => Ok(enc_i(0x13, 0x0, rd_full, rd_full, ci_imm(h))),
            // C.JAL — jal x1, imm  (RV32 only; RV64 uses this slot for c.addiw)
            0b001 => Ok(enc_j(0x6F, 1, compressed_j_imm(h))),
            // C.LI — addi rd, x0, imm
            0b010 => Ok(enc_i(0x13, 0x0, rd_full, 0, ci_imm(h))),
            0b011 => {
                if rd_full == 2 {
                    // C.ADDI16SP — addi x2, x2, nzimm
                    let bits = ((h >> 3) & 0x200)  // imm[9]   from inst[12]
                     | ((h << 4) & 0x180)  // imm[8:7] from inst[4:3]
                     | ((h << 1) & 0x40)  // imm[6]   from inst[5]
                     | ((h << 3) & 0x20)  // imm[5]   from inst[2]
                     | ((h >> 2) & 0x10);  // imm[4]   from inst[6]
                    proof {
                        lemma_half_bits(h);
                    }
                    if bits == 0 {
                        return Err(Trap::IllegalInstruction);
                    }
                    Ok(enc_i(0x13, 0x0, 2, 2, sext(bits, 9)))
                } else if rd_full != 0 {
                    // C.LUI — lui rd, nzimm
                    let bits = ((h << 5) & 0x20000)  // nzimm[17] from inst[12]
                     | ((h << 10) & 0x1F000);  // nzimm[16:12] from inst[6:2]
                    proof {
                        lemma_half_bits(h);
                    }
                    if bits == 0 {
                        return Err(Trap::IllegalInstruction);
                    }
                    Ok(enc_u(0x37, rd_full, sext(bits, 17) as u32))
                } else {
                    Err(Trap::IllegalInstruction)
                }
            },
            0b100 => {
                let funct2 = (h >> 10) & 0x3;
                match funct2 {
                    0b00 | 0b01 => {
                        // C.SRLI (00) / C.SRAI (01) — shifts on rd' by shamt
                        let shamt = ci_shamt(h);
                        if shamt & 0x20 != 0 {
                            // RV32: shamt[5] must be 0
                            proof {
                                lemma_bit5(shamt);
                            }
                            return Err(Trap::IllegalInstruction);
                        }
                        proof {
                            lemma_bit5(shamt);
                        }
                        let funct7 = if funct2 == 0 {
                            0x00
                        } else {
                            0x20
                        };
                        Ok(enc_r(0x13, 0x5, funct7, rs1_p, rs1_p, shamt))
                    },
                    0b10 => {
                        // C.ANDI — andi rd', rd', imm
                        Ok(enc_i(0x13, 0x7, rs1_p, rs1_p, ci_imm(h)))
                    },
                    _ => {
                        // funct2 = 11: C.SUB / C.XOR / C.OR / C.AND
                        if (h >> 12) & 1 != 0 {
                            // bit 12 = 1 is RV64-only (c.subw/c.addw) — reserved here
                            return Err(Trap::IllegalInstruction);
                        }
                        let (f3, f7) = match (h >> 5) & 0x3 {
                            0b00 => (0x0, 0x20),  // SUB
                            0b01 => (0x4, 0x00),  // XOR
                            0b10 => (0x6, 0x00),  // OR
                            _ => (0x7, 0x00),  // AND
                        };
                        Ok(enc_r(0x33, f3, f7, rs1_p, rs1_p, rd_p))
                    },
                }
            },
            // C.J — jal x0, imm
            0b101 => Ok(enc_j(0x6F, 0, compressed_j_imm(h))),
            _ => {
                // C.BEQZ / C.BNEZ — branch rs1' vs x0
                let bits = ((h >> 4) & 0x100)  // imm[8]
                 | ((h << 1) & 0xC0)  // imm[7:6]
                 | ((h << 3) & 0x20)  // imm[5]
                 | ((h >> 7) & 0x18)  // imm[4:3]
                 | ((h >> 2) & 0x6);  // imm[2:1]
                proof {
                    lemma_half_bits(h);
                }
                let imm = sext(bits, 8);
                let f3 = if funct3 == 0b110 {
                    0x0
                } else {
                    0x1
                };
                Ok(enc_b(0x63, f3, rs1_p, 0, imm))
            },
        }
    } else if op == 0b10 {
        match funct3 {
            0b000 => {
                // C.SLLI — slli rd, rd, shamt (rd=0 ⇒ HINT)
                let shamt = ci_shamt(h);
                proof {
                    lemma_bit5(shamt);
                }
                if shamt & 0x20 != 0 {
                    return Err(Trap::IllegalInstruction);
                }
                Ok(enc_r(0x13, 0x1, 0x00, rd_full, rd_full, shamt))
            },
            0b001 => {
                // C.FLDSP — fld rd, uimm(x2)  (uimm[5|4:3|8:6])
                let uimm = ((h >> 7) & 0x20)  // uimm[5]
                 | ((h >> 2) & 0x18)  // uimm[4:3]
                 | ((h << 4) & 0x1C0);  // uimm[8:6]
                proof {
                    lemma_half_bits(h);
                }
                Ok(enc_i(0x07, 0x3, rd_full, 2, uimm as i32))
            },
            0b010 | 0b011 => {
                // C.LWSP — lw rd, uimm(x2) / C.FLWSP — flw rd, uimm(x2)
                if funct3 == 0b010 && rd_full == 0 {
                    return Err(Trap::IllegalInstruction);
                }
                let uimm = ((h >> 7) & 0x20)  // uimm[5]
                 | ((h >> 2) & 0x1C)  // uimm[4:2]
                 | ((h << 4) & 0xC0);  // uimm[7:6]
                proof {
                    lemma_half_bits(h);
                }
                if funct3 == 0b010 {
                    Ok(enc_i(0x03, 0x2, rd_full, 2, uimm as i32))
                } else {
                    Ok(enc_i(0x07, 0x2, rd_full, 2, uimm as i32))
                }
            },
            0b100 => {
                let bit12 = (h >> 12) & 1;
                if bit12 == 0 {
                    if rs2_full == 0 {
                        // C.JR — jalr x0, 0(rs1)
                        if rd_full == 0 {
                            return Err(Trap::IllegalInstruction);
                        }
                        Ok(enc_i(0x67, 0x0, 0, rd_full, 0))
                    } else {
                        // C.MV — add rd, x0, rs2  (rd=0 ⇒ HINT)
                        Ok(enc_r(0x33, 0x0, 0x00, rd_full, 0, rs2_full))
                    }
                } else if rd_full == 0 && rs2_full == 0 {
                    // C.EBREAK
                    Ok(0x00100073)
                } else if rs2_full == 0 {
                    // C.JALR — jalr x1, 0(rs1)
                    Ok(enc_i(0x67, 0x0, 1, rd_full, 0))
                } else {
                    // C.ADD — add rd, rd, rs2  (rd=0 ⇒ HINT)
                    Ok(enc_r(0x33, 0x0, 0x00, rd_full, rd_full, rs2_full))
                }
            },
            0b101 => {
                // C.FSDSP — fsd rs2, uimm(x2)  (uimm[5:3|8:6])
                let uimm = ((h >> 7) & 0x38)  // uimm[5:3]
                 | ((h >> 1) & 0x1C0);  // uimm[8:6]
                proof {
                    lemma_half_bits(h);
                }
                Ok(enc_s(0x27, 0x3, 2, rs2_full, uimm as i32))
            },
            _ => {
                // C.SWSP / C.FSWSP — sw rs2, uimm(x2)
                let uimm = ((h >> 7) & 0x3C)  // uimm[5:2]
                 | ((h >> 1) & 0xC0);  // uimm[7:6]
                proof {
                    lemma_half_bits(h);
                }
                if funct3 == 0b110 {
                    Ok(enc_s(0x23, 0x2, 2, rs2_full, uimm as i32))
                } else {
                    Ok(enc_s(0x27, 0x2, 2, rs2_full, uimm as i32))
                }
            },
        }
    } else {
        // op = 0b11 is a 32-bit instruction, not compressed at all.
        Err(Trap::IllegalInstruction)
    }
}


/// A BRANCH word (opcode 0x63) decodes by its funct3 (bits 14:12): 0 BEQ,
/// 1 BNE, 4 BLT, 5 BGE, 6 BLTU, 7 BGEU, carrying rs1 = bits 19:15,
/// rs2 = bits 24:20 and the B-immediate (bit 31 → imm[12], bit 7 →
/// imm[11], bits 30:25 → imm[10:5], bits 11:8 → imm[4:1], sign-extended
/// from bit 12); funct3 2 and 3 are reserved.
#[verifier::spinoff_prover]
pub proof fn law_decode_branch(raw: u32)
    requires
        raw % 0x80 == 0x63,
    ensures
        ({
            let f3 = (raw / 0x1000) % 8;
            let rs1 = ((raw / 0x8000) % 32) as u8;
            let rs2 = ((raw / 0x10_0000) % 32) as u8;
            let u = (raw / 0x8000_0000) * 0x1000 + ((raw / 0x80) % 2) * 0x800 + ((raw
                / 0x200_0000) % 0x40) * 0x20 + ((raw / 0x100) % 0x10) * 2;
            let imm = (if u >= 0x1000 { u - 0x2000 } else { u }) as i32;
            &&& f3 == 0 ==> decode_spec(raw) == Ok::<Instruction, Trap>(Instruction::Beq { rs1, rs2, imm })
            &&& f3 == 1 ==> decode_spec(raw) == Ok::<Instruction, Trap>(Instruction::Bne { rs1, rs2, imm })
            &&& f3 == 4 ==> decode_spec(raw) == Ok::<Instruction, Trap>(Instruction::Blt { rs1, rs2, imm })
            &&& f3 == 5 ==> decode_spec(raw) == Ok::<Instruction, Trap>(Instruction::Bge { rs1, rs2, imm })
            &&& f3 == 6 ==> decode_spec(raw) == Ok::<Instruction, Trap>(Instruction::Bltu { rs1, rs2, imm })
            &&& f3 == 7 ==> decode_spec(raw) == Ok::<Instruction, Trap>(Instruction::Bgeu { rs1, rs2, imm })
            &&& (f3 == 2 || f3 == 3) ==> decode_spec(raw) == Err::<Instruction, Trap>(Trap::IllegalInstruction)
        }),
{
    reveal(decode_spec);
}


/// An OP word (opcode 0x33) decodes by funct7 (bits 31:25) and funct3 (bits
/// 14:12), with rd = bits 11:7, rs1 = bits 19:15, rs2 = bits 24:20:
/// funct7 0 gives ADD SLL SLT SLTU XOR SRL OR AND for funct3 0..7; funct7
/// 0x20 gives SUB (funct3 0) and SRA (funct3 5); funct7 1 gives MUL MULH
/// MULHSU MULHU DIV DIVU REM REMU; everything else is reserved.
#[verifier::spinoff_prover]
pub proof fn law_decode_op(raw: u32)
    requires
        raw % 0x80 == 0x33,
    ensures
        ({
            let f3 = (raw / 0x1000) % 8;
            let f7 = raw / 0x200_0000;
            let rd = ((raw / 0x80) % 32) as u8;
            let rs1 = ((raw / 0x8000) % 32) as u8;
            let rs2 = ((raw / 0x10_0000) % 32) as u8;
            let d = decode_spec(raw);
            &&& f7 == 0 && f3 == 0 ==> d == Ok::<Instruction, Trap>(Instruction::Add { rd, rs1, rs2 })
            &&& f7 == 0 && f3 == 1 ==> d == Ok::<Instruction, Trap>(Instruction::Sll { rd, rs1, rs2 })
            &&& f7 == 0 && f3 == 2 ==> d == Ok::<Instruction, Trap>(Instruction::Slt { rd, rs1, rs2 })
            &&& f7 == 0 && f3 == 3 ==> d == Ok::<Instruction, Trap>(Instruction::Sltu { rd, rs1, rs2 })
            &&& f7 == 0 && f3 == 4 ==> d == Ok::<Instruction, Trap>(Instruction::Xor { rd, rs1, rs2 })
            &&& f7 == 0 && f3 == 5 ==> d == Ok::<Instruction, Trap>(Instruction::Srl { rd, rs1, rs2 })
            &&& f7 == 0 && f3 == 6 ==> d == Ok::<Instruction, Trap>(Instruction::Or { rd, rs1, rs2 })
            &&& f7 == 0 && f3 == 7 ==> d == Ok::<Instruction, Trap>(Instruction::And { rd, rs1, rs2 })
            &&& f7 == 0x20 && f3 == 0 ==> d == Ok::<Instruction, Trap>(Instruction::Sub { rd, rs1, rs2 })
            &&& f7 == 0x20 && f3 == 5 ==> d == Ok::<Instruction, Trap>(Instruction::Sra { rd, rs1, rs2 })
            &&& f7 == 1 && f3 == 0 ==> d == Ok::<Instruction, Trap>(Instruction::Mul { rd, rs1, rs2 })
            &&& f7 == 1 && f3 == 1 ==> d == Ok::<Instruction, Trap>(Instruction::Mulh { rd, rs1, rs2 })
            &&& f7 == 1 && f3 == 2 ==> d == Ok::<Instruction, Trap>(Instruction::Mulhsu { rd, rs1, rs2 })
            &&& f7 == 1 && f3 == 3 ==> d == Ok::<Instruction, Trap>(Instruction::Mulhu { rd, rs1, rs2 })
            &&& f7 == 1 && f3 == 4 ==> d == Ok::<Instruction, Trap>(Instruction::Div { rd, rs1, rs2 })
            &&& f7 == 1 && f3 == 5 ==> d == Ok::<Instruction, Trap>(Instruction::Divu { rd, rs1, rs2 })
            &&& f7 == 1 && f3 == 6 ==> d == Ok::<Instruction, Trap>(Instruction::Rem { rd, rs1, rs2 })
            &&& f7 == 1 && f3 == 7 ==> d == Ok::<Instruction, Trap>(Instruction::Remu { rd, rs1, rs2 })
            &&& (f7 == 0x20 && f3 != 0 && f3 != 5) ==> d == Err::<Instruction, Trap>(Trap::IllegalInstruction)
            &&& (f7 != 0 && f7 != 0x20 && f7 != 1) ==> d == Err::<Instruction, Trap>(Trap::IllegalInstruction)
        }),
{
    reveal(decode_spec);
}

/// An OP-IMM word (opcode 0x13) decodes by funct3 to ADDI SLTI SLTIU XORI
/// ORI ANDI (funct3 0, 2, 3, 4, 6, 7) with the sign-extended I-immediate
/// (bits 31:20); funct3 1 is SLLI and funct3 5 SRLI (funct7 0) or SRAI
/// (funct7 0x20), with shift amount bits 24:20; other funct7 values of the
/// shifts are reserved.
#[verifier::spinoff_prover]
pub proof fn law_decode_op_imm(raw: u32)
    requires
        raw % 0x80 == 0x13,
    ensures
        ({
            let f3 = (raw / 0x1000) % 8;
            let f7 = raw / 0x200_0000;
            let rd = ((raw / 0x80) % 32) as u8;
            let rs1 = ((raw / 0x8000) % 32) as u8;
            let shamt = ((raw / 0x10_0000) % 32) as u8;
            let u = raw / 0x10_0000;
            let imm = (if u >= 0x800 { u - 0x1000 } else { u as int }) as i32;
            let d = decode_spec(raw);
            &&& f3 == 0 ==> d == Ok::<Instruction, Trap>(Instruction::Addi { rd, rs1, imm })
            &&& f3 == 2 ==> d == Ok::<Instruction, Trap>(Instruction::Slti { rd, rs1, imm })
            &&& f3 == 3 ==> d == Ok::<Instruction, Trap>(Instruction::Sltiu { rd, rs1, imm })
            &&& f3 == 4 ==> d == Ok::<Instruction, Trap>(Instruction::Xori { rd, rs1, imm })
            &&& f3 == 6 ==> d == Ok::<Instruction, Trap>(Instruction::Ori { rd, rs1, imm })
            &&& f3 == 7 ==> d == Ok::<Instruction, Trap>(Instruction::Andi { rd, rs1, imm })
            &&& f3 == 1 && f7 == 0 ==> d == Ok::<Instruction, Trap>(Instruction::Slli { rd, rs1, shamt })
            &&& f3 == 5 && f7 == 0 ==> d == Ok::<Instruction, Trap>(Instruction::Srli { rd, rs1, shamt })
            &&& f3 == 5 && f7 == 0x20 ==> d == Ok::<Instruction, Trap>(Instruction::Srai { rd, rs1, shamt })
            &&& (f3 == 1 && f7 != 0) || (f3 == 5 && f7 != 0 && f7 != 0x20) ==> d == Err::<Instruction, Trap>(Trap::IllegalInstruction)
        }),
{
    reveal(decode_spec);
}

/// A LOAD word (opcode 0x03) decodes by funct3 to LB LH LW (0, 1, 2) and
/// LBU LHU (4, 5), and a STORE word (opcode 0x23) to SB SH SW (0, 1, 2);
/// the other widths are reserved. Loads carry the I-immediate (bits 31:20),
/// stores the S-immediate (bits 31:25 above bits 11:7), sign-extended.
#[verifier::spinoff_prover]
pub proof fn law_decode_load_store(raw: u32)
    ensures
        ({
            let f3 = (raw / 0x1000) % 8;
            let rd = ((raw / 0x80) % 32) as u8;
            let rs1 = ((raw / 0x8000) % 32) as u8;
            let rs2 = ((raw / 0x10_0000) % 32) as u8;
            let ui = raw / 0x10_0000;
            let imm_i = (if ui >= 0x800 { ui - 0x1000 } else { ui as int }) as i32;
            let us = (raw / 0x200_0000) * 0x20 + (raw / 0x80) % 0x20;
            let imm_s = (if us >= 0x800 { us - 0x1000 } else { us as int }) as i32;
            let d = decode_spec(raw);
            &&& raw % 0x80 == 0x03 ==> {
                &&& f3 == 0 ==> d == Ok::<Instruction, Trap>(Instruction::Lb { rd, rs1, imm: imm_i })
                &&& f3 == 1 ==> d == Ok::<Instruction, Trap>(Instruction::Lh { rd, rs1, imm: imm_i })
                &&& f3 == 2 ==> d == Ok::<Instruction, Trap>(Instruction::Lw { rd, rs1, imm: imm_i })
                &&& f3 == 4 ==> d == Ok::<Instruction, Trap>(Instruction::Lbu { rd, rs1, imm: imm_i })
                &&& f3 == 5 ==> d == Ok::<Instruction, Trap>(Instruction::Lhu { rd, rs1, imm: imm_i })
                &&& (f3 == 3 || f3 >= 6) ==> d == Err::<Instruction, Trap>(Trap::IllegalInstruction)
            }
            &&& raw % 0x80 == 0x23 ==> {
                &&& f3 == 0 ==> d == Ok::<Instruction, Trap>(Instruction::Sb { rs1, rs2, imm: imm_s })
                &&& f3 == 1 ==> d == Ok::<Instruction, Trap>(Instruction::Sh { rs1, rs2, imm: imm_s })
                &&& f3 == 2 ==> d == Ok::<Instruction, Trap>(Instruction::Sw { rs1, rs2, imm: imm_s })
                &&& f3 >= 3 ==> d == Err::<Instruction, Trap>(Trap::IllegalInstruction)
            }
        }),
{
    reveal(decode_spec);
}

/// LUI (0x37) and AUIPC (0x17) carry bits 31:12 as the upper immediate (low
/// 12 bits zero); JAL (0x6F) carries the J-immediate; JALR (0x67) needs
/// funct3 0 and carries the I-immediate.
#[verifier::spinoff_prover]
pub proof fn law_decode_upper_and_jumps(raw: u32)
    ensures
        ({
            let rd = ((raw / 0x80) % 32) as u8;
            let rs1 = ((raw / 0x8000) % 32) as u8;
            let up = ((raw / 0x1000) * 0x1000) as u32;
            let uj = (raw / 0x8000_0000) * 0x10_0000 + ((raw / 0x1000) % 0x100) * 0x1000 + ((raw
                / 0x10_0000) % 2) * 0x800 + ((raw / 0x20_0000) % 0x400) * 2;
            let imm_j = (if uj >= 0x10_0000 { uj - 0x20_0000 } else { uj }) as i32;
            let ui = raw / 0x10_0000;
            let imm_i = (if ui >= 0x800 { ui - 0x1000 } else { ui as int }) as i32;
            let d = decode_spec(raw);
            &&& raw % 0x80 == 0x37 ==> d == Ok::<Instruction, Trap>(Instruction::Lui { rd, imm: up })
            &&& raw % 0x80 == 0x17 ==> d == Ok::<Instruction, Trap>(Instruction::Auipc { rd, imm: up })
            &&& raw % 0x80 == 0x6F ==> d == Ok::<Instruction, Trap>(Instruction::Jal { rd, imm: imm_j })
            &&& raw % 0x80 == 0x67 ==> d == if (raw / 0x1000) % 8 == 0 {
                Ok::<Instruction, Trap>(Instruction::Jalr { rd, rs1, imm: imm_i })
            } else {
                Err::<Instruction, Trap>(Trap::IllegalInstruction)
            }
        }),
{
    reveal(decode_spec);
}


/// An AMO word (opcode 0x2F) needs funct3 2 (word width); its funct5 (bits
/// 31:27) selects LR (2), SC (3), AMOSWAP (1), AMOADD (0), AMOXOR (4),
/// AMOAND (12), AMOOR (8), AMOMIN (16), AMOMAX (20), AMOMINU (24) and
/// AMOMAXU (28); anything else is reserved.
#[verifier::spinoff_prover]
pub proof fn law_decode_amo(raw: u32)
    requires
        raw % 0x80 == 0x2F,
    ensures
        ({
            let f5 = raw / 0x800_0000;
            let rd = ((raw / 0x80) % 32) as u8;
            let rs1 = ((raw / 0x8000) % 32) as u8;
            let rs2 = ((raw / 0x10_0000) % 32) as u8;
            let d = decode_spec(raw);
            let ok = (raw / 0x1000) % 8 == 2;
            &&& !ok ==> d == Err::<Instruction, Trap>(Trap::IllegalInstruction)
            &&& ok && f5 == 2 ==> d == Ok::<Instruction, Trap>(Instruction::LrW { rd, rs1 })
            &&& ok && f5 == 3 ==> d == Ok::<Instruction, Trap>(Instruction::ScW { rd, rs1, rs2 })
            &&& ok && f5 == 1 ==> d == Ok::<Instruction, Trap>(Instruction::AmoswapW { rd, rs1, rs2 })
            &&& ok && f5 == 0 ==> d == Ok::<Instruction, Trap>(Instruction::AmoaddW { rd, rs1, rs2 })
            &&& ok && f5 == 4 ==> d == Ok::<Instruction, Trap>(Instruction::AmoxorW { rd, rs1, rs2 })
            &&& ok && f5 == 12 ==> d == Ok::<Instruction, Trap>(Instruction::AmoandW { rd, rs1, rs2 })
            &&& ok && f5 == 8 ==> d == Ok::<Instruction, Trap>(Instruction::AmoorW { rd, rs1, rs2 })
            &&& ok && f5 == 16 ==> d == Ok::<Instruction, Trap>(Instruction::AmominW { rd, rs1, rs2 })
            &&& ok && f5 == 20 ==> d == Ok::<Instruction, Trap>(Instruction::AmomaxW { rd, rs1, rs2 })
            &&& ok && f5 == 24 ==> d == Ok::<Instruction, Trap>(Instruction::AmominuW { rd, rs1, rs2 })
            &&& ok && f5 == 28 ==> d == Ok::<Instruction, Trap>(Instruction::AmomaxuW { rd, rs1, rs2 })
        }),
{
    reveal(decode_spec);
}

/// A SYSTEM word (opcode 0x73): funct3 1, 2, 3 are CSRRW, CSRRS, CSRRC and
/// 5, 6, 7 their immediate forms (the immediate in bits 19:15), with the
/// CSR number in bits 31:20; with funct3 0 the exact words 0x0000_0073,
/// 0x0010_0073, 0x3020_0073, 0x1020_0073, 0x1050_0073 are ECALL, EBREAK,
/// MRET, SRET, WFI, and funct7 0x09 is SFENCE.VMA.
#[verifier::spinoff_prover]
pub proof fn law_decode_system(raw: u32)
    requires
        raw % 0x80 == 0x73,
    ensures
        ({
            let f3 = (raw / 0x1000) % 8;
            let rd = ((raw / 0x80) % 32) as u8;
            let rs1 = ((raw / 0x8000) % 32) as u8;
            let csr = (raw / 0x10_0000) as u16;
            let d = decode_spec(raw);
            &&& f3 == 1 ==> d == Ok::<Instruction, Trap>(Instruction::Csrrw { rd, rs1, csr })
            &&& f3 == 2 ==> d == Ok::<Instruction, Trap>(Instruction::Csrrs { rd, rs1, csr })
            &&& f3 == 3 ==> d == Ok::<Instruction, Trap>(Instruction::Csrrc { rd, rs1, csr })
            &&& f3 == 5 ==> d == Ok::<Instruction, Trap>(Instruction::Csrrwi { rd, uimm: rs1, csr })
            &&& f3 == 6 ==> d == Ok::<Instruction, Trap>(Instruction::Csrrsi { rd, uimm: rs1, csr })
            &&& f3 == 7 ==> d == Ok::<Instruction, Trap>(Instruction::Csrrci { rd, uimm: rs1, csr })
            &&& f3 == 4 ==> d == Err::<Instruction, Trap>(Trap::IllegalInstruction)
            &&& raw == 0x0000_0073 ==> d == Ok::<Instruction, Trap>(Instruction::Ecall)
            &&& raw == 0x0010_0073 ==> d == Ok::<Instruction, Trap>(Instruction::Ebreak)
            &&& raw == 0x3020_0073 ==> d == Ok::<Instruction, Trap>(Instruction::Mret)
            &&& raw == 0x1020_0073 ==> d == Ok::<Instruction, Trap>(Instruction::Sret)
            &&& raw == 0x1050_0073 ==> d == Ok::<Instruction, Trap>(Instruction::Wfi)
            &&& f3 == 0 && raw / 0x200_0000 == 0x09 ==> d == Ok::<Instruction, Trap>(Instruction::SfenceVma)
        }),
{
    reveal(decode_spec);
}

} // verus!
