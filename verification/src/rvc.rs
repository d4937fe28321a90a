//! What each 16-bit RVC instruction means, and the proof that expanding it
//! and decoding the expansion gives exactly that meaning.
use crate::decode::{
    addi16sp_bits, addi4spn_imm, c_rd_full, c_rd_p, c_rs1_p, c_rs2_full, cb_imm, ci_bits, cj_imm,
    cl_d_imm, cl_w_imm, decode_spec, enc_b_spec, enc_i_spec, enc_j_spec, enc_r_spec, enc_s_spec,
    enc_u_spec, expand_spec, funct3_of, funct7_of, imm_b_of, imm_i_of, imm_j_of, imm_s_of,
    imm_u_of, ldsp_imm, lui_bits, lwsp_imm, opcode_of, rd_of, rs1_of, rs2_of, sdsp_imm, sext_spec,
    swsp_imm, Instruction,
};
use crate::trap::Trap;
use vstd::prelude::*;

verus! {

/// The register and function fields of an encoded word.
proof fn lemma_fields(w: u32, op: u32, f3: u32, f7: u32, rd: u32, rs1: u32, rs2: u32)
    by (bit_vector)
    requires
        op < 0x80,
        f3 < 8,
        f7 < 0x80,
        rd < 32,
        rs1 < 32,
        rs2 < 32,
        w == (f7 * 0x200_0000 + rs2 * 0x10_0000 + rs1 * 0x8000 + f3 * 0x1000 + rd * 0x80 + op) as u32,
    ensures
        w % 0x80 == op,
        (w / 0x80) % 0x20 == rd,
        (w / 0x1000) % 8 == f3,
        (w / 0x8000) % 0x20 == rs1,
        (w / 0x10_0000) % 0x20 == rs2,
        w / 0x200_0000 == f7,
        w / 0x10_0000 == f7 * 0x20 + rs2,
{
}

/// The immediate fields of the I, S, B, J and U formats, as encoded.
proof fn lemma_imm_fields(i: i32, u: u32)
    by (bit_vector)
    requires
        -2048 <= i < 2048,
    ensures
        (((i as u32) % 0x1000) as int) == (if i >= 0 { i as int } else { i + 0x1000 }),
        0 <= i ==> ((i as u32) / 0x20) % 0x80 == (i as u32) / 0x20 && (i as u32) / 0x20 < 0x80
            && ((i as u32) / 0x20) * 0x20 + (i as u32) % 0x20 == i,
        i % 2 == 0 && -256 <= i < 256 ==> ((i as u32) / 0x1000) % 2 * 0x1000 + ((i as u32) / 0x800) % 2 * 0x800
            + ((i as u32) / 0x20) % 0x40 * 0x20 + ((i as u32) / 2) % 0x10 * 2 == (if i >= 0 {
            i as int
        } else {
            i + 0x2000
        }),
        i % 2 == 0 ==> ((i as u32) / 0x10_0000) % 2 * 0x10_0000 + ((i as u32) / 0x1000) % 0x100
            * 0x1000 + ((i as u32) / 0x800) % 2 * 0x800 + ((i as u32) / 2) % 0x400 * 2 == (if i
            >= 0 {
            i as int
        } else {
            i + 0x20_0000
        }),
        u % 0x1000 == 0 ==> (u / 0x1000) * 0x1000 == u,
{
}

/// The fields of a B-type word: opcode, funct3, registers, and the scattered
/// branch-offset bits read back in place.
proof fn lemma_b_bits(op: u32, f3: u32, rs1: u32, rs2: u32, i: u32, w: u32)
    by (bit_vector)
    requires
        op < 0x80,
        f3 < 8,
        rs1 < 32,
        rs2 < 32,
        w == (((i / 0x1000) % 2) * 0x8000_0000 + ((i / 0x20) % 0x40) * 0x200_0000 + rs2 * 0x10_0000
            + rs1 * 0x8000 + f3 * 0x1000 + ((i / 2) % 0x10) * 0x100 + ((i / 0x800) % 2) * 0x80
            + op) as u32,
    ensures
        w % 0x80 == op,
        (w / 0x1000) % 8 == f3,
        (w / 0x8000) % 0x20 == rs1,
        (w / 0x10_0000) % 0x20 == rs2,
        (w / 0x8000_0000) * 0x1000 + ((w / 0x80) % 2) * 0x800 + ((w / 0x200_0000) % 0x40) * 0x20
            + ((w / 0x100) % 0x10) * 2 == ((i / 0x1000) % 2) * 0x1000 + ((i / 0x800) % 2) * 0x800
            + ((i / 0x20) % 0x40) * 0x20 + ((i / 2) % 0x10) * 2,
{
}

/// The fields of a J-type word: opcode, rd, and the scattered jump-offset
/// bits read back in place.
proof fn lemma_j_bits(op: u32, rd: u32, i: u32, w: u32)
    by (bit_vector)
    requires
        op < 0x80,
        rd < 32,
        w == (((i / 0x10_0000) % 2) * 0x8000_0000 + ((i / 2) % 0x400) * 0x20_0000 + ((i / 0x800)
            % 2) * 0x10_0000 + ((i / 0x1000) % 0x100) * 0x1000 + rd * 0x80 + op) as u32,
    ensures
        w % 0x80 == op,
        (w / 0x80) % 0x20 == rd,
        (w / 0x8000_0000) * 0x10_0000 + ((w / 0x1000) % 0x100) * 0x1000 + ((w / 0x10_0000) % 2)
            * 0x800 + ((w / 0x20_0000) % 0x400) * 2 == ((i / 0x10_0000) % 2) * 0x10_0000 + ((i
            / 0x1000) % 0x100) * 0x1000 + ((i / 0x800) % 2) * 0x800 + ((i / 2) % 0x400) * 2,
{
}

/// The fields of a U-type word.
proof fn lemma_u_bits(op: u32, rd: u32, u: u32, w: u32)
    by (bit_vector)
    requires
        op < 0x80,
        rd < 32,
        w == ((u / 0x1000) * 0x1000 + rd * 0x80 + op) as u32,
    ensures
        w % 0x80 == op,
        (w / 0x80) % 0x20 == rd,
        (w / 0x1000) * 0x1000 == (u / 0x1000) * 0x1000,
{
}

/// The ranges of the RVC immediates.
proof fn lemma_rvc_imm_ranges(c: u32)
    ensures
        -2048 <= cj_imm(c) < 2048,
        cj_imm(c) % 2 == 0,
        -256 <= cb_imm(c) < 256,
        cb_imm(c) % 2 == 0,
        -32 <= sext_spec(ci_bits(c), 0x20) < 32,
        0 <= ci_bits(c) < 0x40,
        -512 <= sext_spec(addi16sp_bits(c), 0x200) < 512,
        0 <= addi4spn_imm(c) < 1024,
        0 <= cl_d_imm(c) < 256,
        0 <= cl_w_imm(c) < 128,
        0 <= ldsp_imm(c) < 512,
        0 <= lwsp_imm(c) < 256,
        0 <= sdsp_imm(c) < 512,
        0 <= swsp_imm(c) < 256,
        0 <= lui_bits(c) < 0x40000,
        lui_bits(c) % 0x1000 == 0,
{
}

/// A negative 32-bit integer reinterpreted as unsigned.
pub proof fn lemma_i32_as_u32(i: i32)
    by (bit_vector)
    ensures
        (i as u32) as int == (if i >= 0 { i as int } else { i + 0x1_0000_0000 }),
{
}

/// Decoding the fields of an R-type encoding.
proof fn lemma_dec_r(op: u32, f3: u32, f7: u32, rd: u32, rs1: u32, rs2: u32)
    requires
        op < 0x80,
        f3 < 8,
        f7 < 0x80,
        rd < 32,
        rs1 < 32,
        rs2 < 32,
    ensures
        opcode_of(enc_r_spec(op, f3, f7, rd, rs1, rs2)) == op,
        funct3_of(enc_r_spec(op, f3, f7, rd, rs1, rs2)) == f3,
        funct7_of(enc_r_spec(op, f3, f7, rd, rs1, rs2)) == f7,
        rd_of(enc_r_spec(op, f3, f7, rd, rs1, rs2)) == rd,
        rs1_of(enc_r_spec(op, f3, f7, rd, rs1, rs2)) == rs1,
        rs2_of(enc_r_spec(op, f3, f7, rd, rs1, rs2)) == rs2,
{
    lemma_fields(enc_r_spec(op, f3, f7, rd, rs1, rs2), op, f3, f7, rd, rs1, rs2);
}

/// Decoding the fields of an I-type encoding with a 12-bit signed immediate.
proof fn lemma_dec_i(op: u32, f3: u32, rd: u32, rs1: u32, imm: i32)
    requires
        op < 0x80,
        f3 < 8,
        rd < 32,
        rs1 < 32,
        -2048 <= imm < 2048,
    ensures
        opcode_of(enc_i_spec(op, f3, rd, rs1, imm)) == op,
        funct3_of(enc_i_spec(op, f3, rd, rs1, imm)) == f3,
        rd_of(enc_i_spec(op, f3, rd, rs1, imm)) == rd,
        rs1_of(enc_i_spec(op, f3, rd, rs1, imm)) == rs1,
        imm_i_of(enc_i_spec(op, f3, rd, rs1, imm)) == imm,
        0 <= imm ==> rs2_of(enc_i_spec(op, f3, rd, rs1, imm)) == imm % 0x20,
        0 <= imm ==> funct7_of(enc_i_spec(op, f3, rd, rs1, imm)) == imm / 0x20,
{
    let u = (imm as u32) % 0x1000;
    lemma_imm_fields(imm, 0);
    lemma_fields(enc_i_spec(op, f3, rd, rs1, imm), op, f3, u / 0x20, rd, rs1, u % 0x20);
}

/// Decoding the fields of an S-type encoding with a small non-negative offset.
proof fn lemma_dec_s(op: u32, f3: u32, rs1: u32, rs2: u32, imm: i32)
    requires
        op < 0x80,
        f3 < 8,
        rs1 < 32,
        rs2 < 32,
        0 <= imm < 2048,
    ensures
        opcode_of(enc_s_spec(op, f3, rs1, rs2, imm)) == op,
        funct3_of(enc_s_spec(op, f3, rs1, rs2, imm)) == f3,
        rs1_of(enc_s_spec(op, f3, rs1, rs2, imm)) == rs1,
        rs2_of(enc_s_spec(op, f3, rs1, rs2, imm)) == rs2,
        imm_s_of(enc_s_spec(op, f3, rs1, rs2, imm)) == imm,
{
    let i = imm as u32;
    lemma_imm_fields(imm, 0);
    lemma_fields(enc_s_spec(op, f3, rs1, rs2, imm), op, f3, (i / 0x20) % 0x80, i % 0x20, rs1, rs2);
}

/// Decoding the fields of a B-type encoding with an even offset in [-256, 256).
proof fn lemma_dec_b(op: u32, f3: u32, rs1: u32, rs2: u32, imm: i32)
    requires
        op < 0x80,
        f3 < 8,
        rs1 < 32,
        rs2 < 32,
        -256 <= imm < 256,
        imm % 2 == 0,
    ensures
        opcode_of(enc_b_spec(op, f3, rs1, rs2, imm)) == op,
        funct3_of(enc_b_spec(op, f3, rs1, rs2, imm)) == f3,
        rs1_of(enc_b_spec(op, f3, rs1, rs2, imm)) == rs1,
        rs2_of(enc_b_spec(op, f3, rs1, rs2, imm)) == rs2,
        imm_b_of(enc_b_spec(op, f3, rs1, rs2, imm)) == imm,
{
    lemma_imm_fields(imm, 0);
    lemma_b_bits(op, f3, rs1, rs2, imm as u32, enc_b_spec(op, f3, rs1, rs2, imm));
}

/// Decoding the fields of a J-type encoding with an even offset in [-2048, 2048).
proof fn lemma_dec_j(op: u32, rd: u32, imm: i32)
    requires
        op < 0x80,
        rd < 32,
        -2048 <= imm < 2048,
        imm % 2 == 0,
    ensures
        opcode_of(enc_j_spec(op, rd, imm)) == op,
        rd_of(enc_j_spec(op, rd, imm)) == rd,
        imm_j_of(enc_j_spec(op, rd, imm)) == imm,
{
    lemma_imm_fields(imm, 0);
    lemma_j_bits(op, rd, imm as u32, enc_j_spec(op, rd, imm));
}

/// Decoding the fields of a U-type encoding of a page-aligned immediate.
proof fn lemma_dec_u(op: u32, rd: u32, imm: u32)
    requires
        op < 0x80,
        rd < 32,
        imm % 0x1000 == 0,
    ensures
        opcode_of(enc_u_spec(op, rd, imm)) == op,
        rd_of(enc_u_spec(op, rd, imm)) == rd,
        imm_u_of(enc_u_spec(op, rd, imm)) == imm,
{
    lemma_imm_fields(0, imm);
    lemma_u_bits(op, rd, imm, enc_u_spec(op, rd, imm));
}

/// The instruction a 16-bit RVC encoding stands for (the expansion table of
/// the C extension for RV32 with F and D), or IllegalInstruction for reserved
/// encodings and for halfwords whose low two bits are 0b11.
pub open spec fn rvc_spec(half: u16) -> Result<Instruction, Trap> {
    let c = half as u32;
    let op = c % 4;
    let f3 = (c / 0x2000) % 8;
    let rd = c_rd_full(c) as u8;
    let rs2 = c_rs2_full(c) as u8;
    let rd_p = c_rd_p(c) as u8;
    let rs1_p = c_rs1_p(c) as u8;
    let ci = sext_spec(ci_bits(c), 0x20);
    if op == 0 {
        if f3 == 0 {
            if addi4spn_imm(c) == 0 {
                Err(Trap::IllegalInstruction)
            } else {
                Ok(Instruction::Addi { rd: rd_p, rs1: 2, imm: addi4spn_imm(c) as i32 })
            }
        } else if f3 == 1 {
            Ok(Instruction::Fld { rd: rd_p, rs1: rs1_p, imm: cl_d_imm(c) as i32 })
        } else if f3 == 2 {
            Ok(Instruction::Lw { rd: rd_p, rs1: rs1_p, imm: cl_w_imm(c) as i32 })
        } else if f3 == 3 {
            Ok(Instruction::Flw { rd: rd_p, rs1: rs1_p, imm: cl_w_imm(c) as i32 })
        } else if f3 == 5 {
            Ok(Instruction::Fsd { rs1: rs1_p, rs2: rd_p, imm: cl_d_imm(c) as i32 })
        } else if f3 == 6 {
            Ok(Instruction::Sw { rs1: rs1_p, rs2: rd_p, imm: cl_w_imm(c) as i32 })
        } else if f3 == 7 {
            Ok(Instruction::Fsw { rs1: rs1_p, rs2: rd_p, imm: cl_w_imm(c) as i32 })
        } else {
            Err(Trap::IllegalInstruction)
        }
    } else if op == 1 {
        if f3 == 0 {
            Ok(Instruction::Addi { rd, rs1: rd, imm: ci })
        } else if f3 == 1 {
            Ok(Instruction::Jal { rd: 1, imm: cj_imm(c) })
        } else if f3 == 2 {
            Ok(Instruction::Addi { rd, rs1: 0, imm: ci })
        } else if f3 == 3 {
            if rd == 2 {
                if addi16sp_bits(c) == 0 {
                    Err(Trap::IllegalInstruction)
                } else {
                    Ok(Instruction::Addi { rd: 2, rs1: 2, imm: sext_spec(addi16sp_bits(c), 0x200) })
                }
            } else if rd != 0 && lui_bits(c) != 0 {
                Ok(Instruction::Lui { rd, imm: sext_spec(lui_bits(c), 0x20000) as u32 })
            } else {
                Err(Trap::IllegalInstruction)
            }
        } else if f3 == 4 {
            let funct2 = (c / 0x400) % 4;
            if funct2 == 0 || funct2 == 1 {
                if ci_bits(c) >= 0x20 {
                    Err(Trap::IllegalInstruction)
                } else if funct2 == 0 {
                    Ok(Instruction::Srli { rd: rs1_p, rs1: rs1_p, shamt: ci_bits(c) as u8 })
                } else {
                    Ok(Instruction::Srai { rd: rs1_p, rs1: rs1_p, shamt: ci_bits(c) as u8 })
                }
            } else if funct2 == 2 {
                Ok(Instruction::Andi { rd: rs1_p, rs1: rs1_p, imm: ci })
            } else if (c / 0x1000) % 2 != 0 {
                Err(Trap::IllegalInstruction)
            } else {
                let sel = (c / 0x20) % 4;
                if sel == 0 {
                    Ok(Instruction::Sub { rd: rs1_p, rs1: rs1_p, rs2: rd_p })
                } else if sel == 1 {
                    Ok(Instruction::Xor { rd: rs1_p, rs1: rs1_p, rs2: rd_p })
                } else if sel == 2 {
                    Ok(Instruction::Or { rd: rs1_p, rs1: rs1_p, rs2: rd_p })
                } else {
                    Ok(Instruction::And { rd: rs1_p, rs1: rs1_p, rs2: rd_p })
                }
            }
        } else if f3 == 5 {
            Ok(Instruction::Jal { rd: 0, imm: cj_imm(c) })
        } else if f3 == 6 {
            Ok(Instruction::Beq { rs1: rs1_p, rs2: 0, imm: cb_imm(c) })
        } else {
            Ok(Instruction::Bne { rs1: rs1_p, rs2: 0, imm: cb_imm(c) })
        }
    } else if op == 2 {
        if f3 == 0 {
            if ci_bits(c) >= 0x20 {
                Err(Trap::IllegalInstruction)
            } else {
                Ok(Instruction::Slli { rd, rs1: rd, shamt: ci_bits(c) as u8 })
            }
        } else if f3 == 1 {
            Ok(Instruction::Fld { rd, rs1: 2, imm: ldsp_imm(c) as i32 })
        } else if f3 == 2 {
            if rd == 0 {
                Err(Trap::IllegalInstruction)
            } else {
                Ok(Instruction::Lw { rd, rs1: 2, imm: lwsp_imm(c) as i32 })
            }
        } else if f3 == 3 {
            Ok(Instruction::Flw { rd, rs1: 2, imm: lwsp_imm(c) as i32 })
        } else if f3 == 4 {
            if (c / 0x1000) % 2 == 0 {
                if rs2 == 0 {
                    if rd == 0 {
                        Err(Trap::IllegalInstruction)
                    } else {
                        Ok(Instruction::Jalr { rd: 0, rs1: rd, imm: 0 })
                    }
                } else {
                    Ok(Instruction::Add { rd, rs1: 0, rs2 })
                }
            } else if rd == 0 && rs2 == 0 {
                Ok(Instruction::Ebreak)
            } else if rs2 == 0 {
                Ok(Instruction::Jalr { rd: 1, rs1: rd, imm: 0 })
            } else {
                Ok(Instruction::Add { rd, rs1: rd, rs2 })
            }
        } else if f3 == 5 {
            Ok(Instruction::Fsd { rs1: 2, rs2, imm: sdsp_imm(c) as i32 })
        } else if f3 == 6 {
            Ok(Instruction::Sw { rs1: 2, rs2, imm: swsp_imm(c) as i32 })
        } else {
            Ok(Instruction::Fsw { rs1: 2, rs2, imm: swsp_imm(c) as i32 })
        }
    } else {
        Err(Trap::IllegalInstruction)
    }
}

/// What decoding an expansion gives: the decoded instruction, or the
/// expansion's own error.
pub open spec fn decode_expanded(half: u16) -> Result<Instruction, Trap> {
    match expand_spec(half) {
        Ok(w) => decode_spec(w),
        Err(t) => Err(t),
    }
}

proof fn lemma_quadrant0(half: u16)
    requires
        (half as u32) % 4 == 0,
    ensures
        decode_expanded(half) == rvc_spec(half),
{
    reveal(decode_spec);
    let c = half as u32;
    let f3 = (c / 0x2000) % 8;
    let (rd_p, rs1_p) = (c_rd_p(c), c_rs1_p(c));
    if f3 == 0 {
        if addi4spn_imm(c) != 0 {
            lemma_dec_i(0x13, 0, rd_p, 2, addi4spn_imm(c) as i32);
        }
    } else if f3 == 1 {
        lemma_dec_i(0x07, 3, rd_p, rs1_p, cl_d_imm(c) as i32);
    } else if f3 == 2 {
        lemma_dec_i(0x03, 2, rd_p, rs1_p, cl_w_imm(c) as i32);
    } else if f3 == 3 {
        lemma_dec_i(0x07, 2, rd_p, rs1_p, cl_w_imm(c) as i32);
    } else if f3 == 5 {
        lemma_dec_s(0x27, 3, rs1_p, rd_p, cl_d_imm(c) as i32);
    } else if f3 == 6 {
        lemma_dec_s(0x23, 2, rs1_p, rd_p, cl_w_imm(c) as i32);
    } else if f3 == 7 {
        lemma_dec_s(0x27, 2, rs1_p, rd_p, cl_w_imm(c) as i32);
    }
}

proof fn lemma_q1_jumps_and_immediates(half: u16)
    requires
        (half as u32) % 4 == 1,
        ((half as u32) / 0x2000) % 8 == 0 || ((half as u32) / 0x2000) % 8 == 1 || ((half as u32)
            / 0x2000) % 8 == 2 || ((half as u32) / 0x2000) % 8 == 5,
    ensures
        decode_expanded(half) == rvc_spec(half),
{
    reveal(decode_spec);
    let c = half as u32;
    lemma_rvc_imm_ranges(c);
    let f3 = (c / 0x2000) % 8;
    let rd = c_rd_full(c);
    let ci = sext_spec(ci_bits(c), 0x20);
    if f3 == 0 {
        lemma_dec_i(0x13, 0, rd, rd, ci);
    } else if f3 == 1 {
        lemma_dec_j(0x6F, 1, cj_imm(c));
    } else if f3 == 2 {
        lemma_dec_i(0x13, 0, rd, 0, ci);
    } else {
        lemma_dec_j(0x6F, 0, cj_imm(c));
    }
}

proof fn lemma_q1_lui(half: u16)
    requires
        (half as u32) % 4 == 1,
        ((half as u32) / 0x2000) % 8 == 3,
    ensures
        decode_expanded(half) == rvc_spec(half),
{
    reveal(decode_spec);
    let c = half as u32;
    lemma_rvc_imm_ranges(c);
    let rd = c_rd_full(c);
    lemma_i32_as_u32(sext_spec(lui_bits(c), 0x20000));
    if rd == 2 {
        if addi16sp_bits(c) != 0 {
            lemma_dec_i(0x13, 0, 2, 2, sext_spec(addi16sp_bits(c), 0x200));
        }
    } else if rd != 0 && lui_bits(c) != 0 {
        lemma_dec_u(0x37, rd, sext_spec(lui_bits(c), 0x20000) as u32);
    }
}

proof fn lemma_q1_alu(half: u16)
    requires
        (half as u32) % 4 == 1,
        ((half as u32) / 0x2000) % 8 == 4,
    ensures
        decode_expanded(half) == rvc_spec(half),
{
    reveal(decode_spec);
    let c = half as u32;
    let (rd_p, rs1_p) = (c_rd_p(c), c_rs1_p(c));
    let ci = sext_spec(ci_bits(c), 0x20);
    let funct2 = (c / 0x400) % 4;
    if funct2 == 0 || funct2 == 1 {
        if ci_bits(c) < 0x20 {
            lemma_dec_r(0x13, 5, if funct2 == 0 { 0 } else { 0x20 }, rs1_p, rs1_p, ci_bits(c) as u32);
        }
    } else if funct2 == 2 {
        lemma_dec_i(0x13, 7, rs1_p, rs1_p, ci);
    } else if (c / 0x1000) % 2 == 0 {
        let sel = (c / 0x20) % 4;
        if sel == 0 {
            lemma_dec_r(0x33, 0, 0x20, rs1_p, rs1_p, rd_p);
        } else if sel == 1 {
            lemma_dec_r(0x33, 4, 0, rs1_p, rs1_p, rd_p);
        } else if sel == 2 {
            lemma_dec_r(0x33, 6, 0, rs1_p, rs1_p, rd_p);
        } else {
            lemma_dec_r(0x33, 7, 0, rs1_p, rs1_p, rd_p);
        }
    }
}

proof fn lemma_q1_branches(half: u16)
    requires
        (half as u32) % 4 == 1,
        ((half as u32) / 0x2000) % 8 >= 6,
    ensures
        decode_expanded(half) == rvc_spec(half),
{
    reveal(decode_spec);
    let c = half as u32;
    lemma_rvc_imm_ranges(c);
    let f3 = (c / 0x2000) % 8;
    lemma_dec_b(0x63, if f3 == 6 { 0 } else { 1 }, c_rs1_p(c), 0, cb_imm(c));
}

proof fn lemma_quadrant1(half: u16)
    requires
        (half as u32) % 4 == 1,
    ensures
        decode_expanded(half) == rvc_spec(half),
{
    let f3 = ((half as u32) / 0x2000) % 8;
    if f3 == 3 {
        lemma_q1_lui(half);
    } else if f3 == 4 {
        lemma_q1_alu(half);
    } else if f3 >= 6 {
        lemma_q1_branches(half);
    } else {
        lemma_q1_jumps_and_immediates(half);
    }
}

proof fn lemma_quadrant2(half: u16)
    requires
        (half as u32) % 4 == 2,
    ensures
        decode_expanded(half) == rvc_spec(half),
{
    reveal(decode_spec);
    let c = half as u32;
    let f3 = (c / 0x2000) % 8;
    let (rd, rs2) = (c_rd_full(c), c_rs2_full(c));
    if f3 == 0 {
        if ci_bits(c) < 0x20 {
            lemma_dec_r(0x13, 1, 0, rd, rd, ci_bits(c) as u32);
        }
    } else if f3 == 1 {
        lemma_dec_i(0x07, 3, rd, 2, ldsp_imm(c) as i32);
    } else if f3 == 2 {
        if rd != 0 {
            lemma_dec_i(0x03, 2, rd, 2, lwsp_imm(c) as i32);
        }
    } else if f3 == 3 {
        lemma_dec_i(0x07, 2, rd, 2, lwsp_imm(c) as i32);
    } else if f3 == 4 {
        if (c / 0x1000) % 2 == 0 {
            if rs2 == 0 {
                if rd != 0 {
                    lemma_dec_i(0x67, 0, 0, rd, 0);
                }
            } else {
                lemma_dec_r(0x33, 0, 0, rd, 0, rs2);
            }
        } else if rd == 0 && rs2 == 0 {
        } else if rs2 == 0 {
            lemma_dec_i(0x67, 0, 1, rd, 0);
        } else {
            lemma_dec_r(0x33, 0, 0, rd, rd, rs2);
        }
    } else if f3 == 5 {
        lemma_dec_s(0x27, 3, 2, rs2, sdsp_imm(c) as i32);
    } else if f3 == 6 {
        lemma_dec_s(0x23, 2, 2, rs2, swsp_imm(c) as i32);
    } else {
        lemma_dec_s(0x27, 2, 2, rs2, swsp_imm(c) as i32);
    }
}

/// Every compressed encoding means the same instruction as its canonical
/// 32-bit form decoded directly: expanding a halfword and decoding the
/// expansion gives the instruction the RVC table assigns to it, and a
/// reserved encoding is IllegalInstruction either way.
pub proof fn law_expand_then_decode(half: u16)
    ensures
        decode_expanded(half) == rvc_spec(half),
{
    let c = half as u32;
    if c % 4 == 0 {
        lemma_quadrant0(half);
    } else if c % 4 == 1 {
        lemma_quadrant1(half);
    } else if c % 4 == 2 {
        lemma_quadrant2(half);
    }
}

/// Expansion succeeds exactly where the RVC table has an instruction.
proof fn lemma_expand_ok(half: u16)
    ensures
        expand_spec(half) is Ok <==> rvc_spec(half) is Ok,
        expand_spec(half) is Err ==> expand_spec(half) == Err::<u32, Trap>(Trap::IllegalInstruction),
{
}

/// A word that decodes has the 32-bit instruction length bits `11`.
proof fn lemma_decoded_low_bits(raw: u32)
    requires
        decode_spec(raw) is Ok,
    ensures
        raw % 4 == 3,
{
    reveal(decode_spec);
    assert(raw % 4 == (raw % 0x80) % 4) by (nonlinear_arith);
}

/// Expansion never yields a word that fails to decode: a halfword with low
/// bits `11` (a 32-bit instruction) or a reserved compressed encoding is
/// IllegalInstruction, and every other halfword expands to a 32-bit
/// instruction (low bits `11`) that decodes without error.
pub proof fn law_expansion_decodes(half: u16)
    ensures
        (half as u32) % 4 == 3 ==> expand_spec(half) == Err::<u32, Trap>(Trap::IllegalInstruction),
        expand_spec(half) is Err ==> expand_spec(half) == Err::<u32, Trap>(Trap::IllegalInstruction),
        expand_spec(half) matches Ok(raw) ==> raw % 4 == 3 && decode_spec(raw) is Ok,
{
    law_expand_then_decode(half);
    lemma_expand_ok(half);
    if let Ok(raw) = expand_spec(half) {
        lemma_decoded_low_bits(raw);
    }
}

} // verus!
