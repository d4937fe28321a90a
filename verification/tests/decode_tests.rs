use rvsim::decode::{decode, expand_compressed, Instruction};

#[test]
fn decode_addi() {
    // addi x1, x0, 42 => imm=42, rs1=0, funct3=000, rd=1, opcode=0010011
    let inst = decode(0x02A00093).unwrap();
    assert_eq!(inst, Instruction::Addi { rd: 1, rs1: 0, imm: 42 });
}

#[test]
fn decode_add() {
    // add x3, x1, x2
    let inst = decode(0x002081B3).unwrap();
    assert_eq!(inst, Instruction::Add { rd: 3, rs1: 1, rs2: 2 });
}

#[test]
fn decode_lui() {
    // lui x5, 0x12345
    let inst = decode(0x123452B7).unwrap();
    assert_eq!(inst, Instruction::Lui { rd: 5, imm: 0x12345000 });
}

#[test]
fn decode_beq() {
    // beq x1, x2, +8
    let inst = decode(0x00208463).unwrap();
    assert_eq!(inst, Instruction::Beq { rs1: 1, rs2: 2, imm: 8 });
}

#[test]
fn decode_negative_imm() {
    // addi x1, x0, -1
    let inst = decode(0xFFF00093).unwrap();
    assert_eq!(inst, Instruction::Addi { rd: 1, rs1: 0, imm: -1 });
}

#[test]
fn imm_s_encode() {
    // sw x2, 4(x1)
    let inst = decode(0x0020A223).unwrap();
    assert_eq!(inst, Instruction::Sw { rs1: 1, rs2: 2, imm: 4 });
}

// Each compressed encoding must produce the same Instruction as the canonical
// 32-bit form decoded directly.
fn expand(h: u16) -> Instruction {
    decode(expand_compressed(h).unwrap()).unwrap()
}

#[test]
fn c_addi() {
    assert_eq!(expand(0x0405), Instruction::Addi { rd: 8, rs1: 8, imm: 1 });
    assert_eq!(expand(0x147D), Instruction::Addi { rd: 8, rs1: 8, imm: -1 });
}

#[test]
fn c_li() {
    assert_eq!(expand(0x429D), Instruction::Addi { rd: 5, rs1: 0, imm: 7 });
}

#[test]
fn c_lui() {
    assert_eq!(expand(0x6305), Instruction::Lui { rd: 6, imm: 0x1000 });
}

#[test]
fn c_addi16sp() {
    assert_eq!(expand(0x6141), Instruction::Addi { rd: 2, rs1: 2, imm: 16 });
}

#[test]
fn c_addi4spn() {
    assert_eq!(expand(0x0040), Instruction::Addi { rd: 8, rs1: 2, imm: 4 });
}

#[test]
fn c_lw_sw() {
    assert_eq!(expand(0x4080), Instruction::Lw { rd: 8, rs1: 9, imm: 0 });
    assert_eq!(expand(0xC080), Instruction::Sw { rs1: 9, rs2: 8, imm: 0 });
}

#[test]
fn c_lwsp_swsp() {
    assert_eq!(expand(0x4282), Instruction::Lw { rd: 5, rs1: 2, imm: 0 });
    assert_eq!(expand(0xC016), Instruction::Sw { rs1: 2, rs2: 5, imm: 0 });
}

#[test]
fn c_jal_j() {
    assert_eq!(expand(0x2011), Instruction::Jal { rd: 1, imm: 4 });
    assert_eq!(expand(0xA011), Instruction::Jal { rd: 0, imm: 4 });
}

#[test]
fn c_jr_jalr_ebreak() {
    assert_eq!(expand(0x8282), Instruction::Jalr { rd: 0, rs1: 5, imm: 0 });
    assert_eq!(expand(0x9282), Instruction::Jalr { rd: 1, rs1: 5, imm: 0 });
    assert_eq!(expand(0x9002), Instruction::Ebreak);
}

#[test]
fn c_mv_add() {
    assert_eq!(expand(0x829A), Instruction::Add { rd: 5, rs1: 0, rs2: 6 });
    assert_eq!(expand(0x929A), Instruction::Add { rd: 5, rs1: 5, rs2: 6 });
}

#[test]
fn c_beqz_bnez() {
    assert_eq!(expand(0xC011), Instruction::Beq { rs1: 8, rs2: 0, imm: 4 });
    assert_eq!(expand(0xE011), Instruction::Bne { rs1: 8, rs2: 0, imm: 4 });
}

#[test]
fn c_slli_srli_srai_andi() {
    assert_eq!(expand(0x0286), Instruction::Slli { rd: 5, rs1: 5, shamt: 1 });
    assert_eq!(expand(0x8005), Instruction::Srli { rd: 8, rs1: 8, shamt: 1 });
    assert_eq!(expand(0x8405), Instruction::Srai { rd: 8, rs1: 8, shamt: 1 });
    assert_eq!(expand(0x8805), Instruction::Andi { rd: 8, rs1: 8, imm: 1 });
}

#[test]
fn c_sub_xor_or_and() {
    assert_eq!(expand(0x8C05), Instruction::Sub { rd: 8, rs1: 8, rs2: 9 });
    assert_eq!(expand(0x8C25), Instruction::Xor { rd: 8, rs1: 8, rs2: 9 });
    assert_eq!(expand(0x8C45), Instruction::Or { rd: 8, rs1: 8, rs2: 9 });
    assert_eq!(expand(0x8C65), Instruction::And { rd: 8, rs1: 8, rs2: 9 });
}

#[test]
fn c_illegal() {
    // c.addi4spn with imm=0 is reserved
    assert!(expand_compressed(0x0000).is_err());
    // c.lui with rd=0 is reserved
    assert!(expand_compressed(0x6005).is_err());
    // c.jr x0 is reserved
    assert!(expand_compressed(0x8002).is_err());
    // c.lwsp x0 is reserved
    assert!(expand_compressed(0x4006).is_err());
}

#[test]
fn every_expansion_decodes() {
    for half in 0..=u16::MAX {
        match expand_compressed(half) {
            Ok(raw) => {
                assert_eq!(raw & 3, 3, "{:#06x}", half);
                assert!(decode(raw).is_ok(), "{:#06x} -> {:#010x}", half, raw);
            }
            Err(t) => assert_eq!(t, rvsim::trap::Trap::IllegalInstruction),
        }
        if half & 3 == 3 {
            assert!(expand_compressed(half).is_err());
        }
    }
}
