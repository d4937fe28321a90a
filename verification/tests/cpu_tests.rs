use rvsim::cpu::{Hart, PRIV_M, PRIV_S, PRIV_U};
use rvsim::csr::{
    CSR_MCAUSE, CSR_MEDELEG, CSR_MEPC, CSR_MIE, CSR_MIP, CSR_MSCRATCH, CSR_MSTATUS, CSR_MTVAL,
    CSR_MTVEC, CSR_SCAUSE, CSR_SEPC, CSR_STVEC, MIP_MTIP, MSTATUS_MIE,
};
use rvsim::decode::Instruction;
use rvsim::flat::FlatMemory;
use rvsim::mem::Memory;

const BASE: u32 = 0x8000_0000;

fn r_type(f7: u32, rs2: u32, rs1: u32, f3: u32, rd: u32, op: u32) -> u32 {
    (f7 << 25) | (rs2 << 20) | (rs1 << 15) | (f3 << 12) | (rd << 7) | op
}

fn i_type(imm: i32, rs1: u32, f3: u32, rd: u32, op: u32) -> u32 {
    (((imm as u32) & 0xFFF) << 20) | (rs1 << 15) | (f3 << 12) | (rd << 7) | op
}

fn addi(rd: u32, rs1: u32, imm: i32) -> u32 {
    i_type(imm, rs1, 0, rd, 0x13)
}

fn machine(program: &[u32]) -> (Hart, FlatMemory) {
    let mut mem = FlatMemory::new(0x1000, BASE);
    for (i, w) in program.iter().enumerate() {
        mem.write32(BASE + 4 * i as u32, *w).unwrap();
    }
    (Hart::new(BASE), mem)
}

fn run_steps(hart: &mut Hart, mem: &mut FlatMemory, n: usize) {
    for _ in 0..n {
        assert!(hart.step(mem, 0).is_none());
    }
}

#[test]
fn division_edge_cases() {
    let lui_x7 = 0x8000_03B7; // lui x7, 0x80000
    let program = [
        addi(1, 0, 7),
        addi(2, 0, 0),
        r_type(1, 2, 1, 4, 3, 0x33), // div  x3, x1, x2
        r_type(1, 2, 1, 6, 4, 0x33), // rem  x4, x1, x2
        r_type(1, 2, 1, 5, 5, 0x33), // divu x5, x1, x2
        r_type(1, 2, 1, 7, 6, 0x33), // remu x6, x1, x2
        lui_x7,
        addi(8, 0, -1),
        r_type(1, 8, 7, 4, 9, 0x33),  // div x9, x7, x8
        r_type(1, 8, 7, 6, 10, 0x33), // rem x10, x7, x8
        r_type(1, 2, 7, 0, 11, 0x33), // mul x11, x7, x2
        r_type(1, 8, 8, 3, 12, 0x33), // mulhu x12, x8, x8
        r_type(1, 8, 8, 1, 13, 0x33), // mulh x13, x8, x8
    ];
    let (mut hart, mut mem) = machine(&program);
    run_steps(&mut hart, &mut mem, program.len());
    assert_eq!(hart.regs.get(3), 0xFFFF_FFFF);
    assert_eq!(hart.regs.get(4), 7);
    assert_eq!(hart.regs.get(5), 0xFFFF_FFFF);
    assert_eq!(hart.regs.get(6), 7);
    assert_eq!(hart.regs.get(9), 0x8000_0000);
    assert_eq!(hart.regs.get(10), 0);
    assert_eq!(hart.regs.get(11), 0);
    assert_eq!(hart.regs.get(12), 0xFFFF_FFFE);
    assert_eq!(hart.regs.get(13), 0);
    assert_eq!(hart.pc, BASE + 4 * program.len() as u32);
    assert_eq!(hart.instret, program.len() as u64);
    assert_eq!(hart.cycle, program.len() as u64);
}

#[test]
fn ecall_traps_to_mtvec_and_mret_returns() {
    let program = [0x0000_0073]; // ecall
    let (mut hart, mut mem) = machine(&program);
    mem.write32(BASE + 0x100, 0x3020_0073).unwrap(); // mret
    hart.csrs.write_raw(CSR_MTVEC, BASE + 0x100);
    hart.csrs.write_raw(CSR_MSTATUS, MSTATUS_MIE);
    assert!(hart.step(&mut mem, 0).is_none());
    assert_eq!(hart.pc, BASE + 0x100);
    assert_eq!(hart.csrs.read_raw(CSR_MCAUSE), 11);
    assert_eq!(hart.csrs.read_raw(CSR_MEPC), BASE);
    assert_eq!(hart.csrs.read_raw(CSR_MTVAL), 0);
    // MIE cleared, MPIE set, MPP = M.
    let ms = hart.csrs.read_raw(CSR_MSTATUS);
    assert_eq!(ms & MSTATUS_MIE, 0);
    assert_ne!(ms & 0x80, 0);
    assert_eq!((ms >> 11) & 3, 3);
    assert!(hart.step(&mut mem, 0).is_none());
    assert_eq!(hart.pc, BASE);
    assert_eq!(hart.priv_mode, PRIV_M);
    assert_ne!(hart.csrs.read_raw(CSR_MSTATUS) & MSTATUS_MIE, 0);
}

#[test]
fn timer_interrupt_is_taken_between_instructions() {
    let program = [addi(1, 0, 1), addi(1, 1, 1)];
    let (mut hart, mut mem) = machine(&program);
    hart.csrs.write_raw(CSR_MTVEC, (BASE + 0x200) | 1); // vectored
    hart.csrs.write_raw(CSR_MIE, MIP_MTIP);
    hart.csrs.write_raw(CSR_MSTATUS, MSTATUS_MIE);
    assert!(hart.step(&mut mem, 0).is_none());
    assert_eq!(hart.regs.get(1), 1);
    assert!(hart.step(&mut mem, MIP_MTIP).is_none());
    // Not executed: the interrupt went first, to BASE + 0x200 + 4 * 7.
    assert_eq!(hart.regs.get(1), 1);
    assert_eq!(hart.pc, BASE + 0x200 + 28);
    assert_eq!(hart.csrs.read_raw(CSR_MCAUSE), 0x8000_0007);
    assert_eq!(hart.csrs.read_raw(CSR_MEPC), BASE + 4);
    assert_ne!(hart.csrs.read_raw(CSR_MIP) & MIP_MTIP, 0);
    assert_eq!(hart.instret, 1);
    assert_eq!(hart.cycle, 2);
}

#[test]
fn exceptions_below_m_follow_medeleg() {
    let program = [0x0000_0073]; // ecall from U
    let (mut hart, mut mem) = machine(&program);
    hart.priv_mode = PRIV_U;
    hart.csrs.write_raw(CSR_MEDELEG, 1 << 8);
    hart.csrs.write_raw(CSR_STVEC, BASE + 0x300);
    assert!(hart.step(&mut mem, 0).is_none());
    assert_eq!(hart.priv_mode, PRIV_S);
    assert_eq!(hart.pc, BASE + 0x300);
    assert_eq!(hart.csrs.read_raw(CSR_SCAUSE), 8);
    assert_eq!(hart.csrs.read_raw(CSR_SEPC), BASE);
}

#[test]
fn illegal_instruction_and_csr_access() {
    let program = [
        0xFFFF_FFFF,                                // not an instruction
        i_type(0x340, 1, 1, 2, 0x73),               // csrrw x2, mscratch, x1
        i_type(0x340, 0, 2, 3, 0x73),               // csrrs x3, mscratch, x0
    ];
    let (mut hart, mut mem) = machine(&program);
    hart.csrs.write_raw(CSR_MTVEC, BASE + 4);
    hart.regs.set(1, 0x1234);
    hart.csrs.write_raw(CSR_MSCRATCH, 0x55);
    assert!(hart.step(&mut mem, 0).is_none());
    assert_eq!(hart.csrs.read_raw(CSR_MCAUSE), 2);
    assert_eq!(hart.csrs.read_raw(CSR_MTVAL), 0);
    assert_eq!(hart.pc, BASE + 4);
    run_steps(&mut hart, &mut mem, 2);
    assert_eq!(hart.regs.get(2), 0x55);
    assert_eq!(hart.regs.get(3), 0x1234);
    assert_eq!(hart.csrs.read_raw(CSR_MSCRATCH), 0x1234);
}

#[test]
fn compressed_instructions_advance_by_two() {
    let mut mem = FlatMemory::new(0x100, BASE);
    mem.write16(BASE, 0x4515).unwrap(); // c.li x10, 5
    mem.write16(BASE + 2, 0x0505).unwrap(); // c.addi x10, 1
    mem.write32(BASE + 4, addi(11, 10, 2)).unwrap();
    let mut hart = Hart::new(BASE);
    run_steps(&mut hart, &mut mem, 3);
    assert_eq!(hart.regs.get(10), 6);
    assert_eq!(hart.regs.get(11), 8);
    assert_eq!(hart.pc, BASE + 8);
}

#[test]
fn floating_point_result_is_supplied_by_the_caller() {
    // fadd.s f1, f2, f3 (rm = RNE)
    let program = [r_type(0, 3, 2, 0, 1, 0x53), addi(1, 0, 1)];
    let (mut hart, mut mem) = machine(&program);
    let out = hart.step(&mut mem, 0);
    let inst = out.unwrap();
    assert_eq!(inst, Instruction::FaddS { rd: 1, rs1: 2, rs2: 3, rm: 0 });
    assert_eq!(hart.pc, BASE + 4);
    hart.complete_fp(inst, 0x4040_0000, 0x1); // 3.0, inexact
    assert_eq!(hart.fregs.get(1), 0xFFFF_FFFF_4040_0000);
    assert_eq!(hart.fregs.get_f32(1), 0x4040_0000);
    assert_eq!(hart.csrs.read_raw(0x003) & 0x1F, 1); // fflags
    assert_eq!(hart.csrs.read_raw(CSR_MSTATUS) & 0x6000, 0x6000); // FS dirty
}

#[test]
fn run_stops_after_a_floating_point_instruction() {
    let program = [addi(1, 0, 1), r_type(0, 3, 2, 0, 1, 0x53), addi(2, 0, 2)];
    let (mut hart, mut mem) = machine(&program);
    let (n, fp) = hart.run(&mut mem, 10);
    assert_eq!(n, 2);
    assert!(matches!(fp, Some(Instruction::FaddS { .. })));
    let (n, fp) = hart.run(&mut mem, 1);
    assert_eq!(n, 1);
    assert!(fp.is_none());
    assert_eq!(hart.regs.get(2), 2);
}

#[test]
fn load_store_and_misaligned_faults() {
    let program = [
        i_type(0x100, 0, 2, 5, 0x03),                     // lw x5, 0x100(x0)   -> access fault (pa 0x100)
        0x0000_0297,                                      // auipc x5, 0
        i_type(0x40, 5, 0, 6, 0x13),                      // addi x6, x5, 0x40
        (0 << 25) | (6 << 20) | (6 << 15) | (2 << 12) | (0 << 7) | 0x23, // sw x6, 0(x6)
        i_type(0, 6, 2, 7, 0x03),                         // lw x7, 0(x6)
        i_type(1, 6, 2, 8, 0x03),                         // lw x8, 1(x6)  (misaligned is fine)
    ];
    let (mut hart, mut mem) = machine(&program);
    hart.csrs.write_raw(CSR_MTVEC, BASE + 4);
    assert!(hart.step(&mut mem, 0).is_none());
    // A fault reported by memory carries a zero trap value.
    assert_eq!(hart.csrs.read_raw(CSR_MCAUSE), 5);
    assert_eq!(hart.csrs.read_raw(CSR_MTVAL), 0);
    run_steps(&mut hart, &mut mem, 5);
    assert_eq!(hart.regs.get(6), BASE + 0x44);
    assert_eq!(hart.regs.get(7), BASE + 0x44);
    assert_eq!(hart.regs.get(8), (BASE + 0x44) >> 8);
    assert_eq!(mem.read32(BASE + 0x44).unwrap(), BASE + 0x44);
    assert_eq!(hart.priv_mode, PRIV_M);
}

#[test]
fn doubleword_store_then_load_round_trips() {
    let (hart, mut mem) = machine(&[]);
    for (va, v) in [(BASE + 0x100, 0x0123_4567_89AB_CDEFu64), (BASE + 0x202, u64::MAX), (BASE + 0x1FF, 7)] {
        assert!(hart.store64(&mut mem, va, v).is_ok());
        assert_eq!(hart.load64(&mut mem, va), Ok(v));
        assert_eq!(hart.load32(&mut mem, va), Ok(v as u32));
        assert_eq!(hart.load32(&mut mem, va + 4), Ok((v >> 32) as u32));
    }
}

#[test]
fn running_zero_cycles_changes_nothing() {
    let (mut hart, mut mem) = machine(&[addi(1, 0, 5)]);
    let pc = hart.pc;
    assert_eq!(hart.run(&mut mem, 0), (0, None));
    assert_eq!(hart.pc, pc);
    assert_eq!(hart.regs.get(1), 0);
    assert_eq!(hart.run(&mut mem, 1), (1, None));
    assert_eq!(hart.regs.get(1), 5);
}
