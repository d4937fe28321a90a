use rvsim::csr::{
    CsrFile, CSR_CYCLE, CSR_FCSR, CSR_FFLAGS, CSR_FRM, CSR_MCOUNTEREN, CSR_MHARTID, CSR_MIP,
    CSR_MISA, CSR_MSCRATCH, CSR_MSTATUS, CSR_SIE, CSR_SIP, CSR_SSCRATCH, CSR_SSTATUS,
    CSR_TIME, MISA_RESET, MSTATUS_MIE_BIT, MSTATUS_MPIE_BIT, MSTATUS_MPP_MASK, MSTATUS_MPP_SHIFT,
};
use rvsim::trap::{Trap, TrapInfo};

#[test]
fn privilege_and_read_only_checks() {
    let mut c = CsrFile::new();
    assert_eq!(c.read(CSR_MISA, 0, 0, 0, 3), Ok(MISA_RESET));
    // misa ignores writes.
    c.write(CSR_MISA, 0, 3).unwrap();
    assert_eq!(c.read_raw(CSR_MISA), MISA_RESET);
    // M-level CSRs are out of reach from S and U.
    assert_eq!(c.write(CSR_MSCRATCH, 1, 1), Err(Trap::IllegalInstruction));
    assert_eq!(c.read(CSR_MSCRATCH, 0, 0, 0, 0), Err(Trap::IllegalInstruction));
    // S-level CSRs from S are fine.
    c.write(CSR_SSCRATCH, 0x77, 1).unwrap();
    assert_eq!(c.read(CSR_SSCRATCH, 0, 0, 0, 1), Ok(0x77));
    // 0xF.. addresses are read-only even from M.
    assert_eq!(c.write(CSR_MHARTID, 1, 3), Err(Trap::IllegalInstruction));
}

#[test]
fn counters_respect_counteren() {
    let mut c = CsrFile::new();
    assert_eq!(c.read(CSR_CYCLE, 0x1_0000_0005, 0, 0, 3), Ok(5));
    assert_eq!(c.read(CSR_CYCLE, 5, 0, 0, 1), Err(Trap::IllegalInstruction));
    c.write_raw(CSR_MCOUNTEREN, 0b111);
    assert_eq!(c.read(CSR_CYCLE, 5, 0, 0, 1), Ok(5));
    assert_eq!(c.read(CSR_TIME, 0, 0, 0x99, 1), Ok(0x99));
    // U-mode also needs scounteren.
    assert_eq!(c.read(CSR_CYCLE, 5, 0, 0, 0), Err(Trap::IllegalInstruction));
    // The user counters cannot be written.
    assert_eq!(c.write(CSR_CYCLE, 1, 3), Err(Trap::IllegalInstruction));
}

#[test]
fn fp_status_views() {
    let mut c = CsrFile::new();
    c.write(CSR_FCSR, 0x1FF, 3).unwrap();
    assert_eq!(c.read(CSR_FCSR, 0, 0, 0, 3), Ok(0xFF));
    assert_eq!(c.read(CSR_FFLAGS, 0, 0, 0, 3), Ok(0x1F));
    assert_eq!(c.read(CSR_FRM, 0, 0, 0, 3), Ok(0x7));
    c.write(CSR_FRM, 0x2, 0).unwrap();
    assert_eq!(c.read(CSR_FCSR, 0, 0, 0, 3), Ok(0x5F));
    c.write(CSR_FFLAGS, 0x01, 0).unwrap();
    assert_eq!(c.read(CSR_FCSR, 0, 0, 0, 3), Ok(0x41));
}

#[test]
fn sstatus_sie_sip_are_views_and_mip_hardware_bits_are_read_only() {
    let mut c = CsrFile::new();
    c.write(CSR_SSTATUS, 0xFFFF_FFFF, 1).unwrap();
    // Only the supervisor-visible bits land in mstatus (SD is recomputed from FS).
    assert_eq!(c.read_raw(CSR_MSTATUS), 0x800D_E762);
    assert_eq!(c.read(CSR_SSTATUS, 0, 0, 0, 1), Ok(0x800D_E762));
    // MIE (bit 3) is not visible through sstatus.
    c.write(CSR_MSTATUS, 0x8, 3).unwrap();
    assert_eq!(c.read(CSR_SSTATUS, 0, 0, 0, 1), Ok(0));
    c.write(CSR_SIE, 0xFFFF_FFFF, 1).unwrap();
    assert_eq!(c.read(CSR_SIE, 0, 0, 0, 1), Ok(0x222));
    c.write_raw(CSR_MIP, 0x880);
    c.write(CSR_MIP, 0xFFFF_FFFF, 3).unwrap();
    assert_eq!(c.read_raw(CSR_MIP), 0x8AA);
    c.write(CSR_SIP, 0, 1).unwrap();
    assert_eq!(c.read_raw(CSR_MIP), 0x8A8);
    assert_eq!(c.read(CSR_SIP, 0, 0, 0, 1), Ok(0x20));
}

#[test]
fn mstatus_sd_summarises_dirty_fs() {
    let mut c = CsrFile::new();
    c.write(CSR_MSTATUS, 0x6000, 3).unwrap();
    assert_eq!(c.read(CSR_MSTATUS, 0, 0, 0, 3), Ok(0x8000_6000));
    c.write(CSR_MSTATUS, 0x8000_2000, 3).unwrap();
    assert_eq!(c.read(CSR_MSTATUS, 0, 0, 0, 3), Ok(0x2000));
}

#[test]
fn trap_enter_then_return_restores_state() {
    let mut c = CsrFile::new();
    c.write_raw(CSR_MSTATUS, 0x8); // MIE = 1
    c.mstatus_trap_enter(1, MSTATUS_MIE_BIT, MSTATUS_MPIE_BIT, MSTATUS_MPP_SHIFT, MSTATUS_MPP_MASK);
    assert_eq!(c.read_raw(CSR_MSTATUS), 0x880); // MPP = S, MPIE = 1, MIE = 0
    let back = c.mstatus_trap_return(MSTATUS_MIE_BIT, MSTATUS_MPIE_BIT, MSTATUS_MPP_SHIFT, MSTATUS_MPP_MASK);
    assert_eq!(back, 1);
    assert_eq!(c.read_raw(CSR_MSTATUS), 0x88); // MIE restored, MPIE = 1, MPP = U
    // Returning below M clears MPRV.
    c.write_raw(CSR_MSTATUS, 0x2_0000);
    assert_eq!(c.mstatus_trap_return(MSTATUS_MIE_BIT, MSTATUS_MPIE_BIT, MSTATUS_MPP_SHIFT, MSTATUS_MPP_MASK), 0);
    assert_eq!(c.read_raw(CSR_MSTATUS), 0x80);
}

#[test]
fn trap_info_encodings() {
    let i = TrapInfo::interrupt(7);
    assert_eq!(i.cause, 0x8000_0007);
    assert!(i.is_interrupt());
    assert_eq!(i.cause_index(), 7);
    let e = TrapInfo::new(Trap::StorePageFault, 0x1234);
    assert_eq!(e.cause, 15);
    assert!(!e.is_interrupt());
    assert_eq!(e.cause_index(), 15);
    assert_eq!(e.tval, 0x1234);
    let f: TrapInfo = Trap::Breakpoint.into();
    assert_eq!(f, TrapInfo { cause: 3, tval: 0 });
    assert_eq!(TrapInfo::from_trap(Trap::EnvironmentCallFromMMode).cause, 11);
}

#[test]
fn performance_monitor_csrs_read_zero_and_ignore_writes() {
    let mut c = CsrFile::new();
    for addr in [0x323u16, 0x33F, 0xB03, 0xB1F, 0xB83, 0xB9F] {
        assert_eq!(c.write(addr, 5, 3), Ok(()));
        assert_eq!(c.read(addr, 0, 0, 0, 3), Ok(0), "{:#x}", addr);
        assert_eq!(c.read_raw(addr), 0);
    }
    // Neighbouring machine CSRs are still stored.
    assert_eq!(c.write(0x322, 5, 3), Ok(()));
    assert_eq!(c.read(0x322, 0, 0, 0, 3), Ok(5));
    // Still machine-only.
    assert_eq!(c.write(0xB03, 5, 1), Err(Trap::IllegalInstruction));
}
