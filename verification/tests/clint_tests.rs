use rvsim::clint::{
    Clint, OFF_MSIP, OFF_MTIME_COMPARE_HI, OFF_MTIME_COMPARE_LO, OFF_MTIME_HI, OFF_MTIME_LO,
};
use rvsim::trap::Trap;

#[test]
fn mtime_split_access() {
    let mut clint = Clint::new();
    clint.tick(0x1_0000_0001);
    assert_eq!(clint.read32(OFF_MTIME_LO).unwrap(), 0x0000_0001);
    assert_eq!(clint.read32(OFF_MTIME_HI).unwrap(), 0x0000_0001);
}

#[test]
fn mtimecmp_split_write_then_read() {
    let mut clint = Clint::new();
    clint.write32(OFF_MTIME_COMPARE_LO, 0xCAFE_BABE).unwrap();
    clint.write32(OFF_MTIME_COMPARE_HI, 0xDEAD_BEEF).unwrap();
    assert_eq!(clint.read32(OFF_MTIME_COMPARE_LO).unwrap(), 0xCAFE_BABE);
    assert_eq!(clint.read32(OFF_MTIME_COMPARE_HI).unwrap(), 0xDEAD_BEEF);
}

#[test]
fn mtip_fires_when_mtime_reaches_mtimecmp() {
    let mut clint = Clint::new();
    // Program mtime_compare = 100
    clint.write32(OFF_MTIME_COMPARE_LO, 100).unwrap();
    clint.write32(OFF_MTIME_COMPARE_HI, 0).unwrap();
    clint.tick(50);
    assert!(!clint.mtip_pending());
    clint.tick(100);
    assert!(clint.mtip_pending());
    clint.tick(200);
    assert!(clint.mtip_pending());
}

#[test]
fn msip_toggles() {
    let mut clint = Clint::new();
    assert!(!clint.msip_pending());
    clint.write32(OFF_MSIP, 1).unwrap();
    assert!(clint.msip_pending());
    clint.write32(OFF_MSIP, 0).unwrap();
    assert!(!clint.msip_pending());
}

#[test]
fn unmapped_offsets_fault_and_narrow_accesses_merge() {
    let mut clint = Clint::new();
    assert_eq!(clint.read32(0x10), Err(Trap::LoadAccessFault));
    assert_eq!(clint.write32(0x10, 1), Err(Trap::StoreAccessFault));
    // mtime_compare starts at all ones; a byte write replaces one byte.
    clint.write8(OFF_MTIME_COMPARE_LO + 1, 0x12).unwrap();
    assert_eq!(clint.read32(OFF_MTIME_COMPARE_LO).unwrap(), 0xFFFF_12FF);
    assert_eq!(clint.read16(OFF_MTIME_COMPARE_LO).unwrap(), 0x12FF);
    assert_eq!(clint.read8(OFF_MTIME_COMPARE_LO + 1).unwrap(), 0x12);
    clint.write16(OFF_MTIME_COMPARE_LO + 2, 0xABCD).unwrap();
    assert_eq!(clint.read32(OFF_MTIME_COMPARE_LO).unwrap(), 0xABCD_12FF);
    // msip keeps only bit 0.
    clint.write32(OFF_MSIP, 0xFFFF_FFFE).unwrap();
    assert!(!clint.msip_pending());
    assert_eq!(clint.read32(OFF_MSIP).unwrap(), 0);
}

#[test]
fn msip_reads_as_its_pending_bit() {
    let mut clint = Clint::new();
    for v in [0u32, 1, 2, 3, 0xFFFF_FFFE, 0xFFFF_FFFF] {
        clint.write32(OFF_MSIP, v).unwrap();
        assert_eq!(clint.read32(OFF_MSIP).unwrap(), clint.msip_pending() as u32, "{:#x}", v);
        assert_eq!(clint.read32(OFF_MSIP).unwrap(), v & 1);
    }
}
