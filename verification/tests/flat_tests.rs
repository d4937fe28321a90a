use rvsim::flat::FlatMemory;
use rvsim::mem::Memory;
use rvsim::trap::Trap;

#[test]
fn read_write_round_trip() {
    let mut mem = FlatMemory::new(1024, 0x8000_0000);
    mem.write32(0x8000_0000, 0xDEADBEEF).unwrap();
    assert_eq!(mem.read32(0x8000_0000).unwrap(), 0xDEADBEEF);
}

#[test]
fn misaligned_access_supported() {
    let mut mem = FlatMemory::new(1024, 0x8000_0000);
    mem.write32(0x8000_0000, 0x04030201).unwrap();
    mem.write32(0x8000_0004, 0x08070605).unwrap();
    // Misaligned reads should succeed
    assert_eq!(mem.read16(0x8000_0001).unwrap(), 0x0302);
    assert_eq!(mem.read32(0x8000_0001).unwrap(), 0x05040302);
}

#[test]
fn out_of_bounds() {
    let mut mem = FlatMemory::new(16, 0x8000_0000);
    assert_eq!(mem.read32(0x9000_0000), Err(Trap::LoadAccessFault));
}

#[test]
fn byte_access_no_alignment() {
    let mut mem = FlatMemory::new(1024, 0x8000_0000);
    mem.write8(0x8000_0001, 0xAB).unwrap();
    assert_eq!(mem.read8(0x8000_0001).unwrap(), 0xAB);
}

#[test]
fn load_copies_bytes_and_edges_fault() {
    let mut mem = FlatMemory::new(16, 0x8000_0000);
    mem.load(0x8000_0004, &[1, 2, 3, 4]);
    assert_eq!(mem.read32(0x8000_0004).unwrap(), 0x0403_0201);
    // A word that starts inside but ends outside faults, reads and writes alike.
    assert_eq!(mem.read32(0x8000_000D), Err(Trap::LoadAccessFault));
    assert_eq!(mem.write32(0x8000_000D, 0), Err(Trap::StoreAccessFault));
    assert_eq!(mem.write16(0x8000_000F, 0), Err(Trap::StoreAccessFault));
    // Below the base wraps to a huge offset and faults.
    assert_eq!(mem.read8(0x7FFF_FFFF), Err(Trap::LoadAccessFault));
    // The last byte is in range.
    mem.write8(0x8000_000F, 0x5A).unwrap();
    assert_eq!(mem.read8(0x8000_000F).unwrap(), 0x5A);
    // A write leaves neighbouring bytes alone.
    mem.write16(0x8000_0005, 0xBEEF).unwrap();
    assert_eq!(mem.read32(0x8000_0004).unwrap(), 0x04BE_EF01);
}
