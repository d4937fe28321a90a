use rvsim::elf::{
    load_base, load_elf, place_elf, tohost_status, ElfImage, ElfLoadError, ElfSegment, ElfSymbol,
    HostStatus, SegmentError, DEFAULT_PIE_BASE, ET_DYN, PT_LOAD,
};
use rvsim::flat::FlatMemory;
use rvsim::mem::Memory;

fn put16(b: &mut Vec<u8>, at: usize, v: u16) {
    b[at..at + 2].copy_from_slice(&v.to_le_bytes());
}

fn put32(b: &mut Vec<u8>, at: usize, v: u32) {
    b[at..at + 4].copy_from_slice(&v.to_le_bytes());
}

/// A little-endian ELF32 file: one loadable segment of 8 bytes, and a
/// symbol table holding `tohost` when `with_tohost` is set.
///
/// Layout: header 0..52, program header 52..84, segment bytes 84..92,
/// string table 92..100, symbol table 100..132, section headers 132..252.
fn tiny_elf(e_type: u16, entry: u32, paddr: u32, with_tohost: bool) -> Vec<u8> {
    let mut b = vec![0u8; 252];
    b[0..4].copy_from_slice(&[0x7f, b'E', b'L', b'F']);
    b[4] = 1; // 32-bit
    b[5] = 1; // little-endian
    b[6] = 1; // version
    put16(&mut b, 16, e_type);
    put16(&mut b, 18, 0xF3); // RISC-V
    put32(&mut b, 20, 1);
    put32(&mut b, 24, entry);
    put32(&mut b, 28, 52); // e_phoff
    put32(&mut b, 32, if with_tohost { 132 } else { 0 }); // e_shoff
    put16(&mut b, 40, 52); // e_ehsize
    put16(&mut b, 42, 32); // e_phentsize
    put16(&mut b, 44, 1); // e_phnum
    put16(&mut b, 46, 40); // e_shentsize
    put16(&mut b, 48, if with_tohost { 3 } else { 0 }); // e_shnum
    // Program header.
    put32(&mut b, 52, 1); // PT_LOAD
    put32(&mut b, 56, 84); // p_offset
    put32(&mut b, 60, paddr); // p_vaddr
    put32(&mut b, 64, paddr); // p_paddr
    put32(&mut b, 68, 8); // p_filesz
    put32(&mut b, 72, 8); // p_memsz
    // Segment bytes.
    b[84..92].copy_from_slice(&[0x13, 0, 0, 0, 0x6f, 0, 0, 0]);
    if with_tohost {
        b[92..100].copy_from_slice(b"\0tohost\0");
        // Symbol 1: "tohost" = 0x8000_1000.
        put32(&mut b, 116, 1);
        put32(&mut b, 120, 0x8000_1000);
        // Section 1: .symtab, linked to section 2.
        put32(&mut b, 172 + 4, 2); // SHT_SYMTAB
        put32(&mut b, 172 + 16, 100);
        put32(&mut b, 172 + 20, 32);
        put32(&mut b, 172 + 24, 2);
        put32(&mut b, 172 + 36, 16);
        // Section 2: .strtab.
        put32(&mut b, 212 + 4, 3); // SHT_STRTAB
        put32(&mut b, 212 + 16, 92);
        put32(&mut b, 212 + 20, 8);
    }
    b
}

#[test]
fn fixed_image_is_loaded_at_its_addresses() {
    let mut ram = FlatMemory::new(0x1000, 0x8000_0000);
    let file = tiny_elf(2, 0x8000_0010, 0x8000_0010, true);
    let p = load_elf(&mut ram, &file, Some(0x8100_0000)).unwrap();
    assert_eq!(p.entry, 0x8000_0010);
    assert_eq!(p.base, 0);
    assert!(!p.pie);
    assert_eq!(p.tohost, Some(0x8000_1000));
    assert_eq!(ram.read32(0x8000_0010).unwrap(), 0x13);
    assert_eq!(ram.read32(0x8000_0014).unwrap(), 0x6f);
    assert_eq!(ram.read32(0x8000_000c).unwrap(), 0);
}

#[test]
fn pie_image_is_relocated_to_the_default_base() {
    let mut ram = FlatMemory::new(0x1000, 0x8000_0000);
    let file = tiny_elf(ET_DYN, 0x20, 0x20, false);
    let p = load_elf(&mut ram, &file, None).unwrap();
    assert_eq!(p.base, DEFAULT_PIE_BASE);
    assert_eq!(p.entry, 0x8000_0020);
    assert!(p.pie);
    assert_eq!(p.tohost, None);
    assert_eq!(ram.read32(0x8000_0020).unwrap(), 0x13);
}

#[test]
fn pie_image_is_relocated_to_the_requested_base() {
    let mut ram = FlatMemory::new(0x1000, 0x8000_0000);
    let file = tiny_elf(ET_DYN, 0x20, 0x20, false);
    let p = load_elf(&mut ram, &file, Some(0x8000_0100)).unwrap();
    assert_eq!(p.entry, 0x8000_0120);
    assert_eq!(ram.read32(0x8000_0124).unwrap(), 0x6f);
}

#[test]
fn segment_outside_ram_is_reported() {
    let mut ram = FlatMemory::new(0x1000, 0x8000_0000);
    let file = tiny_elf(2, 0x8000_0ffc, 0x8000_0ffc, false);
    match load_elf(&mut ram, &file, None) {
        Err(ElfLoadError::Segment(SegmentError::OutsideRam { addr, size })) => {
            assert_eq!(addr, 0x8000_0ffc);
            assert_eq!(size, 8);
        }
        other => panic!("unexpected {:?}", other),
    }
}

#[test]
fn garbage_is_a_parse_error() {
    let mut ram = FlatMemory::new(0x100, 0x8000_0000);
    match load_elf(&mut ram, b"definitely not an ELF file at all, padded out to length....", None) {
        Err(ElfLoadError::Parse(msg)) => assert!(!msg.is_empty()),
        other => panic!("unexpected {:?}", other),
    }
    assert_eq!(ram.read32(0x8000_0000).unwrap(), 0);
}

#[test]
fn load_base_rules() {
    assert_eq!(load_base(ET_DYN, None), DEFAULT_PIE_BASE);
    assert_eq!(load_base(ET_DYN, Some(0x8020_0000)), 0x8020_0000);
    assert_eq!(load_base(2, Some(0x8020_0000)), 0);
}

#[test]
fn place_elf_skips_other_segments_and_reports_file_overrun() {
    let mut ram = FlatMemory::new(0x100, 0x8000_0000);
    let file = vec![1u8, 2, 3, 4];
    let img = ElfImage {
        e_type: 2,
        entry: 0x8000_0000,
        segments: vec![
            ElfSegment { p_type: 6, offset: 0, file_size: 100, paddr: 0x8000_0000 },
            ElfSegment { p_type: PT_LOAD, offset: 0, file_size: 0, paddr: 0x9000_0000 },
            ElfSegment { p_type: PT_LOAD, offset: 1, file_size: 2, paddr: 0x8000_0008 },
            ElfSegment { p_type: PT_LOAD, offset: 3, file_size: 2, paddr: 0x8000_0010 },
        ],
        symbols: vec![
            ElfSymbol { name: None, value: 5 },
            ElfSymbol { name: Some("tohost".to_string()), value: 0x1_8000_0040 },
            ElfSymbol { name: Some("tohost".to_string()), value: 7 },
        ],
    };
    assert_eq!(
        place_elf(&mut ram, &file, &img, None),
        Err(SegmentError::OutsideFile { offset: 3, size: 2 })
    );
    // The segment before the failing one was copied.
    assert_eq!(ram.read16(0x8000_0008).unwrap(), 0x0302);

    let mut ram = FlatMemory::new(0x100, 0x8000_0000);
    let mut img = img;
    img.segments.pop();
    let p = place_elf(&mut ram, &file, &img, None).unwrap();
    assert_eq!(p.tohost, Some(0x8000_0040));
    assert_eq!(ram.read32(0x8000_0000).unwrap(), 0);
}

#[test]
fn tohost_protocol() {
    assert_eq!(tohost_status(0), HostStatus::Running);
    assert_eq!(tohost_status(1), HostStatus::Pass);
    assert_eq!(tohost_status(7), HostStatus::Fail(3));
    assert_eq!(tohost_status(0xffff_ffff), HostStatus::Fail(0x7fff_ffff));
}
