use rvsim::plic::Plic;

#[test]
fn no_interrupt_at_reset() {
    let plic = Plic::new();
    assert!(!plic.meip_pending());
    assert!(!plic.seip_pending());
}

#[test]
fn pending_without_enable_does_not_interrupt() {
    let mut plic = Plic::new();
    plic.write32(0x04, 1).unwrap(); // source 1 priority = 1
    plic.set_pending(1);
    assert!(!plic.meip_pending()); // not enabled for context 0
}

#[test]
fn enabled_pending_source_interrupts() {
    let mut plic = Plic::new();
    plic.write32(0x04, 1).unwrap(); // source 1 priority = 1
    plic.write32(0x2000, 0x02).unwrap(); // enable source 1 for ctx 0 (M)
    plic.set_pending(1);
    assert!(plic.meip_pending());
    assert!(!plic.seip_pending());
}

#[test]
fn threshold_gates_interrupt() {
    let mut plic = Plic::new();
    plic.write32(0x04, 2).unwrap(); // source 1 priority = 2
    plic.write32(0x2000, 0x02).unwrap(); // enable source 1 for ctx 0
    plic.set_pending(1);
    assert!(plic.meip_pending());

    plic.write32(0x20_0000, 3).unwrap(); // threshold = 3 (> priority 2)
    assert!(!plic.meip_pending());

    plic.write32(0x20_0000, 1).unwrap(); // threshold = 1 (< priority 2)
    assert!(plic.meip_pending());
}

#[test]
fn claim_returns_highest_priority_and_clears_pending() {
    let mut plic = Plic::new();
    plic.write32(0x04, 1).unwrap(); // source 1 priority = 1
    plic.write32(0x08, 3).unwrap(); // source 2 priority = 3
    plic.write32(0x2000, 0x06).unwrap(); // enable sources 1+2 for ctx 0
    plic.set_pending(1);
    plic.set_pending(2);

    let claimed = plic.read32(0x20_0004).unwrap(); // claim ctx 0
    assert_eq!(claimed, 2); // source 2 has higher priority
    assert!(plic.read32(0x1000).unwrap() & 0x04 == 0); // source 2 no longer pending
    assert!(plic.read32(0x1000).unwrap() & 0x02 != 0); // source 1 still pending
}

#[test]
fn complete_allows_repend() {
    let mut plic = Plic::new();
    plic.write32(0x04, 1).unwrap(); // source 1 priority = 1
    plic.write32(0x2000, 0x02).unwrap(); // enable source 1 for ctx 0
    plic.set_pending(1);

    let claimed = plic.read32(0x20_0004).unwrap(); // claim
    assert_eq!(claimed, 1);
    assert!(!plic.meip_pending());

    plic.write32(0x20_0004, 1).unwrap(); // complete source 1
    plic.set_pending(1); // re-assert
    assert!(plic.meip_pending());
}

#[test]
fn claim_returns_zero_when_nothing_pending() {
    let mut plic = Plic::new();
    assert_eq!(plic.read32(0x20_0004).unwrap(), 0);
}

#[test]
fn s_mode_context() {
    let mut plic = Plic::new();
    plic.write32(0x04, 1).unwrap(); // source 1 priority = 1
    plic.write32(0x2080, 0x02).unwrap(); // enable source 1 for ctx 1 (S)
    plic.set_pending(1);
    assert!(!plic.meip_pending());
    assert!(plic.seip_pending());

    let claimed = plic.read32(0x20_1004).unwrap(); // claim ctx 1
    assert_eq!(claimed, 1);
    assert!(!plic.seip_pending());
}

#[test]
fn pending_bits_read_only() {
    let mut plic = Plic::new();
    plic.set_pending(1);
    assert_eq!(plic.read32(0x1000).unwrap() & 0x02, 0x02);
    plic.write32(0x1000, 0).unwrap(); // should be ignored
    assert_eq!(plic.read32(0x1000).unwrap() & 0x02, 0x02);
}

#[test]
fn claimed_source_not_reclaimable() {
    let mut plic = Plic::new();
    plic.write32(0x04, 1).unwrap(); // source 1 priority = 1
    plic.write32(0x2000, 0x02).unwrap(); // enable source 1 for ctx 0
    plic.set_pending(1);

    let claimed = plic.read32(0x20_0004).unwrap(); // claim
    assert_eq!(claimed, 1);

    // Re-pend while still claimed — must not be re-claimable
    plic.set_pending(1);
    assert!(!plic.meip_pending()); // EIP must not assert
    assert_eq!(plic.read32(0x20_0004).unwrap(), 0); // claim returns 0

    // After complete, re-pended source becomes claimable again
    plic.write32(0x20_0004, 1).unwrap(); // complete
    assert!(plic.meip_pending());
    assert_eq!(plic.read32(0x20_0004).unwrap(), 1);
}

#[test]
fn registers_mask_and_ignore_out_of_range_sources() {
    let mut plic = Plic::new();
    // Priorities keep three bits; source 0 has no priority register.
    plic.write32(0x0C, 0xFF).unwrap();
    assert_eq!(plic.read32(0x0C).unwrap(), 7);
    plic.write32(0x00, 5).unwrap();
    assert_eq!(plic.read32(0x00).unwrap(), 0);
    // Enable bit 0 is reserved; thresholds keep three bits.
    plic.write32(0x2000, 0xFFFF_FFFF).unwrap();
    assert_eq!(plic.read32(0x2000).unwrap(), 0xFFFF_FFFE);
    plic.write32(0x20_1000, 0x1F).unwrap();
    assert_eq!(plic.read32(0x20_1000).unwrap(), 7);
    // Sources 0 and 32+ are ignored by set_pending; clear_pending lowers a bit.
    plic.set_pending(0);
    plic.set_pending(40);
    assert_eq!(plic.read32(0x1000).unwrap(), 0);
    plic.set_pending(31);
    assert_eq!(plic.read32(0x1000).unwrap(), 0x8000_0000);
    plic.clear_pending(31);
    assert_eq!(plic.read32(0x1000).unwrap(), 0);
    // Unmapped offsets read as zero.
    assert_eq!(plic.read32(0x3000).unwrap(), 0);
}

#[test]
fn equal_priorities_claim_lowest_source_first() {
    let mut plic = Plic::new();
    plic.write32(0x0C, 2).unwrap(); // source 3
    plic.write32(0x14, 2).unwrap(); // source 5
    plic.write32(0x2000, (1 << 3) | (1 << 5)).unwrap();
    plic.set_pending(5);
    plic.set_pending(3);
    assert_eq!(plic.read32(0x20_0004).unwrap(), 3);
    assert_eq!(plic.read32(0x20_0004).unwrap(), 5);
    assert_eq!(plic.read32(0x20_0004).unwrap(), 0);
    // Byte-wide reads of the claim register claim too.
    plic.write32(0x20_0004, 3).unwrap();
    plic.set_pending(3);
    assert_eq!(plic.read8(0x20_0004).unwrap(), 3);
}

#[test]
fn claim_touches_only_the_claimed_source() {
    let mut plic = Plic::new();
    for s in 1..=5u32 {
        plic.write32(4 * s, s % 4).unwrap();
        plic.set_pending(s);
    }
    plic.write32(0x2000, 0x3E).unwrap();
    plic.write32(0x2080, 0x0C).unwrap();
    plic.write32(0x20_1000, 1).unwrap();
    // Sources 3 and 5 have priority 3; the lower number wins.
    assert_eq!(plic.read32(0x20_0004).unwrap(), 3);
    assert_eq!(plic.read32(0x1000).unwrap(), 0x36);
    for s in 1..=5u32 {
        assert_eq!(plic.read32(4 * s).unwrap(), s % 4);
    }
    assert_eq!(plic.read32(0x2000).unwrap(), 0x3E);
    assert_eq!(plic.read32(0x2080).unwrap(), 0x0C);
    assert_eq!(plic.read32(0x20_1000).unwrap(), 1);
    // The S context can still claim source 2 (priority 2 > threshold 1).
    assert_eq!(plic.read32(0x20_1004).unwrap(), 2);
}
