use rvsim::cpu::{Hart, PRIV_M, PRIV_S, PRIV_U};
use rvsim::csr::{
    CSR_PMPADDR0, CSR_PMPCFG0, PMP_A_NA4, PMP_A_NAPOT, PMP_A_SHIFT, PMP_A_TOR, PMP_L, PMP_R,
    PMP_W, PMP_X,
};
use rvsim::mmu::AccessType;
use rvsim::pmp::check;
use rvsim::trap::Trap;

fn hart_with_cfg0(cfg: u32, addr0: u32) -> Hart {
    let mut h = Hart::new(0);
    h.csrs.write_raw(CSR_PMPCFG0, cfg);
    h.csrs.write_raw(CSR_PMPADDR0, addr0);
    h
}

#[test]
fn mmode_allows_when_no_entries() {
    let h = Hart::new(0);
    // priv=M, no PMP entries → allow.
    check(&h, 0x1000, 0x1000, AccessType::Load, PRIV_M).unwrap();
}

#[test]
fn umode_denies_when_no_entries() {
    let h = Hart::new(0);
    let err = check(&h, 0x1000, 0x1000, AccessType::Load, PRIV_U).unwrap_err();
    assert_eq!(err.cause, Trap::LoadAccessFault.cause_code());
}

#[test]
fn mmode_bypasses_unlocked_entry() {
    // Entry 0: A=NAPOT, R=0,W=0,X=0, L=0, covers [0, 4 GiB).
    let cfg = (PMP_A_NAPOT << PMP_A_SHIFT) as u32; // R/W/X = 0, L = 0
    let h = hart_with_cfg0(cfg, 0x7fff_ffff);
    // M-mode skips because L=0.
    check(&h, 0x1000, 0x1000, AccessType::Load, PRIV_M).unwrap();
}

#[test]
fn mmode_locked_entry_applies() {
    let cfg = ((PMP_A_NAPOT << PMP_A_SHIFT) | PMP_L) as u32; // L=1, no perms
    let h = hart_with_cfg0(cfg, 0x7fff_ffff);
    let err = check(&h, 0x1000, 0x1000, AccessType::Load, PRIV_M).unwrap_err();
    assert_eq!(err.cause, Trap::LoadAccessFault.cause_code());
}

#[test]
fn napot_grants_within_range() {
    // 4 KiB region at base 0x8000_0000: pmpaddr = 0x2000_01FF
    let cfg = ((PMP_A_NAPOT << PMP_A_SHIFT) | PMP_R | PMP_W | PMP_X) as u32;
    let h = hart_with_cfg0(cfg, 0x2000_01FF);
    check(&h, 0x8000_0000, 0, AccessType::Load, PRIV_U).unwrap();
    check(&h, 0x8000_0FFF, 0, AccessType::Store, PRIV_U).unwrap();
    let err = check(&h, 0x8000_1000, 0, AccessType::Load, PRIV_U).unwrap_err();
    assert_eq!(err.cause, Trap::LoadAccessFault.cause_code());
}

#[test]
fn tor_uses_previous_addr_as_lower_bound() {
    let cfg0 = (PMP_A_TOR << PMP_A_SHIFT) as u32;
    let cfg1 = ((PMP_A_TOR << PMP_A_SHIFT) | PMP_R | PMP_W | PMP_X) as u32;
    let cfg = cfg0 | (cfg1 << 8);
    let mut h = Hart::new(0);
    h.csrs.write_raw(CSR_PMPCFG0, cfg);
    h.csrs.write_raw(CSR_PMPADDR0, 0x2000_0400);
    h.csrs.write_raw(CSR_PMPADDR0 + 1, 0x2000_0800);

    // PA inside entry 0 range, no perms → fault.
    let err = check(&h, 0x8000_0000, 0, AccessType::Load, PRIV_S).unwrap_err();
    assert_eq!(err.cause, Trap::LoadAccessFault.cause_code());
    // PA inside entry 1 range, full perms → allow.
    check(&h, 0x8000_1000, 0, AccessType::Load, PRIV_S).unwrap();
}

#[test]
fn na4_covers_exactly_four_bytes_and_checks_permission_kind() {
    // Entry 0: NA4 at 0x100 with R only; the fault carries the virtual address.
    let cfg = ((PMP_A_NA4 << PMP_A_SHIFT) | PMP_R) as u32;
    let h = hart_with_cfg0(cfg, 0x40);
    check(&h, 0x100, 0x9100, AccessType::Load, PRIV_U).unwrap();
    check(&h, 0x103, 0x9103, AccessType::Load, PRIV_U).unwrap();
    let err = check(&h, 0x100, 0x9100, AccessType::Store, PRIV_U).unwrap_err();
    assert_eq!(err.cause, Trap::StoreAccessFault.cause_code());
    assert_eq!(err.tval, 0x9100);
    let err = check(&h, 0x104, 0x9104, AccessType::Fetch, PRIV_S).unwrap_err();
    assert_eq!(err.cause, Trap::InstructionAccessFault.cause_code());
}
