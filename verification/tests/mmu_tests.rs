use rvsim::cpu::{Hart, PRIV_M, PRIV_S, PRIV_U};
use rvsim::csr::{CSR_MSTATUS, CSR_SATP, MSTATUS_SUM};
use rvsim::flat::FlatMemory;
use rvsim::mem::Memory;
use rvsim::mmu::{translate, AccessType, PTE_A, PTE_D, PTE_R, PTE_U, PTE_V, PTE_W, PTE_X};
use rvsim::trap::Trap;

// Tiny in-memory backing store for tests: RAM at physical address 0.
fn vec_mem(size: usize) -> FlatMemory {
    FlatMemory::new(size, 0)
}

fn pte(ppn: u32, flags: u32) -> u32 {
    (ppn << 10) | flags
}

/// Build a simple identity mapping for one 4 KiB page using two-level walk.
/// Root table at PA 0x1000, second-level at PA 0x2000, target page at PA 0x3000.
fn setup_one_page(perms: u32) -> (Hart, FlatMemory) {
    let mut mem = vec_mem(0x10000);
    let leaf = pte(0x3, PTE_V | PTE_A | PTE_D | perms | PTE_U); // PPN = 3 → PA 0x3000
    let inner = pte(0x2, PTE_V); // points at second-level at PA 0x2000
    // Root PTE at index 0 of root table (covers VA 0..4 MiB)
    mem.write32(0x1000, inner).unwrap();
    // Second-level PTE at index 3 (covers VA 0x3000..0x4000)
    mem.write32(0x2000 + 3 * 4, leaf).unwrap();

    let mut hart = Hart::new(0);
    hart.priv_mode = PRIV_U;
    // satp: MODE=1, PPN=0x1 (root at PA 0x1000)
    hart.csrs.write_raw(CSR_SATP, (1 << 31) | 0x1);
    (hart, mem)
}

#[test]
fn translate_u_mode_4k_page() {
    let (hart, mut mem) = setup_one_page(PTE_R | PTE_W | PTE_X);
    // VA 0x3000 → PA 0x3000 (identity).
    assert_eq!(translate(&hart, &mut mem, 0x3000, AccessType::Load).unwrap(), 0x3000);
    assert_eq!(translate(&hart, &mut mem, 0x3abc, AccessType::Store).unwrap(), 0x3abc);
    assert_eq!(translate(&hart, &mut mem, 0x3fff, AccessType::Fetch).unwrap(), 0x3fff);
}

#[test]
fn translate_invalid_pte() {
    let (mut hart, mut mem) = setup_one_page(PTE_R);
    // Clear V on the leaf.
    let leaf = pte(0x3, PTE_A | PTE_D | PTE_R | PTE_U);
    mem.write32(0x2000 + 3 * 4, leaf).unwrap();
    hart.priv_mode = PRIV_U;
    let err = translate(&hart, &mut mem, 0x3000, AccessType::Load).unwrap_err();
    assert_eq!(err.cause, Trap::LoadPageFault.cause_code());
    assert_eq!(err.tval, 0x3000);
}

#[test]
fn translate_reserved_encoding_w_without_r() {
    let (hart, mut mem) = setup_one_page(PTE_W);
    // Override leaf: W set, R clear, V set → reserved.
    let leaf = pte(0x3, PTE_V | PTE_A | PTE_D | PTE_W | PTE_U);
    mem.write32(0x2000 + 3 * 4, leaf).unwrap();
    let err = translate(&hart, &mut mem, 0x3000, AccessType::Load).unwrap_err();
    assert_eq!(err.cause, Trap::LoadPageFault.cause_code());
}

#[test]
fn translate_store_without_d_faults() {
    let (hart, mut mem) = setup_one_page(PTE_R | PTE_W);
    // Drop D bit.
    let leaf = pte(0x3, PTE_V | PTE_A | PTE_R | PTE_W | PTE_U);
    mem.write32(0x2000 + 3 * 4, leaf).unwrap();
    // Load still succeeds (A is set).
    assert!(translate(&hart, &mut mem, 0x3000, AccessType::Load).is_ok());
    // Store faults because D=0.
    let err = translate(&hart, &mut mem, 0x3000, AccessType::Store).unwrap_err();
    assert_eq!(err.cause, Trap::StorePageFault.cause_code());
}

#[test]
fn translate_no_a_faults() {
    let (hart, mut mem) = setup_one_page(PTE_R);
    // Drop A bit.
    let leaf = pte(0x3, PTE_V | PTE_R | PTE_U);
    mem.write32(0x2000 + 3 * 4, leaf).unwrap();
    let err = translate(&hart, &mut mem, 0x3000, AccessType::Load).unwrap_err();
    assert_eq!(err.cause, Trap::LoadPageFault.cause_code());
}

#[test]
fn translate_smode_user_page_without_sum() {
    let (mut hart, mut mem) = setup_one_page(PTE_R);
    hart.priv_mode = PRIV_S;
    // SUM = 0, accessing U page → fault.
    let err = translate(&hart, &mut mem, 0x3000, AccessType::Load).unwrap_err();
    assert_eq!(err.cause, Trap::LoadPageFault.cause_code());

    // With SUM set, loads/stores work; fetches still fault.
    hart.csrs.write_raw(CSR_MSTATUS, MSTATUS_SUM);
    assert!(translate(&hart, &mut mem, 0x3000, AccessType::Load).is_ok());
    let err = translate(&hart, &mut mem, 0x3000, AccessType::Fetch).unwrap_err();
    assert_eq!(err.cause, Trap::InstructionPageFault.cause_code());
}

#[test]
fn translate_mmode_bypasses() {
    let (mut hart, mut mem) = setup_one_page(0);
    hart.priv_mode = PRIV_M;
    // satp set but M-mode → identity, regardless of perms.
    assert_eq!(translate(&hart, &mut mem, 0x1234, AccessType::Load).unwrap(), 0x1234);
}

#[test]
fn translate_bare_mode() {
    let mut hart = Hart::new(0);
    let mut mem = vec_mem(0x100);
    hart.priv_mode = PRIV_U;
    // satp.MODE = 0 (Bare) → identity even in U-mode.
    hart.csrs.write_raw(CSR_SATP, 0);
    assert_eq!(translate(&hart, &mut mem, 0xdead_beef, AccessType::Load).unwrap(), 0xdead_beef);
}

#[test]
fn translate_megapage() {
    // Root PTE is a leaf with R|W set → 4 MiB megapage.
    let mut mem = vec_mem(0x10000);
    let leaf = pte(0x40 << 10, PTE_V | PTE_A | PTE_D | PTE_R | PTE_W | PTE_U);
    mem.write32(0x1000, leaf).unwrap();

    let mut hart = Hart::new(0);
    hart.priv_mode = PRIV_U;
    hart.csrs.write_raw(CSR_SATP, (1 << 31) | 0x1);
    // VA 0x0000_1234 → PA 0x1000_1234 (low 22 bits passed through from VA).
    assert_eq!(translate(&hart, &mut mem, 0x1234, AccessType::Load).unwrap(), 0x1000_1234);
}

#[test]
fn translate_misaligned_megapage_faults() {
    let mut mem = vec_mem(0x10000);
    // ppn1=0x40, ppn0=1 (non-zero!) → misaligned megapage.
    let leaf = pte((0x40 << 10) | 1, PTE_V | PTE_A | PTE_D | PTE_R | PTE_W | PTE_U);
    mem.write32(0x1000, leaf).unwrap();
    let mut hart = Hart::new(0);
    hart.priv_mode = PRIV_U;
    hart.csrs.write_raw(CSR_SATP, (1 << 31) | 0x1);
    let err = translate(&hart, &mut mem, 0x1234, AccessType::Load).unwrap_err();
    assert_eq!(err.cause, Trap::LoadPageFault.cause_code());
}

#[test]
fn translate_fault_when_page_table_is_outside_memory() {
    // Root table at PA 0x10_0000, beyond a 64 KiB memory: the walk's read
    // fails and the access gets a page fault carrying the virtual address.
    let mut mem = vec_mem(0x10000);
    let mut hart = Hart::new(0);
    hart.priv_mode = PRIV_S;
    hart.csrs.write_raw(CSR_SATP, (1 << 31) | 0x100);
    let err = translate(&hart, &mut mem, 0x5678, AccessType::Store).unwrap_err();
    assert_eq!(err.cause, Trap::StorePageFault.cause_code());
    assert_eq!(err.tval, 0x5678);
}

#[test]
fn mprv_uses_mpp_for_loads_but_not_fetches() {
    let (mut hart, mut mem) = setup_one_page(PTE_R);
    hart.priv_mode = PRIV_M;
    // MPRV=1, MPP=U: loads are translated as U-mode, fetches stay M-mode.
    hart.csrs.write_raw(CSR_MSTATUS, 0x2_0000);
    assert_eq!(translate(&hart, &mut mem, 0x3010, AccessType::Load).unwrap(), 0x3010);
    let err = translate(&hart, &mut mem, 0x5000, AccessType::Load).unwrap_err();
    assert_eq!(err.cause, Trap::LoadPageFault.cause_code());
    assert_eq!(translate(&hart, &mut mem, 0x5000, AccessType::Fetch).unwrap(), 0x5000);
}
