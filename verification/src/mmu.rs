//! Sv32 virtual-to-physical address translation.
//!
//! Translation is performed on every memory access (no TLB). M-mode bypasses
//! translation, as does `satp.MODE = Bare`. For loads/stores in M-mode with
//! `mstatus.MPRV = 1`, the effective privilege is `mstatus.MPP`.
//!
//! A/D bits are not set automatically — a missing A (or D on a store) raises a
//! page fault, which is what Linux's page fault handler expects.
use crate::arith::wrap32;
use crate::cpu::{Hart, PRIV_M};
use crate::csr::{
    CSR_MSTATUS, CSR_SATP, MSTATUS_MPP_MASK, MSTATUS_MPP_SHIFT, MSTATUS_MPRV, MSTATUS_MXR,
    MSTATUS_SUM,
};
use crate::mem::Memory;
use crate::trap::{exception_info, Trap, TrapInfo};
use crate::bits::lemma_u32_bits;
use vstd::prelude::*;

verus! {

/// The kind of memory access being translated.
#[derive(Debug, Clone, Copy, PartialEq, Eq, Structural)]
pub enum AccessType {
    Fetch,
    Load,
    Store,
}

/// The page fault raised by a failed translation of each kind of access.
pub open spec fn page_fault_of(access: AccessType) -> Trap {
    match access {
        AccessType::Fetch => Trap::InstructionPageFault,
        AccessType::Load => Trap::LoadPageFault,
        AccessType::Store => Trap::StorePageFault,
    }
}

impl AccessType {
    fn page_fault(self) -> (r: Trap)
        ensures
            r == page_fault_of(self),
    {
        match self {
            AccessType::Fetch => Trap::InstructionPageFault,
            AccessType::Load => Trap::LoadPageFault,
            AccessType::Store => Trap::StorePageFault,
        }
    }
}

// PTE bit positions (Sv32)
pub const PTE_V: u32 = 0x01;
pub const PTE_R: u32 = 0x02;
pub const PTE_W: u32 = 0x04;
pub const PTE_X: u32 = 0x08;
pub const PTE_U: u32 = 0x10;
pub const PTE_A: u32 = 0x40;
pub const PTE_D: u32 = 0x80;

pub const PAGE_SIZE: u32 = 4096;

/// Privilege used for the access: fetches use the current mode; loads and
/// stores in M-mode with MPRV set use MPP.
pub open spec fn effective_priv(priv_mode: u8, mstatus: u32, access: AccessType) -> u8 {
    if access == AccessType::Fetch {
        priv_mode
    } else if priv_mode == PRIV_M && (mstatus & MSTATUS_MPRV) != 0 {
        ((mstatus & MSTATUS_MPP_MASK) >> MSTATUS_MPP_SHIFT) as u8
    } else {
        priv_mode
    }
}

/// Translation is the identity: effective M-mode, or satp.MODE = Bare.
pub open spec fn translation_bypassed(eff_priv: u8, satp: u32) -> bool {
    eff_priv == PRIV_M || satp / 0x8000_0000 == 0
}

/// An invalid PTE, or the reserved encoding W=1, R=0.
pub open spec fn pte_invalid(p: u32) -> bool {
    (p & PTE_V) == 0 || ((p & PTE_R) == 0 && (p & PTE_W) != 0)
}

/// A leaf PTE grants R or X.
pub open spec fn pte_leaf(p: u32) -> bool {
    (p & (PTE_R | PTE_X)) != 0
}

/// Virtual page number fields of a virtual address.
pub open spec fn vpn1_of(va: u32) -> u32 {
    va / 0x40_0000
}

pub open spec fn vpn0_of(va: u32) -> u32 {
    (va / 0x1000) % 0x400
}

/// The full 22-bit PPN of a PTE (bits 31:10).
pub open spec fn pte_ppn(p: u32) -> u32 {
    p / 0x400
}

/// Whether a leaf PTE at `level` permits the access at effective privilege `eff`.
pub open spec fn leaf_permits(pte: u32, level: int, eff: u8, mstatus: u32, access: AccessType) -> bool {
    let perm = match access {
        AccessType::Fetch => (pte & PTE_X) != 0,
        AccessType::Load => (pte & PTE_R) != 0 || ((mstatus & MSTATUS_MXR) != 0 && (pte & PTE_X)
            != 0),
        AccessType::Store => (pte & PTE_W) != 0,
    };
    let user_page = (pte & PTE_U) != 0;
    let user_ok = if eff == 0 {
        user_page
    } else {
        !user_page || (access != AccessType::Fetch && (mstatus & MSTATUS_SUM) != 0)
    };
    // A megapage must have PPN[0] = 0.
    let aligned = level == 0 || (pte / 0x400) % 0x400 == 0;
    let accessed = (pte & PTE_A) != 0 && (access != AccessType::Store || (pte & PTE_D) != 0);
    perm && user_ok && aligned && accessed
}

/// Physical address produced by a leaf PTE at `level` for `va`:
/// PA[33:22] = PPN[1] (truncated to 32 bits), PA[21:12] = VPN[0] for a
/// megapage or PPN[0] for a 4 KiB page, PA[11:0] = page offset.
pub open spec fn leaf_pa(pte: u32, level: int, va: u32) -> u32 {
    let ppn1 = (pte / 0x10_0000) % 0x400;
    let low = if level == 1 {
        vpn0_of(va)
    } else {
        (pte / 0x400) % 0x400
    };
    (ppn1 * 0x40_0000 + low * 0x1000 + va % 0x1000) as u32
}

/// The outcome of translating at a leaf PTE.
pub open spec fn leaf_result(pte: u32, level: int, eff: u8, mstatus: u32, va: u32, access: AccessType) -> Result<u32, TrapInfo> {
    if leaf_permits(pte, level, eff, mstatus, access) {
        Ok(leaf_pa(pte, level, va))
    } else {
        Err(exception_info(page_fault_of(access), va))
    }
}

/// Sv32 translation of `va`: the result and the memory state after the page
/// table reads. Every failure is a page fault of the access kind with the
/// virtual address as trap value.
#[verifier::opaque]
pub open spec fn translate_spec<M: Memory>(
    priv_mode: u8,
    mstatus: u32,
    satp: u32,
    mem: M::V,
    va: u32,
    access: AccessType,
) -> (Result<u32, TrapInfo>, M::V) {
    let eff = effective_priv(priv_mode, mstatus, access);
    let fault = Err(exception_info(page_fault_of(access), va));
    if translation_bypassed(eff, satp) {
        (Ok(va), mem)
    } else {
        let root = wrap32((satp % 0x40_0000) * 0x1000);
        let (r1, m1) = M::read32_spec(mem, wrap32(root + vpn1_of(va) * 4));
        match r1 {
            Err(_) => (fault, m1),
            Ok(p1) => if pte_invalid(p1) {
                (fault, m1)
            } else if pte_leaf(p1) {
                (leaf_result(p1, 1, eff, mstatus, va, access), m1)
            } else {
                let base = wrap32(pte_ppn(p1) * 0x1000);
                let (r0, m2) = M::read32_spec(m1, wrap32(base + vpn0_of(va) * 4));
                match r0 {
                    Err(_) => (fault, m2),
                    Ok(p0) => if pte_invalid(p0) || !pte_leaf(p0) {
                        (fault, m2)
                    } else {
                        (leaf_result(p0, 0, eff, mstatus, va, access), m2)
                    },
                }
            },
        }
    }
}

/// Translation is the identity in effective M-mode and under satp.MODE =
/// Bare, and reads no memory.
pub proof fn law_translate_bypass<M: Memory>(priv_mode: u8, mstatus: u32, satp: u32, mem: M::V, va: u32, access: AccessType)
    requires
        translation_bypassed(effective_priv(priv_mode, mstatus, access), satp),
    ensures
        translate_spec::<M>(priv_mode, mstatus, satp, mem, va, access) == (
            Ok::<u32, TrapInfo>(va),
            mem,
        ),
{
    reveal(translate_spec);
}

/// Every failed translation is a page fault of the access's kind whose trap
/// value is the virtual address; every successful one keeps the page offset.
pub proof fn law_translate_outcome<M: Memory>(priv_mode: u8, mstatus: u32, satp: u32, mem: M::V, va: u32, access: AccessType)
    ensures
        match translate_spec::<M>(priv_mode, mstatus, satp, mem, va, access).0 {
            Ok(pa) => pa % 0x1000 == va % 0x1000,
            Err(e) => e == exception_info(page_fault_of(access), va),
        },
{
    reveal(translate_spec);
    assert forall|pte: u32, level: int|
        #![trigger leaf_pa(pte, level, va)]
        (leaf_pa(pte, level, va) as int) % 0x1000 == va % 0x1000 by {
        let ppn1 = (pte / 0x10_0000) % 0x400;
        let low = if level == 1 {
            vpn0_of(va)
        } else {
            (pte / 0x400) % 0x400
        };
        assert(ppn1 * 0x40_0000 + low * 0x1000 + va % 0x1000 < 0x1_0000_0000) by (nonlinear_arith)
            requires
                ppn1 < 0x400,
                low < 0x400,
                va % 0x1000 < 0x1000,
        ;
        assert((ppn1 * 0x40_0000 + low * 0x1000 + va % 0x1000) % 0x1000 == va % 0x1000)
            by (nonlinear_arith)
            requires
                ppn1 >= 0,
                low >= 0,
                0 <= va % 0x1000 < 0x1000,
        ;
    }
}

/// A physical address assembled from PPN[1], a 10-bit page number and a
/// 12-bit page offset.
proof fn lemma_pa_compose(p1: u32, low: u32, offset: u32)
    by (bit_vector)
    requires
        low < 0x400,
        offset < 0x1000,
    ensures
        ((p1 << 22u32) | (low << 12u32) | offset) == ((p1 % 0x400) * 0x40_0000 + low * 0x1000
            + offset) as u32,
{
}

fn check_leaf(pte: u32, level: u32, eff_priv: u8, mstatus: u32, va: u32, access: AccessType) -> (r: Result<u32, TrapInfo>)
    requires
        level <= 1,
    ensures
        r == leaf_result(pte, level as int, eff_priv, mstatus, va, access),
{
    // Permission checks on the leaf PTE.
    let perm_ok = match access {
        AccessType::Fetch => (pte & PTE_X) != 0,
        // Loads need R; MXR allows X to substitute.
        AccessType::Load => (pte & PTE_R) != 0 || ((mstatus & MSTATUS_MXR) != 0 && (pte & PTE_X)
            != 0),
        AccessType::Store => (pte & PTE_W) != 0,
    };
    if !perm_ok {
        return Err(TrapInfo::new(access.page_fault(), va));
    }
    // U/S permission interaction.

    let is_user_page = (pte & PTE_U) != 0;
    if eff_priv == 0 {
        // U-mode: page must be U.
        if !is_user_page {
            return Err(TrapInfo::new(access.page_fault(), va));
        }
    } else {
        // S-mode accessing a U page: fetches always fault; loads/stores
        // fault unless SUM is set.
        if is_user_page {
            if access == AccessType::Fetch {
                return Err(TrapInfo::new(access.page_fault(), va));
            }
            if (mstatus & MSTATUS_SUM) == 0 {
                return Err(TrapInfo::new(access.page_fault(), va));
            }
        }
    }
    // Megapage misalignment: leaf at level 1 with non-zero PPN[0].

    proof {
        lemma_u32_bits(pte);
    }
    let ppn1 = (pte >> 20) & 0xFFF;  // PTE bits 31:20
    let ppn0 = (pte >> 10) & 0x3FF;  // PTE bits 19:10
    if level > 0 && ppn0 != 0 {
        return Err(TrapInfo::new(access.page_fault(), va));
    }
    // A/D bit check (fault rather than auto-set).

    if (pte & PTE_A) == 0 {
        return Err(TrapInfo::new(access.page_fault(), va));
    }
    if access == AccessType::Store && (pte & PTE_D) == 0 {
        return Err(TrapInfo::new(access.page_fault(), va));
    }
    // Assemble the physical address.

    let offset = va & 0xFFF;
    let vpn0 = (va >> 12) & 0x3FF;
    let pa = if level == 1 {
        // Megapage: PA[33:22] = ppn1, PA[21:12] = vpn[0]
        (ppn1 << 22) | (vpn0 << 12) | offset
    } else {
        // 4 KiB page: PA[33:22] = ppn1, PA[21:12] = ppn0
        (ppn1 << 22) | (ppn0 << 12) | offset
    };
    proof {
        lemma_u32_bits(va);
        let p1 = pte / 0x10_0000;
        lemma_pa_compose(p1, vpn0, offset);
        lemma_pa_compose(p1, ppn0, offset);
    }
    Ok(pa)
}

/// Translate a virtual address to a physical address, walking the Sv32 page table.
///
/// Returns `Err(page_fault_on_va)` on any failure. The error's `tval` is always
/// the original virtual address.
#[verifier::rlimit(40)]
pub fn translate<M: Memory>(hart: &Hart, mem: &mut M, va: u32, access: AccessType) -> (r: Result<
    u32,
    TrapInfo,
>)
    ensures
        (r, final(mem)@) == translate_spec::<M>(
            hart.priv_mode,
            hart.csrs@[CSR_MSTATUS as int],
            hart.csrs@[CSR_SATP as int],
            old(mem)@,
            va,
            access,
        ),
{
    proof {
        hart.csrs.lemma_view_wf();
        reveal(translate_spec);
    }
    let mstatus = hart.csrs.read_raw(CSR_MSTATUS);
    // Effective privilege: fetches always use current priv; loads/stores in
    // M-mode with MPRV=1 use MPP.
    let eff_priv = if access == AccessType::Fetch {
        hart.priv_mode
    } else if hart.priv_mode == PRIV_M && (mstatus & MSTATUS_MPRV) != 0 {
        ((mstatus & MSTATUS_MPP_MASK) >> MSTATUS_MPP_SHIFT) as u8
    } else {
        hart.priv_mode
    };
    let satp = hart.csrs.read_raw(CSR_SATP);
    proof {
        lemma_u32_bits(satp);
        lemma_u32_bits(va);
    }
    let mode = (satp >> 31) & 1;
    // M-mode (effective) or Bare mode: identity translation.
    if eff_priv == PRIV_M || mode == 0 {
        return Ok(va);
    }
    // Sv32 walk, level 1 then level 0.

    let vpn1 = (va >> 22) & 0x3FF;
    let vpn0 = (va >> 12) & 0x3FF;
    let root_ppn = satp & 0x003F_FFFF;
    let a = root_ppn.wrapping_mul(PAGE_SIZE);
    let p = match mem.read32(a.wrapping_add(vpn1.wrapping_mul(4))) {
        Ok(p) => p,
        Err(_) => {
            return Err(TrapInfo::new(access.page_fault(), va));
        },
    };
    // Invalid or reserved encoding (W=1, R=0).
    if (p & PTE_V) == 0 || ((p & PTE_R) == 0 && (p & PTE_W) != 0) {
        return Err(TrapInfo::new(access.page_fault(), va));
    }
    // Leaf?

    if (p & (PTE_R | PTE_X)) != 0 {
        return check_leaf(p, 1, eff_priv, mstatus, va, access);
    }
    // Non-leaf: descend. Next-level page table base = PPN field shifted up
    // to byte address (PPN[1] = bits 31:20 of PTE, PPN[0] = bits 19:10).

    proof {
        lemma_u32_bits(p);
    }
    let ppn = (p >> 10) & 0x003F_FFFF;
    let a = ppn.wrapping_mul(PAGE_SIZE);
    let p = match mem.read32(a.wrapping_add(vpn0.wrapping_mul(4))) {
        Ok(p) => p,
        Err(_) => {
            return Err(TrapInfo::new(access.page_fault(), va));
        },
    };
    if (p & PTE_V) == 0 || ((p & PTE_R) == 0 && (p & PTE_W) != 0) {
        return Err(TrapInfo::new(access.page_fault(), va));
    }
    if (p & (PTE_R | PTE_X)) != 0 {
        return check_leaf(p, 0, eff_priv, mstatus, va, access);
    }
    // A non-leaf PTE at level 0 has nowhere left to point.

    Err(TrapInfo::new(access.page_fault(), va))
}


/// What a leaf PTE allows. The access succeeds exactly when: the A bit is
/// set; a fetch needs X, a load R (or X when mstatus.MXR is set), a store W
/// and the D bit; a U-mode access needs the U bit; an S-mode access to a U
/// page needs mstatus.SUM and is never a fetch; and a megapage (level 1)
/// has PPN[0] = 0. The physical address is then PPN[1] at bits 31:22, for a
/// megapage VPN[0] (else PPN[0]) at bits 21:12, and the page offset.
#[verifier::spinoff_prover]
pub proof fn law_leaf_permissions(pte: u32, level: int, eff: u8, mstatus: u32, va: u32, access: AccessType)
    requires
        level == 0 || level == 1,
    ensures
        ({
            let a = (pte / 0x40) % 2 == 1;
            let d = (pte / 0x80) % 2 == 1;
            let r = (pte / 2) % 2 == 1;
            let w = (pte / 4) % 2 == 1;
            let x = (pte / 8) % 2 == 1;
            let u = (pte / 0x10) % 2 == 1;
            let mxr = (mstatus / 0x8_0000) % 2 == 1;
            let sum = (mstatus / 0x4_0000) % 2 == 1;
            let ok = {
                &&& a
                &&& access == AccessType::Fetch ==> x
                &&& access == AccessType::Load ==> (r || (mxr && x))
                &&& access == AccessType::Store ==> (w && d)
                &&& eff == 0 ==> u
                &&& (eff != 0 && u) ==> (access != AccessType::Fetch && sum)
                &&& level == 1 ==> (pte / 0x400) % 0x400 == 0
            };
            let low = if level == 1 { (va / 0x1000) % 0x400 } else { (pte / 0x400) % 0x400 };
            let pa = (((pte / 0x10_0000) % 0x400) * 0x40_0000 + low * 0x1000 + va % 0x1000) as u32;
            &&& ok ==> leaf_result(pte, level, eff, mstatus, va, access) == Ok::<u32, TrapInfo>(pa)
            &&& !ok ==> leaf_result(pte, level, eff, mstatus, va, access) == Err::<u32, TrapInfo>(
                exception_info(page_fault_of(access), va),
            )
        }),
{
    lemma_pte_bits(pte);
    lemma_pte_bits(mstatus);
}

/// Single-bit tests as arithmetic.
proof fn lemma_pte_bits(p: u32)
    by (bit_vector)
    ensures
        ((p & 0x40u32) != 0) == ((p / 0x40) % 2 == 1),
        ((p & 0x80u32) != 0) == ((p / 0x80) % 2 == 1),
        ((p & 0x02u32) != 0) == ((p / 2) % 2 == 1),
        ((p & 0x04u32) != 0) == ((p / 4) % 2 == 1),
        ((p & 0x08u32) != 0) == ((p / 8) % 2 == 1),
        ((p & 0x10u32) != 0) == ((p / 0x10) % 2 == 1),
        ((p & 0x8_0000u32) != 0) == ((p / 0x8_0000) % 2 == 1),
        ((p & 0x4_0000u32) != 0) == ((p / 0x4_0000) % 2 == 1),
        ((p & 0x01u32) == 0) == (p % 2 == 0),
        ((p & (0x02u32 | 0x08u32)) != 0) == ((p / 2) % 2 == 1 || (p / 8) % 2 == 1),
{
}

/// Adding to an address that was already reduced modulo 2^32.
proof fn lemma_wrap_add(a: int, b: int)
    requires
        0 <= a,
        0 <= b < 0x1_0000_0000,
    ensures
        wrap32(wrap32(a) + b) == ((a + b) % 0x1_0000_0000) as u32,
{
    vstd::arithmetic::div_mod::lemma_add_mod_noop(a, b, 0x1_0000_0000);
    vstd::arithmetic::div_mod::lemma_small_mod(b as nat, 0x1_0000_0000);
}


/// Bits of mstatus that decide the effective privilege.
proof fn lemma_mprv_bits(ms: u32)
    by (bit_vector)
    ensures
        ((ms & 0x2_0000u32) != 0) == ((ms / 0x2_0000) % 2 == 1),
        ((ms & 0x1800u32) >> 11u32) == (ms / 0x800) % 4,
{
}

/// A PTE with V (bit 0) clear, or with W (bit 2) set and R (bit 1) clear.
pub open spec fn invalid_bits(p: u32) -> bool {
    p % 2 == 0 || ((p / 2) % 2 == 0 && (p / 4) % 2 == 1)
}

/// A PTE with R (bit 1) or X (bit 3) set.
pub open spec fn leaf_bits(p: u32) -> bool {
    (p / 2) % 2 == 1 || (p / 8) % 2 == 1
}

/// The Sv32 walk. Translation is skipped (the address is used as is, no
/// memory read) at effective privilege M or when satp.MODE (bit 31) is 0;
/// the effective privilege of a load or store in M-mode with mstatus.MPRV
/// (bit 17) set is mstatus.MPP (bits 12:11). Otherwise the level-1 PTE is
/// read at satp.PPN * 4096 + VPN[1] * 4; an unreadable or invalid PTE (V
/// clear, or W set without R) faults; a leaf (R or X set) decides at level
/// 1; otherwise the level-0 PTE is read at its PPN * 4096 + VPN[0] * 4 and
/// must be a valid leaf. Every fault is a page fault of the access's kind
/// with the virtual address as trap value.
#[verifier::spinoff_prover]
#[verifier::rlimit(60)]
pub proof fn law_translate_walk<M: Memory>(priv_mode: u8, mstatus: u32, satp: u32, mem: M::V, va: u32, access: AccessType)
    ensures
        ({
            let mprv = (mstatus / 0x2_0000) % 2 == 1;
            let eff: u8 = if access != AccessType::Fetch && priv_mode == 3 && mprv {
                ((mstatus / 0x800) % 4) as u8
            } else {
                priv_mode
            };
            let fault = Err::<u32, TrapInfo>(exception_info(page_fault_of(access), va));
            let a1 = (((satp % 0x40_0000) * 0x1000 + (va / 0x40_0000) * 4) % 0x1_0000_0000) as u32;
            translate_spec::<M>(priv_mode, mstatus, satp, mem, va, access) == if eff == 3 || satp
                < 0x8000_0000 {
                (Ok::<u32, TrapInfo>(va), mem)
            } else {
                let (r1, m1) = M::read32_spec(mem, a1);
                match r1 {
                    Err(_) => (fault, m1),
                    Ok(p1) => if invalid_bits(p1) {
                        (fault, m1)
                    } else if leaf_bits(p1) {
                        (leaf_result(p1, 1, eff, mstatus, va, access), m1)
                    } else {
                        let a0 = (((p1 / 0x400) * 0x1000 + ((va / 0x1000) % 0x400) * 4)
                            % 0x1_0000_0000) as u32;
                        let (r0, m2) = M::read32_spec(m1, a0);
                        match r0 {
                            Err(_) => (fault, m2),
                            Ok(p0) => if invalid_bits(p0) || !leaf_bits(p0) {
                                (fault, m2)
                            } else {
                                (leaf_result(p0, 0, eff, mstatus, va, access), m2)
                            },
                        }
                    },
                }
            }
        }),
{
    reveal(translate_spec);
    lemma_mprv_bits(mstatus);
    let eff = effective_priv(priv_mode, mstatus, access);
    if !translation_bypassed(eff, satp) {
        lemma_wrap_add((satp % 0x40_0000) * 0x1000, vpn1_of(va) * 4);
        let root = wrap32((satp % 0x40_0000) * 0x1000);
        let (r1, m1) = M::read32_spec(mem, wrap32(root + vpn1_of(va) * 4));
        if let Ok(p1) = r1 {
            lemma_pte_bits(p1);
            assert(pte_invalid(p1) == invalid_bits(p1));
            assert(pte_leaf(p1) == leaf_bits(p1));
            if !pte_invalid(p1) && !pte_leaf(p1) {
                lemma_wrap_add(pte_ppn(p1) * 0x1000, vpn0_of(va) * 4);
                let base = wrap32(pte_ppn(p1) * 0x1000);
                let (r0, m2) = M::read32_spec(m1, wrap32(base + vpn0_of(va) * 4));
                if let Ok(p0) = r0 {
                    lemma_pte_bits(p0);
                    assert(pte_invalid(p0) == invalid_bits(p0));
                    assert(pte_leaf(p0) == leaf_bits(p0));
                }
            }
        }
    }
}

} // verus!
