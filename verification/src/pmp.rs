//! Physical Memory Protection (PMP) checks.
//!
//! The M-mode firmware programs `pmpcfg{0..3}` and `pmpaddr{0..15}` to define
//! up to 16 address ranges and the R/W/X permissions S/U-mode (and optionally
//! locked M-mode) has over them. A failed check raises an access fault, *not*
//! a page fault.
//!
//! Matching rules per entry, in index order (0 wins ties):
//!   A=OFF   never matches
//!   A=TOR   matches if `prev_pmpaddr*4 <= addr < pmpaddr*4`
//!   A=NA4   matches a single 4-byte region at `pmpaddr*4`
//!   A=NAPOT matches `[base, base+size)` where size and base are encoded
//!           in pmpaddr (size = 2^(trailing_ones+3) bytes, ≥ 8).
//!
//! Permission rules:
//!   - First match wins. If matched, R/W/X bits decide allow/deny.
//!   - In M-mode, entries with L=0 are skipped (M bypass). With L=1,
//!     the entry applies even to M-mode.
//!   - If no entry matches: M-mode allows, S/U-mode denies.
use crate::arith::wrap32;
use crate::cpu::{Hart, PRIV_M};
use crate::csr::{
    CSR_PMPADDR0, CSR_PMPCFG0, PMP_A_MASK, PMP_A_NA4, PMP_A_NAPOT, PMP_A_SHIFT, PMP_A_TOR, PMP_L,
    PMP_NUM_ENTRIES, PMP_R, PMP_W, PMP_X,
};
use crate::mmu::AccessType;
use crate::trap::{exception_info, Trap, TrapInfo};
use crate::bits::lemma_u32_bits;
use vstd::prelude::*;

verus! {

/// The access fault raised by a denied access of each kind.
pub open spec fn access_fault_of(access: AccessType) -> Trap {
    match access {
        AccessType::Fetch => Trap::InstructionAccessFault,
        AccessType::Load => Trap::LoadAccessFault,
        AccessType::Store => Trap::StoreAccessFault,
    }
}

/// The configuration bit that grants each kind of access.
pub open spec fn perm_bit_of(access: AccessType) -> u8 {
    match access {
        AccessType::Fetch => PMP_X,
        AccessType::Load => PMP_R,
        AccessType::Store => PMP_W,
    }
}

/// Number of consecutive 1 bits at the low end of `x`.
pub open spec fn trailing_ones_spec(x: u32) -> nat
    decreases x,
{
    if x % 2 == 1 {
        1 + trailing_ones_spec(x / 2)
    } else {
        0
    }
}

/// 2^k.
pub open spec fn pow2_nat(k: nat) -> nat
    decreases k,
{
    if k == 0 {
        1
    } else {
        2 * pow2_nat((k - 1) as nat)
    }
}

proof fn lemma_trailing_ones_below(y: u32, k: nat)
    requires
        y < pow2_nat(k),
    ensures
        trailing_ones_spec(y) <= k,
    decreases y,
{
    if y % 2 == 1 {
        assert(k >= 1);
        lemma_trailing_ones_below((y / 2) as u32, (k - 1) as nat);
    }
}

proof fn lemma_trailing_ones_bound(x: u32)
    ensures
        trailing_ones_spec(x) <= 32,
{
    reveal_with_fuel(pow2_nat, 33);
    lemma_trailing_ones_below(x, 32);
}

fn trailing_ones(x: u32) -> (r: u32)
    ensures
        r == trailing_ones_spec(x),
{
    let mut t: u32 = 0;
    let mut y: u32 = x;
    proof {
        lemma_trailing_ones_bound(x);
    }
    while y & 1 == 1
        invariant
            t + trailing_ones_spec(y) == trailing_ones_spec(x),
            trailing_ones_spec(x) <= 32,
        decreases y,
    {
        proof {
            lemma_u32_bits(y);
        }
        y = y >> 1;
        t = t + 1;
    }
    proof {
        lemma_u32_bits(y);
    }
    t
}

/// The configuration byte of entry `i`: byte `i % 4` of `pmpcfg{i / 4}`.
pub open spec fn pmp_cfg_of(csrs: Seq<u32>, i: int) -> u8 {
    (csrs[CSR_PMPCFG0 + i / 4] >> ((i % 4) * 8) as u32) as u8
}

/// The address register of entry `i`.
pub open spec fn pmp_addr_of(csrs: Seq<u32>, i: int) -> u32 {
    csrs[CSR_PMPADDR0 + i]
}

/// The address-matching mode (A field) of a configuration byte.
pub open spec fn pmp_mode_of(cfg: u8) -> u8 {
    (cfg & PMP_A_MASK) >> PMP_A_SHIFT
}

/// Whether an entry with configuration `cfg` and address register `addr`
/// (preceded by address register `prev`) covers physical address `pa`.
pub open spec fn pmp_matches(cfg: u8, addr: u32, prev: u32, pa: u32) -> bool {
    let a = pmp_mode_of(cfg);
    if a == PMP_A_TOR {
        wrap32(prev * 4) <= pa < wrap32(addr * 4)
    } else if a == PMP_A_NA4 {
        let base = wrap32(addr * 4);
        base <= pa < wrap32(base + 4)
    } else if a == PMP_A_NAPOT {
        // Region of 2^(trailing_ones + 3) bytes containing pmpaddr*4.
        let size = 1u64 << ((trailing_ones_spec(addr) + 3) as u64);
        let base = ((addr as int * 4) as u64) & !((size - 1) as u64);
        base <= pa < base + size
    } else {
        false
    }
}

/// The PMP decision from entry `i` on, with `prev` the address register of entry `i - 1`.
pub open spec fn pmp_scan(csrs: Seq<u32>, i: int, prev: u32, pa: u32, va: u32, access: AccessType, eff_priv: u8) -> Result<(), TrapInfo>
    decreases 16 - i,
{
    if i >= 16 {
        if eff_priv == PRIV_M {
            Ok(())
        } else {
            Err(exception_info(access_fault_of(access), va))
        }
    } else {
        let cfg = pmp_cfg_of(csrs, i);
        let addr = pmp_addr_of(csrs, i);
        if pmp_matches(cfg, addr, prev, pa) {
            if eff_priv == PRIV_M && (cfg & PMP_L) == 0 {
                Ok(())
            } else if (cfg & perm_bit_of(access)) != 0 {
                Ok(())
            } else {
                Err(exception_info(access_fault_of(access), va))
            }
        } else {
            pmp_scan(csrs, i + 1, addr, pa, va, access, eff_priv)
        }
    }
}

/// The PMP decision for an access to `pa` (trap value `va`) at effective privilege `eff_priv`.
pub open spec fn pmp_check_spec(csrs: Seq<u32>, pa: u32, va: u32, access: AccessType, eff_priv: u8) -> Result<(), TrapInfo> {
    pmp_scan(csrs, 0, 0, pa, va, access, eff_priv)
}

/// The address register preceding entry `i` (the lower bound of a TOR
/// region): that of entry `i - 1`, and 0 for entry 0.
pub open spec fn pmp_prev_addr(csrs: Seq<u32>, i: int) -> u32 {
    if i == 0 {
        0
    } else {
        pmp_addr_of(csrs, i - 1)
    }
}

/// Entry `i` covers `pa`.
pub open spec fn pmp_entry_matches(csrs: Seq<u32>, i: int, pa: u32) -> bool {
    pmp_matches(pmp_cfg_of(csrs, i), pmp_addr_of(csrs, i), pmp_prev_addr(csrs, i), pa)
}

/// The decision of a matching entry with configuration `cfg`: M-mode skips an
/// unlocked entry; otherwise its R/W/X bit grants or denies the access.
pub open spec fn pmp_entry_decision(cfg: u8, va: u32, access: AccessType, eff_priv: u8) -> Result<(), TrapInfo> {
    if eff_priv == PRIV_M && (cfg & PMP_L) == 0 {
        Ok(())
    } else if (cfg & perm_bit_of(access)) != 0 {
        Ok(())
    } else {
        Err(exception_info(access_fault_of(access), va))
    }
}

proof fn lemma_scan_from(csrs: Seq<u32>, i: int, k: int, pa: u32, va: u32, access: AccessType, eff_priv: u8)
    requires
        0 <= i <= k <= 16,
        forall|j: int| i <= j < k ==> !#[trigger] pmp_entry_matches(csrs, j, pa),
    ensures
        pmp_scan(csrs, i, pmp_prev_addr(csrs, i), pa, va, access, eff_priv) == (if k < 16 {
            if pmp_entry_matches(csrs, k, pa) {
                pmp_entry_decision(pmp_cfg_of(csrs, k), va, access, eff_priv)
            } else {
                pmp_scan(csrs, k + 1, pmp_addr_of(csrs, k), pa, va, access, eff_priv)
            }
        } else {
            pmp_scan(csrs, 16, pmp_prev_addr(csrs, 16), pa, va, access, eff_priv)
        }),
    decreases k - i,
{
    if i < k {
        assert(!pmp_entry_matches(csrs, i, pa));
        lemma_scan_from(csrs, i + 1, k, pa, va, access, eff_priv);
    }
}

/// Entries are checked in index order and the first one that covers the
/// address decides; when none does, M-mode is allowed and S/U-mode gets an
/// access fault.
pub proof fn law_pmp_first_match(csrs: Seq<u32>, k: int, pa: u32, va: u32, access: AccessType, eff_priv: u8)
    requires
        0 <= k <= 16,
        forall|j: int| 0 <= j < k ==> !#[trigger] pmp_entry_matches(csrs, j, pa),
    ensures
        k < 16 && pmp_entry_matches(csrs, k, pa) ==> pmp_check_spec(csrs, pa, va, access, eff_priv)
            == pmp_entry_decision(pmp_cfg_of(csrs, k), va, access, eff_priv),
        k == 16 ==> pmp_check_spec(csrs, pa, va, access, eff_priv) == (if eff_priv == PRIV_M {
            Ok::<(), TrapInfo>(())
        } else {
            Err(exception_info(access_fault_of(access), va))
        }),
{
    lemma_scan_from(csrs, 0, k, pa, va, access, eff_priv);
}

fn access_fault(access: AccessType) -> (r: Trap)
    ensures
        r == access_fault_of(access),
{
    match access {
        AccessType::Fetch => Trap::InstructionAccessFault,
        AccessType::Load => Trap::LoadAccessFault,
        AccessType::Store => Trap::StoreAccessFault,
    }
}

/// Pull the cfg byte for entry `i` out of `pmpcfg{i/4}`.
fn read_cfg(hart: &Hart, i: usize) -> (r: u8)
    requires
        i < 16,
    ensures
        r == pmp_cfg_of(hart.csrs@, i as int),
{
    proof {
        hart.csrs.lemma_view_wf();
    }
    let reg = (i / 4) as u16;
    let shift = ((i % 4) * 8) as u32;
    let word = hart.csrs.read_raw(CSR_PMPCFG0 + reg);
    (word >> shift) as u8
}

fn read_addr(hart: &Hart, i: usize) -> (r: u32)
    requires
        i < 16,
    ensures
        r == pmp_addr_of(hart.csrs@, i as int),
{
    proof {
        hart.csrs.lemma_view_wf();
    }
    hart.csrs.read_raw(CSR_PMPADDR0 + i as u16)
}

/// NAPOT region arithmetic in 64 bits: the region size 2^k and the
/// address register scaled to a byte address.
proof fn lemma_napot_bits(addr: u32, k: u32)
    by (bit_vector)
    ensures
        k <= 35 ==> 1u64 <= (1u64 << k) <= 0x8_0000_0000u64,
        (addr as u64) << 2u64 == addr as int * 4,
{
}

fn entry_matches(cfg: u8, addr: u32, prev_addr: u32, pa: u32) -> (r: bool)
    ensures
        r == pmp_matches(cfg, addr, prev_addr, pa),
{
    let a = (cfg & PMP_A_MASK) >> PMP_A_SHIFT;
    if a == PMP_A_TOR {
        let lo = prev_addr.wrapping_shl(2);
        let hi = addr.wrapping_shl(2);
        proof {
            lemma_u32_bits(prev_addr);
            lemma_u32_bits(addr);
        }
        lo <= pa && pa < hi
    } else if a == PMP_A_NA4 {
        let base = addr.wrapping_shl(2);
        proof {
            lemma_u32_bits(addr);
        }
        pa >= base && pa < base.wrapping_add(4)
    } else if a == PMP_A_NAPOT {
        // size encoded as: pmpaddr = base[..] | 0 | (k-3) trailing 1s,
        // where region size = 2^k bytes (k ≥ 3). 64-bit math throughout
        // so the whole-space encoding (trail=31, size=16 GiB) works.
        let trail = trailing_ones(addr);
        proof {
            lemma_trailing_ones_bound(addr);
        }
        let size_log2 = trail + 3;
        let size: u64 = 1u64 << size_log2;
        proof {
            lemma_napot_bits(addr, size_log2);
        }
        let mask: u64 = size - 1;
        let x = (addr as u64) << 2;
        let base = x & !mask;
        let pa64 = pa as u64;
        proof {

            assert(size_log2 as u64 == (trailing_ones_spec(addr) + 3) as u64);
        }
        pa64 >= base && pa64 < base + size
    } else {
        false
    }
}

/// Run the PMP check for a physical access.
///
/// `va` is included only so the caller can attribute `tval` to the original
/// virtual address — PMP itself only sees the post-translation `pa`.
pub fn check(hart: &Hart, pa: u32, va: u32, access: AccessType, eff_priv: u8) -> (r: Result<(), TrapInfo>)
    ensures
        r == pmp_check_spec(hart.csrs@, pa, va, access, eff_priv),
{
    let mut prev_addr: u32 = 0;
    let mut i: usize = 0;
    while i < PMP_NUM_ENTRIES
        invariant
            i <= 16,
            pmp_scan(hart.csrs@, i as int, prev_addr, pa, va, access, eff_priv) == pmp_check_spec(
                hart.csrs@,
                pa,
                va,
                access,
                eff_priv,
            ),
        decreases 16 - i,
    {
        let cfg = read_cfg(hart, i);
        let addr = read_addr(hart, i);
        let matched = entry_matches(cfg, addr, prev_addr, pa);
        prev_addr = addr;
        if matched {
            // Locked entries apply to M-mode; unlocked entries only constrain S/U.
            let locked = cfg & PMP_L != 0;
            if eff_priv == PRIV_M && !locked {
                return Ok(());
            }
            let perm_bit = match access {
                AccessType::Fetch => PMP_X,
                AccessType::Load => PMP_R,
                AccessType::Store => PMP_W,
            };
            return if cfg & perm_bit != 0 {
                Ok(())
            } else {
                Err(TrapInfo::new(access_fault(access), va))
            };
        }
        i = i + 1;
    }
    // No entry matched: M-mode allows, lower modes deny.

    if eff_priv == PRIV_M {
        Ok(())
    } else {
        Err(TrapInfo::new(access_fault(access), va))
    }
}


/// The A field of a configuration byte is its bits 4:3.
proof fn lemma_mode_bits(cfg: u8)
    by (bit_vector)
    ensures
        (cfg & 0x18u8) >> 3u8 == (cfg / 8) % 4,
{
}

/// Which addresses PMP entry `i` covers, by its A field (bits 4:3 of its
/// configuration byte, byte `i % 4` of pmpcfg{i / 4}): OFF covers nothing;
/// TOR covers `[pmpaddr[i-1] * 4, pmpaddr[i] * 4)` (the lower bound is 0 for
/// entry 0; both bounds are taken modulo 2^32), so an address below the
/// previous entry's bound is not covered; NA4 covers the four bytes at
/// `pmpaddr[i] * 4` (none when they would run past 2^32).
#[verifier::spinoff_prover]
pub proof fn law_pmp_entry_modes(csrs: Seq<u32>, i: int, pa: u32)
    requires
        0 <= i < 16,
    ensures
        ({
            let cfg = (csrs[0x3A0 + i / 4] >> ((i % 4) * 8) as u32) as u8;
            let mode = (cfg / 8) % 4;
            let addr = csrs[0x3B0 + i];
            let prev: u32 = if i == 0 { 0 } else { csrs[0x3B0 + i - 1] };
            let lo = (prev as int * 4) % 0x1_0000_0000;
            let hi = (addr as int * 4) % 0x1_0000_0000;
            &&& mode == 0 ==> !pmp_entry_matches(csrs, i, pa)
            &&& mode == 1 ==> (pmp_entry_matches(csrs, i, pa) <==> lo <= pa < hi)
            &&& mode == 2 ==> (pmp_entry_matches(csrs, i, pa) <==> hi <= pa < hi + 4 && hi + 4
                < 0x1_0000_0000)
        }),
{
    lemma_mode_bits(pmp_cfg_of(csrs, i));
}


/// `x` ends in exactly `k` one bits: its low `k` bits are all ones and bit
/// `k` is zero.
proof fn lemma_trailing_ones_char(x: u32, k: nat)
    requires
        pow2_nat(k) > 0,
        (x as nat) % pow2_nat(k) == pow2_nat(k) - 1,
        ((x as nat) / pow2_nat(k)) % 2 == 0,
    ensures
        trailing_ones_spec(x) == k,
    decreases k,
{
    if k == 0 {
        assert(x / 1 == x);
    } else {
        let p = pow2_nat((k - 1) as nat);
        assert(pow2_nat(k) == 2 * p);
        assert(p > 0);
        vstd::arithmetic::div_mod::lemma_mod_breakdown(x as int, 2, p as int);
        vstd::arithmetic::div_mod::lemma_div_denominator(x as int, 2, p as int);
        assert(x % 2 == 1);
        let y = (x / 2) as u32;
        assert((y as nat) % p == p - 1);
        assert((y as nat) / p == (x as nat) / pow2_nat(k));
        lemma_trailing_ones_char(y, (k - 1) as nat);
    }
}

/// Masking off the low bits below a power of two subtracts them.
proof fn lemma_clear_low(x: u64, s: u64)
    by (bit_vector)
    requires
        s >= 1,
    ensures
        x & !((s - 1) as u64) == x - (x & ((s - 1) as u64)),
{
}

/// `2^k` in the two recursive definitions agrees.
proof fn lemma_pow2_agree(k: nat)
    ensures
        pow2_nat(k) == vstd::arithmetic::power2::pow2(k),
    decreases k,
{
    if k == 0 {
        vstd::arithmetic::power2::lemma2_to64();
    } else {
        vstd::arithmetic::power2::lemma_pow2_unfold(k);
        lemma_pow2_agree((k - 1) as nat);
    }
}

/// `1 << m` is 2^m, and masking with `(1 << m) - 1` is reduction mod 2^m.
proof fn lemma_shift_pow(x: u64, m: u64)
    requires
        m <= 35,
    ensures
        (1u64 << m) == pow2_nat(m as nat),
        x & !(((1u64 << m) - 1) as u64) == x - x % (1u64 << m),
{
    lemma_pow2_agree(m as nat);
    vstd::bits::lemma_u64_pow2_no_overflow(m as nat);
    vstd::bits::lemma_u64_shl_is_mul(1, m);
    vstd::bits::lemma_u64_low_bits_mask_is_mod(x, m as nat);
    lemma_clear_low(x, 1u64 << m);
}

/// A NAPOT entry whose address register ends in exactly `k` one bits covers
/// the naturally aligned block of 2^(k+3) bytes that contains
/// `pmpaddr * 4`: `pa` is covered exactly when `pa` and `pmpaddr * 4` lie
/// in the same such block (computed in 64 bits, so the whole 4 GiB space
/// is one block when all 32 bits are ones).
#[verifier::spinoff_prover]
pub proof fn law_pmp_napot(cfg: u8, addr: u32, prev: u32, pa: u32, k: nat)
    requires
        (cfg / 8) % 4 == 3,
        k <= 32,
        (addr as nat) % pow2_nat(k) == pow2_nat(k) - 1,
        ((addr as nat) / pow2_nat(k)) % 2 == 0,
    ensures
        pmp_matches(cfg, addr, prev, pa) <==> (pa as int) / (pow2_nat(k + 3) as int) == (addr as int
            * 4) / (pow2_nat(k + 3) as int),
{
    lemma_mode_bits(cfg);
    lemma_pow2_pos(k);
    lemma_trailing_ones_char(addr, k);
    let m = (k + 3) as u64;
    let x = (addr as int * 4) as u64;
    lemma_shift_pow(x, m);
    let size = 1u64 << m;
    lemma_pow2_pos(k + 3);
    let sz = size as int;
    let q = (x as int) / sz;
    vstd::arithmetic::div_mod::lemma_fundamental_div_mod(x as int, sz);
    vstd::arithmetic::div_mod::lemma_mod_bound(x as int, sz);
    let base = x as int - (x as int) % sz;
    assert(base == sz * q);
    if base <= pa && pa < base + sz {
        vstd::arithmetic::div_mod::lemma_fundamental_div_mod_converse(pa as int, sz, q, pa - base);
    }
    if (pa as int) / sz == q {
        vstd::arithmetic::div_mod::lemma_fundamental_div_mod(pa as int, sz);
        vstd::arithmetic::div_mod::lemma_mod_bound(pa as int, sz);
    }
}

/// 2^k is positive.
proof fn lemma_pow2_pos(k: nat)
    ensures
        pow2_nat(k) > 0,
    decreases k,
{
    if k > 0 {
        lemma_pow2_pos((k - 1) as nat);
    }
}


/// Configuration-byte bits as arithmetic.
proof fn lemma_cfg_bits(cfg: u8)
    by (bit_vector)
    ensures
        ((cfg & 0x80u8) == 0) == (cfg < 0x80),
        ((cfg & 0x01u8) != 0) == (cfg % 2 == 1),
        ((cfg & 0x02u8) != 0) == ((cfg / 2) % 2 == 1),
        ((cfg & 0x04u8) != 0) == ((cfg / 4) % 2 == 1),
{
}

/// What the matching entry decides: an M-mode access ignores an unlocked
/// entry (L, bit 7, clear) and is allowed; otherwise a load needs R (bit
/// 0), a store W (bit 1) and a fetch X (bit 2), and a denied access is a
/// load (5), store (7) or instruction (1) access fault with the virtual
/// address as trap value.
#[verifier::spinoff_prover]
pub proof fn law_pmp_decision(cfg: u8, va: u32, access: AccessType, eff_priv: u8)
    ensures
        ({
            let bit = match access {
                AccessType::Load => cfg % 2 == 1,
                AccessType::Store => (cfg / 2) % 2 == 1,
                AccessType::Fetch => (cfg / 4) % 2 == 1,
            };
            let cause: u32 = match access {
                AccessType::Load => 5,
                AccessType::Store => 7,
                AccessType::Fetch => 1,
            };
            pmp_entry_decision(cfg, va, access, eff_priv) == if (eff_priv == 3 && cfg < 0x80) || bit {
                Ok::<(), TrapInfo>(())
            } else {
                Err(TrapInfo { cause, tval: va })
            }
        }),
{
    lemma_cfg_bits(cfg);
}

} // verus!
