//! Platform-Level Interrupt Controller (PLIC) for a single hart.
//!
//! Implements the SiFive PLIC spec with 31 interrupt sources and 2 contexts
//! (context 0 = M-mode, context 1 = S-mode).
//!
//! Register layout (offsets relative to base 0x0C00_0000):
//! - 0x000004..0x00007C: source priority (source 1..31, 4 B each)
//! - 0x001000:           pending bits (1 word, bit per source, read-only)
//! - 0x002000:           context 0 (M) enable bits
//! - 0x002080:           context 1 (S) enable bits
//! - 0x200000:           context 0 priority threshold
//! - 0x200004:           context 0 claim (read) / complete (write)
//! - 0x201000:           context 1 priority threshold
//! - 0x201004:           context 1 claim/complete
use crate::mmio::{
    byte_of_word, extract_byte, extract_half, half_of_word, insert_byte, insert_half, merge_byte,
    merge_half,
};
use crate::trap::Trap;
use crate::bits::{lemma_bit_ops, lemma_clear_bit_frame, lemma_u32_bits};
use vstd::prelude::*;

verus! {

pub const PLIC_BASE: u32 = 0x0C00_0000;
pub const PLIC_SIZE: u32 = 0x0400_0000;

pub const NUM_SOURCES: usize = 31;
pub const NUM_CONTEXTS: usize = 2;

pub const CTX_M: usize = 0;
pub const CTX_S: usize = 1;

/// The PLIC registers: per-source priority (index 0 unused), pending bits,
/// and per-context enable bits, threshold and claimed (in service) bits.
#[verifier::ext_equal]
pub ghost struct PlicView {
    pub priority: Seq<u32>,
    pub pending: u32,
    pub enable: Seq<u32>,
    pub threshold: Seq<u32>,
    pub claimed: Seq<u32>,
}

pub struct Plic {
    priority: [u32; 32],
    pending: u32,
    enable: [u32; 2],
    threshold: [u32; 2],
    claimed: [u32; 2],
}

impl View for Plic {
    type V = PlicView;

    closed spec fn view(&self) -> PlicView {
        PlicView {
            priority: self.priority@,
            pending: self.pending,
            enable: self.enable@,
            threshold: self.threshold@,
            claimed: self.claimed@,
        }
    }
}

/// Register arrays have their fixed sizes.
pub open spec fn plic_wf(v: PlicView) -> bool {
    &&& v.priority.len() == 32
    &&& v.enable.len() == 2
    &&& v.threshold.len() == 2
    &&& v.claimed.len() == 2
}

/// Bit `i` of `x`.
pub open spec fn bit_on(x: u32, i: int) -> bool {
    (x >> (i as u32)) & 1 != 0
}

/// Sources pending, enabled for `ctx` and not in service there (source 0 never counts).
pub open spec fn plic_candidates(v: PlicView, ctx: int) -> u32 {
    v.pending & v.enable[ctx] & !v.claimed[ctx] & !1u32
}

/// Source `src` can interrupt context `ctx`: a candidate whose priority
/// exceeds the context's threshold.
pub open spec fn plic_eligible(v: PlicView, ctx: int, src: int) -> bool {
    &&& 1 <= src <= 31
    &&& bit_on(plic_candidates(v, ctx), src)
    &&& v.priority[src] > v.threshold[ctx]
}

/// Context `ctx`'s external-interrupt line is asserted.
pub open spec fn plic_interrupting(v: PlicView, ctx: int) -> bool {
    exists|src: int| plic_eligible(v, ctx, src)
}

/// `src` is the source a claim of `ctx` returns: eligible with the highest
/// priority, the lowest-numbered among equals.
pub open spec fn plic_is_best(v: PlicView, ctx: int, src: int) -> bool {
    &&& plic_eligible(v, ctx, src)
    &&& forall|s: int|
        #![trigger plic_eligible(v, ctx, s)]
        plic_eligible(v, ctx, s) ==> (v.priority[s] < v.priority[src] || (v.priority[s]
            == v.priority[src] && s >= src))
}

/// The source a claim of `ctx` returns, 0 when none is eligible.
pub open spec fn plic_best(v: PlicView, ctx: int) -> u32 {
    if plic_interrupting(v, ctx) {
        choose|src: u32| plic_is_best(v, ctx, src as int)
    } else {
        0
    }
}

/// A claim: the best source is no longer pending and is in service for `ctx`.
pub open spec fn plic_claim(v: PlicView, ctx: int) -> (u32, PlicView) {
    let b = plic_best(v, ctx);
    if b == 0 {
        (0, v)
    } else {
        (
            b,
            PlicView {
                pending: v.pending & !(1u32 << b),
                claimed: v.claimed.update(ctx, v.claimed[ctx] | (1u32 << b)),
                ..v
            },
        )
    }
}

/// Completion of `source` in `ctx`: it leaves service (sources outside 1..=31 are ignored).
pub open spec fn plic_complete(v: PlicView, ctx: int, source: u32) -> PlicView {
    if 1 <= source <= 31 {
        PlicView { claimed: v.claimed.update(ctx, v.claimed[ctx] & !(1u32 << source)), ..v }
    } else {
        v
    }
}

/// A 32-bit register read at `offset`. Reading a claim register claims;
/// unmapped offsets read as zero.
pub open spec fn plic_read32(v: PlicView, offset: u32) -> (u32, PlicView) {
    if offset < 0x80 {
        (v.priority[(offset / 4) as int], v)
    } else if offset == 0x1000 {
        (v.pending, v)
    } else if 0x2000 <= offset <= 0x20FF {
        let ctx = (offset - 0x2000) / 0x80;
        (
            if ctx < 2 && offset % 0x80 < 4 {
                v.enable[ctx as int]
            } else {
                0
            },
            v,
        )
    } else if 0x20_0000 <= offset <= 0x20_1FFF {
        let ctx = (offset - 0x20_0000) / 0x1000;
        let reg = offset % 0x1000;
        if reg == 0 {
            (v.threshold[ctx as int], v)
        } else if reg == 4 {
            plic_claim(v, ctx as int)
        } else {
            (0, v)
        }
    } else {
        (0, v)
    }
}

/// A 32-bit register write at `offset`: priorities and thresholds keep 3
/// bits, enable bit 0 is reserved, writing a claim register completes,
/// pending bits and unmapped offsets ignore writes.
pub open spec fn plic_write32(v: PlicView, offset: u32, val: u32) -> PlicView {
    if offset < 0x80 {
        let src = offset / 4;
        if 1 <= src <= 31 {
            PlicView { priority: v.priority.update(src as int, val & 0x7), ..v }
        } else {
            v
        }
    } else if 0x2000 <= offset <= 0x20FF {
        let ctx = (offset - 0x2000) / 0x80;
        if ctx < 2 && offset % 0x80 < 4 {
            PlicView { enable: v.enable.update(ctx as int, val & !1u32), ..v }
        } else {
            v
        }
    } else if 0x20_0000 <= offset <= 0x20_1FFF {
        let ctx = (offset - 0x20_0000) / 0x1000;
        let reg = offset % 0x1000;
        if reg == 0 {
            PlicView { threshold: v.threshold.update(ctx as int, val & 0x7), ..v }
        } else if reg == 4 {
            plic_complete(v, ctx as int, val)
        } else {
            v
        }
    } else {
        v
    }
}

/// Two best sources are the same source.
proof fn lemma_best_unique(v: PlicView, ctx: int, a: int, b: int)
    requires
        plic_is_best(v, ctx, a),
        plic_is_best(v, ctx, b),
    ensures
        a == b,
{
    assert(plic_eligible(v, ctx, a));
    assert(plic_eligible(v, ctx, b));
}

proof fn lemma_best_below(v: PlicView, ctx: int, n: int)
    requires
        1 <= n <= 32,
        exists|s: int| 1 <= s < n && plic_eligible(v, ctx, s),
    ensures
        exists|b: int|
            1 <= b < n && plic_eligible(v, ctx, b) && forall|s: int|
                #![trigger plic_eligible(v, ctx, s)]
                1 <= s < n && plic_eligible(v, ctx, s) ==> (v.priority[s] < v.priority[b] || (
                v.priority[s] == v.priority[b] && s >= b)),
    decreases n,
{
    let m = n - 1;
    if exists|s: int| 1 <= s < m && plic_eligible(v, ctx, s) {
        lemma_best_below(v, ctx, m);
        let b = choose|b: int|
            1 <= b < m && plic_eligible(v, ctx, b) && forall|s: int|
                #![trigger plic_eligible(v, ctx, s)]
                1 <= s < m && plic_eligible(v, ctx, s) ==> (v.priority[s] < v.priority[b] || (
                v.priority[s] == v.priority[b] && s >= b));
        if plic_eligible(v, ctx, m) && v.priority[m] > v.priority[b] {
            assert forall|s: int|
                #![trigger plic_eligible(v, ctx, s)]
                1 <= s < n && plic_eligible(v, ctx, s) implies (v.priority[s] < v.priority[m] || (
                v.priority[s] == v.priority[m] && s >= m)) by {
                if s < m {
                    assert(plic_eligible(v, ctx, s));
                }
            }
        } else {
            assert forall|s: int|
                #![trigger plic_eligible(v, ctx, s)]
                1 <= s < n && plic_eligible(v, ctx, s) implies (v.priority[s] < v.priority[b] || (
                v.priority[s] == v.priority[b] && s >= b)) by {
                if s < m {
                    assert(plic_eligible(v, ctx, s));
                }
            }
        }
    } else {
        assert(plic_eligible(v, ctx, m));
        assert forall|s: int|
            #![trigger plic_eligible(v, ctx, s)]
            1 <= s < n && plic_eligible(v, ctx, s) implies (v.priority[s] < v.priority[m] || (
            v.priority[s] == v.priority[m] && s >= m)) by {
            if s < m {
                assert(!plic_eligible(v, ctx, s));
            }
        }
    }
}

/// A claim returns 0 exactly when no source can interrupt the context;
/// otherwise it returns the eligible source of highest priority (the lowest
/// number among equals). That source stops being pending and is in service
/// for the context, so it can neither interrupt it nor be claimed again until
/// it is completed; completing it takes it out of service.
pub proof fn law_plic_claim(v: PlicView, ctx: int)
    requires
        plic_wf(v),
        0 <= ctx < 2,
    ensures
        ({
            let (src, v2) = plic_claim(v, ctx);
            &&& src == 0 <==> !plic_interrupting(v, ctx)
            &&& src != 0 ==> {
                &&& plic_is_best(v, ctx, src as int)
                &&& !bit_on(v2.pending, src as int)
                &&& bit_on(v2.claimed[ctx], src as int)
                &&& !plic_eligible(v2, ctx, src as int)
                &&& !bit_on(plic_complete(v2, ctx, src).claimed[ctx], src as int)
                &&& forall|s: int|
                    0 <= s < 32 && s != src ==> #[trigger] bit_on(v2.pending, s) == bit_on(
                        v.pending,
                        s,
                    )
            }
            &&& v2.priority == v.priority && v2.enable == v.enable && v2.threshold == v.threshold
            &&& v2.claimed[1 - ctx] == v.claimed[1 - ctx]
        }),
{
    if plic_interrupting(v, ctx) {
        lemma_best_below(v, ctx, 32);
        let b = choose|b: int|
            1 <= b < 32 && plic_eligible(v, ctx, b) && forall|s: int|
                #![trigger plic_eligible(v, ctx, s)]
                1 <= s < 32 && plic_eligible(v, ctx, s) ==> (v.priority[s] < v.priority[b] || (
                v.priority[s] == v.priority[b] && s >= b));
        assert(plic_is_best(v, ctx, (b as u32) as int));
        let src = plic_best(v, ctx);
        assert(plic_is_best(v, ctx, src as int));
        let p = v.pending;
        let c = v.claimed[ctx];
        let e = v.enable[ctx];
        let s32 = src;
        assert(1 <= s32 <= 31);
        let c2 = c | (1u32 << s32);
        let p2 = p & !(1u32 << s32);
        lemma_bit_ops(p, 0, s32);
        lemma_bit_ops(c, 0, s32);
        lemma_bit_ops(p2 & e, c2, s32);
        lemma_bit_ops(p2 & e & !c2, !1u32, s32);
        lemma_bit_ops(c2, 0, s32);
        assert forall|s: int| 0 <= s < 32 && s != src implies #[trigger] bit_on(p2, s) == bit_on(
            p,
            s,
        ) by {
            lemma_clear_bit_frame(p, s32, s as u32);
        }
    }
}

/// The registers that a claim depends on read as the PLIC state, without
/// changing it: source `s`'s priority at `4 * s`, the pending bits at
/// `0x1000`, context `ctx`'s enable bits at `0x2000 + 0x80 * ctx` and its
/// threshold at `0x20_0000 + 0x1000 * ctx`. Reading `0x20_0004 + 0x1000 *
/// ctx` is the claim, and writing a source number there completes it.
pub proof fn law_plic_registers(v: PlicView, ctx: int, s: int, val: u32)
    requires
        plic_wf(v),
        0 <= ctx < 2,
        1 <= s <= 31,
    ensures
        plic_read32(v, (4 * s) as u32) == (v.priority[s], v),
        plic_read32(v, 0x1000) == (v.pending, v),
        plic_read32(v, (0x2000 + 0x80 * ctx) as u32) == (v.enable[ctx], v),
        plic_read32(v, (0x20_0000 + 0x1000 * ctx) as u32) == (v.threshold[ctx], v),
        plic_read32(v, (0x20_0004 + 0x1000 * ctx) as u32) == plic_claim(v, ctx),
        plic_write32(v, (0x20_0004 + 0x1000 * ctx) as u32, val) == plic_complete(v, ctx, val),
{
}

/// The pending bits are read-only through the registers: no register write
/// changes them.
pub proof fn law_plic_pending_read_only(v: PlicView, offset: u32, val: u32)
    ensures
        plic_write32(v, offset, val).pending == v.pending,
{
}

impl Plic {
    /// All registers zero.
    pub fn new() -> (r: Self)
        ensures
            plic_wf(r@),
            r@ == (PlicView {
                priority: Seq::new(32, |i: int| 0u32),
                pending: 0,
                enable: seq![0u32, 0u32],
                threshold: seq![0u32, 0u32],
                claimed: seq![0u32, 0u32],
            }),
    {
        let r = Self {
            priority: [0;32],
            pending: 0,
            enable: [0;2],
            threshold: [0;2],
            claimed: [0;2],
        };
        assert(r@ =~= PlicView {
            priority: Seq::new(32, |i: int| 0u32),
            pending: 0,
            enable: seq![0u32, 0u32],
            threshold: seq![0u32, 0u32],
            claimed: seq![0u32, 0u32],
        });
        r
    }

    /// Every PLIC's register arrays have their fixed sizes.
    pub proof fn lemma_wf(&self)
        ensures
            plic_wf(self@),
    {
    }

    /// Raise the pending bit of `source` (sources outside 1..=31 are ignored).
    pub fn set_pending(&mut self, source: u32)
        ensures
            final(self)@ == (if 1 <= source <= 31 {
                PlicView { pending: old(self)@.pending | (1u32 << source), ..old(self)@ }
            } else {
                old(self)@
            }),
    {
        if source >= 1 && source <= NUM_SOURCES as u32 {
            self.pending = self.pending | (1 << source);
        }
    }

    /// Lower the pending bit of `source` (sources outside 1..=31 are ignored).
    pub fn clear_pending(&mut self, source: u32)
        ensures
            final(self)@ == (if 1 <= source <= 31 {
                PlicView { pending: old(self)@.pending & !(1u32 << source), ..old(self)@ }
            } else {
                old(self)@
            }),
    {
        if source >= 1 && source <= NUM_SOURCES as u32 {
            self.pending = self.pending & !(1 << source);
        }
    }

    /// The M-mode external interrupt line (drives mip.MEIP).
    pub fn meip_pending(&self) -> (r: bool)
        ensures
            r == plic_interrupting(self@, CTX_M as int),
    {
        self.is_interrupted(CTX_M)
    }

    /// The S-mode external interrupt line (drives mip.SEIP).
    pub fn seip_pending(&self) -> (r: bool)
        ensures
            r == plic_interrupting(self@, CTX_S as int),
    {
        self.is_interrupted(CTX_S)
    }

    fn candidates(&self, ctx: usize) -> (r: u32)
        requires
            ctx < 2,
        ensures
            r == plic_candidates(self@, ctx as int),
    {
        self.pending & self.enable[ctx] & !self.claimed[ctx] & !1
    }

    fn is_interrupted(&self, ctx: usize) -> (r: bool)
        requires
            ctx < 2,
        ensures
            r == plic_interrupting(self@, ctx as int),
    {
        let candidates = self.candidates(ctx);
        if candidates == 0 {
            proof {
                assert forall|s: int| !plic_eligible(self@, ctx as int, s) by {
                    if 1 <= s <= 31 {
                        let su = s as u32;
                        lemma_bit_ops(0, 0, su);
                    }
                }
            }
            return false;
        }
        let mut src: usize = 1;
        while src <= NUM_SOURCES
            invariant
                1 <= src <= 32,
                ctx < 2,
                candidates == plic_candidates(self@, ctx as int),
                forall|s: int| 1 <= s < src ==> !plic_eligible(self@, ctx as int, s),
            decreases 32 - src,
        {
            proof {
                lemma_bit_ops(candidates, 0, src as u32);
            }
            if candidates & (1 << src) != 0 && self.priority[src] > self.threshold[ctx] {
                assert(plic_eligible(self@, ctx as int, src as int));
                return true;
            }
            src = src + 1;
        }
        false
    }

    fn claim(&mut self, ctx: usize) -> (r: u32)
        requires
            ctx < 2,
        ensures
            (r, final(self)@) == plic_claim(old(self)@, ctx as int),
    {
        let candidates = self.candidates(ctx);
        let ghost v = self@;
        let mut best_src: u32 = 0;
        let mut best_pri: u32 = 0;
        let mut src: usize = 1;
        while src <= NUM_SOURCES
            invariant
                1 <= src <= 32,
                ctx < 2,
                self@ == v,
                candidates == plic_candidates(v, ctx as int),
                best_src < src,
                best_src == 0 ==> best_pri == 0 && forall|s: int|
                    1 <= s < src ==> !plic_eligible(v, ctx as int, s),
                best_src != 0 ==> plic_eligible(v, ctx as int, best_src as int) && best_pri
                    == v.priority[best_src as int] && forall|s: int|
                    #![trigger plic_eligible(v, ctx as int, s)]
                    1 <= s < src && plic_eligible(v, ctx as int, s) ==> (v.priority[s] < best_pri
                        || (v.priority[s] == best_pri && s >= best_src)),
            decreases 32 - src,
        {
            proof {
                lemma_bit_ops(candidates, 0, src as u32);
            }
            if candidates & (1 << src) != 0 && self.priority[src] > self.threshold[ctx]
                && self.priority[src] > best_pri {
                best_pri = self.priority[src];
                best_src = src as u32;
            }
            src = src + 1;
        }
        proof {
            if best_src != 0 {
                assert(plic_is_best(v, ctx as int, best_src as int));
                assert(plic_interrupting(v, ctx as int));
                let c = choose|s: u32| plic_is_best(v, ctx as int, s as int);
                lemma_best_unique(v, ctx as int, c as int, best_src as int);
            } else {
                assert(!plic_interrupting(v, ctx as int));
            }
        }
        if best_src != 0 {
            self.pending = self.pending & !(1 << best_src);
            self.claimed[ctx] = self.claimed[ctx] | (1 << best_src);
        }
        assert(self@ =~= plic_claim(v, ctx as int).1);
        best_src
    }

    fn complete(&mut self, ctx: usize, source: u32)
        requires
            ctx < 2,
        ensures
            final(self)@ == plic_complete(old(self)@, ctx as int, source),
    {
        if source >= 1 && source <= NUM_SOURCES as u32 {
            self.claimed[ctx] = self.claimed[ctx] & !(1 << source);
        }
        assert(self@ =~= plic_complete(old(self)@, ctx as int, source));
    }

    /// The context whose threshold/claim block contains `offset`.
    fn ctx_from_offset(offset: u32) -> (r: Option<usize>)
        requires
            0x20_0000 <= offset,
        ensures
            r == (if (offset - 0x20_0000) / 0x1000 < NUM_CONTEXTS {
                Some(((offset - 0x20_0000) / 0x1000) as usize)
            } else {
                None
            }),
    {
        let ctx = ((offset - 0x20_0000) / 0x1000) as usize;
        if ctx < NUM_CONTEXTS {
            Some(ctx)
        } else {
            None
        }
    }

    /// 32-bit register read; reading a claim register claims (hence `&mut`).
    pub fn read32(&mut self, offset: u32) -> (r: Result<u32, Trap>)
        ensures
            (r, final(self)@) == ({
                let (w, v) = plic_read32(old(self)@, offset);
                (Ok::<u32, Trap>(w), v)
            }),
    {
        if offset < 0x80 {
            // Source priority (source 0 reads as 0)
            Ok(self.priority[(offset / 4) as usize])
        } else if offset == 0x1000 {
            // Pending bits
            Ok(self.pending)
        } else if 0x2000 <= offset && offset <= 0x20FF {
            // Enable bits per context
            let ctx = ((offset - 0x2000) / 0x80) as usize;
            proof {
                lemma_u32_bits(offset);
            }
            if ctx < NUM_CONTEXTS && (offset & 0x7F) < 4 {
                Ok(self.enable[ctx])
            } else {
                Ok(0)
            }
        } else if 0x20_0000 <= offset && offset <= 0x20_1FFF {
            // Context threshold / claim
            proof {
                lemma_u32_bits(offset);
            }
            let reg = offset & 0xFFF;
            if let Some(ctx) = Self::ctx_from_offset(offset) {
                if reg == 0x000 {
                    Ok(self.threshold[ctx])
                } else if reg == 0x004 {
                    Ok(self.claim(ctx))
                } else {
                    Ok(0)
                }
            } else {
                Ok(0)
            }
        } else {
            Ok(0)  // reads as zero

        }
    }

    /// 32-bit register write; never faults.
    pub fn write32(&mut self, offset: u32, val: u32) -> (r: Result<(), Trap>)
        ensures
            r == Ok::<(), Trap>(()),
            final(self)@ == plic_write32(old(self)@, offset, val),
    {
        if offset < 0x80 {
            // Source priority (source 0 ignored)
            let src = (offset / 4) as usize;
            if 1 <= src && src <= NUM_SOURCES {
                self.priority[src] = val & 0x7;  // 3-bit priority
            }
        } else if 0x2000 <= offset && offset <= 0x20FF {
            // Enable bits per context
            let ctx = ((offset - 0x2000) / 0x80) as usize;
            proof {
                lemma_u32_bits(offset);
            }
            if ctx < NUM_CONTEXTS && (offset & 0x7F) < 4 {
                self.enable[ctx] = val & !1;  // bit 0 reserved
            }
        } else if 0x20_0000 <= offset && offset <= 0x20_1FFF {
            // Context threshold / complete
            proof {
                lemma_u32_bits(offset);
            }
            let reg = offset & 0xFFF;
            if let Some(ctx) = Self::ctx_from_offset(offset) {
                if reg == 0x000 {
                    self.threshold[ctx] = val & 0x7;
                } else if reg == 0x004 {
                    self.complete(ctx, val);
                }
            }
        }
        // Pending bits are read-only; other offsets ignore writes.

        assert(self@ =~= plic_write32(old(self)@, offset, val));
        Ok(())
    }

    pub fn read8(&mut self, offset: u32) -> (r: Result<u8, Trap>)
        ensures
            ({
                let (w, v) = plic_read32(old(self)@, offset & !0x3u32);
                r == byte_of_word(Ok(w), offset) && final(self)@ == v
            }),
    {
        let w = self.read32(offset & !0x3);
        extract_byte(w, offset)
    }

    pub fn read16(&mut self, offset: u32) -> (r: Result<u16, Trap>)
        ensures
            ({
                let (w, v) = plic_read32(old(self)@, offset & !0x3u32);
                r == half_of_word(Ok(w), offset) && final(self)@ == v
            }),
    {
        let w = self.read32(offset & !0x3);
        extract_half(w, offset)
    }

    pub fn write8(&mut self, offset: u32, val: u8) -> (r: Result<(), Trap>)
        ensures
            r == Ok::<(), Trap>(()),
            ({
                let (w, v) = plic_read32(old(self)@, offset & !0x3u32);
                final(self)@ == plic_write32(v, offset & !0x3u32, merge_byte(Ok(w), offset, val))
            }),
    {
        let aligned = offset & !0x3;
        let cur = self.read32(aligned);
        let new = insert_byte(cur, offset, val);
        self.write32(aligned, new)
    }

    pub fn write16(&mut self, offset: u32, val: u16) -> (r: Result<(), Trap>)
        ensures
            r == Ok::<(), Trap>(()),
            ({
                let (w, v) = plic_read32(old(self)@, offset & !0x3u32);
                final(self)@ == plic_write32(v, offset & !0x3u32, merge_half(Ok(w), offset, val))
            }),
    {
        let aligned = offset & !0x3;
        let cur = self.read32(aligned);
        let new = insert_half(cur, offset, val);
        self.write32(aligned, new)
    }
}

impl Default for Plic {
    fn default() -> (r: Self)
        ensures
            r@ == (PlicView {
                priority: Seq::new(32, |i: int| 0u32),
                pending: 0,
                enable: seq![0u32, 0u32],
                threshold: seq![0u32, 0u32],
                claimed: seq![0u32, 0u32],
            }),
    {
        Self::new()
    }
}

} // verus!
