//! The integer and floating-point register files.
use crate::bits::lemma_u64_bits;
use vstd::prelude::*;

verus! {

/// The 32 integer registers; `x0` is hard-wired to zero.
pub struct RegFile {
    x: [u32; 32],
}

impl View for RegFile {
    type V = Seq<u32>;

    /// Register values as read by software: `x0` always reads 0.
    closed spec fn view(&self) -> Seq<u32> {
        Seq::new(32, |i: int| if i == 0 { 0 } else { self.x@[i] })
    }
}

impl RegFile {
    /// Every register file has 32 entries and `x0` reads as zero.
    pub proof fn lemma_view_wf(&self)
        ensures
            self@.len() == 32,
            self@[0] == 0,
    {
    }

    /// All registers zero.
    pub fn new() -> (r: Self)
        ensures
            r@ == Seq::new(32, |i: int| 0u32),
    {
        let r = Self { x: [0;32] };
        assert(r@ =~= Seq::new(32, |i: int| 0u32));
        r
    }

    /// The value of register `reg`.
    pub fn get(&self, reg: u8) -> (r: u32)
        requires
            reg < 32,
        ensures
            r == self@[reg as int],
    {
        if reg == 0 {
            0
        } else {
            self.x[reg as usize]
        }
    }

    /// Write `val` to register `reg`; writes to `x0` are discarded.
    pub fn set(&mut self, reg: u8, val: u32)
        requires
            reg < 32,
        ensures
            final(self)@ == reg_write(old(self)@, reg, val),
    {
        if reg != 0 {
            self.x[reg as usize] = val;
        }
        assert(self@ =~= reg_write(old(self)@, reg, val));
    }
}

/// The register values after writing `val` to `reg`: a write to `x0` is discarded.
pub open spec fn reg_write(regs: Seq<u32>, reg: u8, val: u32) -> Seq<u32> {
    if reg == 0 {
        regs
    } else {
        regs.update(reg as int, val)
    }
}

/// Reading a register after a write gives the written value, except that
/// `x0` stays zero; every other register keeps its value.
pub proof fn law_register_write_read(regs: Seq<u32>, w: u8, r: u8, val: u32)
    requires
        regs.len() == 32,
        regs[0] == 0,
        w < 32,
        r < 32,
    ensures
        reg_write(regs, w, val).len() == 32,
        reg_write(regs, w, val)[r as int] == (if r == w && w != 0 {
            val
        } else {
            regs[r as int]
        }),
        reg_write(regs, w, val)[0] == 0,
{
}

/// NaN-boxing: a single-precision value held in a 64-bit register has all
/// upper 32 bits set.
pub open spec fn nan_box(v: u32) -> u64 {
    (0xFFFF_FFFF_0000_0000u64 + v) as u64
}

/// The canonical single-precision quiet NaN.
pub const CANONICAL_NAN_F32: u32 = 0x7FC0_0000;

/// Reading a single-precision value from a 64-bit register: the low half of a
/// properly NaN-boxed value, else the canonical NaN.
pub open spec fn nan_unbox(v: u64) -> u32 {
    if v / 0x1_0000_0000 == 0xFFFF_FFFF {
        (v % 0x1_0000_0000) as u32
    } else {
        CANONICAL_NAN_F32
    }
}

/// Reading back a NaN-boxed value gives the value that was boxed.
pub proof fn lemma_nan_box_round_trip(v: u32)
    ensures
        nan_unbox(nan_box(v)) == v,
{
}

/// The 32 floating-point registers, each 64 bits wide (raw IEEE-754 bits).
pub struct FpRegFile {
    f: [u64; 32],
}

impl View for FpRegFile {
    type V = Seq<u64>;

    closed spec fn view(&self) -> Seq<u64> {
        self.f@
    }
}

impl FpRegFile {
    /// Every floating-point register file has 32 entries.
    pub proof fn lemma_view_wf(&self)
        ensures
            self@.len() == 32,
    {
    }

    /// All registers zero.
    pub fn new() -> (r: Self)
        ensures
            r@ == Seq::new(32, |i: int| 0u64),
    {
        let r = Self { f: [0;32] };
        assert(r@ =~= Seq::new(32, |i: int| 0u64));
        r
    }

    /// The raw 64-bit contents of register `reg`.
    pub fn get(&self, reg: u8) -> (r: u64)
        requires
            reg < 32,
        ensures
            r == self@[reg as int],
    {
        self.f[reg as usize]
    }

    /// Write raw 64-bit contents to register `reg` (`f0` is an ordinary register).
    pub fn set(&mut self, reg: u8, val: u64)
        requires
            reg < 32,
        ensures
            final(self)@ == old(self)@.update(reg as int, val),
    {
        self.f[reg as usize] = val;
    }

    /// The single-precision value in register `reg`, or the canonical NaN
    /// when the register is not properly NaN-boxed.
    pub fn get_f32(&self, reg: u8) -> (r: u32)
        requires
            reg < 32,
        ensures
            r == nan_unbox(self@[reg as int]),
    {
        let raw = self.f[reg as usize];
        proof {
            lemma_u64_bits(raw, 0, 0);
        }
        if raw & 0xFFFF_FFFF_0000_0000 == 0xFFFF_FFFF_0000_0000 {
            raw as u32
        } else {
            0x7FC0_0000
        }
    }

    /// Write a single-precision value to register `reg`, NaN-boxed.
    pub fn set_f32(&mut self, reg: u8, val: u32)
        requires
            reg < 32,
        ensures
            final(self)@ == old(self)@.update(reg as int, nan_box(val)),
    {
        proof {
            lemma_u64_bits(0, val, 0);
        }
        self.f[reg as usize] = val as u64 | 0xFFFF_FFFF_0000_0000;
    }
}

impl Default for RegFile {
    fn default() -> (r: Self)
        ensures
            r@ == Seq::new(32, |i: int| 0u32),
    {
        Self::new()
    }
}

impl Default for FpRegFile {
    fn default() -> (r: Self)
        ensures
            r@ == Seq::new(32, |i: int| 0u64),
    {
        Self::new()
    }
}

} // verus!
