//! A flat little-endian RAM mapped at a base address.
use crate::arith::wrap32;
use crate::mem::Memory;
use crate::trap::Trap;
use vstd::prelude::*;

verus! {

/// The contents of a RAM and the physical address of its first byte.
pub ghost struct FlatView {
    pub bytes: Seq<u8>,
    pub base: u32,
}

/// Byte-addressed RAM of `data.len()` bytes starting at physical address `base`.
pub struct FlatMemory {
    data: Vec<u8>,
    base: u32,
}

impl View for FlatMemory {
    type V = FlatView;

    closed spec fn view(&self) -> FlatView {
        FlatView { bytes: self.data@, base: self.base }
    }
}

/// The index into RAM of physical address `addr`, if it lies inside.
pub open spec fn flat_offset(m: FlatView, addr: u32) -> Option<int> {
    let off = wrap32(addr - m.base);
    if off < m.bytes.len() {
        Some(off as int)
    } else {
        None
    }
}

/// Whether the `n` bytes at `addr` lie inside the RAM.
pub open spec fn flat_fits(m: FlatView, addr: u32, n: int) -> bool {
    flat_offset(m, addr) matches Some(o) && o + n <= m.bytes.len()
}

/// Little-endian value of the `n` bytes at index `o`.
pub open spec fn le_bytes(b: Seq<u8>, o: int, n: nat) -> int
    decreases n,
{
    if n == 0 {
        0
    } else {
        b[o] + 256 * le_bytes(b, o + 1, (n - 1) as nat)
    }
}

/// `b` with the `n` little-endian bytes of `v` stored at index `o`.
pub open spec fn store_le(b: Seq<u8>, o: int, v: int, n: nat) -> Seq<u8>
    decreases n,
{
    if n == 0 {
        b
    } else {
        store_le(b.update(o, (v % 256) as u8), o + 1, v / 256, (n - 1) as nat)
    }
}

/// A read of `n` bytes: the little-endian value, or a load access fault
/// when any byte lies outside the RAM.
pub open spec fn flat_read(m: FlatView, addr: u32, n: nat) -> Result<int, Trap> {
    if flat_fits(m, addr, n as int) {
        Ok(le_bytes(m.bytes, flat_offset(m, addr)->0, n))
    } else {
        Err(Trap::LoadAccessFault)
    }
}

/// A write of `n` bytes: the new RAM, or a store access fault (RAM
/// unchanged) when any byte lies outside.
pub open spec fn flat_write(m: FlatView, addr: u32, v: int, n: nat) -> (Result<(), Trap>, FlatView) {
    if flat_fits(m, addr, n as int) {
        (Ok(()), FlatView { bytes: store_le(m.bytes, flat_offset(m, addr)->0, v, n), ..m })
    } else {
        (Err(Trap::StoreAccessFault), m)
    }
}

/// Whether `len` bytes copied to physical address `addr` stay inside the RAM
/// (the start index is `addr - base` with 32-bit wrap-around).
pub open spec fn flat_load_fits(m: FlatView, addr: u32, len: int) -> bool {
    wrap32(addr - m.base) + len <= m.bytes.len()
}

/// The RAM after copying `data` to physical address `addr`.
pub open spec fn flat_load(m: FlatView, addr: u32, data: Seq<u8>) -> FlatView {
    let start = wrap32(addr - m.base) as int;
    FlatView { bytes: m.bytes.take(start) + data + m.bytes.skip(start + data.len()), base: m.base }
}

/// Whether the physical range `[addr, addr + len)` lies inside the RAM, with
/// no wrap-around.
pub open spec fn flat_contains(m: FlatView, addr: u32, len: int) -> bool {
    m.base <= addr && addr - m.base + len <= m.bytes.len()
}

/// 256^n.
pub open spec fn pow256(n: nat) -> nat
    decreases n,
{
    if n == 0 {
        1
    } else {
        256 * pow256((n - 1) as nat)
    }
}

proof fn lemma_store_le_frame(b: Seq<u8>, o: int, v: int, n: nat)
    requires
        0 <= o,
        o + n <= b.len(),
    ensures
        store_le(b, o, v, n).len() == b.len(),
        forall|j: int| 0 <= j < b.len() && !(o <= j < o + n) ==> store_le(b, o, v, n)[j] == b[j],
    decreases n,
{
    if n > 0 {
        let b1 = b.update(o, (v % 256) as u8);
        lemma_store_le_frame(b1, o + 1, v / 256, (n - 1) as nat);
        assert(store_le(b, o, v, n) == store_le(b1, o + 1, v / 256, (n - 1) as nat));
        assert forall|j: int| 0 <= j < b.len() && !(o <= j < o + n) implies store_le(b, o, v, n)[j]
            == b[j] by {
            assert(store_le(b1, o + 1, v / 256, (n - 1) as nat)[j] == b1[j]);
        }
    }
}

proof fn lemma_le_bytes_frame(b1: Seq<u8>, b2: Seq<u8>, o: int, n: nat)
    requires
        forall|j: int| o <= j < o + n ==> b1[j] == b2[j],
    ensures
        le_bytes(b1, o, n) == le_bytes(b2, o, n),
    decreases n,
{
    if n > 0 {
        lemma_le_bytes_frame(b1, b2, o + 1, (n - 1) as nat);
    }
}

proof fn lemma_le_store(b: Seq<u8>, o: int, v: int, n: nat)
    requires
        0 <= o,
        o + n <= b.len(),
        0 <= v < pow256(n),
    ensures
        le_bytes(store_le(b, o, v, n), o, n) == v,
    decreases n,
{
    if n > 0 {
        let b1 = b.update(o, (v % 256) as u8);
        assert(v / 256 < pow256((n - 1) as nat)) by (nonlinear_arith)
            requires
                0 <= v < 256 * pow256((n - 1) as nat),
        ;
        lemma_le_store(b1, o + 1, v / 256, (n - 1) as nat);
        lemma_store_le_frame(b1, o + 1, v / 256, (n - 1) as nat);
        let r = store_le(b1, o + 1, v / 256, (n - 1) as nat);
        assert(store_le(b, o, v, n) == r);
        assert(r[o] == b1[o]);
        assert(r[o] == v % 256);
        assert(le_bytes(r, o, n) == r[o] + 256 * le_bytes(r, o + 1, (n - 1) as nat));
    }
}

/// A read of the `n` bytes just written gives back the value written, and a
/// write leaves every byte outside its own range, and the RAM's size and
/// base, as they were.
pub proof fn law_flat_write_read(m: FlatView, a: u32, v: int, n: nat, b: u32, k: nat)
    requires
        0 <= v < pow256(n),
        flat_write(m, a, v, n).0 is Ok,
    ensures
        flat_read(flat_write(m, a, v, n).1, a, n) == Ok::<int, Trap>(v),
        flat_write(m, a, v, n).1.base == m.base,
        flat_write(m, a, v, n).1.bytes.len() == m.bytes.len(),
        flat_fits(m, b, k as int) && (flat_offset(m, b)->0 + k <= flat_offset(m, a)->0
            || flat_offset(m, a)->0 + n <= flat_offset(m, b)->0) ==> flat_read(
            flat_write(m, a, v, n).1,
            b,
            k,
        ) == flat_read(m, b, k),
{
    let o = flat_offset(m, a)->0;
    lemma_store_le_frame(m.bytes, o, v, n);
    lemma_le_store(m.bytes, o, v, n);
    let m2 = flat_write(m, a, v, n).1;
    if flat_fits(m, b, k as int) {
        let ob = flat_offset(m, b)->0;
        if ob + k <= o || o + n <= ob {
            lemma_le_bytes_frame(m2.bytes, m.bytes, ob, k);
        }
    }
}

impl FlatMemory {
    /// `size` zero bytes at physical address `base`.
    pub fn new(size: usize, base: u32) -> (r: Self)
        ensures
            r@.bytes == Seq::new(size as nat, |i: int| 0u8),
            r@.base == base,
    {
        let data = vec![0u8; size];
        let r = Self { data, base };
        assert(r@.bytes =~= Seq::new(size as nat, |i: int| 0u8));
        r
    }

    /// Copy `data` into RAM starting at physical address `offset`.
    pub fn load(&mut self, offset: u32, data: &[u8])
        requires
            flat_load_fits(old(self)@, offset, data@.len() as int),
        ensures
            final(self)@ == flat_load(old(self)@, offset, data@),
    {
        let start = offset.wrapping_sub(self.base) as usize;
        let ghost old_bytes = self.data@;
        let n = self.data.len();
        let mut i: usize = 0;
        while i < data.len()
            invariant
                start + data@.len() <= old_bytes.len(),
                n == old_bytes.len(),
                self.data@.len() == old_bytes.len(),
                self.base == old(self)@.base,
                i <= data@.len(),
                start == wrap32(offset - self.base),
                forall|j: int| 0 <= j < start ==> self.data@[j] == old_bytes[j],
                forall|j: int| 0 <= j < i ==> self.data@[start + j] == data@[j],
                forall|j: int| start + i <= j < old_bytes.len() ==> self.data@[j] == old_bytes[j],
            decreases data@.len() - i,
        {
            self.data.set(start + i, data[i]);
            i = i + 1;
        }
        assert(self.data@ =~= old_bytes.take(start as int) + data@ + old_bytes.skip(start + data@.len()));
    }

    /// Whether `len` bytes can be copied to physical address `addr` by `load`.
    pub fn can_load(&self, addr: u32, len: usize) -> (r: bool)
        ensures
            r == flat_load_fits(self@, addr, len as int),
    {
        let start = addr.wrapping_sub(self.base) as usize;
        start <= self.data.len() && len <= self.data.len() - start
    }

    /// Whether the physical range `[addr, addr + len)` lies inside the RAM.
    pub fn contains(&self, addr: u32, len: usize) -> (r: bool)
        ensures
            r == flat_contains(self@, addr, len as int),
    {
        if addr < self.base {
            return false;
        }
        let start = (addr - self.base) as usize;
        start <= self.data.len() && len <= self.data.len() - start
    }

    /// The index of physical address `addr`, if inside the RAM.
    fn offset(&self, addr: u32) -> (r: Option<usize>)
        ensures
            r matches Some(o) ==> flat_offset(self@, addr) == Some(o as int),
            r is None ==> flat_offset(self@, addr) is None,
    {
        let off = addr.wrapping_sub(self.base) as usize;
        if off < self.data.len() {
            Some(off)
        } else {
            None
        }
    }
}

proof fn lemma_le2(b: Seq<u8>, o: int)
    ensures
        le_bytes(b, o, 2) == b[o] + 256 * b[o + 1],
{
    reveal_with_fuel(le_bytes, 3);
}

proof fn lemma_le4(b: Seq<u8>, o: int)
    ensures
        le_bytes(b, o, 4) == b[o] + 256 * b[o + 1] + 65536 * b[o + 2] + 16777216 * b[o + 3],
{
    reveal_with_fuel(le_bytes, 5);
}

/// Little-endian assembly of bytes into halfwords and words.
proof fn lemma_le_join(b0: u8, b1: u8, b2: u8, b3: u8)
    by (bit_vector)
    ensures
        ((b0 as u16) | ((b1 as u16) << 8u16)) == b0 + 256 * b1,
        ((b0 as u32) | ((b1 as u32) << 8u32) | ((b2 as u32) << 16u32) | ((b3 as u32) << 24u32))
            == b0 + 256 * b1 + 65536 * b2 + 16777216 * b3,
{
}

/// The little-endian bytes of a word.
proof fn lemma_le_split(w: u32)
    by (bit_vector)
    ensures
        (w & 0xFFu32) as u8 == w % 256,
        ((w >> 8u32) & 0xFFu32) as u8 == (w / 256) % 256,
        ((w >> 16u32) & 0xFFu32) as u8 == ((w / 256) / 256) % 256,
        (w >> 24u32) as u8 == (((w / 256) / 256) / 256) % 256,
{
}

impl Memory for FlatMemory {
    open spec fn read8_spec(m: FlatView, addr: u32) -> (Result<u8, Trap>, FlatView) {
        (
            match flat_read(m, addr, 1) {
                Ok(v) => Ok(v as u8),
                Err(t) => Err(t),
            },
            m,
        )
    }

    open spec fn read16_spec(m: FlatView, addr: u32) -> (Result<u16, Trap>, FlatView) {
        (
            match flat_read(m, addr, 2) {
                Ok(v) => Ok(v as u16),
                Err(t) => Err(t),
            },
            m,
        )
    }

    open spec fn read32_spec(m: FlatView, addr: u32) -> (Result<u32, Trap>, FlatView) {
        (
            match flat_read(m, addr, 4) {
                Ok(v) => Ok(v as u32),
                Err(t) => Err(t),
            },
            m,
        )
    }

    open spec fn write8_spec(m: FlatView, addr: u32, val: u8) -> (Result<(), Trap>, FlatView) {
        flat_write(m, addr, val as int, 1)
    }

    open spec fn write16_spec(m: FlatView, addr: u32, val: u16) -> (Result<(), Trap>, FlatView) {
        flat_write(m, addr, val as int, 2)
    }

    open spec fn write32_spec(m: FlatView, addr: u32, val: u32) -> (Result<(), Trap>, FlatView) {
        flat_write(m, addr, val as int, 4)
    }

    fn read8(&mut self, addr: u32) -> (r: Result<u8, Trap>) {
        proof {
            reveal_with_fuel(le_bytes, 2);
        }
        let off = match self.offset(addr) {
            Some(o) => o,
            None => return Err(Trap::LoadAccessFault),
        };
        Ok(self.data[off])
    }

    fn read16(&mut self, addr: u32) -> (r: Result<u16, Trap>) {
        let off = match self.offset(addr) {
            Some(o) => o,
            None => return Err(Trap::LoadAccessFault),
        };
        if self.data.len() - off < 2 {
            return Err(Trap::LoadAccessFault);
        }
        let b0 = self.data[off];
        let b1 = self.data[off + 1];
        proof {
            lemma_le2(self.data@, off as int);
            lemma_le_join(b0, b1, 0, 0);
        }
        Ok((b0 as u16) | ((b1 as u16) << 8))
    }

    fn read32(&mut self, addr: u32) -> (r: Result<u32, Trap>) {
        let off = match self.offset(addr) {
            Some(o) => o,
            None => return Err(Trap::LoadAccessFault),
        };
        if self.data.len() - off < 4 {
            return Err(Trap::LoadAccessFault);
        }
        let b0 = self.data[off];
        let b1 = self.data[off + 1];
        let b2 = self.data[off + 2];
        let b3 = self.data[off + 3];
        proof {
            lemma_le4(self.data@, off as int);
            lemma_le_join(b0, b1, b2, b3);
        }
        Ok((b0 as u32) | ((b1 as u32) << 8) | ((b2 as u32) << 16) | ((b3 as u32) << 24))
    }

    fn write8(&mut self, addr: u32, val: u8) -> (r: Result<(), Trap>) {
        proof {
            reveal_with_fuel(store_le, 2);
        }
        let off = match self.offset(addr) {
            Some(o) => o,
            None => return Err(Trap::StoreAccessFault),
        };
        self.data.set(off, val);
        Ok(())
    }

    fn write16(&mut self, addr: u32, val: u16) -> (r: Result<(), Trap>) {
        proof {
            reveal_with_fuel(store_le, 3);
        }
        let off = match self.offset(addr) {
            Some(o) => o,
            None => return Err(Trap::StoreAccessFault),
        };
        if self.data.len() - off < 2 {
            return Err(Trap::StoreAccessFault);
        }
        let ghost b = self.data@;
        proof {
            assert((val & 0xFFu16) as u8 == val % 256 && (val >> 8u16) as u8 == (val / 256) % 256)
                by (bit_vector);
        }
        self.data.set(off, (val & 0xFF) as u8);
        self.data.set(off + 1, (val >> 8) as u8);
        assert(self.data@ =~= store_le(b, off as int, val as int, 2));
        Ok(())
    }

    fn write32(&mut self, addr: u32, val: u32) -> (r: Result<(), Trap>) {
        proof {
            reveal_with_fuel(store_le, 5);
        }
        let off = match self.offset(addr) {
            Some(o) => o,
            None => return Err(Trap::StoreAccessFault),
        };
        if self.data.len() - off < 4 {
            return Err(Trap::StoreAccessFault);
        }
        let ghost b = self.data@;
        proof {
            lemma_le_split(val);
        }
        self.data.set(off, (val & 0xFF) as u8);
        self.data.set(off + 1, ((val >> 8) & 0xFF) as u8);
        self.data.set(off + 2, ((val >> 16) & 0xFF) as u8);
        self.data.set(off + 3, (val >> 24) as u8);
        assert(self.data@ =~= store_le(b, off as int, val as int, 4));
        Ok(())
    }
}

} // verus!
