//! Address-routing bus that composes RAM with memory-mapped devices.
use crate::clint::{clint_read32, clint_write32, Clint, ClintView, CLINT_BASE, CLINT_SIZE};
use crate::csr::{MIP_MEIP, MIP_MSIP, MIP_MTIP, MIP_SEIP};
use crate::flat::{law_flat_write_read, pow256, FlatMemory, FlatView};
use crate::mem::Memory;
use crate::mmio::{byte_of_word, half_of_word, merge_byte, merge_half};
use crate::plic::{
    bit_on, plic_interrupting, plic_read32, plic_write32, Plic, PlicView, CTX_M, CTX_S, PLIC_BASE,
    PLIC_SIZE,
};
use crate::trap::Trap;
use crate::uart::{uart_irq, uart_read8, uart_write8, Uart, UartView, UART_BASE, UART_SIZE};
use crate::bits::lemma_bit_ops;
use vstd::prelude::*;

verus! {

/// The PLIC source wired to the UART's interrupt line.
pub const UART_IRQ: u32 = 10;

pub struct Bus {
    pub ram: FlatMemory,
    pub clint: Clint,
    pub plic: Plic,
    pub uart: Uart,
}

/// The abstract state of every device on the bus.
#[verifier::ext_equal]
pub ghost struct BusView {
    pub ram: FlatView,
    pub clint: ClintView,
    pub plic: PlicView,
    pub uart: UartView,
}

impl View for Bus {
    type V = BusView;

    open spec fn view(&self) -> BusView {
        BusView { ram: self.ram@, clint: self.clint@, plic: self.plic@, uart: self.uart@ }
    }
}

/// Where an address goes: a device with the offset into its window, or RAM
/// (which sees the full address).
#[derive(PartialEq, Eq, Structural, Clone, Copy, Debug)]
pub enum Region {
    Clint(u32),
    Plic(u32),
    Uart(u32),
    Ram,
}

/// The device window that contains `addr`, RAM for everything else.
pub open spec fn region_of(addr: u32) -> Region {
    if CLINT_BASE <= addr < CLINT_BASE + CLINT_SIZE {
        Region::Clint((addr - CLINT_BASE) as u32)
    } else if PLIC_BASE <= addr < PLIC_BASE + PLIC_SIZE {
        Region::Plic((addr - PLIC_BASE) as u32)
    } else if UART_BASE <= addr < UART_BASE + UART_SIZE {
        Region::Uart((addr - UART_BASE) as u32)
    } else {
        Region::Ram
    }
}

/// The `mip` bits the devices drive: MTIP, MSIP from the CLINT, MEIP, SEIP
/// from the PLIC.
pub open spec fn bus_pending(b: BusView) -> u32 {
    (if b.clint.mtime >= b.clint.mtime_compare { MIP_MTIP } else { 0u32 }) | (if b.clint.msip & 1
        != 0 { MIP_MSIP } else { 0u32 }) | (if plic_interrupting(b.plic, CTX_M as int) {
        MIP_MEIP
    } else {
        0u32
    }) | (if plic_interrupting(b.plic, CTX_S as int) { MIP_SEIP } else { 0u32 })
}

/// One tick: mtime follows the cycle count and the UART's interrupt line is
/// copied into its PLIC source's pending bit.
pub open spec fn bus_tick(b: BusView, cycle: u64) -> BusView {
    let irq_bit = 1u32 << UART_IRQ;
    BusView {
        clint: ClintView { mtime: cycle, ..b.clint },
        plic: PlicView {
            pending: if uart_irq(b.uart) {
                b.plic.pending | irq_bit
            } else {
                b.plic.pending & !irq_bit
            },
            ..b.plic
        },
        ..b
    }
}

/// A word written to RAM through the bus reads back through the bus, and the
/// devices are untouched; a byte written in the UART window reaches the UART
/// at its offset in the window and nothing else.
pub proof fn law_bus_routing(m: BusView, addr: u32, val: u32, b: u8)
    ensures
        region_of(addr) == Region::Ram && <Bus as Memory>::write32_spec(m, addr, val).0 is Ok ==> {
            let m2 = <Bus as Memory>::write32_spec(m, addr, val).1;
            &&& <Bus as Memory>::read32_spec(m2, addr).0 == Ok::<u32, Trap>(val)
            &&& m2.clint == m.clint && m2.plic == m.plic && m2.uart == m.uart
        },
        UART_BASE <= addr < UART_BASE + UART_SIZE ==> <Bus as Memory>::write8_spec(m, addr, b) == (
            Ok::<(), Trap>(()),
            BusView { uart: uart_write8(m.uart, (addr - UART_BASE) as u32, b), ..m },
        ),
{
    if region_of(addr) == Region::Ram && <Bus as Memory>::write32_spec(m, addr, val).0 is Ok {
        reveal_with_fuel(pow256, 5);
        law_flat_write_read(m.ram, addr, val as int, 4, addr, 4);
    }
}

/// A tick sets mtime to the cycle count, so the timer interrupt line is
/// raised exactly when the count has reached mtime_compare; the UART's
/// interrupt line becomes its PLIC source's pending bit.
pub proof fn law_bus_tick(m: BusView, cycle: u64)
    ensures
        (bus_pending(bus_tick(m, cycle)) & MIP_MTIP != 0) == (cycle >= m.clint.mtime_compare),
        bit_on(bus_tick(m, cycle).plic.pending, UART_IRQ as int) == uart_irq(m.uart),
{
    let p = m.plic.pending;
    lemma_bit_ops(p, 0, 10);
    let t: u32 = if cycle >= m.clint.mtime_compare { 0x80 } else { 0 };
    let m2 = bus_tick(m, cycle);
    let x: u32 = if m2.clint.msip & 1 != 0 { 0x8 } else { 0 };
    let y: u32 = if plic_interrupting(m2.plic, CTX_M as int) { 0x800 } else { 0 };
    let z: u32 = if plic_interrupting(m2.plic, CTX_S as int) { 0x200 } else { 0 };
    assert(bus_pending(m2) == t | x | y | z);
    assert(((t | x | y | z) & 0x80 != 0) == (t == 0x80)) by (bit_vector)
        requires
            t == 0x80 || t == 0,
            x == 0x8 || x == 0,
            y == 0x800 || y == 0,
            z == 0x200 || z == 0,
    ;
}

impl Bus {
    pub fn new(ram: FlatMemory, clint: Clint, plic: Plic, uart: Uart) -> (r: Self)
        ensures
            r@ == (BusView { ram: ram@, clint: clint@, plic: plic@, uart: uart@ }),
    {
        Self { ram, clint, plic, uart }
    }

    fn region(addr: u32) -> (r: Region)
        ensures
            r == region_of(addr),
    {
        if CLINT_BASE <= addr && addr < CLINT_BASE.wrapping_add(CLINT_SIZE) {
            Region::Clint(addr - CLINT_BASE)
        } else if PLIC_BASE <= addr && addr < PLIC_BASE.wrapping_add(PLIC_SIZE) {
            Region::Plic(addr - PLIC_BASE)
        } else if UART_BASE <= addr && addr < UART_BASE.wrapping_add(UART_SIZE) {
            Region::Uart(addr - UART_BASE)
        } else {
            Region::Ram
        }
    }

    /// Per-cycle tick — advance device counters. Called once per `Hart::step`.
    pub fn tick(&mut self, cycle: u64)
        ensures
            final(self)@ == bus_tick(old(self)@, cycle),
    {
        self.clint.tick(cycle);
        if self.uart.interrupt_pending() {
            self.plic.set_pending(UART_IRQ);
        } else {
            self.plic.clear_pending(UART_IRQ);
        }
    }

    /// The set of `mip` bits the bus is currently driving from hardware.
    /// The caller folds these into `mip` before stepping the hart.
    pub fn pending_interrupts(&self) -> (r: u32)
        ensures
            r == bus_pending(self@),
    {
        let mtip: u32 = if self.clint.mtip_pending() {
            MIP_MTIP
        } else {
            0
        };
        let msip: u32 = if self.clint.msip_pending() {
            MIP_MSIP
        } else {
            0
        };
        let meip: u32 = if self.plic.meip_pending() {
            MIP_MEIP
        } else {
            0
        };
        let seip: u32 = if self.plic.seip_pending() {
            MIP_SEIP
        } else {
            0
        };
        mtip | msip | meip | seip
    }
}

impl Memory for Bus {
    open spec fn read8_spec(m: BusView, addr: u32) -> (Result<u8, Trap>, BusView) {
        match region_of(addr) {
            Region::Clint(off) => (byte_of_word(clint_read32(m.clint, off & !0x3u32), off), m),
            Region::Plic(off) => {
                let (w, p) = plic_read32(m.plic, off & !0x3u32);
                (byte_of_word(Ok(w), off), BusView { plic: p, ..m })
            },
            Region::Uart(off) => {
                let (b, u) = uart_read8(m.uart, off);
                (Ok(b), BusView { uart: u, ..m })
            },
            Region::Ram => {
                let (r, f) = <FlatMemory as Memory>::read8_spec(m.ram, addr);
                (r, BusView { ram: f, ..m })
            },
        }
    }

    open spec fn read16_spec(m: BusView, addr: u32) -> (Result<u16, Trap>, BusView) {
        match region_of(addr) {
            Region::Clint(off) => (half_of_word(clint_read32(m.clint, off & !0x3u32), off), m),
            Region::Plic(off) => {
                let (w, p) = plic_read32(m.plic, off & !0x3u32);
                (half_of_word(Ok(w), off), BusView { plic: p, ..m })
            },
            Region::Uart(off) => {
                let (b, u) = uart_read8(m.uart, off);
                (Ok(b as u16), BusView { uart: u, ..m })
            },
            Region::Ram => {
                let (r, f) = <FlatMemory as Memory>::read16_spec(m.ram, addr);
                (r, BusView { ram: f, ..m })
            },
        }
    }

    open spec fn read32_spec(m: BusView, addr: u32) -> (Result<u32, Trap>, BusView) {
        match region_of(addr) {
            Region::Clint(off) => (clint_read32(m.clint, off), m),
            Region::Plic(off) => {
                let (w, p) = plic_read32(m.plic, off);
                (Ok(w), BusView { plic: p, ..m })
            },
            Region::Uart(off) => {
                let (b, u) = uart_read8(m.uart, off);
                (Ok(b as u32), BusView { uart: u, ..m })
            },
            Region::Ram => {
                let (r, f) = <FlatMemory as Memory>::read32_spec(m.ram, addr);
                (r, BusView { ram: f, ..m })
            },
        }
    }

    open spec fn write8_spec(m: BusView, addr: u32, val: u8) -> (Result<(), Trap>, BusView) {
        match region_of(addr) {
            Region::Clint(off) => {
                let (r, c) = clint_write32(
                    m.clint,
                    off & !0x3u32,
                    merge_byte(clint_read32(m.clint, off & !0x3u32), off, val),
                );
                (r, BusView { clint: c, ..m })
            },
            Region::Plic(off) => {
                let (w, p) = plic_read32(m.plic, off & !0x3u32);
                (
                    Ok(()),
                    BusView {
                        plic: plic_write32(p, off & !0x3u32, merge_byte(Ok(w), off, val)),
                        ..m
                    },
                )
            },
            Region::Uart(off) => (Ok(()), BusView { uart: uart_write8(m.uart, off, val), ..m }),
            Region::Ram => {
                let (r, f) = <FlatMemory as Memory>::write8_spec(m.ram, addr, val);
                (r, BusView { ram: f, ..m })
            },
        }
    }

    open spec fn write16_spec(m: BusView, addr: u32, val: u16) -> (Result<(), Trap>, BusView) {
        match region_of(addr) {
            Region::Clint(off) => {
                let (r, c) = clint_write32(
                    m.clint,
                    off & !0x3u32,
                    merge_half(clint_read32(m.clint, off & !0x3u32), off, val),
                );
                (r, BusView { clint: c, ..m })
            },
            Region::Plic(off) => {
                let (w, p) = plic_read32(m.plic, off & !0x3u32);
                (
                    Ok(()),
                    BusView {
                        plic: plic_write32(p, off & !0x3u32, merge_half(Ok(w), off, val)),
                        ..m
                    },
                )
            },
            Region::Uart(off) => (
                Ok(()),
                BusView { uart: uart_write8(m.uart, off, val as u8), ..m },
            ),
            Region::Ram => {
                let (r, f) = <FlatMemory as Memory>::write16_spec(m.ram, addr, val);
                (r, BusView { ram: f, ..m })
            },
        }
    }

    open spec fn write32_spec(m: BusView, addr: u32, val: u32) -> (Result<(), Trap>, BusView) {
        match region_of(addr) {
            Region::Clint(off) => {
                let (r, c) = clint_write32(m.clint, off, val);
                (r, BusView { clint: c, ..m })
            },
            Region::Plic(off) => (Ok(()), BusView { plic: plic_write32(m.plic, off, val), ..m }),
            Region::Uart(off) => (
                Ok(()),
                BusView { uart: uart_write8(m.uart, off, val as u8), ..m },
            ),
            Region::Ram => {
                let (r, f) = <FlatMemory as Memory>::write32_spec(m.ram, addr, val);
                (r, BusView { ram: f, ..m })
            },
        }
    }

    fn read8(&mut self, addr: u32) -> (r: Result<u8, Trap>) {
        match Self::region(addr) {
            Region::Clint(off) => self.clint.read8(off),
            Region::Plic(off) => self.plic.read8(off),
            Region::Uart(off) => self.uart.read8(off),
            Region::Ram => self.ram.read8(addr),
        }
    }

    fn read16(&mut self, addr: u32) -> (r: Result<u16, Trap>) {
        match Self::region(addr) {
            Region::Clint(off) => self.clint.read16(off),
            Region::Plic(off) => self.plic.read16(off),
            Region::Uart(off) => self.uart.read16(off),
            Region::Ram => self.ram.read16(addr),
        }
    }

    fn read32(&mut self, addr: u32) -> (r: Result<u32, Trap>) {
        match Self::region(addr) {
            Region::Clint(off) => self.clint.read32(off),
            Region::Plic(off) => self.plic.read32(off),
            Region::Uart(off) => self.uart.read32(off),
            Region::Ram => self.ram.read32(addr),
        }
    }

    fn write8(&mut self, addr: u32, val: u8) -> (r: Result<(), Trap>) {
        let r = match Self::region(addr) {
            Region::Clint(off) => self.clint.write8(off, val),
            Region::Plic(off) => self.plic.write8(off, val),
            Region::Uart(off) => self.uart.write8(off, val),
            Region::Ram => self.ram.write8(addr, val),
        };
        assert(self@ =~= Self::write8_spec(old(self)@, addr, val).1);
        r
    }

    fn write16(&mut self, addr: u32, val: u16) -> (r: Result<(), Trap>) {
        let r = match Self::region(addr) {
            Region::Clint(off) => self.clint.write16(off, val),
            Region::Plic(off) => self.plic.write16(off, val),
            Region::Uart(off) => self.uart.write16(off, val),
            Region::Ram => self.ram.write16(addr, val),
        };
        assert(self@ =~= Self::write16_spec(old(self)@, addr, val).1);
        r
    }

    fn write32(&mut self, addr: u32, val: u32) -> (r: Result<(), Trap>) {
        let r = match Self::region(addr) {
            Region::Clint(off) => self.clint.write32(off, val),
            Region::Plic(off) => self.plic.write32(off, val),
            Region::Uart(off) => self.uart.write32(off, val),
            Region::Ram => self.ram.write32(addr, val),
        };
        assert(self@ =~= Self::write32_spec(old(self)@, addr, val).1);
        r
    }
}


/// The physical memory map: the CLINT occupies [0x0200_0000, 0x0201_0000),
/// the PLIC [0x0C00_0000, 0x1000_0000) and the UART [0x1000_0000,
/// 0x1000_0100), each seeing the offset into its window; every other
/// address is RAM.
pub proof fn law_memory_map(addr: u32)
    ensures
        region_of(addr) == if 0x0200_0000 <= addr < 0x0201_0000 {
            Region::Clint((addr - 0x0200_0000) as u32)
        } else if 0x0C00_0000 <= addr < 0x1000_0000 {
            Region::Plic((addr - 0x0C00_0000) as u32)
        } else if 0x1000_0000 <= addr < 0x1000_0100 {
            Region::Uart((addr - 0x1000_0000) as u32)
        } else {
            Region::Ram
        },
{
}

/// The interrupt lines the devices drive into mip: MTIP (bit 7) while
/// mtime >= mtime_compare, MSIP (bit 3) while msip is set, MEIP (bit 11)
/// while the PLIC has a source for the M-mode context and SEIP (bit 9) for
/// the S-mode context; no other bit.
pub proof fn law_pending_lines(m: BusView)
    ensures
        ({
            let p = bus_pending(m);
            &&& ((p / 0x80) % 2 == 1) == (m.clint.mtime >= m.clint.mtime_compare)
            &&& ((p / 0x8) % 2 == 1) == (m.clint.msip % 2 == 1)
            &&& ((p / 0x800) % 2 == 1) == plic_interrupting(m.plic, 0)
            &&& ((p / 0x200) % 2 == 1) == plic_interrupting(m.plic, 1)
            &&& p & !0xA88u32 == 0
        }),
{
    let t: u32 = if m.clint.mtime >= m.clint.mtime_compare { 0x80 } else { 0 };
    let x: u32 = if m.clint.msip & 1 != 0 { 0x8 } else { 0 };
    let y: u32 = if plic_interrupting(m.plic, CTX_M as int) { 0x800 } else { 0 };
    let z: u32 = if plic_interrupting(m.plic, CTX_S as int) { 0x200 } else { 0 };
    assert(bus_pending(m) == t | x | y | z);
    crate::bits::lemma_u32_bits(m.clint.msip);
    assert({
        let p = t | x | y | z;
        &&& ((p / 0x80) % 2 == 1) == (t == 0x80)
        &&& ((p / 0x8) % 2 == 1) == (x == 0x8)
        &&& ((p / 0x800) % 2 == 1) == (y == 0x800)
        &&& ((p / 0x200) % 2 == 1) == (z == 0x200)
        &&& p & !0xA88u32 == 0
    }) by (bit_vector)
        requires
            t == 0x80 || t == 0,
            x == 0x8 || x == 0,
            y == 0x800 || y == 0,
            z == 0x200 || z == 0,
    ;
}

} // verus!
