//! Minimal NS16550A subset — just enough for an early `printf` console.
//!
//! Registers (1 byte each, offsets from base):
//! - 0: THR (write) / RBR (read)
//! - 1: IER
//! - 2: IIR (read) / FCR (write)
//! - 3: LCR
//! - 4: MCR
//! - 5: LSR  — read-only
//! - 6: MSR  — read-only
//! - 7: SCR  — scratch
//!
//! Transmitted bytes are appended to the UART's output buffer, which the
//! embedding program drains to wherever the console goes.
//! No RX yet — reading RBR returns 0 and LSR.DR stays clear.
use crate::trap::Trap;
use crate::bits::lemma_u32_bits;
use vstd::prelude::*;

verus! {

pub const UART_BASE: u32 = 0x1000_0000;
pub const UART_SIZE: u32 = 0x100;

pub const REG_THR_RBR: u32 = 0;
pub const REG_IER: u32 = 1;
pub const REG_IIR_FCR: u32 = 2;
pub const REG_LCR: u32 = 3;
pub const REG_MCR: u32 = 4;
pub const REG_LSR: u32 = 5;
pub const REG_MSR: u32 = 6;
pub const REG_SCR: u32 = 7;

/// LSR: transmitter empty (bit 6) and THR empty (bit 5), always set — TX
/// never blocks. Data-ready (bit 0) is always clear (no input).
pub const LSR_DEFAULT: u8 = 0x60;
/// MSR outside loopback: CD, DSR and CTS asserted.
pub const MSR_DEFAULT: u8 = 0xB0;

pub const LCR_DLAB: u8 = 0x80;
pub const MCR_LOOP: u8 = 0x10;

pub const IER_THRE: u8 = 0x02;
pub const IIR_NONE: u8 = 0x01;
pub const IIR_THRE: u8 = 0x02;

/// The UART registers, the THR-empty interrupt latch, and every byte
/// transmitted so far that has not been drained.
#[verifier::ext_equal]
pub ghost struct UartView {
    pub ier: u8,
    pub fcr: u8,
    pub lcr: u8,
    pub mcr: u8,
    pub scr: u8,
    pub dll: u8,
    pub dlm: u8,
    pub thre_ip: bool,
    pub out: Seq<u8>,
}

pub struct Uart {
    ier: u8,
    fcr: u8,
    lcr: u8,
    mcr: u8,
    scr: u8,
    dll: u8,
    dlm: u8,
    thre_ip: bool,
    sink: Vec<u8>,
}

impl View for Uart {
    type V = UartView;

    closed spec fn view(&self) -> UartView {
        UartView {
            ier: self.ier,
            fcr: self.fcr,
            lcr: self.lcr,
            mcr: self.mcr,
            scr: self.scr,
            dll: self.dll,
            dlm: self.dlm,
            thre_ip: self.thre_ip,
            out: self.sink@,
        }
    }
}

/// The divisor latch is mapped over THR/RBR and IER.
pub open spec fn dlab(v: UartView) -> bool {
    v.lcr & LCR_DLAB != 0
}

/// The UART asks for an interrupt: THR-empty interrupts enabled and latched.
pub open spec fn uart_irq(v: UartView) -> bool {
    v.ier & IER_THRE != 0 && v.thre_ip
}

/// MSR in loopback mode: DTR→DSR, RTS→CTS, OUT1→RI, OUT2→DCD.
pub open spec fn loopback_msr(mcr: u8) -> u8 {
    (if mcr & 0x01 != 0 { 0x20u8 } else { 0u8 }) | (if mcr & 0x02 != 0 { 0x10u8 } else { 0u8 })
        | (if mcr & 0x04 != 0 { 0x40u8 } else { 0u8 }) | (if mcr & 0x08 != 0 { 0x80u8 } else { 0u8 })
}

/// A byte read of register `offset & 7`: the value and the state after it
/// (reading IIR acknowledges a pending THR-empty interrupt).
pub open spec fn uart_read8(v: UartView, offset: u32) -> (u8, UartView) {
    let reg = offset & 0x7;
    if reg == REG_THR_RBR {
        (if dlab(v) { v.dll } else { 0 }, v)
    } else if reg == REG_IER {
        (if dlab(v) { v.dlm } else { v.ier }, v)
    } else if reg == REG_IIR_FCR {
        let fifo_bits: u8 = if v.fcr & 0x01 != 0 { 0xC0 } else { 0 };
        if uart_irq(v) {
            (IIR_THRE | fifo_bits, UartView { thre_ip: false, ..v })
        } else {
            (IIR_NONE | fifo_bits, v)
        }
    } else if reg == REG_LCR {
        (v.lcr, v)
    } else if reg == REG_MCR {
        (v.mcr, v)
    } else if reg == REG_LSR {
        (LSR_DEFAULT, v)
    } else if reg == REG_MSR {
        (if v.mcr & MCR_LOOP != 0 { loopback_msr(v.mcr) } else { MSR_DEFAULT }, v)
    } else {
        (v.scr, v)
    }
}

/// A byte write of register `offset & 7`. Writing THR transmits the byte and
/// latches THR-empty; enabling the THR-empty interrupt latches it too; LSR and
/// MSR ignore writes.
pub open spec fn uart_write8(v: UartView, offset: u32, val: u8) -> UartView {
    let reg = offset & 0x7;
    if reg == REG_THR_RBR {
        if dlab(v) {
            UartView { dll: val, ..v }
        } else {
            UartView { out: v.out.push(val), thre_ip: true, ..v }
        }
    } else if reg == REG_IER {
        if dlab(v) {
            UartView { dlm: val, ..v }
        } else {
            UartView {
                ier: val,
                thre_ip: if val & IER_THRE != 0 && v.ier & IER_THRE == 0 {
                    true
                } else {
                    v.thre_ip
                },
                ..v
            }
        }
    } else if reg == REG_IIR_FCR {
        UartView { fcr: val & 0x01, ..v }
    } else if reg == REG_LCR {
        UartView { lcr: val, ..v }
    } else if reg == REG_MCR {
        UartView { mcr: val, ..v }
    } else if reg == REG_SCR {
        UartView { scr: val, ..v }
    } else {
        v
    }
}

proof fn lemma_reg_index(offset: u32)
    ensures
        offset & 0x7 < 8,
        offset < 8 ==> offset & 0x7 == offset,
{
    lemma_u32_bits(offset);
}

/// Transmit and the divisor latch: with DLAB clear, writing THR appends the
/// byte to the output and latches THR-empty; with DLAB set, offsets 0 and 1
/// are the divisor latch, which reads back what was written while the output,
/// IER and the interrupt latch stay untouched.
pub proof fn law_uart_thr_and_dlab(v: UartView, b: u8)
    ensures
        !dlab(v) ==> uart_write8(v, REG_THR_RBR, b) == (UartView { out: v.out.push(b), thre_ip: true, ..v }),
        dlab(v) ==> {
            let v1 = uart_write8(v, REG_THR_RBR, b);
            let v2 = uart_write8(v, REG_IER, b);
            &&& uart_read8(v1, REG_THR_RBR) == (b, v1)
            &&& uart_read8(v2, REG_IER) == (b, v2)
            &&& v1.out == v.out && v2.out == v.out
            &&& v1.ier == v.ier && v2.ier == v.ier
            &&& v1.thre_ip == v.thre_ip && v2.thre_ip == v.thre_ip
        },
{
    lemma_reg_index(REG_THR_RBR);
    lemma_reg_index(REG_IER);
}

/// LSR and MSR are read-only: writing them changes nothing, and LSR always
/// reads as "transmitter empty, no data ready".
pub proof fn law_uart_status_read_only(v: UartView, offset: u32, b: u8)
    requires
        offset & 0x7 == REG_LSR || offset & 0x7 == REG_MSR,
    ensures
        uart_write8(v, offset, b) == v,
        offset & 0x7 == REG_LSR ==> uart_read8(v, offset) == (LSR_DEFAULT, v),
{
}

/// Reads never transmit, and the scratch, line-control and modem-control
/// registers read back what was written (IER too, with DLAB clear).
pub proof fn law_uart_write_read(v: UartView, offset: u32, b: u8)
    ensures
        uart_read8(v, offset).1.out == v.out,
        uart_read8(uart_write8(v, REG_SCR, b), REG_SCR).0 == b,
        uart_read8(uart_write8(v, REG_LCR, b), REG_LCR).0 == b,
        uart_read8(uart_write8(v, REG_MCR, b), REG_MCR).0 == b,
        !dlab(v) ==> uart_read8(uart_write8(v, REG_IER, b), REG_IER).0 == b,
{
    lemma_reg_index(offset);
    lemma_reg_index(REG_SCR);
    lemma_reg_index(REG_LCR);
    lemma_reg_index(REG_MCR);
    lemma_reg_index(REG_IER);
}

impl Uart {
    /// A UART with all registers clear that appends transmitted bytes to `sink`.
    pub fn with_sink(sink: Vec<u8>) -> (r: Self)
        ensures
            r@ == (UartView {
                ier: 0,
                fcr: 0,
                lcr: 0,
                mcr: 0,
                scr: 0,
                dll: 0,
                dlm: 0,
                thre_ip: false,
                out: sink@,
            }),
    {
        Self { ier: 0, fcr: 0, lcr: 0, mcr: 0, scr: 0, dll: 0, dlm: 0, thre_ip: false, sink }
    }

    /// The bytes transmitted and not yet drained, oldest first.
    pub fn sink(&self) -> (r: &Vec<u8>)
        ensures
            r@ == self@.out,
    {
        &self.sink
    }

    /// Hand out the transmitted bytes, leaving the buffer empty.
    pub fn take_output(&mut self) -> (r: Vec<u8>)
        ensures
            r@ == old(self)@.out,
            final(self)@ == (UartView { out: Seq::empty(), ..old(self)@ }),
    {
        let mut out: Vec<u8> = Vec::new();
        std::mem::swap(&mut out, &mut self.sink);
        assert(self@ =~= UartView { out: Seq::empty(), ..old(self)@ });
        out
    }

    /// The UART's interrupt line (THR-empty enabled and latched).
    pub fn interrupt_pending(&self) -> (r: bool)
        ensures
            r == uart_irq(self@),
    {
        self.ier & IER_THRE != 0 && self.thre_ip
    }

    /// Byte read; never faults. Reading IIR acknowledges THR-empty (hence `&mut`).
    pub fn read8(&mut self, offset: u32) -> (r: Result<u8, Trap>)
        ensures
            (r, final(self)@) == ({
                let (b, v) = uart_read8(old(self)@, offset);
                (Ok::<u8, Trap>(b), v)
            }),
    {
        let reg = offset & 0x7;
        let val: u8 = if reg == REG_THR_RBR {
            if self.lcr & LCR_DLAB != 0 {
                self.dll
            } else {
                0
            }
        } else if reg == REG_IER {
            if self.lcr & LCR_DLAB != 0 {
                self.dlm
            } else {
                self.ier
            }
        } else if reg == REG_IIR_FCR {
            let fifo_bits: u8 = if self.fcr & 0x01 != 0 {
                0xC0
            } else {
                0
            };
            if self.ier & IER_THRE != 0 && self.thre_ip {
                self.thre_ip = false;
                IIR_THRE | fifo_bits
            } else {
                IIR_NONE | fifo_bits
            }
        } else if reg == REG_LCR {
            self.lcr
        } else if reg == REG_MCR {
            self.mcr
        } else if reg == REG_LSR {
            LSR_DEFAULT
        } else if reg == REG_MSR {
            if self.mcr & MCR_LOOP != 0 {
                // Loopback: MCR outputs reflect to MSR inputs
                let mcr = self.mcr;
                let dsr: u8 = if mcr & 0x01 != 0 { 0x20 } else { 0 };  // DTR → DSR
                let cts: u8 = if mcr & 0x02 != 0 { 0x10 } else { 0 };  // RTS → CTS
                let ri: u8 = if mcr & 0x04 != 0 { 0x40 } else { 0 };  // OUT1 → RI
                let dcd: u8 = if mcr & 0x08 != 0 { 0x80 } else { 0 };  // OUT2 → DCD
                dsr | cts | ri | dcd
            } else {
                MSR_DEFAULT
            }
        } else {
            proof {
                lemma_u32_bits(offset);
            }
            self.scr
        };
        assert(self@ =~= uart_read8(old(self)@, offset).1);
        Ok(val)
    }

    /// Byte write; never faults.
    pub fn write8(&mut self, offset: u32, val: u8) -> (r: Result<(), Trap>)
        ensures
            r == Ok::<(), Trap>(()),
            final(self)@ == uart_write8(old(self)@, offset, val),
    {
        let reg = offset & 0x7;
        if reg == REG_THR_RBR {
            if self.lcr & LCR_DLAB != 0 {
                self.dll = val;
            } else {
                self.sink.push(val);
                self.thre_ip = true;
            }
        } else if reg == REG_IER {
            if self.lcr & LCR_DLAB != 0 {
                self.dlm = val;
            } else {
                let old_ier = self.ier;
                self.ier = val;
                if val & IER_THRE != 0 && old_ier & IER_THRE == 0 {
                    self.thre_ip = true;
                }
            }
        } else if reg == REG_IIR_FCR {
            self.fcr = val & 0x01;
        } else if reg == REG_LCR {
            self.lcr = val;
        } else if reg == REG_MCR {
            self.mcr = val;
        } else if reg == REG_SCR {
            self.scr = val;
        }
        // LSR and MSR are read-only.

        assert(self@ =~= uart_write8(old(self)@, offset, val));
        Ok(())
    }

    // 16/32-bit accesses operate on the addressed byte.
    pub fn read16(&mut self, offset: u32) -> (r: Result<u16, Trap>)
        ensures
            (r, final(self)@) == ({
                let (b, v) = uart_read8(old(self)@, offset);
                (Ok::<u16, Trap>(b as u16), v)
            }),
    {
        let b = self.read8(offset)?;
        Ok(b as u16)
    }

    pub fn read32(&mut self, offset: u32) -> (r: Result<u32, Trap>)
        ensures
            (r, final(self)@) == ({
                let (b, v) = uart_read8(old(self)@, offset);
                (Ok::<u32, Trap>(b as u32), v)
            }),
    {
        let b = self.read8(offset)?;
        Ok(b as u32)
    }

    pub fn write16(&mut self, offset: u32, val: u16) -> (r: Result<(), Trap>)
        ensures
            r == Ok::<(), Trap>(()),
            final(self)@ == uart_write8(old(self)@, offset, val as u8),
    {
        self.write8(offset, val as u8)
    }

    pub fn write32(&mut self, offset: u32, val: u32) -> (r: Result<(), Trap>)
        ensures
            r == Ok::<(), Trap>(()),
            final(self)@ == uart_write8(old(self)@, offset, val as u8),
    {
        self.write8(offset, val as u8)
    }
}

} // verus!
