use rvsim::bus::Bus;
use rvsim::clint::{Clint, CLINT_BASE};
use rvsim::csr::{MIP_MEIP, MIP_MTIP};
use rvsim::flat::FlatMemory;
use rvsim::mem::Memory;
use rvsim::plic::{Plic, PLIC_BASE};
use rvsim::trap::Trap;
use rvsim::uart::{Uart, UART_BASE};

fn make_bus() -> Bus {
    let ram = FlatMemory::new(0x1000, 0x8000_0000);
    let clint = Clint::new();
    let plic = Plic::new();
    let uart = Uart::with_sink(Vec::new());
    Bus::new(ram, clint, plic, uart)
}

#[test]
fn routes_to_ram() {
    let mut bus = make_bus();
    bus.write32(0x8000_0000, 0xDEAD_BEEF).unwrap();
    assert_eq!(bus.read32(0x8000_0000).unwrap(), 0xDEAD_BEEF);
}

#[test]
fn routes_to_uart_tx() {
    let mut bus = make_bus();
    bus.write8(UART_BASE, b'X').unwrap();
    assert_eq!(bus.uart.sink().as_slice(), b"X");
}

#[test]
fn routes_to_clint_mtime() {
    let mut bus = make_bus();
    bus.tick(0xCAFE);
    assert_eq!(bus.read32(CLINT_BASE + 0xBFF8).unwrap(), 0xCAFE);
}

#[test]
fn oob_ram_faults() {
    let mut bus = make_bus();
    assert_eq!(bus.read32(0x9000_0000), Err(Trap::LoadAccessFault));
}

#[test]
fn pending_interrupts_reports_mtip() {
    let mut bus = make_bus();
    // Set mtime_compare = 5 via the bus.
    bus.write32(CLINT_BASE + 0x4000, 5).unwrap();
    bus.write32(CLINT_BASE + 0x4004, 0).unwrap();
    bus.tick(4);
    assert_eq!(bus.pending_interrupts(), 0);
    bus.tick(5);
    assert_eq!(bus.pending_interrupts(), MIP_MTIP);
}

#[test]
fn uart_interrupt_reaches_meip_through_plic() {
    let mut bus = make_bus();
    // UART source 10: priority 1, enabled for the M-mode context.
    bus.write32(PLIC_BASE + 10 * 4, 1).unwrap();
    bus.write32(PLIC_BASE + 0x2000, 1 << 10).unwrap();
    // Enable the THR-empty interrupt: the UART latches it at once.
    bus.write8(UART_BASE + 1, 0x02).unwrap();
    bus.tick(1);
    assert_eq!(bus.pending_interrupts(), MIP_MEIP);
    // Claim through the bus returns source 10.
    assert_eq!(bus.read32(PLIC_BASE + 0x20_0004).unwrap(), 10);
    // Reading IIR acknowledges the UART; the next tick drops the pending bit.
    assert_eq!(bus.read8(UART_BASE + 2).unwrap(), 0x02);
    bus.tick(2);
    assert_eq!(bus.read32(PLIC_BASE + 0x1000).unwrap() & (1 << 10), 0);
}

#[test]
fn ram_halfword_and_byte_accesses_route_and_fault() {
    let mut bus = make_bus();
    bus.write16(0x8000_0010, 0xBEEF).unwrap();
    assert_eq!(bus.read8(0x8000_0010).unwrap(), 0xEF);
    assert_eq!(bus.read16(0x8000_0010).unwrap(), 0xBEEF);
    assert_eq!(bus.write8(0x7FFF_FFFF, 1), Err(Trap::StoreAccessFault));
    // The last halfword of RAM straddles its end.
    assert_eq!(bus.read16(0x8000_0FFF), Err(Trap::LoadAccessFault));
}
