use rvsim::uart::{
    Uart, LCR_DLAB, LSR_DEFAULT, MCR_LOOP, REG_IER, REG_IIR_FCR, REG_LCR, REG_LSR, REG_MCR,
    REG_MSR, REG_SCR, REG_THR_RBR,
};

fn uart_with_sink() -> Uart {
    Uart::with_sink(Vec::new())
}

#[test]
fn tx_writes_byte_to_sink() {
    let mut uart = uart_with_sink();
    uart.write8(REG_THR_RBR, b'A').unwrap();
    uart.write8(REG_THR_RBR, b'B').unwrap();
    assert_eq!(uart.sink().as_slice(), b"AB");
}

#[test]
fn lsr_always_reports_thr_empty() {
    let mut uart = uart_with_sink();
    let lsr = uart.read8(REG_LSR).unwrap();
    assert!(lsr & (1 << 5) != 0, "THR-empty bit must be set");
    assert!(lsr & (1 << 0) == 0, "data-ready bit must be clear (no RX)");
}

#[test]
fn ier_and_lcr_round_trip() {
    let mut uart = uart_with_sink();
    uart.write8(REG_IER, 0xAB).unwrap();
    uart.write8(REG_LCR, 0x03).unwrap(); // DLAB clear
    assert_eq!(uart.read8(REG_IER).unwrap(), 0xAB);
    assert_eq!(uart.read8(REG_LCR).unwrap(), 0x03);
}

#[test]
fn dlab_muxes_dll_dlm() {
    let mut uart = uart_with_sink();
    // Set DLAB
    uart.write8(REG_LCR, LCR_DLAB).unwrap();
    // Write divisor latch registers
    uart.write8(REG_THR_RBR, 0x18).unwrap(); // DLL
    uart.write8(REG_IER, 0x00).unwrap(); // DLM
    // Read them back
    assert_eq!(uart.read8(REG_THR_RBR).unwrap(), 0x18); // DLL
    assert_eq!(uart.read8(REG_IER).unwrap(), 0x00); // DLM
    // Nothing should have been sent to the sink
    assert!(uart.sink().is_empty());
    // Clear DLAB — IER should still be 0 (not corrupted by DLM write)
    uart.write8(REG_LCR, 0x03).unwrap();
    assert_eq!(uart.read8(REG_IER).unwrap(), 0x00);
}

#[test]
fn loopback_msr_reflects_mcr() {
    let mut uart = uart_with_sink();
    // Set MCR to loopback + OUT2 + RTS (what Linux autoconfig does: 0x1A)
    uart.write8(REG_MCR, MCR_LOOP | 0x0A).unwrap();
    let msr = uart.read8(REG_MSR).unwrap();
    // RTS(bit1) → CTS(0x10), OUT2(bit3) → DCD(0x80) = 0x90
    assert_eq!(msr & 0xF0, 0x90);
}

#[test]
fn lsr_is_read_only() {
    let mut uart = uart_with_sink();
    uart.write8(REG_LSR, 0xFF).unwrap();
    assert_eq!(uart.read8(REG_LSR).unwrap(), LSR_DEFAULT);
}

#[test]
fn thr_empty_interrupt_latches_and_iir_acknowledges() {
    let mut uart = uart_with_sink();
    assert!(!uart.interrupt_pending());
    // Enabling the THR-empty interrupt latches it (the transmitter is empty).
    uart.write8(REG_IER, 0x02).unwrap();
    assert!(uart.interrupt_pending());
    // IIR reports it once, then reads "no interrupt".
    assert_eq!(uart.read8(REG_IIR_FCR).unwrap(), 0x02);
    assert!(!uart.interrupt_pending());
    assert_eq!(uart.read8(REG_IIR_FCR).unwrap(), 0x01);
    // Transmitting latches it again; FIFO enable shows in IIR bits 7:6.
    uart.write8(REG_IIR_FCR, 0x07).unwrap();
    uart.write8(REG_THR_RBR, b'z').unwrap();
    assert_eq!(uart.read8(REG_IIR_FCR).unwrap(), 0xC2);
    assert_eq!(uart.read8(REG_IIR_FCR).unwrap(), 0xC1);
    assert_eq!(uart.take_output(), b"z".to_vec());
    assert!(uart.sink().is_empty());
}

#[test]
fn scratch_msr_and_wide_accesses() {
    let mut uart = uart_with_sink();
    uart.write32(REG_SCR, 0x1234_5678).unwrap(); // only the low byte lands
    assert_eq!(uart.read32(REG_SCR).unwrap(), 0x78);
    assert_eq!(uart.read16(REG_SCR + 8).unwrap(), 0x78); // offsets wrap every 8 bytes
    assert_eq!(uart.read8(REG_MSR).unwrap(), 0xB0); // CD, DSR, CTS without loopback
    uart.write16(REG_THR_RBR, 0x4142).unwrap();
    assert_eq!(uart.sink().as_slice(), b"B");
    assert_eq!(uart.read8(REG_THR_RBR).unwrap(), 0); // no receive data
}
