//! An RV32 hart with an Sv32 MMU, PMP, and a small memory-mapped platform
//! (RAM, CLINT, PLIC, NS16550A UART), with contracts proved by Verus.

pub mod bits;
pub mod trap;
pub mod arith;
pub mod cpu;
pub mod csr;
pub mod decode;
pub mod mem;
pub mod mmu;
pub mod pmp;
pub mod reg;
pub mod execute;
pub mod flat;
pub mod clint;
pub mod mmio;
pub mod plic;
pub mod uart;
pub mod bus;
pub mod cli;
pub mod rvc;
pub mod elf;
