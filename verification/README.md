# rvsim

A RISC-V simulator (RV32GC with an Sv32 MMU) whose core is verified with
Verus: every public function of the library states what it returns and how
it changes the machine, and Verus proves it.

## Layout

- `src/` — the verified library.
  - `decode.rs`, `rvc.rs`: instruction decoding and compressed-instruction
    expansion (with the law that expanding and decoding agree).
  - `execute.rs`, `cpu.rs`: instruction semantics, traps, interrupts and the
    fetch–execute step of a hart.
  - `csr.rs`, `reg.rs`, `trap.rs`: control/status registers, register files,
    trap causes.
  - `mmu.rs`, `pmp.rs`: Sv32 translation and physical memory protection.
  - `mem.rs`, `flat.rs`, `clint.rs`, `plic.rs`, `uart.rs`, `bus.rs`, `mmio.rs`:
    the memory interface, RAM and the memory-mapped devices.
  - `elf.rs`: placing an ELF program image in RAM (parsing is goblin's).
  - `cli.rs`: the command line and the numbers in it.
- `tests/` — tests of the library.
- `app/` — the `rvsim` program: file and terminal I/O, the run loop, and the
  host floating-point arithmetic that F/D instructions hand back to it.

Floating-point instructions are decoded, checked and written back by the
verified hart; the arithmetic itself is done by the host in `app/fpu.rs`,
through `Hart::step` returning the instruction and `Hart::complete_fp`
taking its result.
