//! Verified core of a minimal x86 protected-mode kernel: descriptor tables,
//! interrupt routing, the fixed system-call ABI and its dispatcher, the
//! per-process handle table, and the loader/launcher that brings an
//! executable image into ring-3 execution.
//!
//! Hardware effects (port I/O, privileged instructions, the actual
//! ring transition) live outside this crate; every function here works on
//! plain values and carries a contract that pins its result down.

pub mod elf;
pub mod gdt;
pub mod idt;
pub mod interrupts;
pub mod io;
pub mod kernel;
pub mod keyboard;
pub mod kfs;
pub mod process;
pub mod speaker;
pub mod startup;
pub mod strings;
pub mod syscall;
pub mod timer;
pub mod userland;
pub mod vga;
