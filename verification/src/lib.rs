//! A verified model of a small multitasking kernel: a bounded thread table
//! driven by timer interrupts with round-robin scheduling, a spawn syscall,
//! a bump arena for thread stacks, a text terminal over a cell buffer, a
//! keyboard decoding pipeline, and a tiny command shell.
//!
//! All hardware effects (port I/O, the interrupt stubs, `iretq`) live outside
//! this crate; the functions here compute what those effects operate on: the
//! thread table updates, the synthesized interrupt frames, the register block
//! to load, the terminal cells to draw.

pub mod apps;
pub mod ata;
pub mod idt;
pub mod kernel;
pub mod keyboard;
pub mod kshell;
pub mod memory;
pub mod qemu;
pub mod serial;
pub mod tty;
pub mod vga;
