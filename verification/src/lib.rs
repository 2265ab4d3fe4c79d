//! Reset-to-main boot sequencing and the interrupt trap protocol of a
//! PicoRV32 soft core, as verified plain-value logic.
//!
//! The crate holds the rules that sit between the hardware and a program:
//! how the linker's layout is read, how RAM is prepared before `main`, which
//! registers a trap saves and where, how a saved register context is read
//! back, and in which order pending interrupts reach their handlers.  The
//! reset vector, the trap vector and every raw memory access live with the
//! caller; they hand this crate integers and word images and act on what it
//! returns.

pub mod boot;
pub mod config;
pub mod cpu;
pub mod diagnostics;
pub mod dispatch;
pub mod layout;
pub mod memory;
pub mod registers;
pub mod trap;
