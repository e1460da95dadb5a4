//! Core of a minimal RISC-V 64-bit supervisor-mode kernel: Sv39 multi-level
//! paging, a physical frame allocator, address-space identifiers, user-buffer
//! translation, and the runtime state machine that mediates the kernel/user
//! context-switch protocol.
//!
//! Machine words are modelled as `u64`, the register width of the target.
//! Everything hardware does (CSR writes, the trampoline's privilege
//! transitions, console output) is left to the surrounding program; this crate
//! holds the data structures and decisions, with their contracts.

pub mod addr;
pub mod asid;
pub mod bringup;
pub mod executor;
pub mod frame;
pub mod mem;
pub mod space;
pub mod syscall;
