//! Common library shared by the kernel and user space:
//! addresses, memory blocks, pages and frames, allocator bookkeeping, collections,
//! stack traces, inter-process channels, log records, processes and ELF loading,
//! and time keeping.
//!
//! The library targets x86-64, where `usize` has 64 bits; the functions that build
//! addresses above 4 GiB state that in their `requires`.

#![allow(unused_imports)]

pub mod allocator;
pub mod backtrace;
pub mod collections;
pub mod error;
pub mod info;
pub mod ipc;
pub mod log;
pub mod memory;
pub mod process;
pub mod text;
pub mod time;
