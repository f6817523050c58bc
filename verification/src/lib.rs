//! Verified core of a series of small RISC-V teaching kernels: syscall
//! dispatch and user-pointer validation, per-task accounting, round-robin and
//! priority schedulers, Sv39 page-table construction and walks, lazy paging,
//! copy-on-write and clock-based swapping, SMP work queues and allocators, an
//! inode file system with indirect blocks, and a write-ahead journal.
//!
//! Hardware access (CSRs, MMIO, `ecall`, semihosting) is not part of this
//! crate: every decision the kernels make is a function of plain values here,
//! and the caller performs the machine-level action it returns.
pub mod common;
pub mod lab2;
pub mod lab3;
pub mod lab4;
pub mod lab5;
pub mod lab6;
