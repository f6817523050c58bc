//! The memory-mapped file kernel: its ABI and user-side system call stubs.
pub mod abi;
pub mod mmap;
pub mod syscall;
