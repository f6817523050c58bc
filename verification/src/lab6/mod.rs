//! Lab 6: file systems. An inode file system with direct and indirect
//! blocks, a directory-entry variant, memory-mapped files, and a write-ahead
//! journal with crash recovery.
pub mod kernel_task1;
pub mod path;
pub mod user_args;
pub mod kernel_task3;
pub mod kernel_task4;
pub mod kernel_task5;
pub mod task1;
pub mod task2;
