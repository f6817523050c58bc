//! Lab 4: Sv39 virtual memory. A shared page-table model and walk, then four
//! kernels: one address space with user/kernel isolation, lazy heap and mmap
//! regions, copy-on-write fork, and clock-based swapping.
pub mod sv39;
pub mod kernel_task1;
pub mod kernel_task2;
pub mod kernel_task3;
pub mod kernel_task4;
