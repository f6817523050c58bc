//! Lab 2: system calls, per-task statistics and exception diagnostics.
pub mod kernel_task1;
pub mod kernel_task2;
pub mod kernel_task3;
pub mod kernel_task4;
pub mod task3;
pub mod task1;
pub mod task2;
