//! Lab 3: time-sharing. Timer-driven preemption that keeps floating-point
//! state, round-robin schedulers with time accounting, and kernel-side
//! checks of user-supplied pointers.
pub mod task1;
pub mod task2;
pub mod task3;
pub mod kernel_task1;
pub mod kernel_task2;
pub mod kernel_task4;
pub mod kernel_task5;
