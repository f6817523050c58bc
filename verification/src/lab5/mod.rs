//! Lab 5: multiprocessing. Schedulers for a run queue of tasks, a
//! per-hart work-stealing pool, and interrupts and a spin lock shared by
//! four harts.
pub mod kernel_task2;
pub mod kernel_task3;
pub mod kernel_task4;
