//! A single user task asks the kernel who it is: `get_taskinfo` copies the
//! task's id and name into a user buffer after checking the pointer, and a
//! null pointer is refused.
use vstd::prelude::*;
use crate::common::abi::TrapFrame;
use crate::common::names::padded;
use crate::common::user_mem::range_within;
use crate::lab2::kernel_task1::padded_name;
use crate::lab2::kernel_task2::{validated_user_bytes, validated_user_mut, user_mut_result, DRAM_START};
use vstd::string::StringSliceAdditionalSpecFns;

pub use crate::lab2::kernel_task1::TaskInfo;

verus! {

pub const TASK_NAME_LEN: usize = 32;
pub const SYS_WRITE: usize = 0;
pub const SYS_GET_TASKINFO: usize = 1;
pub const SYS_SHUTDOWN: usize = 2;
pub const EFAULT: isize = -14;
pub const EINVAL: isize = -22;
pub const ENOSYS: isize = -38;
/// Size and alignment of the `#[repr(C)]` layout of [`TaskInfo`].
pub const TASK_INFO_SIZE: usize = 40;
pub const TASK_INFO_ALIGN: usize = 8;

/// The bytes of the task's name.
pub open spec fn task_name_bytes() -> Seq<u8> {
    "lab2_task1_user".spec_bytes()
}

/// The task the kernel runs: id 1, named `lab2_task1_user`.
pub fn current_task_info() -> (r: TaskInfo)
    ensures
        r.task_id == 1,
        r.task_name@ == padded(task_name_bytes(), 32),
{
    TaskInfo { task_id: 1, task_name: padded_name("lab2_task1_user".as_bytes()) }
}

/// What a system call asks the caller to do; `a0` already holds the result.
pub enum Task1Outcome {
    /// Copy `len` bytes from `addr` to the console.
    Write { addr: usize, len: usize },
    /// Store `info` at user address `addr`.
    CopyTaskInfo { addr: usize, info: TaskInfo },
    /// Stop the machine with this code.
    Shutdown(u32),
    /// Nothing more to do (a refused pointer or an unknown call).
    Answered,
}

/// Handles the system call in `frame` against user memory
/// `[DRAM_START, user_end)`.
pub fn handle_syscall(frame: &mut TrapFrame, user_end: usize) -> (r: Task1Outcome)
    ensures
        old(frame).a7 == SYS_WRITE ==> {
            let ok = old(frame).a1 == 0 || (old(frame).a0 != 0
                && range_within(old(frame).a0 as int, old(frame).a1 as int, DRAM_START as int, user_end as int));
            &&& ok ==> r == (Task1Outcome::Write { addr: old(frame).a0, len: old(frame).a1 })
                && final(frame).a0 == old(frame).a1 as isize as usize
            &&& !ok ==> r == Task1Outcome::Answered && final(frame).a0 == EFAULT as usize
        },
        old(frame).a7 == SYS_GET_TASKINFO ==> match user_mut_result(old(frame).a0, TASK_INFO_SIZE, TASK_INFO_ALIGN, user_end) {
            Ok(_) => r matches Task1Outcome::CopyTaskInfo { addr, info } && addr == old(frame).a0 && info.task_id == 1
                && info.task_name@ == padded(task_name_bytes(), 32) && final(frame).a0 == 0,
            Err(e) => r == Task1Outcome::Answered && final(frame).a0 == e as usize,
        },
        old(frame).a7 == SYS_SHUTDOWN ==> r == Task1Outcome::Shutdown(old(frame).a0 as u32),
        old(frame).a7 > SYS_SHUTDOWN ==> r == Task1Outcome::Answered && final(frame).a0 == ENOSYS as usize,
{
    if frame.a7 == SYS_WRITE {
        let addr = frame.a0;
        let len = frame.a1;
        match validated_user_bytes(addr, len, user_end) {
            Ok(()) => {
                frame.a0 = len as isize as usize;
                Task1Outcome::Write { addr, len }
            },
            Err(e) => {
                frame.a0 = e as usize;
                Task1Outcome::Answered
            },
        }
    } else if frame.a7 == SYS_GET_TASKINFO {
        let addr = frame.a0;
        match validated_user_mut(addr, TASK_INFO_SIZE, TASK_INFO_ALIGN, user_end) {
            Ok(()) => {
                frame.a0 = 0;
                Task1Outcome::CopyTaskInfo { addr, info: current_task_info() }
            },
            Err(e) => {
                frame.a0 = e as usize;
                Task1Outcome::Answered
            },
        }
    } else if frame.a7 == SYS_SHUTDOWN {
        Task1Outcome::Shutdown(frame.a0 as u32)
    } else {
        frame.a0 = ENOSYS as usize;
        Task1Outcome::Answered
    }
}

} // verus!
