//! Kernel-side `get_taskinfo`: a syscall table, user-pointer validation for
//! output structures, and the user-side stubs that call into it.
pub mod syscall;

use vstd::prelude::*;
use crate::common::abi::TrapFrame;
use crate::common::names::padded;
use crate::common::text::{name_text, padded_bytes_to_str};
use crate::common::user_mem::range_within;
use vstd::string::StringSliceAdditionalSpecFns;

verus! {

pub const DRAM_START: usize = 0x8000_0000;
pub const TASK_NAME_LEN: usize = 32;
pub const SYSCALL_TABLE_LEN: usize = 3;

pub const SYS_WRITE: usize = 0;
pub const SYS_GET_TASKINFO: usize = 1;
pub const SYS_SHUTDOWN: usize = 2;

pub const EFAULT: isize = -14;
pub const EINVAL: isize = -22;
pub const ENOSYS: isize = -38;

/// Size in bytes of the `#[repr(C)]` layout of [`TaskInfo`] (a `u64` and a 32-byte name).
pub const TASK_INFO_SIZE: usize = 40;
/// Alignment of the `#[repr(C)]` layout of [`TaskInfo`].
pub const TASK_INFO_ALIGN: usize = 8;

/// What user space receives from `get_taskinfo`.
#[derive(Clone, Copy)]
pub struct TaskInfo {
    pub task_id: u64,
    pub task_name: [u8; TASK_NAME_LEN],
}

impl TaskInfo {
    /// A record with id 0 and an all-zero name.
    pub fn empty() -> (r: Self)
        ensures
            r.task_id == 0,
            r.task_name@ == Seq::new(32, |i: int| 0u8),
    {
        let r = TaskInfo { task_id: 0, task_name: [0u8; TASK_NAME_LEN] };
        assert(r.task_name@ =~= Seq::new(32, |i: int| 0u8));
        r
    }

    /// The task name: the bytes before the first zero, as UTF-8 text, or
    /// `<invalid>` when they are not valid UTF-8.
    pub fn name(&self) -> (r: &str)
        ensures
            r@ == name_text(self.task_name@),
    {
        padded_bytes_to_str(self.task_name.as_slice())
    }
}

/// The kernel's record of the task it runs.
#[derive(Clone, Copy)]
pub struct KernelTask {
    pub id: u64,
    pub name: [u8; TASK_NAME_LEN],
}

/// `name` in a 32-byte buffer, cut to 31 bytes and zero padded.
pub fn padded_name(name: &[u8]) -> (r: [u8; TASK_NAME_LEN])
    ensures
        r@ == padded(name@, 32),
{
    let mut out = [0u8; TASK_NAME_LEN];
    let mut index: usize = 0;
    while index < name.len() && index < TASK_NAME_LEN - 1
        invariant
            index <= 31,
            index <= name@.len(),
            out@.len() == 32,
            forall|k: int| 0 <= k < index ==> out@[k] == name@[k],
            forall|k: int| index <= k < 32 ==> out@[k] == 0u8,
        decreases 32 - index,
    {
        out[index] = name[index];
        index += 1;
    }
    assert forall|k: int| 0 <= k < 32 implies out@[k] == padded(name@, 32)[k] by {
        if k < index {
        } else {
            assert(!(k < name@.len() && k < 31));
        }
    }
    assert(out@ =~= padded(name@, 32));
    out
}

/// The bytes of the name of the task the kernel runs.
pub open spec fn task_name_bytes() -> Seq<u8> {
    "kernel_task1_user".spec_bytes()
}

/// The task the kernel runs: id 1, named `kernel_task1_user`.
pub fn current_task() -> (r: KernelTask)
    ensures
        r.id == 1,
        r.name@ == padded(task_name_bytes(), 32),
{
    KernelTask { id: 1, name: padded_name("kernel_task1_user".as_bytes()) }
}

/// Addresses the linker places around the user program.
#[derive(Clone, Copy)]
pub struct MemoryLayout {
    pub image_end: usize,
    pub user_stack_bottom: usize,
    pub user_stack_top: usize,
}

/// End of the memory user input may be read from.
pub fn user_input_end(layout: &MemoryLayout) -> (r: usize)
    ensures
        r == layout.image_end,
{
    layout.image_end
}

/// The result of `sys_write(addr, len)`: the length written, or `EFAULT` when
/// the buffer is not empty and not inside `[DRAM_START, image_end)`.
pub open spec fn write_result(addr: usize, len: usize, image_end: usize) -> isize {
    if len == 0 {
        0
    } else if addr == 0 || !range_within(addr as int, len as int, DRAM_START as int, image_end as int) {
        EFAULT
    } else {
        len as isize
    }
}

/// Checks a user buffer that the kernel reads from.
pub fn validated_user_bytes(addr: usize, len: usize, layout: &MemoryLayout) -> (r: Result<(), isize>)
    ensures
        r is Ok <==> (len == 0 || (addr != 0 && range_within(addr as int, len as int, DRAM_START as int, layout.image_end as int))),
        r is Err ==> r->Err_0 == EFAULT,
{
    if len == 0 {
        return Ok(());
    }
    if addr == 0 {
        return Err(EFAULT);
    }
    let end = match addr.checked_add(len) {
        Some(end) => end,
        None => return Err(EFAULT),
    };
    if addr < DRAM_START || end > user_input_end(layout) {
        return Err(EFAULT);
    }
    Ok(())
}

/// `sys_write`: validates the buffer; on success the caller copies the bytes to the console.
pub fn sys_write(addr: usize, len: usize, layout: &MemoryLayout) -> (r: isize)
    ensures
        r == write_result(addr, len, layout.image_end),
{
    match validated_user_bytes(addr, len, layout) {
        Ok(()) => len as isize,
        Err(err) => err,
    }
}

/// The result of validating an output pointer for a `len`-byte object with
/// the given alignment inside the user stack `[bottom, top)`.
pub open spec fn output_ptr_result(addr: usize, len: usize, alignment: usize, bottom: usize, top: usize) -> Result<(), isize> {
    if addr == 0 {
        Err(EFAULT)
    } else if addr % alignment != 0 {
        Err(EINVAL)
    } else if addr + len > usize::MAX || addr < bottom || addr + len > top {
        Err(EFAULT)
    } else {
        Ok(())
    }
}

/// Checks a user pointer the kernel writes an object to: it must be non-null,
/// aligned, and the whole object must lie in the user stack.
pub fn validate_user_output_ptr(addr: usize, len: usize, alignment: usize, layout: &MemoryLayout) -> (r: Result<(), isize>)
    requires
        alignment > 0,
    ensures
        r == output_ptr_result(addr, len, alignment, layout.user_stack_bottom, layout.user_stack_top),
{
    if addr == 0 {
        return Err(EFAULT);
    }
    if addr % alignment != 0 {
        return Err(EINVAL);
    }
    let end = match addr.checked_add(len) {
        Some(end) => end,
        None => return Err(EFAULT),
    };
    if addr < layout.user_stack_bottom || end > layout.user_stack_top {
        return Err(EFAULT);
    }
    Ok(())
}

/// What the machine-level caller does after a system call was decided.
pub enum SyscallEffect {
    /// Nothing beyond the result already stored in `a0`.
    Done,
    /// Copy `len` user bytes at `addr` to the console.
    ConsoleWrite { addr: usize, len: usize },
    /// Store `info` at user address `addr`.
    CopyTaskInfo { addr: usize, info: TaskInfo },
    /// Power the machine off with this exit code.
    Shutdown { code: u32 },
    /// The call number has no handler; it may be logged.
    Unknown { nr: usize },
}

/// The frame with `a0` replaced.
pub open spec fn with_a0(f: TrapFrame, a0: usize) -> TrapFrame {
    TrapFrame { a0: a0, ..f }
}

/// Dispatches the system call in `frame` through the three-entry syscall
/// table and stores the result in `a0` (except for `shutdown`, which does not
/// return to user space).
pub fn dispatch_syscall(frame: &mut TrapFrame, layout: &MemoryLayout) -> (effect: SyscallEffect)
    ensures
        old(frame).a7 == SYS_WRITE ==> {
            let r = write_result(old(frame).a0, old(frame).a1, layout.image_end);
            &&& *final(frame) == with_a0(*old(frame), r as usize)
            &&& (r >= 0 ==> effect == (SyscallEffect::ConsoleWrite { addr: old(frame).a0, len: old(frame).a1 }))
            &&& (r < 0 ==> effect is Done)
        },
        old(frame).a7 == SYS_GET_TASKINFO ==> {
            let r = output_ptr_result(old(frame).a0, TASK_INFO_SIZE, TASK_INFO_ALIGN, layout.user_stack_bottom, layout.user_stack_top);
            &&& (r is Ok ==> *final(frame) == with_a0(*old(frame), 0) && (effect matches SyscallEffect::CopyTaskInfo { addr, info }
                    && addr == old(frame).a0 && info.task_id == 1 && info.task_name@ == padded(task_name_bytes(), 32)))
            &&& (r is Err ==> *final(frame) == with_a0(*old(frame), r->Err_0 as usize) && effect is Done)
        },
        old(frame).a7 == SYS_SHUTDOWN ==> *final(frame) == *old(frame) && effect == (SyscallEffect::Shutdown { code: old(frame).a0 as u32 }),
        old(frame).a7 >= SYSCALL_TABLE_LEN ==> *final(frame) == with_a0(*old(frame), ENOSYS as usize) && effect == (SyscallEffect::Unknown { nr: old(frame).a7 }),
{
    let nr = frame.a7;
    if nr == SYS_WRITE {
        let addr = frame.a0;
        let r = sys_write(addr, frame.a1, layout);
        frame.a0 = r as usize;
        if r >= 0 {
            SyscallEffect::ConsoleWrite { addr, len: frame.a1 }
        } else {
            SyscallEffect::Done
        }
    } else if nr == SYS_GET_TASKINFO {
        let user_ptr = frame.a0;
        let task = current_task();
        let task_info = TaskInfo { task_id: task.id, task_name: task.name };
        match validate_user_output_ptr(user_ptr, TASK_INFO_SIZE, TASK_INFO_ALIGN, layout) {
            Ok(()) => {
                frame.a0 = 0;
                SyscallEffect::CopyTaskInfo { addr: user_ptr, info: task_info }
            },
            Err(err) => {
                frame.a0 = err as usize;
                SyscallEffect::Done
            },
        }
    } else if nr == SYS_SHUTDOWN {
        SyscallEffect::Shutdown { code: frame.a0 as u32 }
    } else {
        frame.a0 = ENOSYS as usize;
        SyscallEffect::Unknown { nr }
    }
}

/// The value written to the QEMU test device to power off with `code`.
pub fn qemu_exit_value(code: u32) -> (r: u32)
    ensures
        code == 0 ==> r == 0x5555,
        code != 0 ==> r == ((code << 16u32) | 0x3333u32),
{
    if code == 0 {
        0x5555
    } else {
        (code << 16u32) | 0x3333
    }
}

} // verus!
