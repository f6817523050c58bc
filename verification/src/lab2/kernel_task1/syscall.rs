//! User-side system call stubs.
use vstd::prelude::*;
use crate::common::abi::{UserCall, SyscallRequest, request, make_request};
use super::{EFAULT, EINVAL, ENOSYS, SYS_WRITE, SYS_GET_TASKINFO, SYS_SHUTDOWN};

verus! {

/// `write(bytes)`: an empty buffer returns 0 without entering the kernel;
/// otherwise traps with `(SYS_WRITE, addr, len)`.
pub fn write(addr: usize, len: usize) -> (r: UserCall)
    ensures
        len == 0 ==> r == UserCall::Immediate(0),
        len != 0 ==> r == UserCall::Trap(request(SYS_WRITE, addr, len, 0, 0, 0)),
{
    if len == 0 {
        return UserCall::Immediate(0);
    }
    UserCall::Trap(make_request(SYS_WRITE, addr, len, 0, 0, 0))
}

/// `get_taskinfo(ptr)`: traps with `(SYS_GET_TASKINFO, ptr)`.
pub fn get_taskinfo(task_info_addr: usize) -> (r: SyscallRequest)
    ensures
        r == request(SYS_GET_TASKINFO, task_info_addr, 0, 0, 0, 0),
{
    make_request(SYS_GET_TASKINFO, task_info_addr, 0, 0, 0, 0)
}

/// `shutdown(code)`: traps with `(SYS_SHUTDOWN, code)` and never returns.
pub fn shutdown(code: u32) -> (r: SyscallRequest)
    ensures
        r == request(SYS_SHUTDOWN, code as usize, 0, 0, 0, 0),
{
    make_request(SYS_SHUTDOWN, code as usize, 0, 0, 0, 0)
}

/// Human-readable meaning of a negative system call result.
pub fn describe_error(code: isize) -> (r: &'static str)
    ensures
        code == EFAULT ==> r@ == "bad user pointer"@,
        code == EINVAL ==> r@ == "invalid argument"@,
        code == ENOSYS ==> r@ == "unknown syscall"@,
        code != EFAULT && code != EINVAL && code != ENOSYS ==> r@ == "unexpected error"@,
{
    if code == EFAULT {
        "bad user pointer"
    } else if code == EINVAL {
        "invalid argument"
    } else if code == ENOSYS {
        "unknown syscall"
    } else {
        "unexpected error"
    }
}

} // verus!
