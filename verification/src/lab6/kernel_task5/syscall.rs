//! User-side system call stubs: each builds the registers of its `ecall`.
use vstd::prelude::*;
use crate::common::abi::{make_request, request, SyscallRequest, UserCall};
use super::abi::{
    EFAULT, EINVAL, ENOENT, ENOSYS, SYS_BOOT_MODE, SYS_JOURNAL_DIAG, SYS_READ_FILE, SYS_SHUTDOWN,
    SYS_STAT, SYS_TIME_US, SYS_TXN_WRITE, SYS_WRITE,
};

verus! {

/// `write(bytes)`: an empty buffer returns 0 at once; otherwise
/// `(SYS_WRITE, addr, len)`.
pub fn write(addr: usize, len: usize) -> (r: UserCall)
    ensures
        len == 0 ==> r == UserCall::Immediate(0),
        len != 0 ==> r == UserCall::Trap(request(SYS_WRITE, addr, len, 0, 0, 0)),
{
    if len == 0 {
        return UserCall::Immediate(0);
    }
    UserCall::Trap(make_request(SYS_WRITE, addr, len, 0, 0, 0))
}

/// `time_us()`: `(SYS_TIME_US)`.
pub fn time_us() -> (r: SyscallRequest)
    ensures
        r == request(SYS_TIME_US, 0, 0, 0, 0, 0),
{
    make_request(SYS_TIME_US, 0, 0, 0, 0, 0)
}

/// `boot_mode()`: `(SYS_BOOT_MODE)`.
pub fn boot_mode() -> (r: SyscallRequest)
    ensures
        r == request(SYS_BOOT_MODE, 0, 0, 0, 0, 0),
{
    make_request(SYS_BOOT_MODE, 0, 0, 0, 0, 0)
}

/// `txn_write(path, bytes)`.
pub fn txn_write(path_addr: usize, path_len: usize, bytes_addr: usize, bytes_len: usize) -> (r: SyscallRequest)
    ensures
        r == request(SYS_TXN_WRITE, path_addr, path_len, bytes_addr, bytes_len, 0),
{
    make_request(SYS_TXN_WRITE, path_addr, path_len, bytes_addr, bytes_len, 0)
}

/// `read_file(path, buffer)`.
pub fn read_file(path_addr: usize, path_len: usize, buffer_addr: usize, buffer_len: usize) -> (r: SyscallRequest)
    ensures
        r == request(SYS_READ_FILE, path_addr, path_len, buffer_addr, buffer_len, 0),
{
    make_request(SYS_READ_FILE, path_addr, path_len, buffer_addr, buffer_len, 0)
}

/// `stat(path, out)`.
pub fn stat(path_addr: usize, path_len: usize, stat_addr: usize) -> (r: SyscallRequest)
    ensures
        r == request(SYS_STAT, path_addr, path_len, stat_addr, 0, 0),
{
    make_request(SYS_STAT, path_addr, path_len, stat_addr, 0, 0)
}

/// `journal_diag(out)`.
pub fn journal_diag(diag_addr: usize) -> (r: SyscallRequest)
    ensures
        r == request(SYS_JOURNAL_DIAG, diag_addr, 0, 0, 0, 0),
{
    make_request(SYS_JOURNAL_DIAG, diag_addr, 0, 0, 0, 0)
}

/// `shutdown(code)`: never returns.
pub fn shutdown(code: u32) -> (r: SyscallRequest)
    ensures
        r == request(SYS_SHUTDOWN, code as usize, 0, 0, 0, 0),
{
    make_request(SYS_SHUTDOWN, code as usize, 0, 0, 0, 0)
}

/// The message for an error code.
pub fn describe_error(code: isize) -> (r: &'static str)
    ensures
        code == EFAULT ==> r@ == "bad user pointer"@,
        code == EINVAL ==> r@ == "invalid argument"@,
        code == ENOENT ==> r@ == "no such file or directory"@,
        code == ENOSYS ==> r@ == "unknown syscall"@,
        code != EFAULT && code != EINVAL && code != ENOENT && code != ENOSYS ==> r@ == "unexpected error"@,
{
    if code == EFAULT {
        "bad user pointer"
    } else if code == EINVAL {
        "invalid argument"
    } else if code == ENOENT {
        "no such file or directory"
    } else if code == ENOSYS {
        "unknown syscall"
    } else {
        "unexpected error"
    }
}

} // verus!
