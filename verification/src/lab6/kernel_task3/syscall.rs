//! User-side system call stubs: each builds the registers of its `ecall`.
use vstd::prelude::*;
use crate::common::abi::{make_request, request, SyscallRequest, UserCall};
use super::abi::{
    EBUSY, EEXIST, EFAULT, EFBIG, EINVAL, EISDIR, ENAMETOOLONG, ENOENT, ENOSPC, ENOSYS, ENOTDIR,
    ENOTEMPTY, SYS_CREATE_DIR, SYS_CREATE_FILE, SYS_MMAP, SYS_MMAP_DIAG, SYS_MSYNC, SYS_MUNMAP,
    SYS_READ_AT, SYS_REMOVE, SYS_SHUTDOWN, SYS_STAT, SYS_TIME_US, SYS_WRITE, SYS_WRITE_AT,
};

verus! {

/// `write(bytes)`: an empty buffer returns 0 at once; otherwise
/// `(SYS_WRITE, addr, len)`.
pub fn write(addr: usize, len: usize) -> (r: UserCall)
    ensures
        len == 0 ==> r == UserCall::Immediate(0),
        len != 0 ==> r == UserCall::Trap(request(SYS_WRITE, addr, len, 0, 0, 0)),
{
    if len == 0 {
        return UserCall::Immediate(0);
    }
    UserCall::Trap(make_request(SYS_WRITE, addr, len, 0, 0, 0))
}

/// `time_us()`: `(SYS_TIME_US)`; the result is the kernel's `a0` as `u64`.
pub fn time_us() -> (r: SyscallRequest)
    ensures
        r == request(SYS_TIME_US, 0, 0, 0, 0, 0),
{
    make_request(SYS_TIME_US, 0, 0, 0, 0, 0)
}

/// `create_file(path)`: `(SYS_CREATE_FILE, path_addr, path_len)`.
pub fn create_file(path_addr: usize, path_len: usize) -> (r: SyscallRequest)
    ensures
        r == request(SYS_CREATE_FILE, path_addr, path_len, 0, 0, 0),
{
    make_request(SYS_CREATE_FILE, path_addr, path_len, 0, 0, 0)
}

/// `create_dir(path)`: `(SYS_CREATE_DIR, path_addr, path_len)`.
pub fn create_dir(path_addr: usize, path_len: usize) -> (r: SyscallRequest)
    ensures
        r == request(SYS_CREATE_DIR, path_addr, path_len, 0, 0, 0),
{
    make_request(SYS_CREATE_DIR, path_addr, path_len, 0, 0, 0)
}

/// `write_at(path, offset, bytes)`.
pub fn write_at(path_addr: usize, path_len: usize, offset: usize, bytes_addr: usize, bytes_len: usize) -> (r: SyscallRequest)
    ensures
        r == request(SYS_WRITE_AT, path_addr, path_len, offset, bytes_addr, bytes_len),
{
    make_request(SYS_WRITE_AT, path_addr, path_len, offset, bytes_addr, bytes_len)
}

/// `read_at(path, offset, buffer)`.
pub fn read_at(path_addr: usize, path_len: usize, offset: usize, buffer_addr: usize, buffer_len: usize) -> (r: SyscallRequest)
    ensures
        r == request(SYS_READ_AT, path_addr, path_len, offset, buffer_addr, buffer_len),
{
    make_request(SYS_READ_AT, path_addr, path_len, offset, buffer_addr, buffer_len)
}

/// `stat(path, out)`: `(SYS_STAT, path_addr, path_len, stat_addr)`.
pub fn stat(path_addr: usize, path_len: usize, stat_addr: usize) -> (r: SyscallRequest)
    ensures
        r == request(SYS_STAT, path_addr, path_len, stat_addr, 0, 0),
{
    make_request(SYS_STAT, path_addr, path_len, stat_addr, 0, 0)
}

/// `mmap(path, length)`.
pub fn mmap(path_addr: usize, path_len: usize, length: usize) -> (r: SyscallRequest)
    ensures
        r == request(SYS_MMAP, path_addr, path_len, length, 0, 0),
{
    make_request(SYS_MMAP, path_addr, path_len, length, 0, 0)
}

/// `msync(addr, length)`.
pub fn msync(addr: usize, length: usize) -> (r: SyscallRequest)
    ensures
        r == request(SYS_MSYNC, addr, length, 0, 0, 0),
{
    make_request(SYS_MSYNC, addr, length, 0, 0, 0)
}

/// `munmap(addr, length)`.
pub fn munmap(addr: usize, length: usize) -> (r: SyscallRequest)
    ensures
        r == request(SYS_MUNMAP, addr, length, 0, 0, 0),
{
    make_request(SYS_MUNMAP, addr, length, 0, 0, 0)
}

/// `mmap_diag(out)`: `(SYS_MMAP_DIAG, diag_addr)`.
pub fn mmap_diag(diag_addr: usize) -> (r: SyscallRequest)
    ensures
        r == request(SYS_MMAP_DIAG, diag_addr, 0, 0, 0, 0),
{
    make_request(SYS_MMAP_DIAG, diag_addr, 0, 0, 0, 0)
}

/// `remove(path)`: `(SYS_REMOVE, path_addr, path_len)`.
pub fn remove(path_addr: usize, path_len: usize) -> (r: SyscallRequest)
    ensures
        r == request(SYS_REMOVE, path_addr, path_len, 0, 0, 0),
{
    make_request(SYS_REMOVE, path_addr, path_len, 0, 0, 0)
}

/// `shutdown(code)`: `(SYS_SHUTDOWN, code)`; never returns.
pub fn shutdown(code: u32) -> (r: SyscallRequest)
    ensures
        r == request(SYS_SHUTDOWN, code as usize, 0, 0, 0, 0),
{
    make_request(SYS_SHUTDOWN, code as usize, 0, 0, 0, 0)
}

/// The name of a block-mapping level.
pub fn mapping_level_name(level: u8) -> (r: &'static str)
    ensures
        level == 0 ==> r@ == "direct"@,
        level == 1 ==> r@ == "single"@,
        level == 2 ==> r@ == "double"@,
        level == 3 ==> r@ == "triple"@,
        level > 3 ==> r@ == "unknown"@,
{
    match level {
        0 => "direct",
        1 => "single",
        2 => "double",
        3 => "triple",
        _ => "unknown",
    }
}

/// The message for an error code.
pub fn describe_error(code: isize) -> (r: &'static str)
    ensures
        code == EFAULT ==> r@ == "bad user pointer"@,
        code == EINVAL ==> r@ == "invalid argument"@,
        code == ENOENT ==> r@ == "no such file or directory"@,
        code == EEXIST ==> r@ == "already exists"@,
        code == ENOTDIR ==> r@ == "not a directory"@,
        code == EISDIR ==> r@ == "is a directory"@,
        code == ENOSPC ==> r@ == "no space left on device"@,
        code == ENAMETOOLONG ==> r@ == "path too long"@,
        code == ENOTEMPTY ==> r@ == "directory not empty"@,
        code == EFBIG ==> r@ == "file too large"@,
        code == ENOSYS ==> r@ == "unknown syscall"@,
        code == EBUSY ==> r@ == "resource busy"@,
        code != EFAULT && code != EINVAL && code != ENOENT && code != EEXIST && code != ENOTDIR && code != EISDIR
            && code != ENOSPC && code != ENAMETOOLONG && code != ENOTEMPTY && code != EFBIG && code != ENOSYS
            && code != EBUSY ==> r@ == "unexpected error"@,
{
    if code == EFAULT {
        "bad user pointer"
    } else if code == EINVAL {
        "invalid argument"
    } else if code == ENOENT {
        "no such file or directory"
    } else if code == EEXIST {
        "already exists"
    } else if code == ENOTDIR {
        "not a directory"
    } else if code == EISDIR {
        "is a directory"
    } else if code == ENOSPC {
        "no space left on device"
    } else if code == ENAMETOOLONG {
        "path too long"
    } else if code == ENOTEMPTY {
        "directory not empty"
    } else if code == EFBIG {
        "file too large"
    } else if code == ENOSYS {
        "unknown syscall"
    } else if code == EBUSY {
        "resource busy"
    } else {
        "unexpected error"
    }
}

} // verus!
