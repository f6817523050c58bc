//! Checks on the pointers and lengths user programs pass to the lab-6
//! file-system calls, before the kernel reads or writes through them.
use vstd::prelude::*;
use crate::common::user_mem::{range_ok, range_within};
use super::kernel_task1::{EFAULT, EINVAL, ENAMETOOLONG, FS_PATH_MAX};

verus! {

/// Why a user buffer `[addr, addr + len)` cannot be used, if it cannot: a
/// non-empty buffer must not start at 0 and must lie in user memory
/// `[lo, hi)`.
pub open spec fn bytes_error(addr: int, len: int, lo: int, hi: int) -> Option<isize> {
    if len == 0 {
        None
    } else if addr == 0 || !range_within(addr, len, lo, hi) {
        Some(EFAULT)
    } else {
        None
    }
}

/// Checks a user buffer; an empty one is always fine.
pub fn validated_user_bytes(addr: usize, len: usize, lo: usize, hi: usize) -> (r: Result<(), isize>)
    ensures
        r == (match bytes_error(addr as int, len as int, lo as int, hi as int) {
            Some(e) => Err::<(), isize>(e),
            None => Ok(()),
        }),
{
    if len == 0 {
        return Ok(());
    }
    if addr == 0 || !range_ok(addr, len, lo, hi) {
        return Err(EFAULT);
    }
    Ok(())
}

/// Why a user path `[addr, addr + len)` cannot be used: empty (`EINVAL`),
/// too long (`ENAMETOOLONG`), or not readable user memory (`EFAULT`).
pub open spec fn path_arg_error(addr: int, len: int, lo: int, hi: int) -> Option<isize> {
    if len == 0 {
        Some(EINVAL)
    } else if len >= FS_PATH_MAX {
        Some(ENAMETOOLONG)
    } else {
        bytes_error(addr, len, lo, hi)
    }
}

/// Checks a user path argument.
pub fn validated_user_path(addr: usize, len: usize, lo: usize, hi: usize) -> (r: Result<(), isize>)
    ensures
        r == (match path_arg_error(addr as int, len as int, lo as int, hi as int) {
            Some(e) => Err::<(), isize>(e),
            None => Ok(()),
        }),
{
    if len == 0 {
        return Err(EINVAL);
    }
    if len >= FS_PATH_MAX {
        return Err(ENAMETOOLONG);
    }
    validated_user_bytes(addr, len, lo, hi)
}

/// Why a user record of `size` bytes aligned to `align` at `addr` cannot
/// be written: a null pointer or memory outside `[lo, hi)` (`EFAULT`), or a
/// misaligned one (`EINVAL`).
pub open spec fn record_error(addr: int, size: int, align: int, lo: int, hi: int) -> Option<isize> {
    if addr == 0 {
        Some(EFAULT)
    } else if addr % align != 0 {
        Some(EINVAL)
    } else if !range_within(addr, size, lo, hi) {
        Some(EFAULT)
    } else {
        None
    }
}

/// Checks the address of a user record the kernel fills in.
pub fn validated_user_record(addr: usize, size: usize, align: usize, lo: usize, hi: usize) -> (r: Result<(), isize>)
    requires
        align > 0,
    ensures
        r == (match record_error(addr as int, size as int, align as int, lo as int, hi as int) {
            Some(e) => Err::<(), isize>(e),
            None => Ok(()),
        }),
{
    if addr == 0 {
        return Err(EFAULT);
    }
    if addr % align != 0 {
        return Err(EINVAL);
    }
    if !range_ok(addr, size, lo, hi) {
        return Err(EFAULT);
    }
    Ok(())
}

} // verus!
