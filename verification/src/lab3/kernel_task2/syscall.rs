//! User-side system call stubs.
use vstd::prelude::*;
use crate::common::abi::{SyscallRequest, request, make_request};
use super::{SYS_PROBE, SYS_FINISH};

verus! {

/// `probe()`: traps with `SYS_PROBE`.
pub fn probe() -> (r: SyscallRequest)
    ensures
        r == request(SYS_PROBE, 0, 0, 0, 0, 0),
{
    make_request(SYS_PROBE, 0, 0, 0, 0, 0)
}

/// `finish(result)`: traps with `(SYS_FINISH, result)` and never returns.
pub fn finish(result: u64) -> (r: SyscallRequest)
    ensures
        r == request(SYS_FINISH, result as usize, 0, 0, 0, 0),
{
    make_request(SYS_FINISH, result as usize, 0, 0, 0, 0)
}

} // verus!
