//! Validation of user-supplied address ranges.
use vstd::prelude::*;

verus! {

/// The range `[addr, addr + len)` is empty, or does not wrap around the
/// address space and lies within `[lo, hi)`.
pub open spec fn range_within(addr: int, len: int, lo: int, hi: int) -> bool {
    len == 0 || (addr + len <= usize::MAX && lo <= addr && addr + len <= hi)
}

/// Checks that `[addr, addr + len)` is empty or lies inside `[lo, hi)` without
/// wrapping around.
pub fn range_ok(addr: usize, len: usize, lo: usize, hi: usize) -> (r: bool)
    ensures
        r == range_within(addr as int, len as int, lo as int, hi as int),
{
    if len == 0 {
        return true;
    }
    let end = match addr.checked_add(len) {
        Some(end) => end,
        None => return false,
    };
    addr >= lo && end <= hi
}

} // verus!
