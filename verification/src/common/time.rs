//! Conversions between CLINT `mtime` ticks and wall-clock units.
use vstd::prelude::*;

verus! {

/// Frequency of the `mtime` counter on the QEMU virt board.
pub const MTIME_FREQ_HZ: u64 = 10_000_000;

/// Nanoseconds per `mtime` tick.
pub const MTIME_TICK_NS: u64 = 100;

/// `ticks * factor` clamped to `u64::MAX` (the meaning of `saturating_mul`).
pub open spec fn sat_mul(ticks: int, factor: int) -> int {
    if ticks * factor > u64::MAX {
        u64::MAX as int
    } else {
        ticks * factor
    }
}

/// `u64::saturating_mul`, with the product clamped to `u64::MAX`.
pub fn saturating_mul(x: u64, y: u64) -> (r: u64)
    ensures
        r == sat_mul(x as int, y as int),
{
    match x.checked_mul(y) {
        Some(v) => v,
        None => u64::MAX,
    }
}

/// Microseconds covered by `ticks`, computed with a saturating multiply as the
/// kernels do.
pub open spec fn sat_ticks_to_us(ticks: int) -> int {
    sat_mul(ticks, 1_000_000) / (MTIME_FREQ_HZ as int)
}

/// Microseconds covered by `ticks`, computed exactly (128-bit intermediate).
pub open spec fn exact_ticks_to_us(ticks: int) -> int {
    ticks * 1_000_000 / (MTIME_FREQ_HZ as int)
}

} // verus!
