//! A spin lock with acquisition and contention counters, as the state a
//! hart sees at its atomic operations: taking the lock is the successful
//! compare-and-swap after some failed spins, dropping the guard releases it.
use vstd::prelude::*;

verus! {

/// The lock word, its counters and the protected value.
pub struct SpinLock<T> {
    pub locked: bool,
    pub acquisitions: u64,
    pub contention_spins: u64,
    pub value: T,
}

/// Proof of holding the lock, handed back to release it.
pub struct SpinLockGuard {
    pub spins: u64,
}

impl<T> SpinLock<T> {
    /// An unlocked lock around `value` with zero counters.
    pub fn new(value: T) -> (r: Self)
        ensures
            !r.locked && r.acquisitions == 0 && r.contention_spins == 0 && r.value == value,
    {
        SpinLock { locked: false, acquisitions: 0, contention_spins: 0, value }
    }

    /// The compare-and-swap from unlocked to locked: succeeds exactly when
    /// the lock is free.
    pub fn try_lock(&mut self) -> (r: bool)
        ensures
            r == !old(self).locked,
            final(self).locked,
            final(self).acquisitions == old(self).acquisitions,
            final(self).contention_spins == old(self).contention_spins,
            final(self).value == old(self).value,
    {
        if self.locked {
            false
        } else {
            self.locked = true;
            true
        }
    }

    /// Takes the free lock after `spins` failed attempts: counts the
    /// acquisition and, when there were any, the spins (both counters wrap).
    pub fn lock(&mut self, spins: u64) -> (r: SpinLockGuard)
        requires
            !old(self).locked,
        ensures
            final(self).locked,
            final(self).acquisitions == old(self).acquisitions.wrapping_add(1),
            spins != 0 ==> final(self).contention_spins == old(self).contention_spins.wrapping_add(spins),
            spins == 0 ==> final(self).contention_spins == old(self).contention_spins,
            final(self).value == old(self).value,
            r.spins == spins,
    {
        self.locked = true;
        self.acquisitions = self.acquisitions.wrapping_add(1);
        if spins != 0 {
            self.contention_spins = self.contention_spins.wrapping_add(spins);
        }
        SpinLockGuard { spins }
    }

    /// Dropping the guard: the lock is free again.
    pub fn unlock(&mut self, guard: SpinLockGuard)
        ensures
            !final(self).locked,
            final(self).acquisitions == old(self).acquisitions,
            final(self).contention_spins == old(self).contention_spins,
            final(self).value == old(self).value,
    {
        self.locked = false;
    }

    /// Completed acquisitions.
    pub fn acquisitions(&self) -> (r: u64)
        ensures
            r == self.acquisitions,
    {
        self.acquisitions
    }

    /// Failed spins summed over all acquisitions.
    pub fn contention_spins(&self) -> (r: u64)
        ensures
            r == self.contention_spins,
    {
        self.contention_spins
    }
}

} // verus!
