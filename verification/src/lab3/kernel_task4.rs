//! Interrupts inside the kernel: the machine timer is forwarded to
//! supervisor mode as a software interrupt, which the kernel takes in safe
//! intervals (`sstatus.SIE` set) and holds off inside critical sections
//! guarded by an interrupt-disabling mutex.
use vstd::prelude::*;

verus! {

pub const TIMER_INTERVAL_TICKS: u64 = 16_000;
pub const CRITICAL_HOLD_TICKS: u64 = 24_000;
pub const TARGET_KERNEL_INTERRUPTS: u64 = 6;
pub const SAFE_LOG_LIMIT: u64 = 4;
pub const IRQ_LOG_LIMIT: u64 = 6;
/// `mcause` of a machine timer interrupt (interrupt bit and cause 7).
pub const MACHINE_TIMER_INTERRUPT: u64 = 0x8000_0000_0000_0007;
/// `scause` of a supervisor software interrupt (interrupt bit and cause 1).
pub const SUPERVISOR_SOFTWARE_INTERRUPT: u64 = 0x8000_0000_0000_0001;

/// The counters the handler and the critical sections share.
#[derive(Clone, Copy, PartialEq, Eq, Structural)]
pub struct SharedState {
    pub critical_sections: u64,
    pub pending_observed_during_critical: u64,
    pub handler_path_observed: u64,
    pub critical_updates: u64,
}

impl SharedState {
    pub fn empty() -> (r: Self)
        ensures
            r == (SharedState { critical_sections: 0, pending_observed_during_critical: 0, handler_path_observed: 0,
                critical_updates: 0 }),
    {
        SharedState { critical_sections: 0, pending_observed_during_critical: 0, handler_path_observed: 0, critical_updates: 0 }
    }
}

/// Proof of holding an [`InterruptMutex`]: the interrupt-enable bit to
/// restore on release.
pub struct InterruptGuard {
    pub previous_sie: bool,
}

/// A mutex that turns supervisor interrupts off while held.
pub struct InterruptMutex<T> {
    pub locked: bool,
    pub value: T,
}

impl<T> InterruptMutex<T> {
    pub fn new(value: T) -> (r: Self)
        ensures
            !r.locked && r.value == value,
    {
        InterruptMutex { locked: false, value }
    }

    /// Takes the mutex: interrupts go off (the previous state is kept in the
    /// guard). Taking it again while held is a re-entry: `None`, and the
    /// interrupts stay off.
    pub fn lock(&mut self, sie: &mut bool) -> (r: Option<InterruptGuard>)
        ensures
            !*final(sie),
            final(self).value == old(self).value,
            final(self).locked,
            old(self).locked <==> r is None,
            r matches Some(g) ==> g.previous_sie == *old(sie),
    {
        let previous_sie = *sie;
        *sie = false;
        if self.locked {
            return None;
        }
        self.locked = true;
        Some(InterruptGuard { previous_sie })
    }

    /// Releases the mutex and turns interrupts back on if they were on.
    pub fn unlock(&mut self, guard: InterruptGuard, sie: &mut bool)
        ensures
            !final(self).locked,
            final(self).value == old(self).value,
            *final(sie) == (*old(sie) || guard.previous_sie),
    {
        self.locked = false;
        if guard.previous_sie {
            *sie = true;
        }
    }
}

/// A trap the kernel does not expect: it stops.
#[derive(Clone, Copy, PartialEq, Eq, Structural)]
pub enum InterruptFault {
    UnexpectedMachineTrap(u64),
    UnexpectedSupervisorTrap(u64),
    MutexReentry,
}

/// The experiment's state, with the supervisor interrupt-enable bit and the
/// forwarded-interrupt pending bit.
pub struct InterruptKernel {
    pub shared: InterruptMutex<SharedState>,
    pub sie: bool,
    pub ssip: bool,
    pub machine_timer_forwards: u64,
    pub supervisor_timer_count: u64,
    pub lock_acquisitions: u64,
    pub safe_interval_sie_opened: bool,
    pub critical_section_sie_closed: bool,
    pub kernel_survived_timer_interrupts: bool,
    pub last_mcause: u64,
    pub last_scause: u64,
    pub last_sepc: u64,
}

/// The verdict and the figures of the summary.
#[derive(Clone, Copy)]
pub struct InterruptVerdict {
    pub state: SharedState,
    pub safe_interval_ok: bool,
    pub survived_ok: bool,
    pub critical_ok: bool,
}

impl InterruptKernel {
    pub fn new() -> (r: Self)
        ensures
            !r.shared.locked && !r.sie && !r.ssip,
            r.machine_timer_forwards == 0 && r.supervisor_timer_count == 0 && r.lock_acquisitions == 0,
    {
        InterruptKernel {
            shared: InterruptMutex::new(SharedState::empty()),
            sie: false,
            ssip: false,
            machine_timer_forwards: 0,
            supervisor_timer_count: 0,
            lock_acquisitions: 0,
            safe_interval_sie_opened: false,
            critical_section_sie_closed: false,
            kernel_survived_timer_interrupts: false,
            last_mcause: 0,
            last_scause: 0,
            last_sepc: 0,
        }
    }

    /// Takes the shared-state mutex and counts the acquisition.
    fn lock_shared(&mut self) -> (r: Result<InterruptGuard, InterruptFault>)
        ensures
            !final(self).sie,
            final(self).shared.locked,
            final(self).shared.value == old(self).shared.value,
            old(self).shared.locked <==> r is Err,
            r is Err ==> r == Err::<InterruptGuard, InterruptFault>(InterruptFault::MutexReentry),
            r matches Ok(g) ==> g.previous_sie == old(self).sie
                && final(self).lock_acquisitions == old(self).lock_acquisitions.wrapping_add(1),
            final(self).ssip == old(self).ssip,
            final(self).supervisor_timer_count == old(self).supervisor_timer_count,
            final(self).machine_timer_forwards == old(self).machine_timer_forwards,
            r is Err ==> final(self).lock_acquisitions == old(self).lock_acquisitions,
            final(self).last_mcause == old(self).last_mcause,
            final(self).last_scause == old(self).last_scause,
            final(self).last_sepc == old(self).last_sepc,
            final(self).safe_interval_sie_opened == old(self).safe_interval_sie_opened,
            final(self).critical_section_sie_closed == old(self).critical_section_sie_closed,
            final(self).kernel_survived_timer_interrupts == old(self).kernel_survived_timer_interrupts,
    {
        match self.shared.lock(&mut self.sie) {
            Some(g) => {
                self.lock_acquisitions = self.lock_acquisitions.wrapping_add(1);
                Ok(g)
            },
            None => Err(InterruptFault::MutexReentry),
        }
    }

    /// The machine timer fired: it is forwarded as a pending supervisor
    /// software interrupt.
    pub fn handle_machine_trap(&mut self, mcause: u64) -> (r: Result<(), InterruptFault>)
        ensures
            final(self).last_mcause == mcause,
            mcause != MACHINE_TIMER_INTERRUPT ==> r == Err::<(), InterruptFault>(InterruptFault::UnexpectedMachineTrap(mcause)),
            mcause == MACHINE_TIMER_INTERRUPT ==> r is Ok && final(self).ssip
                && final(self).machine_timer_forwards == old(self).machine_timer_forwards.wrapping_add(1),
            final(self).sie == old(self).sie,
            final(self).shared == old(self).shared,
            final(self).supervisor_timer_count == old(self).supervisor_timer_count,
    {
        self.last_mcause = mcause;
        if mcause != MACHINE_TIMER_INTERRUPT {
            return Err(InterruptFault::UnexpectedMachineTrap(mcause));
        }
        self.ssip = true;
        self.machine_timer_forwards = self.machine_timer_forwards.wrapping_add(1);
        Ok(())
    }

    /// The forwarded interrupt reached the kernel: acknowledged, counted,
    /// and recorded under the mutex. Returns its number and whether it is
    /// logged.
    pub fn handle_supervisor_trap(&mut self, scause: u64, sepc: u64) -> (r: Result<(u64, bool), InterruptFault>)
        ensures
            final(self).last_scause == scause && final(self).last_sepc == sepc,
            scause != SUPERVISOR_SOFTWARE_INTERRUPT ==> r == Err::<(u64, bool), InterruptFault>(
                InterruptFault::UnexpectedSupervisorTrap(scause)),
            scause == SUPERVISOR_SOFTWARE_INTERRUPT && !old(self).shared.locked ==> ({
                let n = old(self).supervisor_timer_count.wrapping_add(1);
                &&& r == Ok::<(u64, bool), InterruptFault>((n, n <= IRQ_LOG_LIMIT))
                &&& !final(self).ssip
                &&& final(self).supervisor_timer_count == n
                &&& final(self).kernel_survived_timer_interrupts
                &&& final(self).shared.value == (SharedState { handler_path_observed:
                    old(self).shared.value.handler_path_observed.wrapping_add(1), ..old(self).shared.value })
                &&& !final(self).shared.locked
                &&& final(self).sie == old(self).sie
                &&& final(self).lock_acquisitions == old(self).lock_acquisitions.wrapping_add(1)
            }),
            scause == SUPERVISOR_SOFTWARE_INTERRUPT && old(self).shared.locked ==>
                r == Err::<(u64, bool), InterruptFault>(InterruptFault::MutexReentry),
    {
        self.last_scause = scause;
        self.last_sepc = sepc;
        if scause != SUPERVISOR_SOFTWARE_INTERRUPT {
            return Err(InterruptFault::UnexpectedSupervisorTrap(scause));
        }
        self.ssip = false;
        let irq_index = self.supervisor_timer_count.wrapping_add(1);
        self.supervisor_timer_count = irq_index;
        self.kernel_survived_timer_interrupts = true;
        let guard = match self.lock_shared() {
            Ok(g) => g,
            Err(e) => return Err(e),
        };
        self.shared.value.handler_path_observed = self.shared.value.handler_path_observed.wrapping_add(1);
        self.shared.unlock(guard, &mut self.sie);
        Ok((irq_index, irq_index <= IRQ_LOG_LIMIT))
    }

    /// A safe interval opens: interrupts on, and whether they really are is
    /// recorded. Returns the interrupt count to wait past.
    pub fn open_safe_interval(&mut self) -> (r: u64)
        ensures
            final(self).sie,
            final(self).safe_interval_sie_opened,
            r == old(self).supervisor_timer_count,
            final(self).supervisor_timer_count == old(self).supervisor_timer_count,
            final(self).shared == old(self).shared,
            final(self).ssip == old(self).ssip,
    {
        self.sie = true;
        self.safe_interval_sie_opened = self.sie;
        self.supervisor_timer_count
    }

    /// The safe interval closes once an interrupt was taken.
    pub fn close_safe_interval(&mut self)
        ensures
            !final(self).sie,
            final(self).shared == old(self).shared,
            final(self).supervisor_timer_count == old(self).supervisor_timer_count,
            final(self).ssip == old(self).ssip,
    {
        self.sie = false;
    }

    /// A critical section begins: the mutex is taken (interrupts off), the
    /// section is counted, and that interrupts are off is recorded. Returns
    /// the guard and the section's number.
    pub fn enter_critical_section(&mut self) -> (r: Result<(InterruptGuard, u64), InterruptFault>)
        ensures
            !final(self).sie,
            final(self).shared.locked,
            old(self).shared.locked ==> r == Err::<(InterruptGuard, u64), InterruptFault>(InterruptFault::MutexReentry),
            !old(self).shared.locked ==> (r matches Ok((g, n)) && g.previous_sie == old(self).sie
                && n == old(self).shared.value.critical_sections.wrapping_add(1)
                && final(self).shared.value == (SharedState { critical_sections: n, ..old(self).shared.value })
                && final(self).critical_section_sie_closed),
            final(self).ssip == old(self).ssip,
            final(self).supervisor_timer_count == old(self).supervisor_timer_count,
    {
        let guard = match self.lock_shared() {
            Ok(g) => g,
            Err(e) => return Err(e),
        };
        let index = self.shared.value.critical_sections.wrapping_add(1);
        self.shared.value.critical_sections = index;
        self.critical_section_sie_closed = !self.sie;
        Ok((guard, index))
    }

    /// One update inside the critical section.
    pub fn critical_update(&mut self)
        ensures
            final(self).shared.value == (SharedState { critical_updates:
                old(self).shared.value.critical_updates.wrapping_add(1), ..old(self).shared.value }),
            final(self).shared.locked == old(self).shared.locked,
            final(self).sie == old(self).sie,
            final(self).ssip == old(self).ssip,
    {
        self.shared.value.critical_updates = self.shared.value.critical_updates.wrapping_add(1);
    }

    /// The critical section ends: a forwarded interrupt that became pending
    /// meanwhile is counted, the mutex released, and interrupts stay off.
    /// Returns whether one was pending.
    pub fn exit_critical_section(&mut self, guard: InterruptGuard) -> (r: bool)
        ensures
            r == old(self).ssip,
            final(self).shared.value == (SharedState { pending_observed_during_critical: if r {
                old(self).shared.value.pending_observed_during_critical.wrapping_add(1) } else {
                old(self).shared.value.pending_observed_during_critical }, ..old(self).shared.value }),
            !final(self).shared.locked,
            !final(self).sie,
            final(self).ssip == old(self).ssip,
    {
        let pending = self.ssip;
        if pending {
            self.shared.value.pending_observed_during_critical = self.shared.value.pending_observed_during_critical.wrapping_add(1);
        }
        self.shared.unlock(guard, &mut self.sie);
        self.sie = false;
        pending
    }

    /// Whether the run passed: interrupts were really on in the safe intervals, timer
    /// interrupts were taken in the kernel, and the critical sections ran
    /// with interrupts off, saw a pending interrupt, and took the mutex.
    pub fn finish_experiment(&mut self) -> (r: Result<InterruptVerdict, InterruptFault>)
        ensures
            !final(self).sie,
            old(self).shared.locked ==> r == Err::<InterruptVerdict, InterruptFault>(InterruptFault::MutexReentry),
            !old(self).shared.locked ==> (r matches Ok(v) && {
                let acq = old(self).lock_acquisitions.wrapping_add(1);
                let s = old(self).shared.value;
                &&& v.state == s
                &&& v.safe_interval_ok == old(self).safe_interval_sie_opened
                &&& v.survived_ok == (old(self).kernel_survived_timer_interrupts && old(self).machine_timer_forwards > 0
                    && old(self).supervisor_timer_count > 0)
                &&& v.critical_ok == (old(self).critical_section_sie_closed && s.pending_observed_during_critical > 0
                    && acq >= s.critical_sections + s.handler_path_observed)
            }),
    {
        self.sie = false;
        let guard = match self.lock_shared() {
            Ok(g) => g,
            Err(e) => return Err(e),
        };
        let state = self.shared.value;
        self.shared.unlock(guard, &mut self.sie);
        let survived_ok = self.kernel_survived_timer_interrupts && self.machine_timer_forwards > 0
            && self.supervisor_timer_count > 0;
        let critical_ok = self.critical_section_sie_closed && state.pending_observed_during_critical > 0
            && (self.lock_acquisitions as u128) >= (state.critical_sections as u128) + (state.handler_path_observed as u128);
        Ok(InterruptVerdict { state, safe_interval_ok: self.safe_interval_sie_opened, survived_ok, critical_ok })
    }
}

/// `1` or `0`.
pub fn bool_word(value: bool) -> (r: &'static str)
    ensures
        value ==> r@ == "1"@,
        !value ==> r@ == "0"@,
{
    if value { "1" } else { "0" }
}

} // verus!
