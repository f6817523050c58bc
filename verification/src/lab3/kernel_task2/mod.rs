//! Per-process user and system time, charged at trap entry and trap exit:
//! `utime` covers user mode up to the trap, `stime` the kernel from the trap
//! to the return (or to the task's completion).
use vstd::prelude::*;
use crate::common::abi::TrapFrame;
use crate::common::time::{saturating_mul, sat_mul};
use crate::lab3::task3::{bp, lemma_share_bounds, lemma_share_monotone, ratio_bp, sat_add, saturating_add, probe_mixed};
use crate::lab5::kernel_task4::rotate_left;

pub mod syscall;

verus! {

pub const TASK_COUNT: usize = 2;
pub const NO_TASK: usize = usize::MAX;
pub const USER_ENV_CALL: u64 = 8;
pub const COMPUTE_ITERATIONS: u64 = 4_000_000;
pub const SYSCALL_ITERATIONS: u64 = 60_000;
pub const KERNEL_PROBE_SPIN: u64 = 48;
pub const ENABLE_ACCOUNTING_TRACE: bool = true;
pub const ACCOUNTING_TRACE_LIMIT: usize = 8;
pub const SYS_PROBE: usize = 0;
pub const SYS_FINISH: usize = 1;
pub const ENOSYS: isize = -38;

#[derive(Clone, Copy, PartialEq, Eq, Structural)]
pub enum TaskMode {
    Dormant,
    User,
    Kernel,
    Finished,
}

/// The id and name of task `i`.
pub fn task_def(i: usize) -> (r: (u64, &'static str))
    requires
        i < TASK_COUNT,
    ensures
        r.0 == i + 1,
        i == 0 ==> r.1@ == "compute_user_heavy"@,
        i == 1 ==> r.1@ == "syscall_kernel_heavy"@,
{
    if i == 0 { (1, "compute_user_heavy") } else { (2, "syscall_kernel_heavy") }
}

#[derive(Clone, Copy)]
pub struct ProcessControlBlock {
    pub frame: TrapFrame,
    pub utime: u64,
    pub stime: u64,
    pub syscalls: u64,
    pub trap_entries: u64,
    pub result: u64,
    pub start_tick: u64,
    pub finish_tick: u64,
    pub last_timestamp: u64,
    pub kernel_probe_acc: u64,
    pub started: bool,
    pub finished: bool,
    pub mode: TaskMode,
}

impl ProcessControlBlock {
    /// A dormant process that never ran, with registers `frame`.
    pub open spec fn fresh(frame: TrapFrame) -> ProcessControlBlock {
        ProcessControlBlock { frame, utime: 0, stime: 0, syscalls: 0, trap_entries: 0, result: 0, start_tick: 0,
            finish_tick: 0, last_timestamp: 0, kernel_probe_acc: 0, started: false, finished: false, mode: TaskMode::Dormant }
    }
}

/// A broken accounting sequence: the kernel reports it and stops.
#[derive(Clone, Copy, PartialEq, Eq, Structural)]
pub enum AccountingFault {
    NoCurrentTask,
    NoKernelAccountTask,
    NotInUserMode,
    NotInKernelMode,
    ResumeFinished,
}

/// The difference `now - since`, 0 when the clock went backwards.
pub open spec fn elapsed(now: u64, since: u64) -> u64 {
    if now >= since { (now - since) as u64 } else { 0 }
}

/// `pcb` after its kernel time up to `now` is charged: it leaves the kernel
/// as finished (at `now`) or dormant.
pub open spec fn charged(pcb: ProcessControlBlock, now: u64) -> ProcessControlBlock {
    ProcessControlBlock {
        stime: sat_add(pcb.stime, elapsed(now, pcb.last_timestamp)),
        last_timestamp: now,
        finish_tick: if pcb.finished { now } else { pcb.finish_tick },
        mode: if pcb.finished { TaskMode::Finished } else { TaskMode::Dormant },
        ..pcb
    }
}

/// `pcb` resumed in user mode at `now` (its start recorded the first time).
pub open spec fn activated(pcb: ProcessControlBlock, now: u64) -> ProcessControlBlock {
    ProcessControlBlock {
        start_tick: if pcb.started { pcb.start_tick } else { now },
        started: true,
        last_timestamp: now,
        mode: TaskMode::User,
        ..pcb
    }
}

/// What a trap's system call led to.
#[derive(Clone, Copy, PartialEq, Eq, Structural)]
pub enum ProcessOutcome {
    /// The task continues after the call.
    Resume,
    /// The task finished and `next` was made current.
    Next(usize),
    /// The last task finished and was charged: the report follows.
    AllFinished,
    /// An unknown system call: `a0` holds `ENOSYS`.
    UnsupportedSyscall(usize),
    /// A trap other than a system call: the kernel stops.
    UnexpectedTrap,
}

/// The kernel's accounting state.
pub struct ProcessKernel {
    pub pcbs: [ProcessControlBlock; TASK_COUNT],
    pub current_task: usize,
    pub kernel_account_task: usize,
    pub accounting_trace_emitted: usize,
    pub trap_entry_account_events: u64,
    pub trap_exit_account_events: u64,
    pub task_complete_account_events: u64,
}

/// The report and its four checks.
#[derive(Clone, Copy)]
pub struct ProcessReport {
    pub total_syscalls: u64,
    pub pcb_has_utime_stime: bool,
    pub trap_updates_balanced: bool,
    pub compute_user_dominant: bool,
    pub syscall_kernel_ratio_rises: bool,
}

impl ProcessReport {
    pub open spec fn passed(self) -> bool {
        self.pcb_has_utime_stime && self.trap_updates_balanced && self.compute_user_dominant
            && self.syscall_kernel_ratio_rises
    }
}

/// The kernel's share of a process's time, in basis points.
pub open spec fn kernel_share(p: ProcessControlBlock) -> u64 {
    bp(p.stime, sat_add(p.utime, p.stime))
}

/// The kernel share of a process is its system time over all its accounted
/// time, in basis points: `stime * 10000 / (utime + stime)`, so at most
/// 10000, at least 5000 when system time is the larger part, at most 5000
/// when user time is, 0 without system time and 10000 without user time
/// (for figures whose sum and scaled system time fit 64 bits).
pub proof fn law_kernel_share_is_system_fraction(p: ProcessControlBlock)
    requires
        p.utime + p.stime > 0,
        p.utime + p.stime <= u64::MAX,
        p.stime * 10_000 <= u64::MAX,
    ensures
        kernel_share(p) == (p.stime * 10_000) / (p.utime + p.stime),
        kernel_share(p) <= 10_000,
        p.stime >= p.utime ==> kernel_share(p) >= 5_000,
        p.stime <= p.utime ==> kernel_share(p) <= 5_000,
        p.stime == 0 ==> kernel_share(p) == 0,
        p.utime == 0 ==> kernel_share(p) == 10_000,
{
    lemma_share_bounds(p.stime as int, p.utime as int);
    assert(p.stime + p.utime == p.utime + p.stime);
}

/// More system time, with the same user time, never lowers the kernel share.
pub proof fn law_kernel_share_grows_with_system_time(p: ProcessControlBlock, q: ProcessControlBlock)
    requires
        p.utime == q.utime,
        p.stime <= q.stime,
        p.utime + p.stime > 0,
        q.utime + q.stime <= u64::MAX,
        q.stime * 10_000 <= u64::MAX,
    ensures
        kernel_share(p) <= kernel_share(q),
{
    lemma_share_monotone(p.stime as int, q.stime as int, p.utime as int);
    assert(p.stime * 10_000 <= q.stime * 10_000);
}

pub fn kernel_ratio_bp(pcb: ProcessControlBlock) -> (r: u64)
    ensures
        r == kernel_share(pcb),
{
    ratio_bp(pcb.stime, saturating_add(pcb.utime, pcb.stime))
}

/// `|lhs - rhs|`.
pub fn abs_diff(lhs: u64, rhs: u64) -> (r: u64)
    ensures
        r as int == (if lhs >= rhs { lhs - rhs } else { rhs - lhs }),
{
    if lhs >= rhs { lhs - rhs } else { rhs - lhs }
}

/// The figures of a process's report line: accounted ticks, elapsed ticks,
/// the gap between them, and the user and kernel shares in basis points.
pub fn task_stats_figures(pcb: ProcessControlBlock) -> (r: (u64, u64, u64, u64, u64))
    ensures
        r.0 == sat_add(pcb.utime, pcb.stime),
        r.1 == elapsed(pcb.finish_tick, pcb.start_tick),
        r.2 as int == (if r.0 >= r.1 { r.0 - r.1 } else { r.1 - r.0 }),
        r.3 == bp(pcb.utime, r.0),
        r.4 == bp(pcb.stime, r.0),
{
    let accounted = saturating_add(pcb.utime, pcb.stime);
    let elapsed = if pcb.finish_tick >= pcb.start_tick { pcb.finish_tick - pcb.start_tick } else { 0 };
    (accounted, elapsed, abs_diff(accounted, elapsed), ratio_bp(pcb.utime, accounted), ratio_bp(pcb.stime, accounted))
}

impl ProcessKernel {
    pub open spec fn wf(&self) -> bool {
        &&& self.current_task == NO_TASK || self.current_task < TASK_COUNT
        &&& self.kernel_account_task == NO_TASK || self.kernel_account_task < TASK_COUNT
    }

    /// Fresh process blocks with the tasks' initial registers, nobody
    /// current and every counter zero.
    pub fn initialize_pcbs(frames: [TrapFrame; TASK_COUNT]) -> (r: Self)
        ensures
            r.wf(),
            forall|i: int| 0 <= i < TASK_COUNT ==> #[trigger] r.pcbs[i] == ProcessControlBlock::fresh(frames[i]),
            r.current_task == NO_TASK && r.kernel_account_task == NO_TASK,
            r.accounting_trace_emitted == 0 && r.trap_entry_account_events == 0,
            r.trap_exit_account_events == 0 && r.task_complete_account_events == 0,
    {
        let p0 = ProcessControlBlock { frame: frames[0], utime: 0, stime: 0, syscalls: 0, trap_entries: 0, result: 0,
            start_tick: 0, finish_tick: 0, last_timestamp: 0, kernel_probe_acc: 0, started: false, finished: false,
            mode: TaskMode::Dormant };
        let p1 = ProcessControlBlock { frame: frames[1], ..p0 };
        ProcessKernel {
            pcbs: [p0, p1],
            current_task: NO_TASK,
            kernel_account_task: NO_TASK,
            accounting_trace_emitted: 0,
            trap_entry_account_events: 0,
            trap_exit_account_events: 0,
            task_complete_account_events: 0,
        }
    }

    /// Task `i` enters user mode at `now` and becomes current; a finished
    /// task cannot be resumed.
    pub fn activate_task_for_user(&mut self, i: usize, now: u64) -> (r: Result<(), AccountingFault>)
        requires
            old(self).wf(),
            i < TASK_COUNT,
        ensures
            final(self).wf(),
            old(self).pcbs[i as int].finished ==> r == Err::<(), AccountingFault>(AccountingFault::ResumeFinished)
                && *final(self) == *old(self),
            !old(self).pcbs[i as int].finished ==> r is Ok
                && final(self).pcbs@ == old(self).pcbs@.update(i as int, activated(old(self).pcbs[i as int], now))
                && final(self).current_task == i
                && final(self).kernel_account_task == old(self).kernel_account_task
                && final(self).accounting_trace_emitted == old(self).accounting_trace_emitted
                && final(self).trap_entry_account_events == old(self).trap_entry_account_events
                && final(self).trap_exit_account_events == old(self).trap_exit_account_events
                && final(self).task_complete_account_events == old(self).task_complete_account_events,
    {
        let mut pcb = self.pcbs[i];
        if pcb.finished {
            return Err(AccountingFault::ResumeFinished);
        }
        if !pcb.started {
            pcb.start_tick = now;
            pcb.started = true;
        }
        pcb.last_timestamp = now;
        pcb.mode = TaskMode::User;
        self.pcbs[i] = pcb;
        self.current_task = i;
        Ok(())
    }

    /// One trace line if under the limit; the first refused one announces
    /// the limit. Returns whether to print the line and whether to print the
    /// announcement.
    pub fn acquire_trace_slot(&mut self) -> (r: (bool, bool))
        ensures
            r.0 == (ENABLE_ACCOUNTING_TRACE && old(self).accounting_trace_emitted < ACCOUNTING_TRACE_LIMIT),
            r.1 == (ENABLE_ACCOUNTING_TRACE && old(self).accounting_trace_emitted == ACCOUNTING_TRACE_LIMIT),
            final(self).accounting_trace_emitted == (if r.0 || r.1 { (old(self).accounting_trace_emitted + 1) as usize }
                else { old(self).accounting_trace_emitted }),
            final(self).pcbs == old(self).pcbs,
            final(self).current_task == old(self).current_task,
            final(self).kernel_account_task == old(self).kernel_account_task,
            final(self).trap_entry_account_events == old(self).trap_entry_account_events,
            final(self).trap_exit_account_events == old(self).trap_exit_account_events,
            final(self).task_complete_account_events == old(self).task_complete_account_events,
    {
        if !ENABLE_ACCOUNTING_TRACE {
            return (false, false);
        }
        if self.accounting_trace_emitted < ACCOUNTING_TRACE_LIMIT {
            self.accounting_trace_emitted = self.accounting_trace_emitted + 1;
            (true, false)
        } else if self.accounting_trace_emitted == ACCOUNTING_TRACE_LIMIT {
            self.accounting_trace_emitted = self.accounting_trace_emitted + 1;
            (false, true)
        } else {
            (false, false)
        }
    }

    /// A trap at `now`: the current task's user time up to now is charged,
    /// it is in the kernel from now on and owns the kernel time. Returns the
    /// time added.
    pub fn account_trap_enter(&mut self, now: u64) -> (r: Result<u64, AccountingFault>)
        requires
            old(self).wf(),
        ensures
            final(self).wf(),
            old(self).current_task == NO_TASK ==> r == Err::<u64, AccountingFault>(AccountingFault::NoCurrentTask),
            old(self).current_task != NO_TASK && old(self).pcbs[old(self).current_task as int].mode != TaskMode::User ==>
                r == Err::<u64, AccountingFault>(AccountingFault::NotInUserMode),
            old(self).current_task != NO_TASK && old(self).pcbs[old(self).current_task as int].mode == TaskMode::User ==> {
                let c = old(self).current_task as int;
                let p = old(self).pcbs[c];
                let delta = elapsed(now, p.last_timestamp);
                &&& r == Ok::<u64, AccountingFault>(delta)
                &&& final(self).pcbs@ == old(self).pcbs@.update(c, ProcessControlBlock { utime: sat_add(p.utime, delta),
                    last_timestamp: now, mode: TaskMode::Kernel, trap_entries: sat_add(p.trap_entries, 1), ..p })
                &&& final(self).kernel_account_task == c
                &&& final(self).current_task == old(self).current_task
                &&& final(self).trap_entry_account_events == sat_add(old(self).trap_entry_account_events, 1)
                &&& final(self).trap_exit_account_events == old(self).trap_exit_account_events
                &&& final(self).task_complete_account_events == old(self).task_complete_account_events
            },
    {
        if self.current_task == NO_TASK {
            return Err(AccountingFault::NoCurrentTask);
        }
        let current = self.current_task;
        let mut pcb = self.pcbs[current];
        if pcb.mode != TaskMode::User {
            return Err(AccountingFault::NotInUserMode);
        }
        let delta = if now >= pcb.last_timestamp { now - pcb.last_timestamp } else { 0 };
        pcb.utime = saturating_add(pcb.utime, delta);
        pcb.last_timestamp = now;
        pcb.mode = TaskMode::Kernel;
        pcb.trap_entries = saturating_add(pcb.trap_entries, 1);
        self.pcbs[current] = pcb;
        self.kernel_account_task = current;
        self.trap_entry_account_events = saturating_add(self.trap_entry_account_events, 1);
        Ok(delta)
    }

    /// Charges process `i`'s kernel time up to `now`; it must be in the
    /// kernel. Returns the time added.
    pub fn charge_kernel_slice(&mut self, i: usize, now: u64) -> (r: Result<u64, AccountingFault>)
        requires
            old(self).wf(),
            i < TASK_COUNT,
        ensures
            final(self).wf(),
            old(self).pcbs[i as int].mode != TaskMode::Kernel ==> r == Err::<u64, AccountingFault>(AccountingFault::NotInKernelMode)
                && *final(self) == *old(self),
            old(self).pcbs[i as int].mode == TaskMode::Kernel ==>
                r == Ok::<u64, AccountingFault>(elapsed(now, old(self).pcbs[i as int].last_timestamp))
                && final(self).pcbs@ == old(self).pcbs@.update(i as int, charged(old(self).pcbs[i as int], now))
                && final(self).current_task == old(self).current_task
                && final(self).kernel_account_task == old(self).kernel_account_task
                && final(self).trap_entry_account_events == old(self).trap_entry_account_events
                && final(self).trap_exit_account_events == old(self).trap_exit_account_events
                && final(self).task_complete_account_events == old(self).task_complete_account_events,
    {
        let mut pcb = self.pcbs[i];
        if pcb.mode != TaskMode::Kernel {
            return Err(AccountingFault::NotInKernelMode);
        }
        let delta = if now >= pcb.last_timestamp { now - pcb.last_timestamp } else { 0 };
        pcb.stime = saturating_add(pcb.stime, delta);
        pcb.last_timestamp = now;
        if pcb.finished {
            pcb.finish_tick = now;
            pcb.mode = TaskMode::Finished;
        } else {
            pcb.mode = TaskMode::Dormant;
        }
        self.pcbs[i] = pcb;
        Ok(delta)
    }

    /// The return from a trap at `now`: the kernel time goes to the process
    /// that owned it, and the current process (if any) resumes in user mode.
    pub fn account_trap_exit(&mut self, now: u64) -> (r: Result<u64, AccountingFault>)
        requires
            old(self).wf(),
        ensures
            final(self).wf(),
            old(self).kernel_account_task == NO_TASK ==> r == Err::<u64, AccountingFault>(AccountingFault::NoKernelAccountTask),
            r is Ok ==> {
                let k = old(self).kernel_account_task as int;
                let p1 = old(self).pcbs@.update(k, charged(old(self).pcbs[k], now));
                let c = old(self).current_task;
                &&& r == Ok::<u64, AccountingFault>(elapsed(now, old(self).pcbs[k].last_timestamp))
                &&& final(self).pcbs@ == (if c == NO_TASK { p1 } else { p1.update(c as int, activated(p1[c as int], now)) })
                &&& final(self).kernel_account_task == NO_TASK
                &&& final(self).trap_exit_account_events == sat_add(old(self).trap_exit_account_events, 1)
            },
            old(self).kernel_account_task != NO_TASK && old(self).pcbs[old(self).kernel_account_task as int].mode == TaskMode::Kernel
                && (old(self).current_task == NO_TASK || old(self).current_task == old(self).kernel_account_task
                    || !old(self).pcbs[old(self).current_task as int].finished)
                && !(old(self).current_task == old(self).kernel_account_task && old(self).pcbs[old(self).kernel_account_task as int].finished)
                ==> r is Ok,
    {
        if self.kernel_account_task == NO_TASK {
            return Err(AccountingFault::NoKernelAccountTask);
        }
        let charged_task = self.kernel_account_task;
        let resumed_task = self.current_task;
        let delta = self.charge_kernel_slice(charged_task, now)?;
        self.trap_exit_account_events = saturating_add(self.trap_exit_account_events, 1);
        if resumed_task != NO_TASK {
            self.activate_task_for_user(resumed_task, now)?;
        }
        self.kernel_account_task = NO_TASK;
        Ok(delta)
    }

    /// The probe call for the process owning the kernel time.
    pub fn sys_probe(&mut self) -> (r: Result<isize, AccountingFault>)
        requires
            old(self).wf(),
        ensures
            final(self).wf(),
            old(self).kernel_account_task == NO_TASK ==> r == Err::<isize, AccountingFault>(AccountingFault::NoKernelAccountTask),
            old(self).kernel_account_task != NO_TASK ==> ({
                let k = old(self).kernel_account_task as int;
                let p = old(self).pcbs[k];
                let start = p.kernel_probe_acc.wrapping_add(0x9e37_79b9_7f4a_7c15u64 ^ (k as u64));
                &&& r == Ok::<isize, AccountingFault>(0)
                &&& final(self).pcbs@ == old(self).pcbs@.update(k, ProcessControlBlock { syscalls: sat_add(p.syscalls, 1),
                    kernel_probe_acc: probe_mixed(start, KERNEL_PROBE_SPIN as nat, k as u64), ..p })
            }),
            final(self).current_task == old(self).current_task,
            final(self).kernel_account_task == old(self).kernel_account_task,
    {
        if self.kernel_account_task == NO_TASK {
            return Err(AccountingFault::NoKernelAccountTask);
        }
        let current = self.kernel_account_task;
        let mut pcb = self.pcbs[current];
        pcb.syscalls = saturating_add(pcb.syscalls, 1);
        let mut acc = pcb.kernel_probe_acc.wrapping_add(0x9e37_79b9_7f4a_7c15u64 ^ current as u64);
        let ghost start = acc;
        let salt = (current as u64).wrapping_mul(17);
        let mut index: u64 = 0;
        while index < KERNEL_PROBE_SPIN
            invariant
                index <= KERNEL_PROBE_SPIN,
                salt == (current as u64).wrapping_mul(17),
                acc == probe_mixed(start, index as nat, current as u64),
            decreases KERNEL_PROBE_SPIN - index,
        {
            acc = rotate_left(acc, 7).wrapping_add(index ^ salt);
            index += 1;
        }
        pcb.kernel_probe_acc = acc;
        self.pcbs[current] = pcb;
        Ok(0)
    }

    /// The first unfinished process after `current`.
    pub fn next_unfinished_task_after(&self, current: usize) -> (r: Option<usize>)
        requires
            current < TASK_COUNT,
        ensures
            r == (if current + 1 < TASK_COUNT && !self.pcbs[current + 1].finished { Some((current + 1) as usize) }
                else { None::<usize> }),
    {
        if current + 1 < TASK_COUNT && !self.pcbs[current + 1].finished { Some(current + 1) } else { None }
    }

    /// The last process's completion at `now`: its kernel time is charged
    /// and nobody is current or owns the kernel any more.
    pub fn finalize_last_task(&mut self, now: u64) -> (r: Result<u64, AccountingFault>)
        requires
            old(self).wf(),
        ensures
            final(self).wf(),
            old(self).kernel_account_task == NO_TASK ==> r == Err::<u64, AccountingFault>(AccountingFault::NoKernelAccountTask),
            old(self).kernel_account_task != NO_TASK ==> (r is Ok <==> old(self).pcbs[old(self).kernel_account_task as int].mode == TaskMode::Kernel),
            old(self).kernel_account_task != NO_TASK && old(self).pcbs[old(self).kernel_account_task as int].mode != TaskMode::Kernel
                ==> r == Err::<u64, AccountingFault>(AccountingFault::NotInKernelMode),
            r is Ok ==> {
                let k = old(self).kernel_account_task as int;
                &&& final(self).pcbs@ == old(self).pcbs@.update(k, charged(old(self).pcbs[k], now))
                &&& final(self).current_task == NO_TASK && final(self).kernel_account_task == NO_TASK
                &&& final(self).task_complete_account_events == sat_add(old(self).task_complete_account_events, 1)
            },
    {
        if self.kernel_account_task == NO_TASK {
            return Err(AccountingFault::NoKernelAccountTask);
        }
        let current = self.kernel_account_task;
        let delta = self.charge_kernel_slice(current, now)?;
        self.task_complete_account_events = saturating_add(self.task_complete_account_events, 1);
        self.current_task = NO_TASK;
        self.kernel_account_task = NO_TASK;
        Ok(delta)
    }

    /// The owning process exits with `result`: counted, marked finished, and
    /// the next unfinished process becomes current with its registers in
    /// `frame`; after the last one, its time is settled at `now`.
    pub fn finish_current_task(&mut self, result: u64, frame: &mut TrapFrame, now: u64) -> (r: Result<ProcessOutcome, AccountingFault>)
        requires
            old(self).wf(),
        ensures
            final(self).wf(),
            old(self).kernel_account_task == NO_TASK ==> r == Err::<ProcessOutcome, AccountingFault>(AccountingFault::NoKernelAccountTask),
            old(self).kernel_account_task != NO_TASK ==> ({
                let k = old(self).kernel_account_task as int;
                let p = old(self).pcbs[k];
                let done = ProcessControlBlock { syscalls: sat_add(p.syscalls, 1), result, finished: true, ..p };
                if k + 1 < TASK_COUNT && !old(self).pcbs[k + 1].finished {
                    &&& r == Ok::<ProcessOutcome, AccountingFault>(ProcessOutcome::Next((k + 1) as usize))
                    &&& final(self).pcbs@ == old(self).pcbs@.update(k, done)
                    &&& final(self).current_task == k + 1
                    &&& *final(frame) == old(self).pcbs[k + 1].frame
                } else {
                    &&& p.mode == TaskMode::Kernel ==> r == Ok::<ProcessOutcome, AccountingFault>(ProcessOutcome::AllFinished)
                        && final(self).pcbs@ == old(self).pcbs@.update(k, charged(done, now))
                        && final(self).current_task == NO_TASK
                    &&& p.mode != TaskMode::Kernel ==> r == Err::<ProcessOutcome, AccountingFault>(AccountingFault::NotInKernelMode)
                }
            }),
    {
        if self.kernel_account_task == NO_TASK {
            return Err(AccountingFault::NoKernelAccountTask);
        }
        let current = self.kernel_account_task;
        let mut pcb = self.pcbs[current];
        pcb.syscalls = saturating_add(pcb.syscalls, 1);
        pcb.result = result;
        pcb.finished = true;
        self.pcbs[current] = pcb;
        if let Some(next) = self.next_unfinished_task_after(current) {
            self.current_task = next;
            *frame = self.pcbs[next].frame;
            return Ok(ProcessOutcome::Next(next));
        }
        match self.finalize_last_task(now) {
            Ok(_) => Ok(ProcessOutcome::AllFinished),
            Err(e) => Err(e),
        }
    }

    /// A trap (after `account_trap_enter`): only system calls are expected;
    /// `mepc` moves past the `ecall` and `a7` selects probe or exit.
    pub fn dispatch_trap(&mut self, frame: &mut TrapFrame, mcause: u64, now: u64) -> (r: Result<ProcessOutcome, AccountingFault>)
        requires
            old(self).wf(),
        ensures
            final(self).wf(),
            mcause != USER_ENV_CALL ==> r == Ok::<ProcessOutcome, AccountingFault>(ProcessOutcome::UnexpectedTrap)
                && *final(frame) == *old(frame),
            mcause == USER_ENV_CALL && old(frame).a7 == SYS_PROBE && old(self).kernel_account_task != NO_TASK ==>
                r == Ok::<ProcessOutcome, AccountingFault>(ProcessOutcome::Resume) && final(frame).a0 == 0,
            mcause == USER_ENV_CALL && old(frame).a7 > SYS_FINISH ==>
                r == Ok::<ProcessOutcome, AccountingFault>(ProcessOutcome::UnsupportedSyscall(old(frame).a7))
                && final(frame).a0 == ENOSYS as usize,
    {
        if mcause != USER_ENV_CALL {
            return Ok(ProcessOutcome::UnexpectedTrap);
        }
        frame.mepc = frame.mepc.wrapping_add(4);
        if frame.a7 == SYS_PROBE {
            let v = self.sys_probe()?;
            frame.a0 = v as usize;
            Ok(ProcessOutcome::Resume)
        } else if frame.a7 == SYS_FINISH {
            let result = frame.a0 as u64;
            self.finish_current_task(result, frame, now)
        } else {
            frame.a0 = ENOSYS as usize;
            Ok(ProcessOutcome::UnsupportedSyscall(frame.a7))
        }
    }

    /// The report: both processes have user and system time, every trap
    /// entry was matched by an exit or a completion, the compute process is
    /// user-dominated and the probing one kernel-dominated.
    pub fn final_report(&self) -> (r: ProcessReport)
        ensures
            ({
                let c = self.pcbs[0];
                let s = self.pcbs[1];
                &&& r.total_syscalls == sat_add(c.syscalls, s.syscalls)
                &&& r.pcb_has_utime_stime == (c.utime > 0 && c.stime > 0 && s.utime > 0 && s.stime > 0)
                &&& r.trap_updates_balanced == (self.trap_entry_account_events == r.total_syscalls
                    && sat_add(self.trap_exit_account_events, self.task_complete_account_events) == self.trap_entry_account_events)
                &&& r.compute_user_dominant == (c.utime > sat_mul(c.stime as int, 10))
                &&& r.syscall_kernel_ratio_rises == (kernel_share(s) > sat_add(kernel_share(c), 3_000) && s.stime > s.utime)
            }),
    {
        let compute = self.pcbs[0];
        let syscall = self.pcbs[1];
        let total_syscalls = saturating_add(compute.syscalls, syscall.syscalls);
        let pcb_has_utime_stime = compute.utime > 0 && compute.stime > 0 && syscall.utime > 0 && syscall.stime > 0;
        let trap_updates_balanced = self.trap_entry_account_events == total_syscalls
            && saturating_add(self.trap_exit_account_events, self.task_complete_account_events) == self.trap_entry_account_events;
        let compute_user_dominant = compute.utime > saturating_mul(compute.stime, 10);
        let syscall_kernel_ratio_rises = kernel_ratio_bp(syscall) > saturating_add(kernel_ratio_bp(compute), 3_000)
            && syscall.stime > syscall.utime;
        ProcessReport { total_syscalls, pcb_has_utime_stime, trap_updates_balanced, compute_user_dominant,
            syscall_kernel_ratio_rises }
    }
}

} // verus!
