//! User and kernel CPU time per task: every trap charges the time since the
//! last accounting point to user time, every return to user mode charges
//! the time spent in the kernel. A compute task should be user-dominated, a
//! task that calls into the kernel in a loop kernel-dominated.
use vstd::prelude::*;
use crate::common::abi::TrapFrame;
use crate::common::time::{saturating_mul, sat_mul};
use crate::lab5::kernel_task4::{rotate_left, spec_rotl};

verus! {

pub const TASK_COUNT: usize = 2;
pub const NO_TASK: usize = usize::MAX;
pub const USER_ENV_CALL: u64 = 8;
pub const COMPUTE_ITERATIONS: u64 = 4_000_000;
pub const SYSCALL_ITERATIONS: u64 = 60_000;
pub const KERNEL_PROBE_SPIN: u64 = 48;
pub const SYS_PROBE: usize = 0;
pub const SYS_FINISH: usize = 1;
pub const ENOSYS: isize = -38;

/// The name of task `i`.
pub fn task_name(i: usize) -> (r: &'static str)
    ensures
        i == 0 ==> r@ == "compute_background"@,
        i != 0 ==> r@ == "syscall_probe"@,
{
    if i == 0 { "compute_background" } else { "syscall_probe" }
}

#[derive(Clone, Copy, PartialEq, Eq, Structural)]
pub struct TaskStats {
    pub user_ticks: u64,
    pub kernel_ticks: u64,
    pub syscalls: u64,
    pub result: u64,
    pub finished: bool,
    pub kernel_probe_acc: u64,
}

impl TaskStats {
    pub open spec fn empty_spec() -> TaskStats {
        TaskStats { user_ticks: 0, kernel_ticks: 0, syscalls: 0, result: 0, finished: false, kernel_probe_acc: 0 }
    }

    pub fn empty() -> (r: Self)
        ensures
            r == TaskStats::empty_spec(),
    {
        TaskStats { user_ticks: 0, kernel_ticks: 0, syscalls: 0, result: 0, finished: false, kernel_probe_acc: 0 }
    }
}

/// Where the time since the last accounting point goes.
#[derive(Clone, Copy, PartialEq, Eq, Structural)]
pub enum CpuMode {
    Idle,
    User,
    Kernel,
}

/// A broken accounting sequence: the kernel reports it and stops.
#[derive(Clone, Copy, PartialEq, Eq, Structural)]
pub enum AccountingError {
    /// A trap arrived with no task running.
    NoCurrentTask,
    /// A trap arrived while the CPU was not accounted as in user mode.
    NotInUserMode,
    /// Kernel time was to be charged while not accounted as in the kernel.
    NotInKernelMode,
}

/// The difference `now - since`, 0 when the clock went backwards.
pub open spec fn elapsed(now: u64, since: u64) -> u64 {
    if now >= since { (now - since) as u64 } else { 0 }
}

/// One round of the kernel-side probe loop.
pub open spec fn probe_step(acc: u64, index: u64, current: u64) -> u64 {
    spec_rotl(acc, 7).wrapping_add(index ^ current.wrapping_mul(17))
}

/// The probe accumulator after `n` rounds.
pub open spec fn probe_mixed(acc: u64, n: nat, current: u64) -> u64
    decreases n,
{
    if n == 0 { acc } else { probe_step(probe_mixed(acc, (n - 1) as nat, current), (n - 1) as u64, current) }
}

/// What ended a trap.
#[derive(Clone, Copy, PartialEq, Eq, Structural)]
pub enum AccountingOutcome {
    /// The task continues (after a probe or an unknown call).
    Resume,
    /// The task finished and the next one starts.
    Launched(usize),
    /// The last task finished: the report follows.
    AllFinished,
    /// A trap other than a system call: the kernel stops.
    UnexpectedTrap,
}

/// The report and its two checks.
#[derive(Clone, Copy)]
pub struct AccountingReport {
    pub compute: TaskStats,
    pub syscall: TaskStats,
    pub compute_user_dominant: bool,
    pub syscall_kernel_ratio_rises: bool,
}

/// `part / total` in basis points (`part * 10000` saturating), 0 for an
/// empty total.
pub open spec fn bp(part: u64, total: u64) -> u64 {
    if total == 0 { 0 } else { (sat_mul(part as int, 10_000) / total as int) as u64 }
}

/// The share `part / (part + other)` in basis points is at most 10000, at
/// least 5000 when `part` is the larger, at most 5000 when it is the
/// smaller, 0 without `part` and 10000 without `other`.
pub proof fn lemma_share_bounds(part: int, other: int)
    requires
        part >= 0,
        other >= 0,
        part + other > 0,
    ensures
        (part * 10_000) / (part + other) <= 10_000,
        part >= other ==> (part * 10_000) / (part + other) >= 5_000,
        part <= other ==> (part * 10_000) / (part + other) <= 5_000,
        part == 0 ==> (part * 10_000) / (part + other) == 0,
        other == 0 ==> (part * 10_000) / (part + other) == 10_000,
{
    let t = part + other;
    vstd::arithmetic::div_mod::lemma_div_by_multiple(10_000, t);
    vstd::arithmetic::div_mod::lemma_div_by_multiple(5_000, t);
    assert(part * 10_000 <= 10_000 * t);
    assert(10_000 * t == t * 10_000) by (nonlinear_arith);
    vstd::arithmetic::div_mod::lemma_div_is_ordered(part * 10_000, 10_000 * t, t);
    if part >= other {
        assert(5_000 * t <= part * 10_000);
        assert(5_000 * t == t * 5_000) by (nonlinear_arith);
        vstd::arithmetic::div_mod::lemma_div_is_ordered(5_000 * t, part * 10_000, t);
    }
    if part <= other {
        assert(part * 10_000 <= 5_000 * t);
        assert(5_000 * t == t * 5_000) by (nonlinear_arith);
        vstd::arithmetic::div_mod::lemma_div_is_ordered(part * 10_000, 5_000 * t, t);
    }
    if part == 0 {
        assert(part * 10_000 == 0);
    }
}

/// The share `part / (part + other)` in basis points grows with `part`.
pub proof fn lemma_share_monotone(p1: int, p2: int, other: int)
    requires
        0 <= p1 <= p2,
        other >= 0,
        p1 + other > 0,
    ensures
        (p1 * 10_000) / (p1 + other) <= (p2 * 10_000) / (p2 + other),
{
    let a = p1 * 10_000;
    let b = p1 + other;
    let c = p2 * 10_000;
    let d = p2 + other;
    assert(a * d <= c * b) by (nonlinear_arith)
        requires a == p1 * 10_000, b == p1 + other, c == p2 * 10_000, d == p2 + other, 0 <= p1 <= p2, other >= 0;
    let q = a / b;
    vstd::arithmetic::div_mod::lemma_fundamental_div_mod(a, b);
    vstd::arithmetic::div_mod::lemma_div_pos_is_pos(a, b);
    assert(b * q <= a) by {
        assert(a % b >= 0) by {
            vstd::arithmetic::div_mod::lemma_mod_pos_bound(a, b);
        }
    }
    assert(q * d <= c) by (nonlinear_arith)
        requires b * q <= a, a * d <= c * b, b > 0, d > 0, q >= 0;
    vstd::arithmetic::div_mod::lemma_div_by_multiple(q, d);
    vstd::arithmetic::div_mod::lemma_div_is_ordered(q * d, c, d);
}

pub fn ratio_bp(part: u64, total: u64) -> (r: u64)
    ensures
        r == bp(part, total),
{
    if total == 0 { 0 } else { saturating_mul(part, 10_000) / total }
}

/// `a + b` clamped to `u64::MAX`.
pub open spec fn sat_add(a: u64, b: u64) -> u64 {
    if a + b > u64::MAX { u64::MAX } else { (a + b) as u64 }
}

pub fn saturating_add(a: u64, b: u64) -> (r: u64)
    ensures
        r == sat_add(a, b),
{
    match a.checked_add(b) {
        Some(v) => v,
        None => u64::MAX,
    }
}

/// The kernel's share of a task's time, in basis points.
pub open spec fn kernel_bp(s: TaskStats) -> u64 {
    bp(s.kernel_ticks, sat_add(s.user_ticks, s.kernel_ticks))
}

/// The kernel share of a task is its kernel time over all its accounted
/// time, in basis points: `kernel * 10000 / (user + kernel)`, so at most
/// 10000, at least 5000 when kernel time is the larger part, at most 5000
/// when user time is, 0 without kernel time and 10000 without user time
/// (for figures whose sum and scaled kernel time fit 64 bits).
pub proof fn law_kernel_bp_is_kernel_fraction(s: TaskStats)
    requires
        s.user_ticks + s.kernel_ticks > 0,
        s.user_ticks + s.kernel_ticks <= u64::MAX,
        s.kernel_ticks * 10_000 <= u64::MAX,
    ensures
        kernel_bp(s) == (s.kernel_ticks * 10_000) / (s.user_ticks + s.kernel_ticks),
        kernel_bp(s) <= 10_000,
        s.kernel_ticks >= s.user_ticks ==> kernel_bp(s) >= 5_000,
        s.kernel_ticks <= s.user_ticks ==> kernel_bp(s) <= 5_000,
        s.kernel_ticks == 0 ==> kernel_bp(s) == 0,
        s.user_ticks == 0 ==> kernel_bp(s) == 10_000,
{
    lemma_share_bounds(s.kernel_ticks as int, s.user_ticks as int);
    assert(s.kernel_ticks + s.user_ticks == s.user_ticks + s.kernel_ticks);
}

/// More kernel time, with the same user time, never lowers the kernel share.
pub proof fn law_kernel_bp_grows_with_kernel_time(a: TaskStats, b: TaskStats)
    requires
        a.user_ticks == b.user_ticks,
        a.kernel_ticks <= b.kernel_ticks,
        a.user_ticks + a.kernel_ticks > 0,
        b.user_ticks + b.kernel_ticks <= u64::MAX,
        b.kernel_ticks * 10_000 <= u64::MAX,
    ensures
        kernel_bp(a) <= kernel_bp(b),
{
    lemma_share_monotone(a.kernel_ticks as int, b.kernel_ticks as int, a.user_ticks as int);
    assert(a.kernel_ticks * 10_000 <= b.kernel_ticks * 10_000);
}

pub fn kernel_ratio_bp(stats: TaskStats) -> (r: u64)
    ensures
        r == kernel_bp(stats),
{
    ratio_bp(stats.kernel_ticks, saturating_add(stats.user_ticks, stats.kernel_ticks))
}

/// The figures of a task's report line: total ticks and the user and
/// kernel shares in basis points.
pub fn task_stats_figures(stats: TaskStats) -> (r: (u64, u64, u64))
    ensures
        r.0 == sat_add(stats.user_ticks, stats.kernel_ticks),
        r.1 == bp(stats.user_ticks, r.0),
        r.2 == bp(stats.kernel_ticks, r.0),
{
    let total = saturating_add(stats.user_ticks, stats.kernel_ticks);
    (total, ratio_bp(stats.user_ticks, total), ratio_bp(stats.kernel_ticks, total))
}

/// The accounting state.
pub struct AccountingKernel {
    pub frames: [TrapFrame; TASK_COUNT],
    pub stats: [TaskStats; TASK_COUNT],
    pub current_task: usize,
    pub cpu_mode: CpuMode,
    pub last_account_tick: u64,
}

impl AccountingKernel {
    pub open spec fn wf(&self) -> bool {
        self.current_task == NO_TASK || self.current_task < TASK_COUNT
    }

    /// Boot at `boot_tick` with the tasks' initial registers, then task 0
    /// launched at `launch_tick`.
    pub fn new(frames: [TrapFrame; TASK_COUNT], boot_tick: u64, launch_tick: u64) -> (r: Self)
        ensures
            r.wf(),
            r.frames == frames,
            forall|i: int| 0 <= i < TASK_COUNT ==> #[trigger] r.stats[i] == TaskStats::empty_spec(),
            r.current_task == 0,
            r.cpu_mode == CpuMode::User,
            r.last_account_tick == launch_tick,
    {
        let mut k = AccountingKernel {
            frames,
            stats: [TaskStats::empty(); TASK_COUNT],
            current_task: NO_TASK,
            cpu_mode: CpuMode::Idle,
            last_account_tick: boot_tick,
        };
        k.launch_task(0, launch_tick);
        k
    }

    /// Task `i` starts running in user mode at `now`.
    pub fn launch_task(&mut self, i: usize, now: u64)
        requires
            i < TASK_COUNT,
        ensures
            final(self).current_task == i,
            final(self).cpu_mode == CpuMode::User,
            final(self).last_account_tick == now,
            final(self).stats == old(self).stats,
            final(self).frames == old(self).frames,
    {
        self.current_task = i;
        self.cpu_mode = CpuMode::User;
        self.last_account_tick = now;
    }

    /// A trap at `now`: the time since the last point is the current task's
    /// user time, and the CPU is in the kernel from now on.
    pub fn account_user_entry(&mut self, now: u64) -> (r: Result<(), AccountingError>)
        requires
            old(self).wf(),
        ensures
            final(self).wf(),
            old(self).current_task == NO_TASK ==> r == Err::<(), AccountingError>(AccountingError::NoCurrentTask)
                && *final(self) == *old(self),
            old(self).current_task != NO_TASK && old(self).cpu_mode != CpuMode::User ==>
                r == Err::<(), AccountingError>(AccountingError::NotInUserMode) && *final(self) == *old(self),
            old(self).current_task != NO_TASK && old(self).cpu_mode == CpuMode::User ==> {
                let c = old(self).current_task as int;
                &&& r is Ok
                &&& final(self).stats@ == old(self).stats@.update(c, TaskStats {
                    user_ticks: old(self).stats[c].user_ticks.wrapping_add(elapsed(now, old(self).last_account_tick)),
                    ..old(self).stats[c] })
                &&& final(self).cpu_mode == CpuMode::Kernel
                &&& final(self).last_account_tick == now
                &&& final(self).current_task == old(self).current_task
                &&& final(self).frames == old(self).frames
            },
    {
        if self.current_task == NO_TASK {
            return Err(AccountingError::NoCurrentTask);
        }
        if self.cpu_mode != CpuMode::User {
            return Err(AccountingError::NotInUserMode);
        }
        let current = self.current_task;
        let spent = if now >= self.last_account_tick { now - self.last_account_tick } else { 0 };
        let mut s = self.stats[current];
        s.user_ticks = s.user_ticks.wrapping_add(spent);
        self.stats[current] = s;
        self.cpu_mode = CpuMode::Kernel;
        self.last_account_tick = now;
        Ok(())
    }

    /// Charges the time since the last point to task `i`'s kernel time.
    pub fn account_kernel_slice(&mut self, i: usize, now: u64) -> (r: Result<(), AccountingError>)
        requires
            i < TASK_COUNT,
            old(self).wf(),
        ensures
            final(self).wf(),
            old(self).cpu_mode != CpuMode::Kernel ==> r == Err::<(), AccountingError>(AccountingError::NotInKernelMode)
                && *final(self) == *old(self),
            old(self).cpu_mode == CpuMode::Kernel ==> {
                &&& r is Ok
                &&& final(self).stats@ == old(self).stats@.update(i as int, TaskStats {
                    kernel_ticks: old(self).stats[i as int].kernel_ticks.wrapping_add(elapsed(now, old(self).last_account_tick)),
                    ..old(self).stats[i as int] })
                &&& final(self).last_account_tick == now
                &&& final(self).cpu_mode == old(self).cpu_mode
                &&& final(self).current_task == old(self).current_task
                &&& final(self).frames == old(self).frames
            },
    {
        if self.cpu_mode != CpuMode::Kernel {
            return Err(AccountingError::NotInKernelMode);
        }
        let spent = if now >= self.last_account_tick { now - self.last_account_tick } else { 0 };
        let mut s = self.stats[i];
        s.kernel_ticks = s.kernel_ticks.wrapping_add(spent);
        self.stats[i] = s;
        self.last_account_tick = now;
        Ok(())
    }

    /// The probe call: counted, and a short kernel-side loop mixes the
    /// task's accumulator. Returns 0.
    pub fn sys_probe(&mut self) -> (r: isize)
        requires
            old(self).wf(),
            old(self).current_task != NO_TASK,
        ensures
            final(self).wf(),
            r == 0,
            ({
                let c = old(self).current_task as int;
                let s = old(self).stats[c];
                let start = s.kernel_probe_acc.wrapping_add(0x9e37_79b9_7f4a_7c15u64 ^ (c as u64));
                final(self).stats@ == old(self).stats@.update(c, TaskStats { syscalls: s.syscalls.wrapping_add(1),
                    kernel_probe_acc: probe_mixed(start, KERNEL_PROBE_SPIN as nat, c as u64), ..s })
            }),
            final(self).current_task == old(self).current_task,
            final(self).cpu_mode == old(self).cpu_mode,
            final(self).last_account_tick == old(self).last_account_tick,
            final(self).frames == old(self).frames,
    {
        let current = self.current_task;
        let mut s = self.stats[current];
        s.syscalls = s.syscalls.wrapping_add(1);
        let mut acc = s.kernel_probe_acc.wrapping_add(0x9e37_79b9_7f4a_7c15u64 ^ current as u64);
        let ghost start = acc;
        let salt = (current as u64).wrapping_mul(17);
        let mut index: u64 = 0;
        while index < KERNEL_PROBE_SPIN
            invariant
                index <= KERNEL_PROBE_SPIN,
                salt == (current as u64).wrapping_mul(17),
                acc == probe_mixed(start, index as nat, current as u64),
            decreases KERNEL_PROBE_SPIN - index,
        {
            acc = rotate_left(acc, 7).wrapping_add(index ^ salt);
            index += 1;
        }
        s.kernel_probe_acc = acc;
        self.stats[current] = s;
        0
    }

    /// Back to the current task at `now`: the kernel slice is charged and
    /// the CPU is in user mode again.
    pub fn return_to_current_task(&mut self, now: u64) -> (r: Result<(), AccountingError>)
        requires
            old(self).wf(),
        ensures
            final(self).wf(),
            old(self).current_task == NO_TASK ==> r == Err::<(), AccountingError>(AccountingError::NoCurrentTask),
            old(self).current_task != NO_TASK && old(self).cpu_mode != CpuMode::Kernel ==>
                r == Err::<(), AccountingError>(AccountingError::NotInKernelMode),
            old(self).current_task != NO_TASK && old(self).cpu_mode == CpuMode::Kernel ==> {
                let c = old(self).current_task as int;
                &&& r is Ok
                &&& final(self).stats@ == old(self).stats@.update(c, TaskStats {
                    kernel_ticks: old(self).stats[c].kernel_ticks.wrapping_add(elapsed(now, old(self).last_account_tick)),
                    ..old(self).stats[c] })
                &&& final(self).cpu_mode == CpuMode::User
                &&& final(self).last_account_tick == now
                &&& final(self).current_task == old(self).current_task
            },
            final(self).frames == old(self).frames,
    {
        if self.current_task == NO_TASK {
            return Err(AccountingError::NoCurrentTask);
        }
        let current = self.current_task;
        self.account_kernel_slice(current, now)?;
        self.cpu_mode = CpuMode::User;
        self.last_account_tick = now;
        Ok(())
    }

    /// The first unfinished task after `current` (never an earlier one).
    pub fn next_unfinished_task_after(&self, current: usize) -> (r: Option<usize>)
        requires
            current < TASK_COUNT,
        ensures
            r == (if current + 1 < TASK_COUNT && !self.stats[current + 1].finished { Some((current + 1) as usize) }
                else { None::<usize> }),
    {
        let mut candidate = current + 1;
        while candidate < TASK_COUNT
            invariant
                current + 1 <= candidate <= TASK_COUNT,
                candidate > current + 1 ==> self.stats[current + 1].finished,
            decreases TASK_COUNT - candidate,
        {
            if !self.stats[candidate].finished {
                return Some(candidate);
            }
            candidate += 1;
        }
        None
    }

    /// The current task exits with `result`: counted and charged up to
    /// `now`, marked finished, and the next unfinished task launched at
    /// `launch_tick` with its registers in `frame`.
    pub fn finish_current_task(&mut self, result: u64, frame: &mut TrapFrame, now: u64, launch_tick: u64)
        -> (r: Result<AccountingOutcome, AccountingError>)
        requires
            old(self).wf(),
        ensures
            final(self).wf(),
            old(self).current_task == NO_TASK ==> r == Err::<AccountingOutcome, AccountingError>(AccountingError::NoCurrentTask),
            old(self).current_task != NO_TASK && old(self).cpu_mode != CpuMode::Kernel ==>
                r == Err::<AccountingOutcome, AccountingError>(AccountingError::NotInKernelMode),
            old(self).current_task != NO_TASK && old(self).cpu_mode == CpuMode::Kernel ==> {
                let c = old(self).current_task as int;
                let s = old(self).stats[c];
                let done = TaskStats { syscalls: s.syscalls.wrapping_add(1), result,
                    kernel_ticks: s.kernel_ticks.wrapping_add(elapsed(now, old(self).last_account_tick)), finished: true, ..s };
                &&& final(self).stats@ == old(self).stats@.update(c, done)
                &&& if c + 1 < TASK_COUNT && !old(self).stats[c + 1].finished {
                    &&& r == Ok::<AccountingOutcome, AccountingError>(AccountingOutcome::Launched((c + 1) as usize))
                    &&& final(self).current_task == c + 1
                    &&& final(self).cpu_mode == CpuMode::User
                    &&& final(self).last_account_tick == launch_tick
                    &&& *final(frame) == old(self).frames[c + 1]
                } else {
                    &&& r == Ok::<AccountingOutcome, AccountingError>(AccountingOutcome::AllFinished)
                    &&& final(self).current_task == NO_TASK
                    &&& final(self).cpu_mode == CpuMode::Idle
                    &&& final(self).last_account_tick == now
                }
            },
            final(self).frames == old(self).frames,
    {
        if self.current_task == NO_TASK {
            return Err(AccountingError::NoCurrentTask);
        }
        if self.cpu_mode != CpuMode::Kernel {
            return Err(AccountingError::NotInKernelMode);
        }
        let current = self.current_task;
        let mut s = self.stats[current];
        s.syscalls = s.syscalls.wrapping_add(1);
        s.result = result;
        self.stats[current] = s;
        let _ = self.account_kernel_slice(current, now);
        let mut s = self.stats[current];
        s.finished = true;
        self.stats[current] = s;
        self.cpu_mode = CpuMode::Idle;
        self.current_task = NO_TASK;
        self.last_account_tick = now;
        match self.next_unfinished_task_after(current) {
            Some(next) => {
                self.launch_task(next, launch_tick);
                *frame = self.frames[next];
                Ok(AccountingOutcome::Launched(next))
            },
            None => Ok(AccountingOutcome::AllFinished),
        }
    }

    /// A trap at `trap_tick`: the user time is charged, then a system call
    /// is handled (a probe or unknown call returns to the task at
    /// `exit_tick`; an exit charges up to `exit_tick` and launches the next
    /// task at `launch_tick`).
    pub fn dispatch_trap(&mut self, frame: &mut TrapFrame, mcause: u64, trap_tick: u64, exit_tick: u64, launch_tick: u64)
        -> (r: Result<AccountingOutcome, AccountingError>)
        requires
            old(self).wf(),
        ensures
            final(self).wf(),
            old(self).current_task == NO_TASK ==> r == Err::<AccountingOutcome, AccountingError>(AccountingError::NoCurrentTask),
            old(self).current_task != NO_TASK && old(self).cpu_mode != CpuMode::User ==>
                r == Err::<AccountingOutcome, AccountingError>(AccountingError::NotInUserMode),
            old(self).current_task != NO_TASK && old(self).cpu_mode == CpuMode::User ==> {
                let c = old(self).current_task as int;
                let s = old(self).stats[c];
                let user = s.user_ticks.wrapping_add(elapsed(trap_tick, old(self).last_account_tick));
                let kernel = s.kernel_ticks.wrapping_add(elapsed(exit_tick, trap_tick));
                &&& mcause != USER_ENV_CALL ==> {
                    &&& r == Ok::<AccountingOutcome, AccountingError>(AccountingOutcome::UnexpectedTrap)
                    &&& final(self).stats@ == old(self).stats@.update(c, TaskStats { user_ticks: user, ..s })
                    &&& final(self).cpu_mode == CpuMode::Kernel
                    &&& final(self).last_account_tick == trap_tick
                    &&& final(self).current_task == old(self).current_task
                    &&& *final(frame) == *old(frame)
                }
                &&& mcause == USER_ENV_CALL && old(frame).a7 != SYS_FINISH ==> {
                    let probe = old(frame).a7 == SYS_PROBE;
                    let start = s.kernel_probe_acc.wrapping_add(0x9e37_79b9_7f4a_7c15u64 ^ (c as u64));
                    &&& r == Ok::<AccountingOutcome, AccountingError>(AccountingOutcome::Resume)
                    &&& final(self).stats@ == old(self).stats@.update(c, if probe {
                            TaskStats { user_ticks: user, kernel_ticks: kernel, syscalls: s.syscalls.wrapping_add(1),
                                kernel_probe_acc: probe_mixed(start, KERNEL_PROBE_SPIN as nat, c as u64), ..s }
                        } else {
                            TaskStats { user_ticks: user, kernel_ticks: kernel, ..s }
                        })
                    &&& final(self).cpu_mode == CpuMode::User
                    &&& final(self).last_account_tick == exit_tick
                    &&& final(self).current_task == old(self).current_task
                    &&& *final(frame) == (TrapFrame { mepc: old(frame).mepc.wrapping_add(4),
                            a0: if probe { 0 } else { ENOSYS as usize }, ..*old(frame) })
                }
                &&& mcause == USER_ENV_CALL && old(frame).a7 == SYS_FINISH ==> {
                    let done = TaskStats { user_ticks: user, kernel_ticks: kernel, syscalls: s.syscalls.wrapping_add(1),
                        result: old(frame).a0 as u64, finished: true, ..s };
                    &&& final(self).stats@ == old(self).stats@.update(c, done)
                    &&& if c + 1 < TASK_COUNT && !old(self).stats[c + 1].finished {
                        &&& r == Ok::<AccountingOutcome, AccountingError>(AccountingOutcome::Launched((c + 1) as usize))
                        &&& final(self).current_task == c + 1
                        &&& final(self).cpu_mode == CpuMode::User
                        &&& final(self).last_account_tick == launch_tick
                        &&& *final(frame) == old(self).frames[c + 1]
                    } else {
                        &&& r == Ok::<AccountingOutcome, AccountingError>(AccountingOutcome::AllFinished)
                        &&& final(self).current_task == NO_TASK
                        &&& final(self).cpu_mode == CpuMode::Idle
                        &&& final(self).last_account_tick == exit_tick
                    }
                }
            },
            final(self).frames == old(self).frames,
    {
        self.account_user_entry(trap_tick)?;
        if mcause != USER_ENV_CALL {
            return Ok(AccountingOutcome::UnexpectedTrap);
        }
        frame.mepc = frame.mepc.wrapping_add(4);
        if frame.a7 == SYS_PROBE {
            frame.a0 = self.sys_probe() as usize;
            self.return_to_current_task(exit_tick)?;
            Ok(AccountingOutcome::Resume)
        } else if frame.a7 == SYS_FINISH {
            let result = frame.a0 as u64;
            self.finish_current_task(result, frame, exit_tick, launch_tick)
        } else {
            frame.a0 = ENOSYS as usize;
            self.return_to_current_task(exit_tick)?;
            Ok(AccountingOutcome::Resume)
        }
    }

    /// The report: the compute task's user time exceeds ten times its
    /// kernel time, and the probing task's kernel share is more than 30
    /// points above the compute task's and exceeds its own user time.
    pub fn final_report(&self) -> (r: AccountingReport)
        ensures
            r.compute == self.stats[0],
            r.syscall == self.stats[1],
            r.compute_user_dominant == (self.stats[0].user_ticks > sat_mul(self.stats[0].kernel_ticks as int, 10)),
            r.syscall_kernel_ratio_rises == (kernel_bp(self.stats[1]) > sat_add(kernel_bp(self.stats[0]), 3_000)
                && self.stats[1].kernel_ticks > self.stats[1].user_ticks),
    {
        let compute = self.stats[0];
        let syscall = self.stats[1];
        let compute_user_dominant = compute.user_ticks > saturating_mul(compute.kernel_ticks, 10);
        let syscall_kernel_ratio_rises = kernel_ratio_bp(syscall) > saturating_add(kernel_ratio_bp(compute), 3_000)
            && syscall.kernel_ticks > syscall.user_ticks;
        AccountingReport { compute, syscall, compute_user_dominant, syscall_kernel_ratio_rises }
    }
}

} // verus!
