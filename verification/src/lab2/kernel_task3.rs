//! Completion-time measurement: three applications each run one warm-up and
//! three measured rounds; the kernel times every run with `mtime` and
//! summarises the measured ones.
use vstd::prelude::*;
use crate::common::abi::TrapFrame;
use crate::common::names::padded;
use crate::common::text::{name_text, padded_bytes_to_str};
use crate::common::time::{sat_mul, saturating_mul};
use crate::common::user_mem::range_within;

verus! {

pub const DRAM_START: usize = 0x8000_0000;
pub const TASK_NAME_LEN: usize = 32;
pub const APP_COUNT: usize = 3;
pub const WARMUP_RUNS_PER_APP: usize = 1;
pub const MEASURED_RUNS_PER_APP: usize = 3;
pub const TOTAL_RUNS: usize = 12;

pub const MTIME_FREQ_HZ: u64 = 10_000_000;

pub const IO_BURST_WRITES: u64 = 24;
pub const INFO_PROBE_CALLS: u64 = 20;

pub const SYS_WRITE: usize = 0;
pub const SYS_GET_TASKINFO: usize = 1;
pub const SYS_EXIT: usize = 2;

pub const EFAULT: isize = -14;
pub const EINVAL: isize = -22;
pub const ENOSYS: isize = -38;

/// Size and alignment of the `#[repr(C)]` layout of [`TaskInfo`].
pub const TASK_INFO_SIZE: usize = 40;
pub const TASK_INFO_ALIGN: usize = 8;

/// What user space receives from `get_taskinfo`.
#[derive(Clone, Copy)]
pub struct TaskInfo {
    pub task_id: u64,
    pub task_name: [u8; TASK_NAME_LEN],
}

impl TaskInfo {
    /// A record with id 0 and an all-zero name.
    pub fn empty() -> (r: Self)
        ensures
            r.task_id == 0,
            r.task_name@ == Seq::new(32, |i: int| 0u8),
    {
        let r = TaskInfo { task_id: 0, task_name: [0u8; TASK_NAME_LEN] };
        assert(r.task_name@ =~= Seq::new(32, |i: int| 0u8));
        r
    }

    /// The task name as text (see [`name_text`]).
    pub fn name(&self) -> (r: &str)
        ensures
            r@ == name_text(self.task_name@),
    {
        bytes_to_str(&self.task_name)
    }
}

#[derive(Clone, Copy, PartialEq, Eq, Structural)]
pub enum RunStatus {
    Scheduled,
    Exited,
    Faulted,
}

/// One application of the suite.
#[derive(Clone, Copy)]
pub struct AppDefinition {
    pub id: u64,
    pub name: &'static str,
    pub task_name: [u8; TASK_NAME_LEN],
    pub expectation: &'static str,
}

impl AppDefinition {
    pub fn new(id: u64, name: &'static str, task_name: [u8; TASK_NAME_LEN], expectation: &'static str) -> (r: Self)
        ensures
            r == (AppDefinition { id, name, task_name, expectation }),
    {
        AppDefinition { id, name, task_name, expectation }
    }
}

/// One scheduled run of an application and its measurement.
#[derive(Clone, Copy)]
pub struct RunRecord {
    pub app_index: usize,
    pub round: usize,
    pub counted: bool,
    pub start_mtime: u64,
    pub end_mtime: u64,
    pub elapsed_ticks: u64,
    pub elapsed_us: u64,
    pub exit_code: i32,
    pub fault_cause: u64,
    pub fault_tval: u64,
    pub status: RunStatus,
}

impl RunRecord {
    /// A run that has not started yet.
    pub fn scheduled(app_index: usize, round: usize, counted: bool) -> (r: Self)
        ensures
            r == (RunRecord {
                app_index, round, counted, start_mtime: 0, end_mtime: 0, elapsed_ticks: 0, elapsed_us: 0,
                exit_code: 0, fault_cause: 0, fault_tval: 0, status: RunStatus::Scheduled,
            }),
    {
        RunRecord {
            app_index,
            round,
            counted,
            start_mtime: 0,
            end_mtime: 0,
            elapsed_ticks: 0,
            elapsed_us: 0,
            exit_code: 0,
            fault_cause: 0,
            fault_tval: 0,
            status: RunStatus::Scheduled,
        }
    }
}

/// Timing statistics of the measured runs of one application.
#[derive(Clone, Copy)]
pub struct AppTimingSummary {
    pub runs: usize,
    pub successful_runs: usize,
    pub min_ticks: u64,
    pub max_ticks: u64,
    pub total_ticks: u64,
    pub min_us: u64,
    pub max_us: u64,
    pub total_us: u64,
}

/// `a + b` clamped to `u64::MAX`.
pub open spec fn sat_add(a: u64, b: u64) -> u64 {
    if a + b > u64::MAX { u64::MAX } else { (a + b) as u64 }
}

pub open spec fn min_u64(a: u64, b: u64) -> u64 {
    if a <= b { a } else { b }
}

pub open spec fn max_u64(a: u64, b: u64) -> u64 {
    if a >= b { a } else { b }
}

impl AppTimingSummary {
    pub open spec fn zero() -> Self {
        AppTimingSummary { runs: 0, successful_runs: 0, min_ticks: 0, max_ticks: 0, total_ticks: 0, min_us: 0, max_us: 0, total_us: 0 }
    }

    /// No runs seen yet.
    pub fn empty() -> (r: Self)
        ensures
            r == Self::zero(),
    {
        AppTimingSummary { runs: 0, successful_runs: 0, min_ticks: 0, max_ticks: 0, total_ticks: 0, min_us: 0, max_us: 0, total_us: 0 }
    }

    /// Mean ticks of the successful runs (0 when there is none).
    pub fn avg_ticks(self) -> (r: u64)
        ensures
            self.successful_runs == 0 ==> r == 0,
            self.successful_runs != 0 ==> r == self.total_ticks / (self.successful_runs as u64),
    {
        if self.successful_runs == 0 {
            0
        } else {
            self.total_ticks / self.successful_runs as u64
        }
    }

    /// Mean microseconds of the successful runs (0 when there is none).
    pub fn avg_us(self) -> (r: u64)
        ensures
            r == self.spec_avg_us(),
    {
        if self.successful_runs == 0 {
            0
        } else {
            self.total_us / self.successful_runs as u64
        }
    }

    pub open spec fn spec_avg_us(self) -> u64 {
        if self.successful_runs == 0 { 0 } else { self.total_us / (self.successful_runs as u64) }
    }

    /// `max_us - min_us`, or 0 when the maximum is below the minimum.
    pub fn spread_us(self) -> (r: u64)
        ensures
            r == (if self.max_us >= self.min_us { (self.max_us - self.min_us) as u64 } else { 0 }),
    {
        self.max_us.saturating_sub(self.min_us)
    }

    /// The spread relative to the mean, in basis points (1/100 of a percent).
    pub fn spread_basis_points(self) -> (r: u64)
        ensures
            ({
                let avg = self.spec_avg_us();
                let spread = if self.max_us >= self.min_us { self.max_us - self.min_us } else { 0 };
                &&& avg == 0 ==> r == 0
                &&& avg != 0 ==> r == sat_mul(spread, 10_000) / (avg as int)
            }),
    {
        let avg_us = self.avg_us();
        if avg_us == 0 {
            0
        } else {
            saturating_mul(self.spread_us(), 10_000) / avg_us
        }
    }
}

/// The summary after taking `run` into account for application `app`.
pub open spec fn summary_step(s: AppTimingSummary, run: RunRecord, app: usize) -> AppTimingSummary {
    if run.app_index == app && run.counted {
        let s1 = AppTimingSummary { runs: (s.runs + 1) as usize, ..s };
        if run.status == RunStatus::Exited && run.exit_code == 0 {
            let ok = (s1.successful_runs + 1) as usize;
            let total_ticks = sat_add(s1.total_ticks, run.elapsed_ticks);
            let total_us = sat_add(s1.total_us, run.elapsed_us);
            if ok == 1 {
                AppTimingSummary {
                    successful_runs: ok, total_ticks, total_us,
                    min_ticks: run.elapsed_ticks, max_ticks: run.elapsed_ticks,
                    min_us: run.elapsed_us, max_us: run.elapsed_us, ..s1
                }
            } else {
                AppTimingSummary {
                    successful_runs: ok, total_ticks, total_us,
                    min_ticks: min_u64(s1.min_ticks, run.elapsed_ticks),
                    max_ticks: max_u64(s1.max_ticks, run.elapsed_ticks),
                    min_us: min_u64(s1.min_us, run.elapsed_us),
                    max_us: max_u64(s1.max_us, run.elapsed_us), ..s1
                }
            }
        } else {
            s1
        }
    } else {
        s
    }
}

/// The summary of application `app` over the first `n` runs.
pub open spec fn summary_of(runs: Seq<RunRecord>, app: usize, n: int) -> AppTimingSummary
    decreases n,
{
    if n <= 0 {
        AppTimingSummary::zero()
    } else {
        summary_step(summary_of(runs, app, n - 1), runs[n - 1], app)
    }
}

pub proof fn lemma_summary_counts(runs: Seq<RunRecord>, app: usize, n: int)
    requires
        0 <= n <= TOTAL_RUNS,
    ensures
        summary_of(runs, app, n).successful_runs <= summary_of(runs, app, n).runs <= n,
    decreases n,
{
    if n > 0 {
        lemma_summary_counts(runs, app, n - 1);
    }
}

/// Microseconds covered by `ticks` (exact, via a 128-bit product).
pub fn ticks_to_us(ticks: u64) -> (r: u64)
    ensures
        r == ticks * 1_000_000 / 10_000_000,
{
    let wide: u128 = (ticks as u128) * 1_000_000u128 / (MTIME_FREQ_HZ as u128);
    assert(wide <= u64::MAX) by (nonlinear_arith)
        requires
            wide as int == (ticks as int) * 1_000_000int / 10_000_000int,
            0 <= ticks as int <= u64::MAX as int,
    ;
    wide as u64
}

/// `name` in a 32-byte buffer, cut to 31 bytes and zero padded.
pub fn padded_name(name: &[u8]) -> (r: [u8; TASK_NAME_LEN])
    ensures
        r@ == padded(name@, 32),
{
    let mut out = [0u8; TASK_NAME_LEN];
    let mut index: usize = 0;
    while index < name.len() && index < TASK_NAME_LEN - 1
        invariant
            index <= 31,
            index <= name@.len(),
            out@.len() == 32,
            forall|k: int| 0 <= k < index ==> out@[k] == name@[k],
            forall|k: int| index <= k < 32 ==> out@[k] == 0u8,
        decreases 32 - index,
    {
        out[index] = name[index];
        index += 1;
    }
    assert forall|k: int| 0 <= k < 32 implies out@[k] == padded(name@, 32)[k] by {
        if k >= index {
            assert(!(k < name@.len() && k < 31));
        }
    }
    assert(out@ =~= padded(name@, 32));
    out
}

/// The text of a zero-padded name buffer (see [`name_text`]).
pub fn bytes_to_str(bytes: &[u8; TASK_NAME_LEN]) -> (r: &str)
    ensures
        r@ == name_text(bytes@),
{
    padded_bytes_to_str(bytes.as_slice())
}

/// `PASS` or `FAIL`.
pub fn pass_fail(ok: bool) -> (r: &'static str)
    ensures
        ok ==> r@ == "PASS"@,
        !ok ==> r@ == "FAIL"@,
{
    if ok { "PASS" } else { "FAIL" }
}

/// Checks that `[addr, addr + len)` is empty or lies in `[DRAM_START, user_memory_end)`.
pub fn user_range_valid(addr: usize, len: usize, user_memory_end: usize) -> (r: bool)
    ensures
        r == range_within(addr as int, len as int, DRAM_START as int, user_memory_end as int),
{
    if len == 0 {
        return true;
    }
    let end = match addr.checked_add(len) {
        Some(end) => end,
        None => return false,
    };
    addr >= DRAM_START && end <= user_memory_end
}

/// The result of `sys_write(addr, len)`.
pub open spec fn write_result(addr: usize, len: usize, user_memory_end: usize) -> isize {
    if len == 0 || (addr != 0 && range_within(addr as int, len as int, DRAM_START as int, user_memory_end as int)) {
        len as isize
    } else {
        EFAULT
    }
}

/// Checks a user buffer the kernel reads from.
pub fn validated_user_bytes(addr: usize, len: usize, user_memory_end: usize) -> (r: Result<(), isize>)
    ensures
        r is Ok <==> (len == 0 || (addr != 0 && range_within(addr as int, len as int, DRAM_START as int, user_memory_end as int))),
        r is Err ==> r->Err_0 == EFAULT,
{
    if len == 0 {
        return Ok(());
    }
    if addr == 0 || !user_range_valid(addr, len, user_memory_end) {
        return Err(EFAULT);
    }
    Ok(())
}

/// The result of validating a pointer to a `size`-byte, `align`-aligned object.
pub open spec fn user_mut_result(addr: usize, size: usize, align: usize, user_memory_end: usize) -> Result<(), isize> {
    if addr == 0 {
        Err(EFAULT)
    } else if addr % align != 0 {
        Err(EINVAL)
    } else if !range_within(addr as int, size as int, DRAM_START as int, user_memory_end as int) {
        Err(EFAULT)
    } else {
        Ok(())
    }
}

/// Checks a user pointer the kernel writes an object through.
pub fn validated_user_mut(addr: usize, size: usize, align: usize, user_memory_end: usize) -> (r: Result<(), isize>)
    requires
        align > 0,
    ensures
        r == user_mut_result(addr, size, align, user_memory_end),
{
    if addr == 0 {
        return Err(EFAULT);
    }
    if addr % align != 0 {
        return Err(EINVAL);
    }
    if !user_range_valid(addr, size, user_memory_end) {
        return Err(EFAULT);
    }
    Ok(())
}

/// `sys_write`: validates the buffer; on success the caller copies it to the console.
pub fn sys_write(addr: usize, len: usize, user_memory_end: usize) -> (r: isize)
    ensures
        r == write_result(addr, len, user_memory_end),
{
    match validated_user_bytes(addr, len, user_memory_end) {
        Ok(()) => len as isize,
        Err(err) => err,
    }
}

/// The three applications, in run order.
pub fn apps() -> (r: [AppDefinition; APP_COUNT])
    ensures
        r[0].id == 1 && r[1].id == 2 && r[2].id == 3,
{
    [
        AppDefinition::new(1, "io_burst", padded_name("io_burst".as_bytes()),
            "I/O-heavy: UART writes dominate; timing should include serial output cost"),
        AppDefinition::new(2, "compute_spin", padded_name("compute_spin".as_bytes()),
            "compute-heavy: expected to be the slowest on average"),
        AppDefinition::new(3, "info_probe", padded_name("info_probe".as_bytes()),
            "syscall-heavy but low-output: repeated get_taskinfo probes should remain shorter than compute_spin"),
    ]
}

/// Run `i` of the schedule before it starts: application `i / 4`, round
/// `i % 4`, counted unless it is the warm-up round, every figure zero.
pub open spec fn scheduled_run(i: int) -> RunRecord {
    RunRecord {
        app_index: (i / 4) as usize, round: (i % 4) as usize, counted: i % 4 != 0, start_mtime: 0, end_mtime: 0,
        elapsed_ticks: 0, elapsed_us: 0, exit_code: 0, fault_cause: 0, fault_tval: 0, status: RunStatus::Scheduled,
    }
}

/// The run schedule: per application one warm-up round then three measured rounds.
pub fn initial_runs() -> (r: [RunRecord; TOTAL_RUNS])
    ensures
        forall|i: int| 0 <= i < 12 ==> #[trigger] r[i] == scheduled_run(i),
{
    let r = [
        RunRecord::scheduled(0, 0, false),
        RunRecord::scheduled(0, 1, true),
        RunRecord::scheduled(0, 2, true),
        RunRecord::scheduled(0, 3, true),
        RunRecord::scheduled(1, 0, false),
        RunRecord::scheduled(1, 1, true),
        RunRecord::scheduled(1, 2, true),
        RunRecord::scheduled(1, 3, true),
        RunRecord::scheduled(2, 0, false),
        RunRecord::scheduled(2, 1, true),
        RunRecord::scheduled(2, 2, true),
        RunRecord::scheduled(2, 3, true),
    ];
    r
}

/// The run schedule and the index of the run in progress.
pub struct Suite {
    pub runs: [RunRecord; TOTAL_RUNS],
    pub current_run: usize,
}

/// What the machine-level caller does after the kernel decided a trap.
pub enum KernelEffect {
    Resume,
    ConsoleWrite { addr: usize, len: usize },
    CopyTaskInfo { addr: usize, info: TaskInfo },
    Launch { index: usize },
    FinalReport,
}

/// The run record after it completed at `now` with the given outcome.
pub open spec fn completed(run: RunRecord, status: RunStatus, exit_code: i32, fault_cause: u64, fault_tval: u64, now: u64) -> RunRecord {
    let ticks = ((now - run.start_mtime) % 0x1_0000_0000_0000_0000) as u64;
    RunRecord {
        end_mtime: now,
        elapsed_ticks: ticks,
        elapsed_us: (ticks * 1_000_000 / 10_000_000) as u64,
        exit_code,
        fault_cause,
        fault_tval,
        status,
        ..run
    }
}

impl Suite {
    /// The schedule before the first run.
    pub fn new() -> (r: Self)
        ensures
            r.current_run == 0,
            forall|i: int| 0 <= i < TOTAL_RUNS ==> #[trigger] r.runs[i] == scheduled_run(i),
    {
        Suite { runs: initial_runs(), current_run: 0 }
    }

    /// Resets run `index` and makes it current; `now` is the `mtime` value at
    /// which it enters user mode.
    pub fn launch_run(&mut self, index: usize, now: u64)
        requires
            index < TOTAL_RUNS,
        ensures
            final(self).current_run == index,
            final(self).runs@ == old(self).runs@.update(index as int, RunRecord {
                start_mtime: now, end_mtime: 0, elapsed_ticks: 0, elapsed_us: 0,
                exit_code: 0, fault_cause: 0, fault_tval: 0, status: RunStatus::Scheduled,
                ..old(self).runs[index as int]
            }),
    {
        self.current_run = index;
        let mut run = self.runs[index];
        run.start_mtime = now;
        run.end_mtime = 0;
        run.elapsed_ticks = 0;
        run.elapsed_us = 0;
        run.exit_code = 0;
        run.fault_cause = 0;
        run.fault_tval = 0;
        run.status = RunStatus::Scheduled;
        self.runs[index] = run;
    }

    /// The application of the run in progress.
    pub fn current_app(&self) -> (r: AppDefinition)
        requires
            self.current_run < TOTAL_RUNS,
            self.runs[self.current_run as int].app_index < APP_COUNT,
        ensures
            r.id == self.runs[self.current_run as int].app_index + 1,
    {
        let app_index = self.runs[self.current_run].app_index;
        let table = apps();
        table[app_index]
    }

    /// Records the end of the run in progress at `now`.
    pub fn complete_current_run(&mut self, status: RunStatus, exit_code: i32, fault_cause: u64, fault_tval: u64, now: u64)
        requires
            old(self).current_run < TOTAL_RUNS,
        ensures
            final(self).current_run == old(self).current_run,
            final(self).runs@ == old(self).runs@.update(old(self).current_run as int,
                completed(old(self).runs[old(self).current_run as int], status, exit_code, fault_cause, fault_tval, now)),
    {
        let mut run = self.runs[self.current_run];
        run.end_mtime = now;
        run.elapsed_ticks = run.end_mtime.wrapping_sub(run.start_mtime);
        run.elapsed_us = ticks_to_us(run.elapsed_ticks);
        run.exit_code = exit_code;
        run.fault_cause = fault_cause;
        run.fault_tval = fault_tval;
        run.status = status;
        self.runs[self.current_run] = run;
    }

    /// What follows the end of the run in progress.
    pub fn advance_to_next_run(&self) -> (r: KernelEffect)
        requires
            self.current_run < TOTAL_RUNS,
        ensures
            self.current_run + 1 < TOTAL_RUNS ==> r == (KernelEffect::Launch { index: (self.current_run + 1) as usize }),
            self.current_run + 1 >= TOTAL_RUNS ==> r is FinalReport,
    {
        let next = self.current_run + 1;
        if next < TOTAL_RUNS {
            KernelEffect::Launch { index: next }
        } else {
            KernelEffect::FinalReport
        }
    }

    /// The run exited with `code` at `now`.
    pub fn finish_current_run(&mut self, code: i32, now: u64) -> (r: KernelEffect)
        requires
            old(self).current_run < TOTAL_RUNS,
        ensures
            final(self).current_run == old(self).current_run,
            final(self).runs@ == old(self).runs@.update(old(self).current_run as int,
                completed(old(self).runs[old(self).current_run as int], RunStatus::Exited, code, 0, 0, now)),
            old(self).current_run + 1 < TOTAL_RUNS ==> r == (KernelEffect::Launch { index: (old(self).current_run + 1) as usize }),
            old(self).current_run + 1 >= TOTAL_RUNS ==> r is FinalReport,
    {
        self.complete_current_run(RunStatus::Exited, code, 0, 0, now);
        self.advance_to_next_run()
    }

    /// The run faulted with `mcause`/`mtval` at `now`.
    pub fn handle_user_fault(&mut self, mcause: usize, mtval: usize, now: u64) -> (r: KernelEffect)
        requires
            old(self).current_run < TOTAL_RUNS,
        ensures
            final(self).current_run == old(self).current_run,
            final(self).runs@ == old(self).runs@.update(old(self).current_run as int,
                completed(old(self).runs[old(self).current_run as int], RunStatus::Faulted, 0, mcause as u64, mtval as u64, now)),
            old(self).current_run + 1 < TOTAL_RUNS ==> r == (KernelEffect::Launch { index: (old(self).current_run + 1) as usize }),
            old(self).current_run + 1 >= TOTAL_RUNS ==> r is FinalReport,
    {
        self.complete_current_run(RunStatus::Faulted, 0, mcause as u64, mtval as u64, now);
        self.advance_to_next_run()
    }

    /// Handles the system call in `frame` and stores the result in `a0`.
    pub fn handle_syscall(&mut self, frame: &mut TrapFrame, now: u64, user_memory_end: usize) -> (r: KernelEffect)
        requires
            old(self).current_run < TOTAL_RUNS,
            old(self).runs[old(self).current_run as int].app_index < APP_COUNT,
        ensures
            final(self).current_run == old(self).current_run,
            old(frame).a7 == SYS_WRITE ==> {
                let res = write_result(old(frame).a0, old(frame).a1, user_memory_end);
                &&& final(frame).a0 == res as usize && final(self).runs == old(self).runs
                &&& (res >= 0 ==> r == (KernelEffect::ConsoleWrite { addr: old(frame).a0, len: old(frame).a1 }))
                &&& (res < 0 ==> r is Resume)
            },
            old(frame).a7 == SYS_GET_TASKINFO ==> {
                let res = user_mut_result(old(frame).a0, TASK_INFO_SIZE, TASK_INFO_ALIGN, user_memory_end);
                &&& final(self).runs == old(self).runs
                &&& (res is Ok ==> final(frame).a0 == 0 && (r matches KernelEffect::CopyTaskInfo { addr, info }
                        && addr == old(frame).a0 && info.task_id == old(self).runs[old(self).current_run as int].app_index + 1))
                &&& (res is Err ==> final(frame).a0 == res->Err_0 as usize && r is Resume)
            },
            old(frame).a7 == SYS_EXIT ==> {
                &&& final(self).runs@ == old(self).runs@.update(old(self).current_run as int,
                        completed(old(self).runs[old(self).current_run as int], RunStatus::Exited, old(frame).a0 as i32, 0, 0, now))
                &&& (old(self).current_run + 1 < TOTAL_RUNS ==> r == (KernelEffect::Launch { index: (old(self).current_run + 1) as usize }))
                &&& (old(self).current_run + 1 >= TOTAL_RUNS ==> r is FinalReport)
            },
            old(frame).a7 > SYS_EXIT ==> final(frame).a0 == ENOSYS as usize && final(self).runs == old(self).runs && r is Resume,
    {
        let nr = frame.a7;
        if nr == SYS_WRITE {
            let addr = frame.a0;
            let len = frame.a1;
            let result = sys_write(addr, len, user_memory_end);
            frame.a0 = result as usize;
            if result >= 0 { KernelEffect::ConsoleWrite { addr, len } } else { KernelEffect::Resume }
        } else if nr == SYS_GET_TASKINFO {
            let addr = frame.a0;
            match validated_user_mut(addr, TASK_INFO_SIZE, TASK_INFO_ALIGN, user_memory_end) {
                Ok(()) => {
                    let app = self.current_app();
                    frame.a0 = 0;
                    KernelEffect::CopyTaskInfo { addr, info: TaskInfo { task_id: app.id, task_name: app.task_name } }
                },
                Err(err) => {
                    frame.a0 = err as usize;
                    KernelEffect::Resume
                },
            }
        } else if nr == SYS_EXIT {
            self.finish_current_run(frame.a0 as i32, now)
        } else {
            frame.a0 = ENOSYS as usize;
            KernelEffect::Resume
        }
    }

    /// Statistics of the measured runs of application `app_index`.
    pub fn summarize_app(&self, app_index: usize) -> (r: AppTimingSummary)
        ensures
            r == summary_of(self.runs@, app_index, TOTAL_RUNS as int),
    {
        let mut summary = AppTimingSummary::empty();
        let mut index: usize = 0;
        while index < TOTAL_RUNS
            invariant
                index <= TOTAL_RUNS,
                summary == summary_of(self.runs@, app_index, index as int),
            decreases TOTAL_RUNS - index,
        {
            proof {
                lemma_summary_counts(self.runs@, app_index, index as int);
            }
            let run = self.runs[index];
            if run.app_index == app_index && run.counted {
                summary.runs = summary.runs + 1;
                if run.status == RunStatus::Exited && run.exit_code == 0 {
                    summary.successful_runs = summary.successful_runs + 1;
                    summary.total_ticks = summary.total_ticks.saturating_add(run.elapsed_ticks);
                    summary.total_us = summary.total_us.saturating_add(run.elapsed_us);
                    if summary.successful_runs == 1 {
                        summary.min_ticks = run.elapsed_ticks;
                        summary.max_ticks = run.elapsed_ticks;
                        summary.min_us = run.elapsed_us;
                        summary.max_us = run.elapsed_us;
                    } else {
                        summary.min_ticks = if summary.min_ticks <= run.elapsed_ticks { summary.min_ticks } else { run.elapsed_ticks };
                        summary.max_ticks = if summary.max_ticks >= run.elapsed_ticks { summary.max_ticks } else { run.elapsed_ticks };
                        summary.min_us = if summary.min_us <= run.elapsed_us { summary.min_us } else { run.elapsed_us };
                        summary.max_us = if summary.max_us >= run.elapsed_us { summary.max_us } else { run.elapsed_us };
                    }
                }
            }
            index += 1;
        }
        summary
    }

    /// Every run exited with code 0.
    pub fn every_run_exited_successfully(&self) -> (r: bool)
        ensures
            r == (forall|i: int| 0 <= i < TOTAL_RUNS ==> self.runs[i].status == RunStatus::Exited && self.runs[i].exit_code == 0),
    {
        let mut index: usize = 0;
        while index < TOTAL_RUNS
            invariant
                index <= TOTAL_RUNS,
                forall|i: int| 0 <= i < index ==> self.runs[i].status == RunStatus::Exited && self.runs[i].exit_code == 0,
            decreases TOTAL_RUNS - index,
        {
            let run = self.runs[index];
            if run.status != RunStatus::Exited || run.exit_code != 0 {
                return false;
            }
            index += 1;
        }
        true
    }

    /// Every run has a start time, ended after it started and took at least a microsecond.
    pub fn every_run_has_nonzero_timing(&self) -> (r: bool)
        ensures
            r == (forall|i: int| 0 <= i < TOTAL_RUNS ==> self.runs[i].start_mtime != 0
                && self.runs[i].end_mtime > self.runs[i].start_mtime && self.runs[i].elapsed_us != 0),
    {
        let mut index: usize = 0;
        while index < TOTAL_RUNS
            invariant
                index <= TOTAL_RUNS,
                forall|i: int| 0 <= i < index ==> self.runs[i].start_mtime != 0
                    && self.runs[i].end_mtime > self.runs[i].start_mtime && self.runs[i].elapsed_us != 0,
            decreases TOTAL_RUNS - index,
        {
            let run = self.runs[index];
            if run.start_mtime == 0 || run.end_mtime <= run.start_mtime || run.elapsed_us == 0 {
                return false;
            }
            index += 1;
        }
        true
    }

    /// Every application had exactly three successful measured runs.
    pub fn each_app_has_expected_run_count(&self) -> (r: bool)
        ensures
            r == (forall|a: usize| a < APP_COUNT ==> #[trigger] summary_of(self.runs@, a, TOTAL_RUNS as int).successful_runs == MEASURED_RUNS_PER_APP),
    {
        let mut app_index: usize = 0;
        while app_index < APP_COUNT
            invariant
                app_index <= APP_COUNT,
                forall|a: usize| a < app_index ==> #[trigger] summary_of(self.runs@, a, TOTAL_RUNS as int).successful_runs == MEASURED_RUNS_PER_APP,
            decreases APP_COUNT - app_index,
        {
            if self.summarize_app(app_index).successful_runs != MEASURED_RUNS_PER_APP {
                return false;
            }
            app_index += 1;
        }
        true
    }
}

} // verus!
