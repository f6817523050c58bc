//! The cost of a task switch: each round runs two tasks doing no-op system
//! calls one after the other, then the same number of yields ping-ponging
//! between them; the extra time divided by the switches estimates one switch.
use vstd::prelude::*;
use crate::common::abi::TrapFrame;
use crate::common::time::{saturating_mul, sat_mul, MTIME_FREQ_HZ, MTIME_TICK_NS};

verus! {

pub const TASK_COUNT: usize = 2;
pub const WARMUP_ROUNDS: usize = 1;
pub const MEASURED_ROUNDS: usize = 5;
pub const TOTAL_ROUNDS: usize = 6;
pub const OPS_PER_TASK: usize = 25_000;
pub const MODE_NOOP: usize = 0;
pub const MODE_YIELD: usize = 1;
pub const USER_ENV_CALL: u64 = 8;
pub const SYS_NOOP: usize = 0;
pub const SYS_YIELD: usize = 1;
pub const SYS_FINISH: usize = 2;
pub const ENOSYS: isize = -38;

#[derive(Clone, Copy, PartialEq, Eq, Structural)]
pub enum TaskState {
    Empty,
    Runnable,
    Finished,
}

#[derive(Clone, Copy, PartialEq, Eq, Structural)]
pub enum Phase {
    Baseline { round: usize },
    Yield { round: usize },
}

#[derive(Clone, Copy)]
pub struct TaskControlBlock {
    pub state: TaskState,
    pub frame: TrapFrame,
}

/// One round's measurements.
#[derive(Clone, Copy, PartialEq, Eq, Structural)]
pub struct RoundRecord {
    pub baseline_ticks: u64,
    pub baseline_ops: u64,
    pub yield_ticks: u64,
    pub yield_ops: u64,
    pub yield_switches: u64,
}

impl RoundRecord {
    pub open spec fn empty_spec() -> RoundRecord {
        RoundRecord { baseline_ticks: 0, baseline_ops: 0, yield_ticks: 0, yield_ops: 0, yield_switches: 0 }
    }

    pub fn empty() -> (r: Self)
        ensures
            r == RoundRecord::empty_spec(),
    {
        RoundRecord { baseline_ticks: 0, baseline_ops: 0, yield_ticks: 0, yield_ops: 0, yield_switches: 0 }
    }

    /// How much longer the yield run took than the baseline (0 if shorter).
    pub open spec fn extra(self) -> u64 {
        if self.yield_ticks >= self.baseline_ticks { (self.yield_ticks - self.baseline_ticks) as u64 } else { 0 }
    }

    pub fn extra_ticks(self) -> (r: u64)
        ensures
            r == self.extra(),
    {
        if self.yield_ticks >= self.baseline_ticks { self.yield_ticks - self.baseline_ticks } else { 0 }
    }
}

/// `ticks * 100` clamped to `u64::MAX`: nanoseconds covered by `ticks`.
pub fn ticks_to_ns(ticks: u64) -> (r: u64)
    ensures
        r == sat_mul(ticks as int, 100),
{
    saturating_mul(ticks, MTIME_TICK_NS)
}

/// Microseconds covered by `ticks`.
pub fn ticks_to_us(ticks: u64) -> (r: u64)
    ensures
        r == sat_mul(ticks as int, 1_000_000) / 10_000_000,
{
    saturating_mul(ticks, 1_000_000) / MTIME_FREQ_HZ
}

/// Nanoseconds per event, 0 without events.
pub open spec fn avg_ns(ticks: u64, count: u64) -> u64 {
    if count == 0 { 0 } else { (sat_mul(ticks as int, 100) / count as int) as u64 }
}

pub fn average_ns(ticks: u64, count: u64) -> (r: u64)
    ensures
        r == avg_ns(ticks, count),
{
    if count == 0 { 0 } else { ticks_to_ns(ticks) / count }
}

/// Totals over the measured rounds.
#[derive(Clone, Copy, PartialEq, Eq, Structural)]
pub struct Summary {
    pub rounds: usize,
    pub total_baseline_ticks: u64,
    pub total_yield_ticks: u64,
    pub total_extra_ticks: u64,
    pub total_switches: u64,
    pub min_switch_ns: u64,
    pub max_switch_ns: u64,
}

impl Summary {
    pub open spec fn empty_spec() -> Summary {
        Summary { rounds: 0, total_baseline_ticks: 0, total_yield_ticks: 0, total_extra_ticks: 0, total_switches: 0,
            min_switch_ns: 0, max_switch_ns: 0 }
    }

    pub fn empty() -> (r: Self)
        ensures
            r == Summary::empty_spec(),
    {
        Summary { rounds: 0, total_baseline_ticks: 0, total_yield_ticks: 0, total_extra_ticks: 0, total_switches: 0,
            min_switch_ns: 0, max_switch_ns: 0 }
    }

    /// The mean switch cost: all extra time over all switches.
    pub fn avg_switch_ns(self) -> (r: u64)
        ensures
            r == avg_ns(self.total_extra_ticks, self.total_switches),
    {
        if self.total_switches == 0 { 0 } else { ticks_to_ns(self.total_extra_ticks) / self.total_switches }
    }

    /// The summary with one more round added (sums wrap; a minimum of 0
    /// means none yet).
    pub open spec fn add_round(self, r: RoundRecord) -> Summary {
        let ns = avg_ns(r.extra(), r.yield_switches);
        Summary {
            rounds: (self.rounds + 1) as usize,
            total_baseline_ticks: self.total_baseline_ticks.wrapping_add(r.baseline_ticks),
            total_yield_ticks: self.total_yield_ticks.wrapping_add(r.yield_ticks),
            total_extra_ticks: self.total_extra_ticks.wrapping_add(r.extra()),
            total_switches: self.total_switches.wrapping_add(r.yield_switches),
            min_switch_ns: if self.min_switch_ns == 0 || ns < self.min_switch_ns { ns } else { self.min_switch_ns },
            max_switch_ns: if ns > self.max_switch_ns { ns } else { self.max_switch_ns },
        }
    }
}

/// The summary of the measured rounds `1..n`.
pub open spec fn summary_upto(records: Seq<RoundRecord>, n: int) -> Summary
    decreases n,
{
    if n <= WARMUP_ROUNDS { Summary::empty_spec() } else { summary_upto(records, n - 1).add_round(records[n - 1]) }
}

pub open spec fn sorted(s: Seq<u64>) -> bool {
    forall|i: int, j: int| 0 <= i <= j < s.len() ==> s[i] <= s[j]
}

/// Sorts `values` ascending, by insertion.
pub fn sort_u64_slice(values: &mut Vec<u64>)
    ensures
        sorted(final(values)@),
        final(values)@.to_multiset() == old(values)@.to_multiset(),
        final(values).len() == old(values).len(),
{
    let len = values.len();
    let mut i: usize = 1;
    if len == 0 {
        return;
    }
    while i < len
        invariant
            1 <= i <= len,
            len == values.len(),
            forall|a: int, b: int| 0 <= a <= b < i ==> values[a] <= values[b],
            values@.to_multiset() == old(values)@.to_multiset(),
        decreases len - i,
    {
        let mut j: usize = i;
        while j > 0 && values[j - 1] > values[j]
            invariant
                0 <= j <= i < len,
                len == values.len(),
                values@.to_multiset() == old(values)@.to_multiset(),
                forall|a: int, b: int| 0 <= a <= b <= i && a != j && b != j ==> values[a] <= values[b],
                forall|b: int| j < b <= i ==> values[j as int] < values[b],
            decreases j,
        {
            let ghost before = values@;
            let x = values[j - 1];
            let y = values[j];
            values.set(j - 1, y);
            values.set(j, x);
            proof {
                vstd::seq_lib::to_multiset_update(before, j - 1, y);
                vstd::seq_lib::to_multiset_update(before.update(j - 1, y), j as int, x);
                broadcast use vstd::multiset::group_multiset_axioms;
                let m = before.to_multiset();
                assert(before[j - 1] == x);
                before.to_multiset_ensures();
                assert(before.contains(x));
                assert(m.count(x) > 0);
                assert forall|v: u64| #[trigger] m.insert(y).remove(x).insert(x).remove(y).count(v) == m.count(v) by {
                }
                assert(m.insert(y).remove(x).insert(x).remove(y) =~= m);
                assert(values@ == before.update(j - 1, y).update(j as int, x));
            }
            j -= 1;
        }
        i += 1;
    }
}

/// Where the user tasks start.
#[derive(Clone, Copy)]
pub struct TaskLaunch {
    pub entry: usize,
    pub gp: usize,
    pub tp: usize,
    pub stack_tops: [usize; TASK_COUNT],
}

/// Task `slot`'s registers: the entry point gets the slot, the mode and
/// the number of operations.
pub open spec fn task_frame(launch: TaskLaunch, slot: int, mode: usize, iterations: usize) -> TrapFrame {
    TrapFrame { gp: launch.gp, tp: launch.tp, user_sp: launch.stack_tops[slot], mepc: launch.entry,
        a0: slot as usize, a1: mode, a2: iterations, ..TrapFrame::zeroed_spec() }
}

pub fn build_task(launch: &TaskLaunch, slot: usize, mode: usize, iterations: usize) -> (r: TaskControlBlock)
    requires
        slot < TASK_COUNT,
    ensures
        r == (TaskControlBlock { state: TaskState::Runnable, frame: task_frame(*launch, slot as int, mode, iterations) }),
{
    let mut frame = TrapFrame::zeroed();
    frame.gp = launch.gp;
    frame.tp = launch.tp;
    frame.user_sp = launch.stack_tops[slot];
    frame.mepc = launch.entry;
    frame.a0 = slot;
    frame.a1 = mode;
    frame.a2 = iterations;
    TaskControlBlock { state: TaskState::Runnable, frame }
}

/// The first runnable task after `current`, `current` itself last.
pub open spec fn next_after(tasks: Seq<TaskControlBlock>, current: int) -> Option<usize> {
    let other = (current + 1) % 2;
    if tasks[other].state == TaskState::Runnable {
        Some(other as usize)
    } else if tasks[current].state == TaskState::Runnable {
        Some(current as usize)
    } else {
        None
    }
}

/// Round robin between the two tasks: when the other task can run, it is
/// the one chosen; the current task is chosen only when the other cannot
/// run and it can; nothing is chosen when neither can. Whatever is chosen
/// is runnable.
pub proof fn law_next_after_round_robin(tasks: Seq<TaskControlBlock>, current: int)
    requires
        tasks.len() == TASK_COUNT,
        0 <= current < TASK_COUNT,
    ensures
        tasks[1 - current].state == TaskState::Runnable ==> next_after(tasks, current) == Some((1 - current) as usize),
        next_after(tasks, current) == Some(current as usize) ==> tasks[1 - current].state != TaskState::Runnable
            && tasks[current].state == TaskState::Runnable,
        next_after(tasks, current) is None <==> (tasks[0].state != TaskState::Runnable
            && tasks[1].state != TaskState::Runnable),
        next_after(tasks, current) matches Some(n) ==> n < TASK_COUNT && tasks[n as int].state == TaskState::Runnable,
{
}

/// What a system call led to.
#[derive(Clone, Copy, PartialEq, Eq, Structural)]
pub enum BenchOutcome {
    /// The same or the other task continues.
    Continue,
    /// A yield with no task able to run: the kernel stops.
    NoRunnablePeer,
    /// A phase ended and the next one started.
    BaselineDone { round: usize, elapsed: u64, hot_ops: u64 },
    YieldDone { round: usize, elapsed: u64, hot_ops: u64, switches: u64 },
    /// The last round ended.
    ExperimentDone,
    /// An unknown system call: `a0` holds `ENOSYS`.
    UnsupportedSyscall(usize),
    /// A trap the kernel does not handle: it stops.
    UnexpectedTrap,
}

/// The benchmark's state.
pub struct YieldBenchKernel {
    pub launch: TaskLaunch,
    pub tasks: [TaskControlBlock; TASK_COUNT],
    pub round_records: [RoundRecord; TOTAL_ROUNDS],
    pub current_phase: Phase,
    pub current_task: usize,
    pub phase_start_ticks: u64,
    pub phase_hot_ops: u64,
    pub phase_switches: u64,
}

/// The verdict over the measured rounds.
#[derive(Clone, Copy)]
pub struct BenchVerdict {
    pub summary: Summary,
    pub avg_switch_ns: u64,
    /// The per-round switch costs, sorted.
    pub sorted_samples: [u64; MEASURED_ROUNDS],
    pub median_switch_ns: u64,
    pub switch_count_ok: bool,
    pub positive_estimate: bool,
}

impl BenchVerdict {
    pub open spec fn passed(self) -> bool {
        self.median_switch_ns > 0 && self.switch_count_ok && self.positive_estimate
    }
}

/// The counts a measured round must show: every operation done and, in the
/// yield run, one switch per yield.
pub open spec fn counts_ok(r: RoundRecord) -> bool {
    r.baseline_ops == 50_000 && r.yield_ops == 50_000 && r.yield_switches == 50_000
}

impl YieldBenchKernel {
    /// A phase has just started in `mode`: both tasks rebuilt runnable from
    /// `launch`, task 0 current, and the phase counters cleared.
    pub open spec fn restarted(&self, launch: TaskLaunch, mode: usize) -> bool {
        &&& self.launch == launch
        &&& forall|i: int| 0 <= i < TASK_COUNT ==> #[trigger] self.tasks[i] == (TaskControlBlock {
                state: TaskState::Runnable, frame: task_frame(launch, i, mode, OPS_PER_TASK) })
        &&& self.current_task == 0
        &&& self.phase_hot_ops == 0
        &&& self.phase_switches == 0
    }

    pub open spec fn wf(&self) -> bool {
        &&& self.current_task < TASK_COUNT
        &&& match self.current_phase {
            Phase::Baseline { round } => round < TOTAL_ROUNDS,
            Phase::Yield { round } => round < TOTAL_ROUNDS,
        }
    }

    /// Boot: every record empty and round 0's baseline started at `now`.
    pub fn new(launch: TaskLaunch, now: u64) -> (r: Self)
        ensures
            r.wf(),
            r.current_phase == (Phase::Baseline { round: 0 }),
            r.phase_start_ticks == now,
            forall|i: int| 0 <= i < TOTAL_ROUNDS ==> #[trigger] r.round_records[i] == RoundRecord::empty_spec(),
    {
        let mut k = YieldBenchKernel {
            launch,
            tasks: [TaskControlBlock { state: TaskState::Empty, frame: TrapFrame::zeroed() }; TASK_COUNT],
            round_records: [RoundRecord::empty(); TOTAL_ROUNDS],
            current_phase: Phase::Baseline { round: 0 },
            current_task: 0,
            phase_start_ticks: 0,
            phase_hot_ops: 0,
            phase_switches: 0,
        };
        k.start_baseline_round(0, now);
        k
    }

    /// Both tasks fresh in `mode`, counters cleared, timing from `now`.
    pub fn start_phase(&mut self, mode: usize, now: u64)
        ensures
            final(self).current_task == 0,
            final(self).phase_hot_ops == 0,
            final(self).phase_switches == 0,
            final(self).phase_start_ticks == now,
            forall|i: int| 0 <= i < TASK_COUNT ==> #[trigger] final(self).tasks[i] == (TaskControlBlock {
                state: TaskState::Runnable, frame: task_frame(old(self).launch, i, mode, OPS_PER_TASK) }),
            final(self).launch == old(self).launch,
            final(self).round_records == old(self).round_records,
            final(self).current_phase == old(self).current_phase,
    {
        self.current_task = 0;
        self.phase_hot_ops = 0;
        self.phase_switches = 0;
        let mut slot: usize = 0;
        while slot < TASK_COUNT
            invariant
                slot <= TASK_COUNT,
                self.launch == old(self).launch,
                self.round_records == old(self).round_records,
                self.current_phase == old(self).current_phase,
                self.current_task == 0 && self.phase_hot_ops == 0 && self.phase_switches == 0,
                forall|i: int| 0 <= i < slot ==> #[trigger] self.tasks[i] == (TaskControlBlock {
                    state: TaskState::Runnable, frame: task_frame(old(self).launch, i, mode, OPS_PER_TASK) }),
            decreases TASK_COUNT - slot,
        {
            let t = build_task(&self.launch, slot, mode, OPS_PER_TASK);
            self.tasks[slot] = t;
            slot += 1;
        }
        self.phase_start_ticks = now;
    }

    pub fn start_baseline_round(&mut self, round: usize, now: u64)
        requires
            round < TOTAL_ROUNDS,
        ensures
            final(self).wf(),
            final(self).current_phase == (Phase::Baseline { round }),
            final(self).current_task == 0 && final(self).phase_hot_ops == 0 && final(self).phase_switches == 0,
            final(self).phase_start_ticks == now,
            forall|i: int| 0 <= i < TASK_COUNT ==> #[trigger] final(self).tasks[i] == (TaskControlBlock {
                state: TaskState::Runnable, frame: task_frame(old(self).launch, i, MODE_NOOP, OPS_PER_TASK) }),
            final(self).launch == old(self).launch,
            final(self).round_records == old(self).round_records,
    {
        self.current_phase = Phase::Baseline { round };
        self.start_phase(MODE_NOOP, now);
    }

    pub fn start_yield_round(&mut self, round: usize, now: u64)
        requires
            round < TOTAL_ROUNDS,
        ensures
            final(self).wf(),
            final(self).current_phase == (Phase::Yield { round }),
            final(self).current_task == 0 && final(self).phase_hot_ops == 0 && final(self).phase_switches == 0,
            final(self).phase_start_ticks == now,
            forall|i: int| 0 <= i < TASK_COUNT ==> #[trigger] final(self).tasks[i] == (TaskControlBlock {
                state: TaskState::Runnable, frame: task_frame(old(self).launch, i, MODE_YIELD, OPS_PER_TASK) }),
            final(self).launch == old(self).launch,
            final(self).round_records == old(self).round_records,
    {
        self.current_phase = Phase::Yield { round };
        self.start_phase(MODE_YIELD, now);
    }

    /// The first runnable task after `current`, `current` itself last.
    pub fn next_runnable_after(&self, current: usize) -> (r: Option<usize>)
        requires
            current < TASK_COUNT,
        ensures
            r == next_after(self.tasks@, current as int),
    {
        let other = (current + 1) % TASK_COUNT;
        if self.tasks[other].state == TaskState::Runnable {
            Some(other)
        } else if self.tasks[current].state == TaskState::Runnable {
            Some(current)
        } else {
            None
        }
    }

    /// A yield: counted as an operation, the registers saved, and the next
    /// runnable task resumed (a switch when it is the other one).
    pub fn handle_yield(&mut self, frame: &mut TrapFrame) -> (r: BenchOutcome)
        requires
            old(self).wf(),
        ensures
            final(self).wf(),
            ({
                let cur = old(self).current_task as int;
                let tasks = old(self).tasks@.update(cur, TaskControlBlock { frame: *old(frame), ..old(self).tasks[cur] });
                &&& final(self).phase_hot_ops == old(self).phase_hot_ops.wrapping_add(1)
                &&& final(self).tasks@ == tasks
                &&& final(self).round_records == old(self).round_records
                &&& final(self).current_phase == old(self).current_phase
                &&& match next_after(tasks, cur) {
                    None => r == BenchOutcome::NoRunnablePeer && final(self).current_task == old(self).current_task
                        && final(self).phase_switches == old(self).phase_switches,
                    Some(next) => r == BenchOutcome::Continue && final(self).current_task == next
                        && *final(frame) == tasks[next as int].frame
                        && final(self).phase_switches == (if next != cur { old(self).phase_switches.wrapping_add(1) }
                            else { old(self).phase_switches }),
                }
            }),
    {
        self.phase_hot_ops = self.phase_hot_ops.wrapping_add(1);
        let current = self.current_task;
        let mut t = self.tasks[current];
        t.frame = *frame;
        self.tasks[current] = t;
        let next = match self.next_runnable_after(current) {
            Some(n) => n,
            None => return BenchOutcome::NoRunnablePeer,
        };
        if next != current {
            self.phase_switches = self.phase_switches.wrapping_add(1);
        }
        self.current_task = next;
        *frame = self.tasks[next].frame;
        BenchOutcome::Continue
    }

    /// The end of a phase at `end_ticks`: its time and counts go into the
    /// round's record, then the next phase starts at `next_start_ticks` (a
    /// baseline is followed by the same round's yield run, a yield run by
    /// the next round's baseline) or the experiment is over.
    pub fn finish_phase(&mut self, frame: &mut TrapFrame, end_ticks: u64, next_start_ticks: u64) -> (r: BenchOutcome)
        requires
            old(self).wf(),
        ensures
            final(self).wf(),
            ({
                let elapsed = if end_ticks >= old(self).phase_start_ticks { (end_ticks - old(self).phase_start_ticks) as u64 } else { 0 };
                let hot = old(self).phase_hot_ops;
                match old(self).current_phase {
                    Phase::Baseline { round } => {
                        &&& r == (BenchOutcome::BaselineDone { round, elapsed, hot_ops: hot })
                        &&& final(self).round_records@ == old(self).round_records@.update(round as int, RoundRecord {
                            baseline_ticks: elapsed, baseline_ops: hot, ..old(self).round_records[round as int] })
                        &&& final(self).current_phase == (Phase::Yield { round })
                        &&& final(self).phase_start_ticks == next_start_ticks
                        &&& final(self).restarted(old(self).launch, MODE_YIELD)
                        &&& *final(frame) == final(self).tasks[0].frame
                    },
                    Phase::Yield { round } => {
                        &&& final(self).round_records@ == old(self).round_records@.update(round as int, RoundRecord {
                            yield_ticks: elapsed, yield_ops: hot, yield_switches: old(self).phase_switches,
                            ..old(self).round_records[round as int] })
                        &&& round + 1 < TOTAL_ROUNDS ==> r == (BenchOutcome::YieldDone { round, elapsed, hot_ops: hot,
                            switches: old(self).phase_switches })
                            && final(self).current_phase == (Phase::Baseline { round: (round + 1) as usize })
                            && final(self).phase_start_ticks == next_start_ticks
                            && final(self).restarted(old(self).launch, MODE_NOOP)
                            && *final(frame) == final(self).tasks[0].frame
                        &&& round + 1 >= TOTAL_ROUNDS ==> r == BenchOutcome::ExperimentDone
                            && final(self).current_phase == old(self).current_phase
                            && final(self).tasks == old(self).tasks
                            && final(self).current_task == old(self).current_task
                            && *final(frame) == *old(frame)
                    },
                }
            }),
    {
        let elapsed = if end_ticks >= self.phase_start_ticks { end_ticks - self.phase_start_ticks } else { 0 };
        let hot_ops = self.phase_hot_ops;
        let switches = self.phase_switches;
        match self.current_phase {
            Phase::Baseline { round } => {
                let mut rec = self.round_records[round];
                rec.baseline_ticks = elapsed;
                rec.baseline_ops = hot_ops;
                self.round_records[round] = rec;
                self.start_yield_round(round, next_start_ticks);
                *frame = self.tasks[self.current_task].frame;
                BenchOutcome::BaselineDone { round, elapsed, hot_ops }
            },
            Phase::Yield { round } => {
                let mut rec = self.round_records[round];
                rec.yield_ticks = elapsed;
                rec.yield_ops = hot_ops;
                rec.yield_switches = switches;
                self.round_records[round] = rec;
                if round + 1 < TOTAL_ROUNDS {
                    self.start_baseline_round(round + 1, next_start_ticks);
                    *frame = self.tasks[self.current_task].frame;
                    BenchOutcome::YieldDone { round, elapsed, hot_ops, switches }
                } else {
                    BenchOutcome::ExperimentDone
                }
            },
        }
    }

    /// A task finished: the other one continues if it can, else the phase
    /// ends (see `finish_phase`).
    pub fn handle_finish(&mut self, frame: &mut TrapFrame, end_ticks: u64, next_start_ticks: u64) -> (r: BenchOutcome)
        requires
            old(self).wf(),
        ensures
            final(self).wf(),
            ({
                let cur = old(self).current_task as int;
                let tasks = old(self).tasks@.update(cur, TaskControlBlock { state: TaskState::Finished, ..old(self).tasks[cur] });
                next_after(tasks, cur) matches Some(next) ==> r == BenchOutcome::Continue && final(self).current_task == next
                    && final(self).tasks@ == tasks && *final(frame) == tasks[next as int].frame
                    && final(self).round_records == old(self).round_records
            }),
    {
        let current = self.current_task;
        let mut t = self.tasks[current];
        t.state = TaskState::Finished;
        self.tasks[current] = t;
        if let Some(next) = self.next_runnable_after(current) {
            self.current_task = next;
            *frame = self.tasks[next].frame;
            return BenchOutcome::Continue;
        }
        self.finish_phase(frame, end_ticks, next_start_ticks)
    }

    /// A trap: only system calls are expected; `mepc` is moved past the
    /// `ecall` and `a7` selects no-op, yield or exit.
    pub fn dispatch_trap(&mut self, frame: &mut TrapFrame, mcause: u64, end_ticks: u64, next_start_ticks: u64) -> (r: BenchOutcome)
        requires
            old(self).wf(),
        ensures
            final(self).wf(),
            mcause != USER_ENV_CALL ==> r == BenchOutcome::UnexpectedTrap && *final(frame) == *old(frame),
            mcause == USER_ENV_CALL && old(frame).a7 == SYS_NOOP ==> r == BenchOutcome::Continue
                && final(self).phase_hot_ops == old(self).phase_hot_ops.wrapping_add(1) && final(frame).a0 == 0
                && final(frame).mepc == old(frame).mepc.wrapping_add(4),
            mcause == USER_ENV_CALL && old(frame).a7 > SYS_FINISH ==> r == BenchOutcome::UnsupportedSyscall(old(frame).a7)
                && final(frame).a0 == ENOSYS as usize,
    {
        if mcause != USER_ENV_CALL {
            return BenchOutcome::UnexpectedTrap;
        }
        frame.mepc = frame.mepc.wrapping_add(4);
        if frame.a7 == SYS_NOOP {
            self.phase_hot_ops = self.phase_hot_ops.wrapping_add(1);
            frame.a0 = 0;
            BenchOutcome::Continue
        } else if frame.a7 == SYS_YIELD {
            self.handle_yield(frame)
        } else if frame.a7 == SYS_FINISH {
            self.handle_finish(frame, end_ticks, next_start_ticks)
        } else {
            frame.a0 = ENOSYS as usize;
            BenchOutcome::UnsupportedSyscall(frame.a7)
        }
    }

    /// The verdict over the measured rounds: totals, mean and median
    /// switch cost, whether every round counted what it should, and whether
    /// yielding always cost extra time.
    pub fn finish_experiment(&self) -> (r: BenchVerdict)
        ensures
            r.summary == summary_upto(self.round_records@, TOTAL_ROUNDS as int),
            r.avg_switch_ns == avg_ns(r.summary.total_extra_ticks, r.summary.total_switches),
            sorted(r.sorted_samples@),
            r.sorted_samples@.to_multiset() == Seq::new(5, |i: int| avg_ns(self.round_records[i + 1].extra(),
                self.round_records[i + 1].yield_switches)).to_multiset(),
            r.median_switch_ns == r.sorted_samples[2],
            r.switch_count_ok == (forall|i: int| 1 <= i < TOTAL_ROUNDS ==> #[trigger] counts_ok(self.round_records[i])),
            r.positive_estimate == (forall|i: int| 1 <= i < TOTAL_ROUNDS ==> #[trigger] self.round_records[i].extra() > 0),
    {
        let mut summary = Summary::empty();
        let mut positive_estimate = true;
        let mut switch_count_ok = true;
        let expected_ops = (TASK_COUNT * OPS_PER_TASK) as u64;
        let mut samples: Vec<u64> = Vec::new();
        let mut round: usize = WARMUP_ROUNDS;
        let ghost want = Seq::new(5, |i: int| avg_ns(self.round_records[i + 1].extra(), self.round_records[i + 1].yield_switches));
        while round < TOTAL_ROUNDS
            invariant
                WARMUP_ROUNDS <= round <= TOTAL_ROUNDS,
                expected_ops == 50_000,
                summary == summary_upto(self.round_records@, round as int),
                summary.rounds == round - 1,
                samples@ == want.subrange(0, round - 1),
                want == Seq::new(5, |i: int| avg_ns(self.round_records[i + 1].extra(), self.round_records[i + 1].yield_switches)),
                switch_count_ok == (forall|i: int| 1 <= i < round ==> #[trigger] counts_ok(self.round_records[i])),
                positive_estimate == (forall|i: int| 1 <= i < round ==> #[trigger] self.round_records[i].extra() > 0),
            decreases TOTAL_ROUNDS - round,
        {
            let record = self.round_records[round];
            let extra_ticks = record.extra_ticks();
            let per_switch_ns = average_ns(extra_ticks, record.yield_switches);
            let ghost before_pos = positive_estimate;
            let ghost before_ok = switch_count_ok;
            positive_estimate = positive_estimate && extra_ticks > 0;
            switch_count_ok = switch_count_ok && record.baseline_ops == expected_ops && record.yield_ops == expected_ops
                && record.yield_switches == expected_ops;
            samples.push(per_switch_ns);
            summary.rounds = summary.rounds + 1;
            summary.total_baseline_ticks = summary.total_baseline_ticks.wrapping_add(record.baseline_ticks);
            summary.total_yield_ticks = summary.total_yield_ticks.wrapping_add(record.yield_ticks);
            summary.total_extra_ticks = summary.total_extra_ticks.wrapping_add(extra_ticks);
            summary.total_switches = summary.total_switches.wrapping_add(record.yield_switches);
            if summary.min_switch_ns == 0 || per_switch_ns < summary.min_switch_ns {
                summary.min_switch_ns = per_switch_ns;
            }
            if per_switch_ns > summary.max_switch_ns {
                summary.max_switch_ns = per_switch_ns;
            }
            proof {
                assert(samples@ =~= want.subrange(0, round - 0));
                assert(positive_estimate == (forall|i: int| 1 <= i < round + 1 ==> #[trigger] self.round_records[i].extra() > 0)) by {
                    if before_pos && record.extra() > 0 {
                        assert forall|i: int| 1 <= i < round + 1 implies #[trigger] self.round_records[i].extra() > 0 by {
                            if i < round {
                            }
                        }
                    }
                }
                assert(switch_count_ok == (forall|i: int| 1 <= i < round + 1 ==> #[trigger] counts_ok(self.round_records[i]))) by {
                    if before_ok && counts_ok(record) {
                        assert forall|i: int| 1 <= i < round + 1 implies #[trigger] counts_ok(self.round_records[i]) by {
                            if i < round {
                            }
                        }
                    }
                }
            }
            round += 1;
        }
        assert(samples@ =~= want);
        let avg_switch_ns = summary.avg_switch_ns();
        sort_u64_slice(&mut samples);
        let sorted_samples = [samples[0], samples[1], samples[2], samples[3], samples[4]];
        assert(sorted_samples@ =~= samples@);
        let median_switch_ns = sorted_samples[MEASURED_ROUNDS / 2];
        BenchVerdict { summary, avg_switch_ns, sorted_samples, median_switch_ns, switch_count_ok, positive_estimate }
    }
}

/// The label of a round; round 0 is the warm-up.
pub fn round_label(round: usize) -> (r: &'static str)
    ensures
        round == 0 ==> r@ == "round#0(warm-up)"@,
        round == 3 ==> r@ == "round#3"@,
        round > 5 ==> r@ == "round#?"@,
{
    match round {
        0 => "round#0(warm-up)",
        1 => "round#1",
        2 => "round#2",
        3 => "round#3",
        4 => "round#4",
        5 => "round#5",
        _ => "round#?",
    }
}

} // verus!
