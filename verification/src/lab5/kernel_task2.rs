//! Two scheduling phases over the same three tasks: round robin, then static
//! priority with round robin among equals. The interactive task yields often;
//! the two compute tasks run until preempted by the time slice.
use vstd::prelude::*;
use crate::common::abi::TrapFrame;
use crate::common::time::{saturating_mul, sat_mul};

verus! {

pub const TASK_COUNT: usize = 3;
pub const PHASE_COUNT: usize = 2;
pub const PRIORITY_LEVELS: usize = 4;
pub const NO_TASK: usize = usize::MAX;
pub const TIME_SLICE_TICKS: u64 = 18_000;
pub const SCHED_TRACE_LIMIT: usize = 18;
pub const USER_ENV_CALL: u64 = 8;
/// `mcause` of a machine timer interrupt (interrupt bit and cause 7).
pub const MACHINE_TIMER_INTERRUPT: u64 = 0x8000_0000_0000_0007;
pub const ENABLE_SCHED_TRACE: bool = true;
pub const SYS_YIELD: usize = 0;
pub const SYS_FINISH: usize = 1;
pub const ENOSYS: isize = -38;

#[derive(Clone, Copy, PartialEq, Eq, Structural)]
pub enum TaskState {
    Runnable,
    Finished,
}

#[derive(Clone, Copy, PartialEq, Eq, Structural)]
pub enum TaskClass {
    Interactive,
    Compute,
}

impl TaskClass {
    pub fn as_str(self) -> (r: &'static str)
        ensures
            self == TaskClass::Interactive ==> r@ == "interactive"@,
            self == TaskClass::Compute ==> r@ == "compute"@,
    {
        match self {
            TaskClass::Interactive => "interactive",
            TaskClass::Compute => "compute",
        }
    }
}

#[derive(Clone, Copy, PartialEq, Eq, Structural)]
pub enum SchedulerPolicy {
    RoundRobin,
    StaticPriority,
}

impl SchedulerPolicy {
    pub fn as_str(self) -> (r: &'static str)
        ensures
            self == SchedulerPolicy::RoundRobin ==> r@ == "round_robin"@,
            self == SchedulerPolicy::StaticPriority ==> r@ == "static_priority"@,
    {
        match self {
            SchedulerPolicy::RoundRobin => "round_robin",
            SchedulerPolicy::StaticPriority => "static_priority",
        }
    }
}

#[derive(Clone, Copy, PartialEq, Eq, Structural)]
pub enum SwitchReason {
    Boot,
    ExplicitYield,
    TimeSlice,
    TaskExit,
}

impl SwitchReason {
    pub fn as_str(self) -> (r: &'static str)
        ensures
            self == SwitchReason::Boot ==> r@ == "boot"@,
            self == SwitchReason::ExplicitYield ==> r@ == "explicit_yield"@,
            self == SwitchReason::TimeSlice ==> r@ == "time_slice"@,
            self == SwitchReason::TaskExit ==> r@ == "task_exit"@,
    {
        match self {
            SwitchReason::Boot => "boot",
            SwitchReason::ExplicitYield => "explicit_yield",
            SwitchReason::TimeSlice => "time_slice",
            SwitchReason::TaskExit => "task_exit",
        }
    }
}

/// A task of the suite.
#[derive(Clone, Copy)]
pub struct TaskDefinition {
    pub id: u64,
    pub name: &'static str,
    pub class: TaskClass,
    pub priority: usize,
}

/// The static priority of task `i` (lower runs first).
pub open spec fn priority_of(i: int) -> usize {
    if i == 0 { 0 } else { 2 }
}

/// The three tasks in index order.
pub fn task_def(index: usize) -> (r: TaskDefinition)
    requires
        index < TASK_COUNT,
    ensures
        r.id == index + 1,
        r.priority == priority_of(index as int),
        index == 0 ==> r.class == TaskClass::Interactive,
        index != 0 ==> r.class == TaskClass::Compute,
{
    if index == 0 {
        TaskDefinition { id: 1, name: "interactive_proc", class: TaskClass::Interactive, priority: 0 }
    } else if index == 1 {
        TaskDefinition { id: 2, name: "compute_short", class: TaskClass::Compute, priority: 2 }
    } else {
        TaskDefinition { id: 3, name: "compute_long", class: TaskClass::Compute, priority: 2 }
    }
}

/// The phase's name and policy.
pub fn phase_def(index: usize) -> (r: (&'static str, SchedulerPolicy))
    requires
        index < PHASE_COUNT,
    ensures
        index == 0 ==> r.0@ == "rr_baseline"@ && r.1 == SchedulerPolicy::RoundRobin,
        index == 1 ==> r.0@ == "priority_compare"@ && r.1 == SchedulerPolicy::StaticPriority,
{
    if index == 0 { ("rr_baseline", SchedulerPolicy::RoundRobin) } else { ("priority_compare", SchedulerPolicy::StaticPriority) }
}

pub open spec fn policy_of(phase: int) -> SchedulerPolicy {
    if phase == 0 { SchedulerPolicy::RoundRobin } else { SchedulerPolicy::StaticPriority }
}

/// What the task does, for the report.
pub fn task_role(task_index: usize) -> (r: &'static str)
    ensures
        task_index == 0 ==> r@ == "yield-heavy short-burst interactive workload"@,
        task_index == 1 ==> r@ == "cpu-bound short compute workload"@,
        task_index == 2 ==> r@ == "cpu-bound long compute workload"@,
        task_index > 2 ==> r@ == "unknown"@,
{
    match task_index {
        0 => "yield-heavy short-burst interactive workload",
        1 => "cpu-bound short compute workload",
        2 => "cpu-bound long compute workload",
        _ => "unknown",
    }
}

/// `PASS` or `FAIL`.
pub fn pass_fail(condition: bool) -> (r: &'static str)
    ensures
        condition ==> r@ == "PASS"@,
        !condition ==> r@ == "FAIL"@,
{
    if condition { "PASS" } else { "FAIL" }
}

/// A task's saved registers and per-phase accounting.
#[derive(Clone, Copy)]
pub struct TaskControlBlock {
    pub state: TaskState,
    pub frame: TrapFrame,
    pub exit_code: u64,
    pub switch_ins: u64,
    pub runtime_ticks: u64,
    pub last_resume_tick: u64,
    pub finish_tick: u64,
    pub finish_order: u64,
    pub explicit_yields: u64,
    pub time_slice_preemptions: u64,
}

impl TaskControlBlock {
    /// A runnable task with cleared registers and counters.
    pub open spec fn empty_spec() -> TaskControlBlock {
        TaskControlBlock { state: TaskState::Runnable, frame: TrapFrame::zeroed_spec(), exit_code: 0, switch_ins: 0,
            runtime_ticks: 0, last_resume_tick: 0, finish_tick: 0, finish_order: 0, explicit_yields: 0,
            time_slice_preemptions: 0 }
    }

    pub fn empty() -> (r: Self)
        ensures
            r == TaskControlBlock::empty_spec(),
    {
        TaskControlBlock { state: TaskState::Runnable, frame: TrapFrame::zeroed(), exit_code: 0, switch_ins: 0,
            runtime_ticks: 0, last_resume_tick: 0, finish_tick: 0, finish_order: 0, explicit_yields: 0,
            time_slice_preemptions: 0 }
    }
}

#[derive(Clone, Copy)]
pub struct TaskPhaseStats {
    pub pid: u64,
    pub priority: u64,
    pub switch_ins: u64,
    pub runtime_ticks: u64,
    pub finish_tick: u64,
    pub finish_order: u64,
    pub explicit_yields: u64,
    pub time_slice_preemptions: u64,
    pub exit_code: u64,
}

impl TaskPhaseStats {
    /// Every field zero.
    pub open spec fn zero() -> Self {
        TaskPhaseStats { pid: 0, priority: 0, switch_ins: 0, runtime_ticks: 0, finish_tick: 0, finish_order: 0,
            explicit_yields: 0, time_slice_preemptions: 0, exit_code: 0 }
    }

    pub fn empty() -> (r: Self)
        ensures
            r.pid == 0 && r.priority == 0 && r.switch_ins == 0 && r.runtime_ticks == 0 && r.finish_tick == 0,
            r.finish_order == 0 && r.explicit_yields == 0 && r.time_slice_preemptions == 0 && r.exit_code == 0,
    {
        TaskPhaseStats { pid: 0, priority: 0, switch_ins: 0, runtime_ticks: 0, finish_tick: 0, finish_order: 0,
            explicit_yields: 0, time_slice_preemptions: 0, exit_code: 0 }
    }
}

#[derive(Clone, Copy)]
pub struct PhaseSummary {
    pub total_switches: u64,
    pub explicit_yield_switches: u64,
    pub time_slice_switches: u64,
    pub task_exit_switches: u64,
    pub timer_interrupts: u64,
    pub task_stats: [TaskPhaseStats; TASK_COUNT],
}

impl PhaseSummary {
    pub fn empty() -> (r: Self)
        ensures
            r.total_switches == 0 && r.explicit_yield_switches == 0 && r.time_slice_switches == 0,
            r.task_exit_switches == 0 && r.timer_interrupts == 0,
            forall|i: int| 0 <= i < TASK_COUNT ==> #[trigger] r.task_stats[i] == TaskPhaseStats::zero(),
    {
        let t = TaskPhaseStats::empty();
        let r = PhaseSummary { total_switches: 0, explicit_yield_switches: 0, time_slice_switches: 0, task_exit_switches: 0,
            timer_interrupts: 0, task_stats: [t; TASK_COUNT] };
        proof {
            broadcast use vstd::array::axiom_spec_array_fill_for_copy_type;
            assert(t == TaskPhaseStats::zero());
        }
        r
    }
}

/// Runtime share of the interactive task in tenths of a percent.
pub fn service_share_tenths(runtime_ticks: u64, finish_tick: u64) -> (r: u64)
    ensures
        finish_tick == 0 ==> r == 0,
        finish_tick != 0 ==> r == (runtime_ticks * 1000 / finish_tick as int) as u64,
{
    if finish_tick == 0 {
        0
    } else {
        ((runtime_ticks as u128) * 1000 / (finish_tick as u128)) as u64
    }
}

/// The candidate `index` may be picked: runnable, and not `current` when
/// the current task gave up the CPU.
pub open spec fn candidate(tasks: Seq<TaskControlBlock>, current: int, exclude_current: bool, index: int) -> bool {
    !(exclude_current && index == current) && tasks[index].state == TaskState::Runnable
}

/// Round robin: the first runnable task after `current` in circular order,
/// `current` itself last.
pub open spec fn rr_choice(tasks: Seq<TaskControlBlock>, current: int) -> Option<usize> {
    let a = (current + 1) % 3;
    let b = (current + 2) % 3;
    if tasks[a].state == TaskState::Runnable {
        Some(a as usize)
    } else if tasks[b].state == TaskState::Runnable {
        Some(b as usize)
    } else if tasks[current].state == TaskState::Runnable {
        Some(current as usize)
    } else {
        None
    }
}

/// The task `k` steps after `c` in circular order.
pub open spec fn circular(c: int, k: int) -> int {
    (c + k) % 3
}

/// Round robin over the three tasks: the choice is the first runnable task
/// reached from `current` going forward in circular order (every task
/// passed on the way cannot run), `current` itself last; nothing is chosen
/// only when no task can run.
pub proof fn law_rr_choice_is_first_runnable_after(tasks: Seq<TaskControlBlock>, current: int)
    requires
        tasks.len() == TASK_COUNT,
        0 <= current < TASK_COUNT,
    ensures
        rr_choice(tasks, current) matches Some(n) ==> n < TASK_COUNT && tasks[n as int].state == TaskState::Runnable
            && exists|k: int| 1 <= k <= 3 && #[trigger] circular(current, k) == n
                && forall|m: int| 1 <= m < k ==> tasks[#[trigger] circular(current, m)].state != TaskState::Runnable,
        rr_choice(tasks, current) is None <==> forall|i: int| 0 <= i < TASK_COUNT ==> tasks[i].state != TaskState::Runnable,
{
    let a = (current + 1) % 3;
    let b = (current + 2) % 3;
    assert((current + 3) % 3 == current);
    assert(circular(current, 1) == a && circular(current, 2) == b && circular(current, 3) == current);
    if tasks[a].state == TaskState::Runnable {
    } else if tasks[b].state == TaskState::Runnable {
        assert forall|m: int| 1 <= m < 2 implies tasks[#[trigger] circular(current, m)].state != TaskState::Runnable by {
            assert(m == 1);
        }
    } else if tasks[current].state == TaskState::Runnable {
        assert forall|m: int| 1 <= m < 3 implies tasks[#[trigger] circular(current, m)].state != TaskState::Runnable by {
            assert(m == 1 || m == 2);
        }
    } else {
        assert forall|i: int| 0 <= i < TASK_COUNT implies tasks[i].state != TaskState::Runnable by {
            assert(i == a || i == b || i == current);
        }
    }
}

/// Static priority: the task chosen can run (and is not the task giving up
/// the CPU), no task that could be chosen has a better (lower) priority, and
/// nothing is chosen only when no task could be.
pub proof fn law_priority_choice_is_best(tasks: Seq<TaskControlBlock>, last_pick: Seq<usize>, current: int, reason: SwitchReason)
    requires
        tasks.len() == TASK_COUNT,
        0 <= current < TASK_COUNT,
    ensures
        ({
            let exclude = excludes_current(reason);
            &&& priority_choice(tasks, last_pick, current, reason) matches Some(n) ==> {
                &&& n < TASK_COUNT && tasks[n as int].state == TaskState::Runnable && !(exclude && n == current)
                &&& forall|i: int| 0 <= i < TASK_COUNT && tasks[i].state == TaskState::Runnable && !(exclude && i == current)
                    ==> priority_of(n as int) <= #[trigger] priority_of(i)
            }
            &&& priority_choice(tasks, last_pick, current, reason) is None <==> forall|i: int| 0 <= i < TASK_COUNT
                ==> !(tasks[i].state == TaskState::Runnable && !(exclude && i == current))
        }),
{
    let exclude = excludes_current(reason);
    let p = best_priority(tasks, current, exclude);
    assert forall|i: int| 0 <= i < TASK_COUNT && tasks[i].state == TaskState::Runnable && !(exclude && i == current)
        implies p <= priority_of(i) by {
        assert(candidate(tasks, current, exclude, i));
        assert(i == 0 || i == 1 || i == 2);
    }
    if p != usize::MAX as int {
        let start = priority_start(last_pick, p);
        assert(0 <= start < 3);
        assert(p == candidate_priority(tasks, current, exclude, 0) || p == candidate_priority(tasks, current, exclude, 1)
            || p == candidate_priority(tasks, current, exclude, 2));
    }
}

/// Whether the switch `reason` takes the current task out of the choice.
pub open spec fn excludes_current(reason: SwitchReason) -> bool {
    reason == SwitchReason::ExplicitYield || reason == SwitchReason::TaskExit
}

/// The priority of `index` if it is a candidate, else a value above every
/// priority.
pub open spec fn candidate_priority(tasks: Seq<TaskControlBlock>, current: int, exclude: bool, index: int) -> int {
    if candidate(tasks, current, exclude, index) { priority_of(index) as int } else { usize::MAX as int }
}

pub open spec fn min_int(a: int, b: int) -> int {
    if a <= b { a } else { b }
}

/// The best (lowest) priority among the candidates; `usize::MAX` when there
/// are none.
pub open spec fn best_priority(tasks: Seq<TaskControlBlock>, current: int, exclude: bool) -> int {
    min_int(
        min_int(candidate_priority(tasks, current, exclude, 0), candidate_priority(tasks, current, exclude, 1)),
        candidate_priority(tasks, current, exclude, 2),
    )
}

/// Where the search at priority `p` starts: just after the last task picked
/// at that level.
pub open spec fn priority_start(last_pick: Seq<usize>, p: int) -> int {
    if last_pick[p] == NO_TASK { 0 } else { (last_pick[p] + 1) % 3 }
}

pub open spec fn eligible(tasks: Seq<TaskControlBlock>, current: int, exclude: bool, p: int, index: int) -> bool {
    candidate(tasks, current, exclude, index) && priority_of(index) == p
}

/// Static priority: the first candidate of the best priority, searching from
/// `priority_start` in circular order.
pub open spec fn priority_choice(tasks: Seq<TaskControlBlock>, last_pick: Seq<usize>, current: int, reason: SwitchReason) -> Option<usize> {
    let exclude = excludes_current(reason);
    let p = best_priority(tasks, current, exclude);
    if p == usize::MAX as int {
        None
    } else {
        let start = priority_start(last_pick, p);
        if eligible(tasks, current, exclude, p, start) {
            Some(start as usize)
        } else if eligible(tasks, current, exclude, p, (start + 1) % 3) {
            Some(((start + 1) % 3) as usize)
        } else if eligible(tasks, current, exclude, p, (start + 2) % 3) {
            Some(((start + 2) % 3) as usize)
        } else {
            None
        }
    }
}

/// The task the phase's policy runs next.
pub open spec fn next_choice(tasks: Seq<TaskControlBlock>, last_pick: Seq<usize>, phase: int, current: int, reason: SwitchReason) -> Option<usize> {
    if policy_of(phase) == SchedulerPolicy::RoundRobin {
        rr_choice(tasks, current)
    } else {
        priority_choice(tasks, last_pick, current, reason)
    }
}

/// Steps from `current` forward to `c`, in 1..=3.
pub open spec fn rr_offset(current: int, c: int) -> int {
    if c > current { c - current } else { c + 3 - current }
}

/// The per-phase switch and interrupt counters.
#[derive(Clone, Copy)]
pub struct PhaseCounters {
    pub finished_tasks: u64,
    pub timer_interrupt_count: u64,
    pub explicit_yield_switches: u64,
    pub time_slice_switches: u64,
    pub task_exit_switches: u64,
    pub total_switches: u64,
    pub switch_trace_emitted: usize,
}

impl PhaseCounters {
    pub open spec fn zero() -> PhaseCounters {
        PhaseCounters { finished_tasks: 0, timer_interrupt_count: 0, explicit_yield_switches: 0,
            time_slice_switches: 0, task_exit_switches: 0, total_switches: 0, switch_trace_emitted: 0 }
    }

    pub fn empty() -> (r: Self)
        ensures
            r == PhaseCounters::zero(),
    {
        PhaseCounters { finished_tasks: 0, timer_interrupt_count: 0, explicit_yield_switches: 0,
            time_slice_switches: 0, task_exit_switches: 0, total_switches: 0, switch_trace_emitted: 0 }
    }
}

/// One context switch, with what the trace line shows and whether it is
/// printed.
#[derive(Clone, Copy)]
pub struct SwitchRecord {
    pub switch_index: u64,
    pub policy: SchedulerPolicy,
    pub reason: SwitchReason,
    pub from: usize,
    pub to: usize,
    pub from_runtime: u64,
    pub to_runtime: u64,
    /// The trace line is printed (the per-phase limit is not reached yet).
    pub emit: bool,
    /// This line is the last one the limit lets through.
    pub limit_reached: bool,
}

/// The scheduler of both phases.
pub struct Scheduler {
    pub tasks: [TaskControlBlock; TASK_COUNT],
    pub current_task: usize,
    pub current_phase: usize,
    pub phase_start_tick: u64,
    pub counters: PhaseCounters,
    pub phase_summaries: [PhaseSummary; PHASE_COUNT],
    pub priority_last_pick: [usize; PRIORITY_LEVELS],
}

/// The task `t` after being charged for the time since it resumed.
pub open spec fn charged_runtime(t: TaskControlBlock, now: u64) -> u64 {
    if t.last_resume_tick != 0 && now >= t.last_resume_tick {
        t.runtime_ticks.wrapping_add((now - t.last_resume_tick) as u64)
    } else {
        t.runtime_ticks
    }
}

/// The switch record of a switch from `from` to `to`.
pub open spec fn switch_record(tasks: Seq<TaskControlBlock>, counters: PhaseCounters, phase: int, from: int, to: int, reason: SwitchReason) -> SwitchRecord {
    SwitchRecord {
        switch_index: counters.total_switches.wrapping_add(1),
        policy: policy_of(phase),
        reason,
        from: from as usize,
        to: to as usize,
        from_runtime: tasks[from].runtime_ticks,
        to_runtime: tasks[to].runtime_ticks,
        emit: ENABLE_SCHED_TRACE && counters.switch_trace_emitted < SCHED_TRACE_LIMIT,
        limit_reached: ENABLE_SCHED_TRACE && counters.switch_trace_emitted + 1 == SCHED_TRACE_LIMIT,
    }
}

/// `after` is `before` (with tasks `tasks` and counters `counters`) once it has
/// switched to `to` at `now`, and `frame` holds `to`'s registers.
pub open spec fn switched(before: Scheduler, tasks: Seq<TaskControlBlock>, counters: PhaseCounters, after: Scheduler,
    to: int, now: u64, frame: TrapFrame) -> bool {
    let rec_emit = ENABLE_SCHED_TRACE && counters.switch_trace_emitted < SCHED_TRACE_LIMIT;
    &&& after.tasks@ == tasks.update(to, TaskControlBlock {
        switch_ins: tasks[to].switch_ins.wrapping_add(1), last_resume_tick: now, ..tasks[to] })
    &&& after.counters == PhaseCounters {
        total_switches: counters.total_switches.wrapping_add(1),
        switch_trace_emitted: if rec_emit { (counters.switch_trace_emitted + 1) as usize } else { counters.switch_trace_emitted },
        ..counters }
    &&& after.current_task == to
    &&& after.priority_last_pick@ == (if policy_of(before.current_phase as int) == SchedulerPolicy::StaticPriority {
        before.priority_last_pick@.update(priority_of(to) as int, to as usize) } else { before.priority_last_pick@ })
    &&& after.current_phase == before.current_phase
    &&& after.phase_start_tick == before.phase_start_tick
    &&& after.phase_summaries == before.phase_summaries
    &&& frame == tasks[to].frame
}

impl Scheduler {
    /// The state's invariant: indices in range and the trace count within
    /// its limit.
    pub open spec fn wf(&self) -> bool {
        &&& self.current_phase < PHASE_COUNT
        &&& self.current_task == NO_TASK || self.current_task < TASK_COUNT
        &&& forall|p: int| 0 <= p < PRIORITY_LEVELS ==> #[trigger] self.priority_last_pick[p] == NO_TASK
            || self.priority_last_pick[p] < TASK_COUNT
        &&& self.counters.switch_trace_emitted <= SCHED_TRACE_LIMIT
    }

    /// The next runnable task after `current` in circular order (possibly
    /// `current` itself).
    pub fn next_runnable_rr(&self, current: usize) -> (r: Option<usize>)
        requires
            current < TASK_COUNT,
        ensures
            r == rr_choice(self.tasks@, current as int),
            match r {
                Some(c) => c < TASK_COUNT && self.tasks[c as int].state == TaskState::Runnable
                    && forall|off: int| 1 <= off < rr_offset(current as int, c as int)
                        ==> #[trigger] self.tasks[(current + off) % 3].state != TaskState::Runnable,
                None => forall|i: int| 0 <= i < TASK_COUNT ==> #[trigger] self.tasks[i].state != TaskState::Runnable,
            },
    {
        let mut offset: usize = 1;
        while offset <= TASK_COUNT
            invariant
                1 <= offset <= TASK_COUNT + 1,
                current < TASK_COUNT,
                forall|off: int| 1 <= off < offset ==> #[trigger] self.tasks[(current + off) % 3].state != TaskState::Runnable,
            decreases TASK_COUNT + 1 - offset,
        {
            let cand = (current + offset) % TASK_COUNT;
            if self.tasks[cand].state == TaskState::Runnable {
                proof {
                    assert(rr_offset(current as int, cand as int) == offset);
                    assert(self.tasks@[(current + 1) % 3] == self.tasks[(current + 1) % 3]);
                    assert((current + 3) % 3 == current);
                }
                return Some(cand);
            }
            offset += 1;
        }
        proof {
            assert((current + 3) % 3 == current);
            assert forall|i: int| 0 <= i < TASK_COUNT implies #[trigger] self.tasks[i].state != TaskState::Runnable by {
                let off = if i > current { i - current } else { i + 3 - current };
                assert((current + off) % 3 == i);
            }
        }
        None
    }

    /// Static priority: the runnable candidate of the best (lowest) priority,
    /// searching from just after the last task picked at that level.
    pub fn next_runnable_priority(&self, current: usize, reason: SwitchReason) -> (r: Option<usize>)
        requires
            forall|p: int| 0 <= p < PRIORITY_LEVELS ==> #[trigger] self.priority_last_pick[p] == NO_TASK
                || self.priority_last_pick[p] < TASK_COUNT,
        ensures
            r == priority_choice(self.tasks@, self.priority_last_pick@, current as int, reason),
            ({
                let exclude = excludes_current(reason);
                match r {
                    Some(c) => c < TASK_COUNT && candidate(self.tasks@, current as int, exclude, c as int)
                        && forall|j: int| 0 <= j < TASK_COUNT && candidate(self.tasks@, current as int, exclude, j)
                            ==> priority_of(c as int) <= #[trigger] priority_of(j),
                    None => forall|j: int| 0 <= j < TASK_COUNT ==> !#[trigger] candidate(self.tasks@, current as int, exclude, j),
                }
            }),
    {
        let ghost tasks = self.tasks@;
        let exclude_current = match reason {
            SwitchReason::ExplicitYield => true,
            SwitchReason::TaskExit => true,
            _ => false,
        };
        let mut best = usize::MAX;
        let mut index: usize = 0;
        while index < TASK_COUNT
            invariant
                index <= TASK_COUNT,
                tasks == self.tasks@,
                exclude_current == excludes_current(reason),
                best as int == (if index == 0 { usize::MAX as int } else if index == 1 {
                    candidate_priority(tasks, current as int, exclude_current, 0) } else if index == 2 {
                    min_int(candidate_priority(tasks, current as int, exclude_current, 0), candidate_priority(tasks, current as int, exclude_current, 1))
                    } else { best_priority(tasks, current as int, exclude_current) }),
            decreases TASK_COUNT - index,
        {
            if !(exclude_current && index == current) && self.tasks[index].state == TaskState::Runnable {
                let p = task_def(index).priority;
                if p < best {
                    best = p;
                }
            }
            index += 1;
        }
        if best == usize::MAX {
            return None;
        }
        let cursor = self.priority_last_pick[best];
        let start = if cursor == NO_TASK { 0 } else { (cursor + 1) % TASK_COUNT };
        let ghost p = best as int;
        assert(p == 0 || p == 2);
        let mut step: usize = 0;
        while step < TASK_COUNT
            invariant
                step <= TASK_COUNT,
                tasks == self.tasks@,
                start == priority_start(self.priority_last_pick@, p),
                start < TASK_COUNT,
                p == best,
                p == best_priority(tasks, current as int, exclude_current),
                p == 0 || p == 2,
                exclude_current == excludes_current(reason),
                forall|s: int| 0 <= s < step ==> !eligible(tasks, current as int, exclude_current, p, #[trigger] ((start + s) % 3)),
            decreases TASK_COUNT - step,
        {
            let cand = (start + step) % TASK_COUNT;
            if !(exclude_current && cand == current) && self.tasks[cand].state == TaskState::Runnable
                && task_def(cand).priority == best {
                proof {
                    assert((start + 0) % 3 == start);
                }
                return Some(cand);
            }
            step += 1;
        }
        proof {
            assert((start + 0) % 3 == start);
            let w = if candidate_priority(tasks, current as int, exclude_current, 0) == p { 0int }
                else if candidate_priority(tasks, current as int, exclude_current, 1) == p { 1int } else { 2int };
            assert(eligible(tasks, current as int, exclude_current, p, w));
            let s = if w >= start { w - start } else { w + 3 - start };
            assert((start + s) % 3 == w);
        }
        None
    }
}

/// What a trap led to; the caller prints and resumes accordingly.
#[derive(Clone, Copy)]
pub enum TrapOutcome {
    /// The interrupted task continues.
    Resume,
    /// Another task runs; the frame holds its registers.
    Switch(SwitchRecord),
    /// The task exited and another one runs.
    ExitSwitch(usize, SwitchRecord),
    /// The task exited and no task is runnable: the phase is over.
    ExitLast(usize),
    /// An unknown system call: `a0` holds `ENOSYS` and the task continues.
    UnsupportedSyscall(usize),
    /// A trap the kernel does not handle: it reports it and stops.
    UnexpectedTrap,
    /// A trap arrived with no task running: the kernel stops.
    NoCurrentTask,
}

/// `t` after the trap that interrupted it: charged, with its registers saved.
pub open spec fn parked(t: TaskControlBlock, frame: TrapFrame, now: u64) -> TaskControlBlock {
    TaskControlBlock { runtime_ticks: charged_runtime(t, now), last_resume_tick: 0, frame, ..t }
}

/// `after` is `before` with task `i` resumed at `now` and the counters
/// `counters`.
pub open spec fn resumed(before: Scheduler, tasks: Seq<TaskControlBlock>, counters: PhaseCounters, after: Scheduler, i: int, now: u64) -> bool {
    &&& after.tasks@ == tasks.update(i, TaskControlBlock { last_resume_tick: now, ..tasks[i] })
    &&& after.counters == counters
    &&& after.current_task == before.current_task
    &&& after.current_phase == before.current_phase
    &&& after.phase_start_tick == before.phase_start_tick
    &&& after.phase_summaries == before.phase_summaries
    &&& after.priority_last_pick == before.priority_last_pick
}

/// The effect of a yield, or of a time-slice interrupt (`yielded` false), on
/// a scheduler whose current task is `cur` and whose counters are
/// `counters`: the task is parked, then either another task is switched in
/// or the same one resumes.
pub open spec fn preempted(before: Scheduler, counters: PhaseCounters, after: Scheduler, frame: TrapFrame,
    after_frame: TrapFrame, now: u64, yielded: bool, r: TrapOutcome) -> bool {
    let cur = before.current_task as int;
    let t = parked(before.tasks[cur], frame, now);
    let t1 = if yielded { TaskControlBlock { explicit_yields: t.explicit_yields.wrapping_add(1), ..t } } else { t };
    let reason = if yielded { SwitchReason::ExplicitYield } else { SwitchReason::TimeSlice };
    let tasks = before.tasks@.update(cur, t1);
    let next = next_choice(tasks, before.priority_last_pick@, before.current_phase as int, cur, reason);
    if next is Some && next->0 != cur {
        let to = next->0 as int;
        let switch_tasks = if yielded { tasks } else {
            tasks.update(cur, TaskControlBlock { time_slice_preemptions: t.time_slice_preemptions.wrapping_add(1), ..t }) };
        let switch_counters = if yielded {
            PhaseCounters { explicit_yield_switches: counters.explicit_yield_switches.wrapping_add(1), ..counters }
        } else {
            PhaseCounters { time_slice_switches: counters.time_slice_switches.wrapping_add(1), ..counters }
        };
        &&& r == TrapOutcome::Switch(switch_record(switch_tasks, switch_counters, before.current_phase as int, cur, to, reason))
        &&& switched(before, switch_tasks, switch_counters, after, to, now, after_frame)
    } else {
        &&& r == TrapOutcome::Resume
        &&& resumed(before, tasks, counters, after, cur, now)
        &&& after_frame == frame
    }
}

/// The effect of the current task's exit with `code`: it is parked and
/// marked finished in order, then the next task is switched in, or the
/// phase is over when none is runnable.
pub open spec fn exited(before: Scheduler, after: Scheduler, frame: TrapFrame, after_frame: TrapFrame, now: u64,
    code: u64, r: TrapOutcome) -> bool {
    let cur = before.current_task as int;
    let order = before.counters.finished_tasks.wrapping_add(1);
    let t = parked(before.tasks[cur], frame, now);
    let done = TaskControlBlock { state: TaskState::Finished, exit_code: code,
        finish_tick: now.wrapping_sub(before.phase_start_tick), finish_order: order, ..t };
    let tasks = before.tasks@.update(cur, done);
    let counters = PhaseCounters { finished_tasks: order, ..before.counters };
    let next = next_choice(tasks, before.priority_last_pick@, before.current_phase as int, cur, SwitchReason::TaskExit);
    match next {
        Some(to) => {
            let exit_counters = PhaseCounters { task_exit_switches: counters.task_exit_switches.wrapping_add(1), ..counters };
            &&& r == TrapOutcome::ExitSwitch(cur as usize,
                switch_record(tasks, exit_counters, before.current_phase as int, cur, to as int, SwitchReason::TaskExit))
            &&& switched(before, tasks, exit_counters, after, to as int, now, after_frame)
        },
        None => {
            &&& r == TrapOutcome::ExitLast(cur as usize)
            &&& after.tasks@ == tasks
            &&& after.counters == counters
            &&& after.current_task == before.current_task
            &&& after.current_phase == before.current_phase
            &&& after.phase_start_tick == before.phase_start_tick
            &&& after.phase_summaries == before.phase_summaries
            &&& after.priority_last_pick == before.priority_last_pick
            &&& after_frame == frame
        },
    }
}

/// The effect of a timer interrupt: counted, then the current task is
/// preempted as `preempted` says.
pub open spec fn timer_handled(before: Scheduler, after: Scheduler, frame: TrapFrame, after_frame: TrapFrame, now: u64,
    r: TrapOutcome) -> bool {
    let counters = PhaseCounters { timer_interrupt_count: before.counters.timer_interrupt_count.wrapping_add(1), ..before.counters };
    if before.current_task == NO_TASK {
        &&& r == TrapOutcome::NoCurrentTask
        &&& after.counters == counters
        &&& after.tasks == before.tasks
        &&& after.current_task == before.current_task
        &&& after.current_phase == before.current_phase
        &&& after.phase_start_tick == before.phase_start_tick
        &&& after.phase_summaries == before.phase_summaries
        &&& after.priority_last_pick == before.priority_last_pick
        &&& after_frame == frame
    } else {
        preempted(before, counters, after, frame, after_frame, now, false, r)
    }
}

/// The effect of a system call trap (after `mepc` has been advanced).
pub open spec fn syscall_handled(before: Scheduler, after: Scheduler, frame: TrapFrame, after_frame: TrapFrame, now: u64,
    r: TrapOutcome) -> bool {
    if frame.a7 != SYS_YIELD && frame.a7 != SYS_FINISH {
        &&& r == TrapOutcome::UnsupportedSyscall(frame.a7)
        &&& after == before
        &&& after_frame == (TrapFrame { a0: ENOSYS as usize, ..frame })
    } else if before.current_task == NO_TASK {
        &&& r == TrapOutcome::NoCurrentTask
        &&& after == before
        &&& after_frame == frame
    } else if frame.a7 == SYS_YIELD {
        preempted(before, before.counters, after, frame, after_frame, now, true, r)
    } else {
        exited(before, after, frame, after_frame, now, frame.a0 as u64, r)
    }
}

impl Scheduler {
    /// The state at boot: no task, phase 0, every cursor unset.
    pub fn new() -> (r: Self)
        ensures
            r.wf(),
            r.current_task == NO_TASK,
            r.current_phase == 0,
            r.phase_start_tick == 0,
            r.counters == PhaseCounters::zero(),
            forall|i: int| 0 <= i < TASK_COUNT ==> (#[trigger] r.tasks[i]).state == TaskState::Runnable,
            forall|p: int| 0 <= p < PRIORITY_LEVELS ==> #[trigger] r.priority_last_pick[p] == NO_TASK,
    {
        Scheduler {
            tasks: [TaskControlBlock::empty(); TASK_COUNT],
            current_task: NO_TASK,
            current_phase: 0,
            phase_start_tick: 0,
            counters: PhaseCounters::empty(),
            phase_summaries: [PhaseSummary::empty(); PHASE_COUNT],
            priority_last_pick: [NO_TASK; PRIORITY_LEVELS],
        }
    }

    /// The running task, if any.
    pub fn current_task(&self) -> (r: Option<usize>)
        ensures
            r == (if self.current_task == NO_TASK { None } else { Some(self.current_task) }),
    {
        if self.current_task == NO_TASK { None } else { Some(self.current_task) }
    }

    /// The current phase's name.
    pub fn current_phase_name(&self) -> (r: &'static str)
        requires
            self.wf(),
        ensures
            self.current_phase == 0 ==> r@ == "rr_baseline"@,
            self.current_phase == 1 ==> r@ == "priority_compare"@,
    {
        phase_def(self.current_phase).0
    }

    /// The current phase's policy.
    pub fn current_policy(&self) -> (r: SchedulerPolicy)
        requires
            self.wf(),
        ensures
            r == policy_of(self.current_phase as int),
    {
        phase_def(self.current_phase).1
    }

    /// Adds the time since task `i` resumed to its runtime and marks it not
    /// running.
    pub fn charge_runtime(&mut self, i: usize, now: u64)
        requires
            i < TASK_COUNT,
        ensures
            final(self).tasks@ == old(self).tasks@.update(i as int, (TaskControlBlock {
                runtime_ticks: charged_runtime(old(self).tasks[i as int], now), last_resume_tick: 0, ..old(self).tasks[i as int] })),
            final(self).counters == old(self).counters,
            final(self).current_task == old(self).current_task,
            final(self).current_phase == old(self).current_phase,
            final(self).phase_start_tick == old(self).phase_start_tick,
            final(self).phase_summaries == old(self).phase_summaries,
            final(self).priority_last_pick == old(self).priority_last_pick,
    {
        let mut t = self.tasks[i];
        let last = t.last_resume_tick;
        if last != 0 && now >= last {
            t.runtime_ticks = t.runtime_ticks.wrapping_add(now - last);
        }
        t.last_resume_tick = 0;
        self.tasks[i] = t;
    }

    /// Saves the interrupted registers into task `i`.
    pub fn save_current_frame(&mut self, i: usize, frame: &TrapFrame)
        requires
            i < TASK_COUNT,
        ensures
            final(self).tasks@ == old(self).tasks@.update(i as int, (TaskControlBlock { frame: *frame, ..old(self).tasks[i as int] })),
            final(self).counters == old(self).counters,
            final(self).current_task == old(self).current_task,
            final(self).current_phase == old(self).current_phase,
            final(self).phase_start_tick == old(self).phase_start_tick,
            final(self).phase_summaries == old(self).phase_summaries,
            final(self).priority_last_pick == old(self).priority_last_pick,
    {
        let mut t = self.tasks[i];
        t.frame = *frame;
        self.tasks[i] = t;
    }

    /// Task `i` keeps the CPU from `now` on.
    pub fn resume_same_task(&mut self, i: usize, now: u64)
        requires
            i < TASK_COUNT,
        ensures
            resumed(*old(self), old(self).tasks@, old(self).counters, *final(self), i as int, now),
    {
        let mut t = self.tasks[i];
        t.last_resume_tick = now;
        self.tasks[i] = t;
    }

    /// The task the phase's policy runs next after `current`.
    pub fn choose_next_task(&self, current: usize, reason: SwitchReason) -> (r: Option<usize>)
        requires
            self.wf(),
            current < TASK_COUNT,
        ensures
            r == next_choice(self.tasks@, self.priority_last_pick@, self.current_phase as int, current as int, reason),
    {
        match self.current_policy() {
            SchedulerPolicy::RoundRobin => self.next_runnable_rr(current),
            SchedulerPolicy::StaticPriority => self.next_runnable_priority(current, reason),
        }
    }

    /// Counts a trace line against the phase's limit: whether it is printed
    /// and whether it is the last one printed.
    pub fn emit_switch_trace(&mut self) -> (r: (bool, bool))
        requires
            old(self).wf(),
        ensures
            final(self).wf(),
            r.0 == (ENABLE_SCHED_TRACE && old(self).counters.switch_trace_emitted < SCHED_TRACE_LIMIT),
            r.1 == (ENABLE_SCHED_TRACE && old(self).counters.switch_trace_emitted + 1 == SCHED_TRACE_LIMIT),
            final(self).counters == (PhaseCounters {
                switch_trace_emitted: if r.0 { (old(self).counters.switch_trace_emitted + 1) as usize }
                    else { old(self).counters.switch_trace_emitted }, ..old(self).counters }),
            final(self).tasks == old(self).tasks,
            final(self).current_task == old(self).current_task,
            final(self).current_phase == old(self).current_phase,
            final(self).phase_start_tick == old(self).phase_start_tick,
            final(self).phase_summaries == old(self).phase_summaries,
            final(self).priority_last_pick == old(self).priority_last_pick,
    {
        if !ENABLE_SCHED_TRACE {
            return (false, false);
        }
        if self.counters.switch_trace_emitted >= SCHED_TRACE_LIMIT {
            return (false, false);
        }
        self.counters.switch_trace_emitted = self.counters.switch_trace_emitted + 1;
        (true, self.counters.switch_trace_emitted == SCHED_TRACE_LIMIT)
    }

    /// Switches from `from` to `to` at `now`: counts the switch, loads `to`'s
    /// registers into `frame` and, under static priority, moves the cursor of
    /// `to`'s level to `to`.
    pub fn switch_to(&mut self, frame: &mut TrapFrame, from: usize, to: usize, reason: SwitchReason, now: u64) -> (r: SwitchRecord)
        requires
            old(self).wf(),
            from < TASK_COUNT,
            to < TASK_COUNT,
        ensures
            final(self).wf(),
            r == switch_record(old(self).tasks@, old(self).counters, old(self).current_phase as int, from as int, to as int, reason),
            switched(*old(self), old(self).tasks@, old(self).counters, *final(self), to as int, now, *final(frame)),
    {
        let switch_index = self.counters.total_switches.wrapping_add(1);
        self.counters.total_switches = switch_index;
        let policy = self.current_policy();
        let from_runtime = self.tasks[from].runtime_ticks;
        let to_runtime = self.tasks[to].runtime_ticks;
        let (emit, limit_reached) = self.emit_switch_trace();
        self.current_task = to;
        let mut t = self.tasks[to];
        t.switch_ins = t.switch_ins.wrapping_add(1);
        t.last_resume_tick = now;
        self.tasks[to] = t;
        if policy == SchedulerPolicy::StaticPriority {
            let level = task_def(to).priority;
            self.priority_last_pick[level] = to;
        }
        *frame = self.tasks[to].frame;
        SwitchRecord { switch_index, policy, reason, from, to, from_runtime, to_runtime, emit, limit_reached }
    }
}

impl Scheduler {
    /// A yield: the current task gives up the CPU to the next task the policy
    /// picks other than itself, or keeps it when there is none.
    pub fn handle_explicit_yield(&mut self, frame: &mut TrapFrame, now: u64) -> (r: TrapOutcome)
        requires
            old(self).wf(),
        ensures
            final(self).wf(),
            old(self).current_task == NO_TASK ==> r == TrapOutcome::NoCurrentTask && *final(self) == *old(self)
                && *final(frame) == *old(frame),
            old(self).current_task != NO_TASK ==> preempted(*old(self), old(self).counters, *final(self), *old(frame),
                *final(frame), now, true, r),
    {
        let current = match self.current_task() {
            Some(c) => c,
            None => return TrapOutcome::NoCurrentTask,
        };
        let ghost s0 = *self;
        let ghost f0 = *frame;
        self.charge_runtime(current, now);
        self.save_current_frame(current, frame);
        let mut t = self.tasks[current];
        t.explicit_yields = t.explicit_yields.wrapping_add(1);
        self.tasks[current] = t;
        proof {
            let p = parked(s0.tasks[current as int], f0, now);
            assert(self.tasks@ =~= s0.tasks@.update(current as int,
                TaskControlBlock { explicit_yields: p.explicit_yields.wrapping_add(1), ..p }));
        }
        if let Some(next) = self.choose_next_task(current, SwitchReason::ExplicitYield) {
            if next != current {
                self.counters.explicit_yield_switches = self.counters.explicit_yield_switches.wrapping_add(1);
                let rec = self.switch_to(frame, current, next, SwitchReason::ExplicitYield, now);
                return TrapOutcome::Switch(rec);
            }
        }
        self.resume_same_task(current, now);
        TrapOutcome::Resume
    }

    /// A time-slice interrupt at `now`: counted, then the current task is
    /// preempted in favour of the next one the policy picks, if another.
    pub fn handle_timer_interrupt(&mut self, frame: &mut TrapFrame, now: u64) -> (r: TrapOutcome)
        requires
            old(self).wf(),
        ensures
            final(self).wf(),
            timer_handled(*old(self), *final(self), *old(frame), *final(frame), now, r),
    {
        self.counters.timer_interrupt_count = self.counters.timer_interrupt_count.wrapping_add(1);
        let current = match self.current_task() {
            Some(c) => c,
            None => return TrapOutcome::NoCurrentTask,
        };
        let ghost s0 = *self;
        let ghost f0 = *frame;
        self.charge_runtime(current, now);
        self.save_current_frame(current, frame);
        let ghost p = parked(s0.tasks[current as int], f0, now);
        assert(self.tasks@ =~= s0.tasks@.update(current as int, p));
        if let Some(next) = self.choose_next_task(current, SwitchReason::TimeSlice) {
            if next != current {
                self.counters.time_slice_switches = self.counters.time_slice_switches.wrapping_add(1);
                let mut t = self.tasks[current];
                t.time_slice_preemptions = t.time_slice_preemptions.wrapping_add(1);
                self.tasks[current] = t;
                assert(self.tasks@ =~= s0.tasks@.update(current as int, p).update(current as int,
                    TaskControlBlock { time_slice_preemptions: p.time_slice_preemptions.wrapping_add(1), ..p }));
                let rec = self.switch_to(frame, current, next, SwitchReason::TimeSlice, now);
                return TrapOutcome::Switch(rec);
            }
        }
        self.resume_same_task(current, now);
        TrapOutcome::Resume
    }

    /// The current task exits with `code` at `now`.
    pub fn handle_finish(&mut self, code: u64, frame: &mut TrapFrame, now: u64) -> (r: TrapOutcome)
        requires
            old(self).wf(),
        ensures
            final(self).wf(),
            old(self).current_task == NO_TASK ==> r == TrapOutcome::NoCurrentTask && *final(self) == *old(self)
                && *final(frame) == *old(frame),
            old(self).current_task != NO_TASK ==> exited(*old(self), *final(self), *old(frame), *final(frame), now, code, r),
    {
        let current = match self.current_task() {
            Some(c) => c,
            None => return TrapOutcome::NoCurrentTask,
        };
        let ghost s0 = *self;
        let ghost f0 = *frame;
        self.charge_runtime(current, now);
        self.save_current_frame(current, frame);
        let order = self.counters.finished_tasks.wrapping_add(1);
        let mut t = self.tasks[current];
        t.state = TaskState::Finished;
        t.exit_code = code;
        t.finish_tick = now.wrapping_sub(self.phase_start_tick);
        t.finish_order = order;
        self.tasks[current] = t;
        self.counters.finished_tasks = order;
        proof {
            let p = parked(s0.tasks[current as int], f0, now);
            assert(self.tasks@ =~= s0.tasks@.update(current as int, TaskControlBlock { state: TaskState::Finished,
                exit_code: code, finish_tick: now.wrapping_sub(s0.phase_start_tick), finish_order: order, ..p }));
        }
        match self.choose_next_task(current, SwitchReason::TaskExit) {
            Some(next) => {
                self.counters.task_exit_switches = self.counters.task_exit_switches.wrapping_add(1);
                let rec = self.switch_to(frame, current, next, SwitchReason::TaskExit, now);
                TrapOutcome::ExitSwitch(current, rec)
            },
            None => TrapOutcome::ExitLast(current),
        }
    }

    /// A system call: `a7` selects yield or exit (with the code in `a0`);
    /// any other number is answered with `ENOSYS`.
    pub fn handle_syscall(&mut self, frame: &mut TrapFrame, now: u64) -> (r: TrapOutcome)
        requires
            old(self).wf(),
        ensures
            final(self).wf(),
            syscall_handled(*old(self), *final(self), *old(frame), *final(frame), now, r),
    {
        if frame.a7 == SYS_YIELD {
            self.handle_explicit_yield(frame, now)
        } else if frame.a7 == SYS_FINISH {
            let code = frame.a0 as u64;
            self.handle_finish(code, frame, now)
        } else {
            frame.a0 = ENOSYS as usize;
            TrapOutcome::UnsupportedSyscall(frame.a7)
        }
    }

    /// A trap with cause `mcause` at `now`: system calls (with `mepc`
    /// advanced past the `ecall`) and timer interrupts are handled; any other
    /// cause is unexpected and changes nothing.
    pub fn dispatch_trap(&mut self, frame: &mut TrapFrame, mcause: u64, now: u64) -> (r: TrapOutcome)
        requires
            old(self).wf(),
        ensures
            final(self).wf(),
            mcause == USER_ENV_CALL ==> syscall_handled(*old(self), *final(self),
                (TrapFrame { mepc: old(frame).mepc.wrapping_add(4), ..*old(frame) }), *final(frame), now, r),
            mcause == MACHINE_TIMER_INTERRUPT ==> timer_handled(*old(self), *final(self), *old(frame), *final(frame), now, r),
            mcause != USER_ENV_CALL && mcause != MACHINE_TIMER_INTERRUPT ==> r == TrapOutcome::UnexpectedTrap
                && *final(self) == *old(self) && *final(frame) == *old(frame),
    {
        if mcause == USER_ENV_CALL {
            frame.mepc = frame.mepc.wrapping_add(4);
            self.handle_syscall(frame, now)
        } else if mcause == MACHINE_TIMER_INTERRUPT {
            self.handle_timer_interrupt(frame, now)
        } else {
            TrapOutcome::UnexpectedTrap
        }
    }
}

/// A task's registers before its first run: zero but for `gp`, `tp`, its
/// stack and its entry point.
pub fn build_initial_frame(gp: usize, tp: usize, user_sp: usize, entry: usize) -> (r: TrapFrame)
    ensures
        r == (TrapFrame { gp, tp, user_sp, mepc: entry, ..TrapFrame::zeroed_spec() }),
{
    let mut frame = TrapFrame::zeroed();
    frame.gp = gp;
    frame.tp = tp;
    frame.user_sp = user_sp;
    frame.mepc = entry;
    frame
}

/// The first task of a static-priority phase: the first task of the best
/// priority.
pub fn choose_initial_priority_task() -> (r: usize)
    ensures
        r < TASK_COUNT,
        forall|j: int| 0 <= j < TASK_COUNT ==> priority_of(r as int) <= #[trigger] priority_of(j),
        forall|j: int| 0 <= j < r ==> priority_of(r as int) < #[trigger] priority_of(j),
        r == 0,
{
    let mut best_task: usize = 0;
    let mut best_priority = usize::MAX;
    let mut index: usize = 0;
    while index < TASK_COUNT
        invariant
            index <= TASK_COUNT,
            best_task < TASK_COUNT,
            index == 0 ==> best_priority == usize::MAX && best_task == 0,
            index > 0 ==> best_task == 0 && best_priority == 0,
        decreases TASK_COUNT - index,
    {
        let p = task_def(index).priority;
        if p < best_priority {
            best_priority = p;
            best_task = index;
        }
        index += 1;
    }
    best_task
}

/// The statistics of task `i` that a phase summary keeps.
pub open spec fn stats_of(i: int, t: TaskControlBlock) -> TaskPhaseStats {
    TaskPhaseStats {
        pid: (i + 1) as u64,
        priority: priority_of(i) as u64,
        switch_ins: t.switch_ins,
        runtime_ticks: t.runtime_ticks,
        finish_tick: t.finish_tick,
        finish_order: t.finish_order,
        explicit_yields: t.explicit_yields,
        time_slice_preemptions: t.time_slice_preemptions,
        exit_code: t.exit_code,
    }
}

/// `summary` records the counters `c` and the tasks `tasks`.
pub open spec fn summarizes(summary: PhaseSummary, c: PhaseCounters, tasks: Seq<TaskControlBlock>) -> bool {
    &&& summary.total_switches == c.total_switches
    &&& summary.explicit_yield_switches == c.explicit_yield_switches
    &&& summary.time_slice_switches == c.time_slice_switches
    &&& summary.task_exit_switches == c.task_exit_switches
    &&& summary.timer_interrupts == c.timer_interrupt_count
    &&& forall|i: int| 0 <= i < TASK_COUNT ==> #[trigger] summary.task_stats[i] == stats_of(i, tasks[i])
}

/// What the run shows when both phases are over.
#[derive(Clone, Copy)]
pub struct CrossPhaseReport {
    /// The interactive task's share of its completion time, in tenths of a
    /// percent, under round robin and under static priority.
    pub rr_service_share_tenths: u64,
    pub prio_service_share_tenths: u64,
    pub high_priority_favored: bool,
    pub timing_diff_visible: bool,
    pub low_priority_completed: bool,
}

impl CrossPhaseReport {
    /// All three acceptance checks hold: the kernel exits with 0.
    pub open spec fn passed(self) -> bool {
        self.high_priority_favored && self.timing_diff_visible && self.low_priority_completed
    }
}

/// The interactive task's service share, as `service_share_tenths` computes it.
pub open spec fn share(s: TaskPhaseStats) -> int {
    if s.finish_tick == 0 { 0 } else { (s.runtime_ticks * 1000 / s.finish_tick as int) as u64 as int }
}

impl Scheduler {
    /// Clears the per-phase counters, the current task and the cursors.
    pub fn reset_phase_state(&mut self)
        ensures
            final(self).current_task == NO_TASK,
            final(self).phase_start_tick == 0,
            final(self).counters == PhaseCounters::zero(),
            forall|p: int| 0 <= p < PRIORITY_LEVELS ==> #[trigger] final(self).priority_last_pick[p] == NO_TASK,
            final(self).tasks == old(self).tasks,
            final(self).current_phase == old(self).current_phase,
            final(self).phase_summaries == old(self).phase_summaries,
    {
        self.current_task = NO_TASK;
        self.phase_start_tick = 0;
        self.counters = PhaseCounters::empty();
        self.priority_last_pick = [NO_TASK; PRIORITY_LEVELS];
    }

    /// Every task fresh and runnable, with the registers `frames` holds.
    pub fn initialize_tasks_for_phase(&mut self, frames: &[TrapFrame; TASK_COUNT])
        ensures
            forall|i: int| 0 <= i < TASK_COUNT ==> #[trigger] final(self).tasks[i] == (TaskControlBlock {
                frame: frames[i], ..TaskControlBlock::empty_spec() }),
            final(self).current_task == old(self).current_task,
            final(self).phase_start_tick == old(self).phase_start_tick,
            final(self).counters == old(self).counters,
            final(self).priority_last_pick == old(self).priority_last_pick,
            final(self).current_phase == old(self).current_phase,
            final(self).phase_summaries == old(self).phase_summaries,
    {
        let mut index: usize = 0;
        while index < TASK_COUNT
            invariant
                index <= TASK_COUNT,
                forall|i: int| 0 <= i < index ==> #[trigger] self.tasks[i] == (TaskControlBlock {
                    frame: frames[i], ..TaskControlBlock::empty_spec() }),
                self.current_task == old(self).current_task,
                self.phase_start_tick == old(self).phase_start_tick,
                self.counters == old(self).counters,
                self.priority_last_pick == old(self).priority_last_pick,
                self.current_phase == old(self).current_phase,
                self.phase_summaries == old(self).phase_summaries,
            decreases TASK_COUNT - index,
        {
            let mut t = TaskControlBlock::empty();
            t.state = TaskState::Runnable;
            t.frame = frames[index];
            self.tasks[index] = t;
            index += 1;
        }
    }

    /// The first task of the current phase.
    pub fn choose_initial_task(&self) -> (r: usize)
        requires
            self.wf(),
        ensures
            r == 0,
    {
        match self.current_policy() {
            SchedulerPolicy::RoundRobin => 0,
            SchedulerPolicy::StaticPriority => choose_initial_priority_task(),
        }
    }

    /// Starts phase `phase_index` at `now`: counters cleared, tasks fresh with
    /// `frames`, and the first task running. Returns the first task.
    pub fn start_phase(&mut self, phase_index: usize, now: u64, frames: &[TrapFrame; TASK_COUNT]) -> (r: usize)
        requires
            phase_index < PHASE_COUNT,
        ensures
            final(self).wf(),
            r == 0,
            final(self).current_phase == phase_index,
            final(self).current_task == r,
            final(self).phase_start_tick == now,
            final(self).counters == PhaseCounters::zero(),
            final(self).phase_summaries == old(self).phase_summaries,
            forall|i: int| 0 <= i < TASK_COUNT && i != r ==> #[trigger] final(self).tasks[i] == (TaskControlBlock {
                frame: frames[i], ..TaskControlBlock::empty_spec() }),
            final(self).tasks[r as int] == (TaskControlBlock { frame: frames[r as int], switch_ins: 1,
                last_resume_tick: now, ..TaskControlBlock::empty_spec() }),
            forall|p: int| 0 <= p < PRIORITY_LEVELS ==> #[trigger] final(self).priority_last_pick[p]
                == (if policy_of(phase_index as int) == SchedulerPolicy::StaticPriority && p == priority_of(r as int) {
                    r } else { NO_TASK }),
    {
        self.current_phase = phase_index;
        self.reset_phase_state();
        self.initialize_tasks_for_phase(frames);
        self.phase_start_tick = now;
        let first = self.choose_initial_task();
        self.current_task = first;
        let mut t = self.tasks[first];
        t.switch_ins = 1;
        t.last_resume_tick = now;
        self.tasks[first] = t;
        if self.current_policy() == SchedulerPolicy::StaticPriority {
            let level = task_def(first).priority;
            self.priority_last_pick[level] = first;
        }
        first
    }

    /// Records the phase's counters and per-task statistics as summary
    /// `phase_index`.
    pub fn save_phase_summary(&mut self, phase_index: usize)
        requires
            phase_index < PHASE_COUNT,
        ensures
            summarizes(final(self).phase_summaries[phase_index as int], old(self).counters, old(self).tasks@),
            forall|q: int| 0 <= q < PHASE_COUNT && q != phase_index ==> #[trigger] final(self).phase_summaries[q]
                == old(self).phase_summaries[q],
            final(self).tasks == old(self).tasks,
            final(self).current_task == old(self).current_task,
            final(self).current_phase == old(self).current_phase,
            final(self).phase_start_tick == old(self).phase_start_tick,
            final(self).counters == old(self).counters,
            final(self).priority_last_pick == old(self).priority_last_pick,
    {
        let mut summary = PhaseSummary::empty();
        summary.total_switches = self.counters.total_switches;
        summary.explicit_yield_switches = self.counters.explicit_yield_switches;
        summary.time_slice_switches = self.counters.time_slice_switches;
        summary.task_exit_switches = self.counters.task_exit_switches;
        summary.timer_interrupts = self.counters.timer_interrupt_count;
        let mut index: usize = 0;
        while index < TASK_COUNT
            invariant
                index <= TASK_COUNT,
                summary.total_switches == self.counters.total_switches,
                summary.explicit_yield_switches == self.counters.explicit_yield_switches,
                summary.time_slice_switches == self.counters.time_slice_switches,
                summary.task_exit_switches == self.counters.task_exit_switches,
                summary.timer_interrupts == self.counters.timer_interrupt_count,
                forall|i: int| 0 <= i < index ==> #[trigger] summary.task_stats[i] == stats_of(i, self.tasks[i]),
            decreases TASK_COUNT - index,
        {
            let def = task_def(index);
            let t = self.tasks[index];
            summary.task_stats[index] = TaskPhaseStats {
                pid: def.id,
                priority: def.priority as u64,
                switch_ins: t.switch_ins,
                runtime_ticks: t.runtime_ticks,
                finish_tick: t.finish_tick,
                finish_order: t.finish_order,
                explicit_yields: t.explicit_yields,
                time_slice_preemptions: t.time_slice_preemptions,
                exit_code: t.exit_code,
            };
            index += 1;
        }
        self.phase_summaries[phase_index] = summary;
    }

    /// Ends the current phase: its summary is saved, and the next phase to
    /// start is returned, `None` after the last one.
    pub fn complete_phase_or_finish(&mut self) -> (r: Option<usize>)
        requires
            old(self).wf(),
        ensures
            final(self).wf(),
            summarizes(final(self).phase_summaries[old(self).current_phase as int], old(self).counters, old(self).tasks@),
            forall|q: int| 0 <= q < PHASE_COUNT && q != old(self).current_phase ==> #[trigger] final(self).phase_summaries[q]
                == old(self).phase_summaries[q],
            r == (if old(self).current_phase + 1 < PHASE_COUNT { Some((old(self).current_phase + 1) as usize) } else { None }),
            final(self).tasks == old(self).tasks,
            final(self).current_task == old(self).current_task,
            final(self).current_phase == old(self).current_phase,
            final(self).counters == old(self).counters,
    {
        let phase_index = self.current_phase;
        self.save_phase_summary(phase_index);
        if phase_index + 1 < PHASE_COUNT { Some(phase_index + 1) } else { None }
    }

    /// The comparison of the two phases' summaries: the interactive task is
    /// favoured under static priority (a larger service share and an earlier
    /// finish), finishes clearly earlier (by more than a fifth), and both
    /// compute tasks still finish.
    pub fn cross_phase_comparison(&self) -> (r: CrossPhaseReport)
        ensures
            ({
                let rr = self.phase_summaries[0].task_stats[0];
                let prio = self.phase_summaries[1].task_stats[0];
                &&& r.rr_service_share_tenths == share(rr)
                &&& r.prio_service_share_tenths == share(prio)
                &&& r.high_priority_favored == (share(prio) > share(rr) && prio.finish_tick < rr.finish_tick)
                &&& r.timing_diff_visible == (sat_mul(prio.finish_tick as int, 10) < sat_mul(rr.finish_tick as int, 8))
                &&& r.low_priority_completed == (self.phase_summaries[1].task_stats[1].finish_order > 0
                    && self.phase_summaries[1].task_stats[2].finish_order > 0)
            }),
    {
        let rr = self.phase_summaries[0];
        let priority = self.phase_summaries[1];
        let rr_interactive = rr.task_stats[0];
        let prio_interactive = priority.task_stats[0];
        let rr_share = service_share_tenths(rr_interactive.runtime_ticks, rr_interactive.finish_tick);
        let prio_share = service_share_tenths(prio_interactive.runtime_ticks, prio_interactive.finish_tick);
        let high_priority_favored = prio_share > rr_share && prio_interactive.finish_tick < rr_interactive.finish_tick;
        let timing_diff_visible = saturating_mul(prio_interactive.finish_tick, 10) < saturating_mul(rr_interactive.finish_tick, 8);
        let low_priority_completed = priority.task_stats[1].finish_order > 0 && priority.task_stats[2].finish_order > 0;
        CrossPhaseReport {
            rr_service_share_tenths: rr_share,
            prio_service_share_tenths: prio_share,
            high_priority_favored,
            timing_diff_visible,
            low_priority_completed,
        }
    }
}

/// The `mtimecmp` deadline one time slice after `now`.
pub fn next_slice_deadline(now: u64) -> (r: u64)
    ensures
        r == now.wrapping_add(TIME_SLICE_TICKS),
{
    now.wrapping_add(TIME_SLICE_TICKS)
}

} // verus!
