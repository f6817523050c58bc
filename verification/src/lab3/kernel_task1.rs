//! Traced context switches between two tasks: one yields explicitly, the
//! other is preempted by the timer; every switch counts by reason and the
//! first ones are traced as a save/restore pair.
use vstd::prelude::*;
use crate::common::abi::TrapFrame;

verus! {

pub const TASK_COUNT: usize = 2;
pub const NO_TASK: usize = usize::MAX;
pub const TIME_SLICE_TICKS: u64 = 18_000;
pub const USER_ENV_CALL: u64 = 8;
/// `mcause` of a machine timer interrupt (interrupt bit and cause 7).
pub const MACHINE_TIMER_INTERRUPT: u64 = 0x8000_0000_0000_0007;
pub const ENABLE_SWITCH_TRACE: bool = true;
pub const SWITCH_TRACE_LIMIT: usize = 10;
pub const YIELD_TASK_ROUNDS: usize = 3;
pub const YIELD_TASK_SPIN: u64 = 45_000;
pub const TIMESLICE_TASK_PHASES: usize = 3;
pub const TIMESLICE_TASK_SPIN: u64 = 1_250_000;
pub const SYS_YIELD: usize = 0;
pub const SYS_FINISH: usize = 1;
pub const ENOSYS: isize = -38;

#[derive(Clone, Copy, PartialEq, Eq, Structural)]
pub enum TaskState {
    Empty,
    Runnable,
    Finished,
}

#[derive(Clone, Copy, PartialEq, Eq, Structural)]
pub enum SwitchReason {
    Boot,
    ExplicitYield,
    TimeSlice,
    TaskExit,
}

impl SwitchReason {
    pub fn as_str(self) -> (r: &'static str)
        ensures
            self == SwitchReason::Boot ==> r@ == "boot"@,
            self == SwitchReason::ExplicitYield ==> r@ == "explicit_yield"@,
            self == SwitchReason::TimeSlice ==> r@ == "time_slice"@,
            self == SwitchReason::TaskExit ==> r@ == "task_exit"@,
    {
        match self {
            SwitchReason::Boot => "boot",
            SwitchReason::ExplicitYield => "explicit_yield",
            SwitchReason::TimeSlice => "time_slice",
            SwitchReason::TaskExit => "task_exit",
        }
    }
}

/// The id and name of task `i`.
pub fn task_def(i: usize) -> (r: (u64, &'static str))
    requires
        i < TASK_COUNT,
    ensures
        r.0 == i + 1,
        i == 0 ==> r.1@ == "yield_demo"@,
        i == 1 ==> r.1@ == "timeslice_demo"@,
{
    if i == 0 { (1, "yield_demo") } else { (2, "timeslice_demo") }
}

#[derive(Clone, Copy)]
pub struct TaskControlBlock {
    pub state: TaskState,
    pub frame: TrapFrame,
    pub exit_code: u64,
}

/// One traced switch.
#[derive(Clone, Copy, PartialEq, Eq, Structural)]
pub struct SwitchTrace {
    pub switch_index: usize,
    pub reason: SwitchReason,
    pub from: usize,
    pub from_mepc: usize,
    pub to: usize,
    pub to_mepc: usize,
    /// The trace lines are printed.
    pub emit: bool,
    /// These are the last lines the limit lets through.
    pub limit_reached: bool,
}

/// The first runnable task after `current`, `current` itself last.
pub open spec fn next_after(tasks: Seq<TaskControlBlock>, current: int) -> Option<usize> {
    let other = (current + 1) % 2;
    if tasks[other].state == TaskState::Runnable {
        Some(other as usize)
    } else if tasks[current].state == TaskState::Runnable {
        Some(current as usize)
    } else {
        None
    }
}

/// Round robin between the two tasks: when the other task can run, it is
/// the one chosen; the current task is chosen only when the other cannot
/// run and it can; nothing is chosen when neither can. Whatever is chosen
/// is runnable.
pub proof fn law_next_after_round_robin(tasks: Seq<TaskControlBlock>, current: int)
    requires
        tasks.len() == TASK_COUNT,
        0 <= current < TASK_COUNT,
    ensures
        tasks[1 - current].state == TaskState::Runnable ==> next_after(tasks, current) == Some((1 - current) as usize),
        next_after(tasks, current) == Some(current as usize) ==> tasks[1 - current].state != TaskState::Runnable
            && tasks[current].state == TaskState::Runnable,
        next_after(tasks, current) is None <==> (tasks[0].state != TaskState::Runnable
            && tasks[1].state != TaskState::Runnable),
        next_after(tasks, current) matches Some(n) ==> n < TASK_COUNT && tasks[n as int].state == TaskState::Runnable,
{
}

/// What a trap led to.
#[derive(Clone, Copy, PartialEq, Eq, Structural)]
pub enum TraceOutcome {
    /// The same task continues.
    Resume,
    /// A switch happened; the frame holds the new task's registers.
    Switch(SwitchTrace),
    /// The last task exited: the summary follows.
    AllFinished,
    /// An unknown system call: `a0` holds `ENOSYS`.
    UnsupportedSyscall(usize),
    /// A trap with no current task, or of an unexpected cause: the kernel stops.
    Fatal,
}

/// The switch counters.
#[derive(Clone, Copy, PartialEq, Eq, Structural)]
pub struct SwitchCounters {
    pub timer_interrupt_count: usize,
    pub explicit_yield_switches: usize,
    pub time_slice_switches: usize,
    pub task_exit_switches: usize,
    pub total_switches: usize,
    pub switch_trace_emitted: usize,
}

/// The kernel's scheduling state.
pub struct TraceKernel {
    pub tasks: [TaskControlBlock; TASK_COUNT],
    pub current_task: usize,
    pub counters: SwitchCounters,
}

/// The switch summary and its checks.
#[derive(Clone, Copy)]
pub struct TraceSummary {
    pub counters: SwitchCounters,
    pub exit_codes: [u64; TASK_COUNT],
    pub explicit_yield_observed: bool,
    pub time_slice_observed: bool,
    pub multiple_switches: bool,
    pub pass: bool,
}

impl TraceKernel {
    pub open spec fn wf(&self) -> bool {
        &&& self.current_task == NO_TASK || self.current_task < TASK_COUNT
        &&& self.counters.switch_trace_emitted <= SWITCH_TRACE_LIMIT
    }

    /// Both tasks runnable with their initial registers; no task current and
    /// every counter zero.
    pub fn initialize_tasks(frames: [TrapFrame; TASK_COUNT]) -> (r: Self)
        ensures
            r.wf(),
            r.current_task == NO_TASK,
            r.counters == (SwitchCounters { timer_interrupt_count: 0, explicit_yield_switches: 0, time_slice_switches: 0,
                task_exit_switches: 0, total_switches: 0, switch_trace_emitted: 0 }),
            forall|i: int| 0 <= i < TASK_COUNT ==> #[trigger] r.tasks[i] == (TaskControlBlock {
                state: TaskState::Runnable, frame: frames[i], exit_code: 0 }),
    {
        TraceKernel {
            tasks: [
                TaskControlBlock { state: TaskState::Runnable, frame: frames[0], exit_code: 0 },
                TaskControlBlock { state: TaskState::Runnable, frame: frames[1], exit_code: 0 },
            ],
            current_task: NO_TASK,
            counters: SwitchCounters { timer_interrupt_count: 0, explicit_yield_switches: 0, time_slice_switches: 0,
                task_exit_switches: 0, total_switches: 0, switch_trace_emitted: 0 },
        }
    }

    /// Task `i` runs first.
    pub fn start(&mut self, i: usize)
        requires
            old(self).wf(),
            i < TASK_COUNT,
        ensures
            final(self).wf(),
            final(self).current_task == i,
            final(self).tasks == old(self).tasks,
            final(self).counters == old(self).counters,
    {
        self.current_task = i;
    }

    /// The first runnable task after `current`, `current` itself last.
    pub fn next_runnable_excluding(&self, current: usize) -> (r: Option<usize>)
        requires
            current < TASK_COUNT,
        ensures
            r == next_after(self.tasks@, current as int),
    {
        let other = (current + 1) % TASK_COUNT;
        if self.tasks[other].state == TaskState::Runnable {
            Some(other)
        } else if self.tasks[current].state == TaskState::Runnable {
            Some(current)
        } else {
            None
        }
    }

    /// Saves the interrupted registers into task `current`.
    pub fn save_current_frame(&mut self, current: usize, frame: &TrapFrame)
        requires
            current < TASK_COUNT,
        ensures
            final(self).tasks@ == old(self).tasks@.update(current as int,
                (TaskControlBlock { frame: *frame, ..old(self).tasks[current as int] })),
            final(self).current_task == old(self).current_task,
            final(self).counters == old(self).counters,
    {
        let mut t = self.tasks[current];
        t.frame = *frame;
        self.tasks[current] = t;
    }

    /// Counts a switch, traces it while under the limit, and loads `to`'s
    /// registers.
    pub fn switch_to(&mut self, frame: &mut TrapFrame, from: usize, to: usize, reason: SwitchReason) -> (r: SwitchTrace)
        requires
            old(self).wf(),
            from < TASK_COUNT,
            to < TASK_COUNT,
        ensures
            final(self).wf(),
            ({
                let c = old(self).counters;
                let emit = ENABLE_SWITCH_TRACE && c.switch_trace_emitted < SWITCH_TRACE_LIMIT;
                &&& r == (SwitchTrace { switch_index: c.total_switches.wrapping_add(1), reason, from,
                    from_mepc: old(self).tasks[from as int].frame.mepc, to, to_mepc: old(self).tasks[to as int].frame.mepc,
                    emit, limit_reached: emit && c.switch_trace_emitted + 1 == SWITCH_TRACE_LIMIT })
                &&& final(self).counters == (SwitchCounters { total_switches: c.total_switches.wrapping_add(1),
                    switch_trace_emitted: if emit { (c.switch_trace_emitted + 1) as usize } else { c.switch_trace_emitted },
                    ..c })
            }),
            final(self).current_task == to,
            final(self).tasks == old(self).tasks,
            *final(frame) == old(self).tasks[to as int].frame,
    {
        let switch_index = self.counters.total_switches.wrapping_add(1);
        self.counters.total_switches = switch_index;
        let emit = ENABLE_SWITCH_TRACE && self.counters.switch_trace_emitted < SWITCH_TRACE_LIMIT;
        let mut limit_reached = false;
        if emit {
            self.counters.switch_trace_emitted = self.counters.switch_trace_emitted + 1;
            limit_reached = self.counters.switch_trace_emitted == SWITCH_TRACE_LIMIT;
        }
        let trace = SwitchTrace { switch_index, reason, from, from_mepc: self.tasks[from].frame.mepc, to,
            to_mepc: self.tasks[to].frame.mepc, emit, limit_reached };
        self.current_task = to;
        *frame = self.tasks[to].frame;
        trace
    }

    /// A yield: the registers are saved and the next runnable task (the
    /// other one, else the same) is switched to.
    pub fn handle_explicit_yield(&mut self, frame: &mut TrapFrame) -> (r: TraceOutcome)
        requires
            old(self).wf(),
        ensures
            final(self).wf(),
            old(self).current_task == NO_TASK ==> r == TraceOutcome::Fatal,
            old(self).current_task != NO_TASK ==> ({
                let cur = old(self).current_task as int;
                let tasks = old(self).tasks@.update(cur, TaskControlBlock { frame: *old(frame), ..old(self).tasks[cur] });
                &&& final(self).tasks@ == tasks
                &&& match next_after(tasks, cur) {
                    Some(next) => r matches TraceOutcome::Switch(t) && t.to == next && t.from == cur
                        && t.reason == SwitchReason::ExplicitYield
                        && final(self).current_task == next && *final(frame) == tasks[next as int].frame
                        && final(self).counters.explicit_yield_switches == old(self).counters.explicit_yield_switches.wrapping_add(1)
                        && final(self).counters.total_switches == old(self).counters.total_switches.wrapping_add(1),
                    None => r == TraceOutcome::Resume && final(self).counters == old(self).counters
                        && final(self).current_task == old(self).current_task,
                }
            }),
    {
        if self.current_task == NO_TASK {
            return TraceOutcome::Fatal;
        }
        let current = self.current_task;
        self.save_current_frame(current, frame);
        if let Some(next) = self.next_runnable_excluding(current) {
            self.counters.explicit_yield_switches = self.counters.explicit_yield_switches.wrapping_add(1);
            let t = self.switch_to(frame, current, next, SwitchReason::ExplicitYield);
            return TraceOutcome::Switch(t);
        }
        TraceOutcome::Resume
    }

    /// A timer interrupt: counted, the registers saved, and the next
    /// runnable task switched to.
    pub fn handle_timer_interrupt(&mut self, frame: &mut TrapFrame) -> (r: TraceOutcome)
        requires
            old(self).wf(),
        ensures
            final(self).wf(),
            final(self).counters.timer_interrupt_count == old(self).counters.timer_interrupt_count.wrapping_add(1),
            old(self).current_task == NO_TASK ==> r == TraceOutcome::Fatal,
            old(self).current_task != NO_TASK ==> ({
                let cur = old(self).current_task as int;
                let tasks = old(self).tasks@.update(cur, TaskControlBlock { frame: *old(frame), ..old(self).tasks[cur] });
                &&& final(self).tasks@ == tasks
                &&& match next_after(tasks, cur) {
                    Some(next) => r matches TraceOutcome::Switch(t) && t.to == next && t.from == cur
                        && t.reason == SwitchReason::TimeSlice
                        && final(self).current_task == next && *final(frame) == tasks[next as int].frame
                        && final(self).counters.time_slice_switches == old(self).counters.time_slice_switches.wrapping_add(1)
                        && final(self).counters.total_switches == old(self).counters.total_switches.wrapping_add(1),
                    None => r == TraceOutcome::Resume && final(self).current_task == old(self).current_task
                        && final(self).counters.total_switches == old(self).counters.total_switches,
                }
            }),
    {
        self.counters.timer_interrupt_count = self.counters.timer_interrupt_count.wrapping_add(1);
        if self.current_task == NO_TASK {
            return TraceOutcome::Fatal;
        }
        let current = self.current_task;
        self.save_current_frame(current, frame);
        if let Some(next) = self.next_runnable_excluding(current) {
            self.counters.time_slice_switches = self.counters.time_slice_switches.wrapping_add(1);
            let t = self.switch_to(frame, current, next, SwitchReason::TimeSlice);
            return TraceOutcome::Switch(t);
        }
        TraceOutcome::Resume
    }

    /// The current task exits with `code`; the other runnable task is
    /// switched to, or every task is done.
    pub fn handle_finish(&mut self, code: u64, frame: &mut TrapFrame) -> (r: TraceOutcome)
        requires
            old(self).wf(),
        ensures
            final(self).wf(),
            old(self).current_task == NO_TASK ==> r == TraceOutcome::Fatal,
            old(self).current_task != NO_TASK ==> ({
                let cur = old(self).current_task as int;
                let tasks = old(self).tasks@.update(cur, TaskControlBlock { state: TaskState::Finished, exit_code: code,
                    ..old(self).tasks[cur] });
                &&& final(self).tasks@ == tasks
                &&& match next_after(tasks, cur) {
                    Some(next) => r matches TraceOutcome::Switch(t) && t.to == next && t.reason == SwitchReason::TaskExit
                        && final(self).current_task == next && *final(frame) == tasks[next as int].frame
                        && final(self).counters.task_exit_switches == old(self).counters.task_exit_switches.wrapping_add(1),
                    None => r == TraceOutcome::AllFinished && final(self).counters == old(self).counters,
                }
            }),
    {
        if self.current_task == NO_TASK {
            return TraceOutcome::Fatal;
        }
        let current = self.current_task;
        let mut t = self.tasks[current];
        t.state = TaskState::Finished;
        t.exit_code = code;
        self.tasks[current] = t;
        if let Some(next) = self.next_runnable_excluding(current) {
            self.counters.task_exit_switches = self.counters.task_exit_switches.wrapping_add(1);
            let tr = self.switch_to(frame, current, next, SwitchReason::TaskExit);
            return TraceOutcome::Switch(tr);
        }
        TraceOutcome::AllFinished
    }

    /// A trap: system calls (with `mepc` past the `ecall`) and timer
    /// interrupts are handled; any other cause is fatal and changes nothing.
    pub fn dispatch_trap(&mut self, frame: &mut TrapFrame, mcause: u64) -> (r: TraceOutcome)
        requires
            old(self).wf(),
        ensures
            final(self).wf(),
            mcause != USER_ENV_CALL && mcause != MACHINE_TIMER_INTERRUPT ==> r == TraceOutcome::Fatal
                && final(self).tasks == old(self).tasks && final(self).counters == old(self).counters,
            mcause == USER_ENV_CALL && old(frame).a7 > SYS_FINISH ==> r == TraceOutcome::UnsupportedSyscall(old(frame).a7)
                && final(frame).a0 == ENOSYS as usize && final(frame).mepc == old(frame).mepc.wrapping_add(4),
            mcause == MACHINE_TIMER_INTERRUPT ==> final(self).counters.timer_interrupt_count
                == old(self).counters.timer_interrupt_count.wrapping_add(1),
    {
        if mcause == USER_ENV_CALL {
            frame.mepc = frame.mepc.wrapping_add(4);
            if frame.a7 == SYS_YIELD {
                self.handle_explicit_yield(frame)
            } else if frame.a7 == SYS_FINISH {
                let code = frame.a0 as u64;
                self.handle_finish(code, frame)
            } else {
                frame.a0 = ENOSYS as usize;
                TraceOutcome::UnsupportedSyscall(frame.a7)
            }
        } else if mcause == MACHINE_TIMER_INTERRUPT {
            self.handle_timer_interrupt(frame)
        } else {
            TraceOutcome::Fatal
        }
    }

    /// The summary: both kinds of switch were seen and at least three
    /// switches were traced.
    pub fn finish_experiment(&self) -> (r: TraceSummary)
        ensures
            r.counters == self.counters,
            r.exit_codes[0] == self.tasks[0].exit_code && r.exit_codes[1] == self.tasks[1].exit_code,
            r.explicit_yield_observed == (self.counters.explicit_yield_switches > 0),
            r.time_slice_observed == (self.counters.time_slice_switches > 0),
            r.multiple_switches == (self.counters.total_switches >= 3),
            r.pass == (r.explicit_yield_observed && r.time_slice_observed && r.multiple_switches),
    {
        let c = self.counters;
        let explicit_yield_observed = c.explicit_yield_switches > 0;
        let time_slice_observed = c.time_slice_switches > 0;
        let multiple_switches = c.total_switches >= 3;
        TraceSummary {
            counters: c,
            exit_codes: [self.tasks[0].exit_code, self.tasks[1].exit_code],
            explicit_yield_observed,
            time_slice_observed,
            multiple_switches,
            pass: explicit_yield_observed && time_slice_observed && multiple_switches,
        }
    }
}

} // verus!
