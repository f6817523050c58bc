//! Floating-point state across preemption: each of two tasks first runs
//! alone to a reference checksum, then both run again under a time slice;
//! the run passes when the preempted checksums match the references bit for
//! bit.
use vstd::prelude::*;
use crate::common::abi::TrapFrame;
use crate::common::user_mem::range_within;
use crate::lab2::kernel_task2::validated_user_bytes;

verus! {

pub const DRAM_START: usize = 0x8000_0000;
pub const TASK_COUNT: usize = 2;
pub const FP_LANES: usize = 8;
pub const PHASE_REFERENCE: usize = 0;
pub const PHASE_PREEMPTIVE: usize = 1;
pub const TIMER_LOG_LIMIT: usize = 6;
pub const TIME_SLICE_TICKS: u64 = 2_500;
pub const USER_ENV_CALL: u64 = 8;
/// `mcause` of a machine timer interrupt (interrupt bit and cause 7).
pub const MACHINE_TIMER_INTERRUPT: u64 = 0x8000_0000_0000_0007;
pub const SYS_WRITE: usize = 0;
pub const SYS_FINISH: usize = 1;
pub const EFAULT: isize = -14;
pub const ENOSYS: isize = -38;

#[derive(Clone, Copy, PartialEq, Eq, Structural)]
pub enum TaskState {
    Empty,
    Runnable,
    Finished,
}

#[derive(Clone, Copy, PartialEq, Eq, Structural)]
pub enum Phase {
    /// Task `slot` runs alone.
    Reference(usize),
    /// Both tasks run under the time slice.
    Preemptive,
}

#[derive(Clone, Copy)]
pub struct TaskControlBlock {
    pub state: TaskState,
    pub frame: TrapFrame,
    pub last_checksum: u64,
}

impl TaskControlBlock {
    pub open spec fn empty_spec() -> TaskControlBlock {
        TaskControlBlock { state: TaskState::Empty, frame: TrapFrame::zeroed_spec(), last_checksum: 0 }
    }

    pub fn empty() -> (r: Self)
        ensures
            r == TaskControlBlock::empty_spec(),
    {
        TaskControlBlock { state: TaskState::Empty, frame: TrapFrame::zeroed(), last_checksum: 0 }
    }
}

/// A task's checksums from both runs.
#[derive(Clone, Copy, PartialEq, Eq, Structural)]
pub struct Checkpoint {
    pub reference: u64,
    pub concurrent: u64,
    pub have_reference: bool,
    pub have_concurrent: bool,
}

impl Checkpoint {
    pub open spec fn empty_spec() -> Checkpoint {
        Checkpoint { reference: 0, concurrent: 0, have_reference: false, have_concurrent: false }
    }

    pub fn empty() -> (r: Self)
        ensures
            r == Checkpoint::empty_spec(),
    {
        Checkpoint { reference: 0, concurrent: 0, have_reference: false, have_concurrent: false }
    }

    /// Both checksums are there and equal.
    pub open spec fn matched(self) -> bool {
        self.have_reference && self.have_concurrent && self.reference == self.concurrent
    }
}

/// The name of workload `slot`.
pub fn workload_name(slot: usize) -> (r: &'static str)
    ensures
        slot == 0 ==> r@ == "fp_alpha"@,
        slot != 0 ==> r@ == "fp_beta"@,
{
    if slot == 0 { "fp_alpha" } else { "fp_beta" }
}

/// Where user tasks start: the entry point, `gp`, `tp` and each task's
/// stack top.
#[derive(Clone, Copy)]
pub struct TaskLaunch {
    pub entry: usize,
    pub gp: usize,
    pub tp: usize,
    pub stack_tops: [usize; TASK_COUNT],
}

/// Task `slot`'s registers for a run in `phase`: the entry point gets the
/// slot, the phase and the expected checksum as arguments.
pub open spec fn task_frame(launch: TaskLaunch, slot: int, phase: usize, expected: u64) -> TrapFrame {
    TrapFrame { gp: launch.gp, tp: launch.tp, user_sp: launch.stack_tops[slot], mepc: launch.entry,
        a0: slot as usize, a1: phase, a2: expected as usize, ..TrapFrame::zeroed_spec() }
}

/// A runnable task for slot `slot`.
pub fn build_task(launch: &TaskLaunch, slot: usize, phase: usize, expected_checksum: u64) -> (r: TaskControlBlock)
    requires
        slot < TASK_COUNT,
    ensures
        r == (TaskControlBlock { state: TaskState::Runnable,
            frame: task_frame(*launch, slot as int, phase, expected_checksum), last_checksum: 0 }),
{
    let mut frame = TrapFrame::zeroed();
    frame.gp = launch.gp;
    frame.tp = launch.tp;
    frame.user_sp = launch.stack_tops[slot];
    frame.mepc = launch.entry;
    frame.a0 = slot;
    frame.a1 = phase;
    frame.a2 = expected_checksum as usize;
    TaskControlBlock { state: TaskState::Runnable, frame, last_checksum: 0 }
}

/// The first runnable task after `current`, `current` itself last.
pub open spec fn next_after(tasks: Seq<TaskControlBlock>, current: int) -> Option<usize> {
    let other = (current + 1) % 2;
    if tasks[other].state == TaskState::Runnable {
        Some(other as usize)
    } else if tasks[current].state == TaskState::Runnable {
        Some(current as usize)
    } else {
        None
    }
}

/// Round robin between the two tasks: when the other task can run, it is
/// the one chosen; the current task is chosen only when the other cannot
/// run and it can; nothing is chosen when neither can. Whatever is chosen
/// is runnable.
pub proof fn law_next_after_round_robin(tasks: Seq<TaskControlBlock>, current: int)
    requires
        tasks.len() == TASK_COUNT,
        0 <= current < TASK_COUNT,
    ensures
        tasks[1 - current].state == TaskState::Runnable ==> next_after(tasks, current) == Some((1 - current) as usize),
        next_after(tasks, current) == Some(current as usize) ==> tasks[1 - current].state != TaskState::Runnable
            && tasks[current].state == TaskState::Runnable,
        next_after(tasks, current) is None <==> (tasks[0].state != TaskState::Runnable
            && tasks[1].state != TaskState::Runnable),
        next_after(tasks, current) matches Some(n) ==> n < TASK_COUNT && tasks[n as int].state == TaskState::Runnable,
{
}

/// What a timer interrupt did.
#[derive(Clone, Copy, PartialEq, Eq, Structural)]
pub enum TimerOutcome {
    /// The task `to` runs now (possibly the same one). `logged` holds
    /// `(interrupt number, from)` when the preemption is logged, and `capped`
    /// says this was the last logged one.
    Switched { to: usize, preempted: bool, logged: bool, capped: bool },
    /// No task is runnable: the kernel stops.
    NoRunnable,
}

/// What an exit did.
#[derive(Clone, Copy, PartialEq, Eq, Structural)]
pub enum FinishOutcome {
    /// The next reference run started.
    NextReference(usize),
    /// Both references are in; the preemptive phase started.
    PreemptiveStarted,
    /// The other task continues the preemptive phase.
    NextTask(usize),
    /// Both preemptive runs are over.
    ExperimentDone,
}

/// The experiment's state.
pub struct FpPreemptionKernel {
    pub launch: TaskLaunch,
    pub tasks: [TaskControlBlock; TASK_COUNT],
    pub results: [Checkpoint; TASK_COUNT],
    pub current_phase: Phase,
    pub current_task: usize,
    pub timer_interrupt_count: usize,
    pub forced_switch_count: usize,
    pub timer_logged: usize,
}

/// The run's verdict.
#[derive(Clone, Copy)]
pub struct ExperimentVerdict {
    pub matched: [bool; TASK_COUNT],
    pub all_match: bool,
    pub interrupts_ok: bool,
    pub switches_ok: bool,
}

impl ExperimentVerdict {
    pub open spec fn passed(self) -> bool {
        self.interrupts_ok && self.switches_ok && self.all_match
    }
}

impl FpPreemptionKernel {
    pub open spec fn wf(&self) -> bool {
        &&& self.current_task < TASK_COUNT
        &&& self.current_phase matches Phase::Reference(s) ==> s < TASK_COUNT
        &&& self.timer_logged <= TIMER_LOG_LIMIT
    }

    /// Boot: no results yet and the first reference run set up.
    pub fn new(launch: TaskLaunch) -> (r: Self)
        ensures
            r.wf(),
            r.current_phase == Phase::Reference(0),
            r.current_task == 0,
            r.results@ == seq![Checkpoint::empty_spec(), Checkpoint::empty_spec()],
            r.tasks[0] == (TaskControlBlock { state: TaskState::Runnable, frame: task_frame(launch, 0, PHASE_REFERENCE, 0),
                last_checksum: 0 }),
            r.tasks[1] == TaskControlBlock::empty_spec(),
    {
        let mut k = FpPreemptionKernel {
            launch,
            tasks: [TaskControlBlock::empty(); TASK_COUNT],
            results: [Checkpoint::empty(); TASK_COUNT],
            current_phase: Phase::Reference(0),
            current_task: 0,
            timer_interrupt_count: 0,
            forced_switch_count: 0,
            timer_logged: 0,
        };
        k.start_reference_phase(0);
        assert(k.results@ =~= seq![Checkpoint::empty_spec(), Checkpoint::empty_spec()]);
        k
    }

    /// Task `slot` alone, from its start.
    pub fn start_reference_phase(&mut self, slot: usize)
        requires
            slot < TASK_COUNT,
            old(self).timer_logged <= TIMER_LOG_LIMIT,
        ensures
            final(self).wf(),
            final(self).current_phase == Phase::Reference(slot),
            final(self).current_task == slot,
            forall|i: int| 0 <= i < TASK_COUNT ==> #[trigger] final(self).tasks[i] == (if i == slot {
                TaskControlBlock { state: TaskState::Runnable, frame: task_frame(old(self).launch, i, PHASE_REFERENCE, 0),
                    last_checksum: 0 } } else { TaskControlBlock::empty_spec() }),
            final(self).results == old(self).results,
            final(self).launch == old(self).launch,
            final(self).timer_interrupt_count == old(self).timer_interrupt_count,
            final(self).forced_switch_count == old(self).forced_switch_count,
            final(self).timer_logged == old(self).timer_logged,
    {
        self.current_phase = Phase::Reference(slot);
        self.current_task = slot;
        self.tasks = [TaskControlBlock::empty(); TASK_COUNT];
        let t = build_task(&self.launch, slot, PHASE_REFERENCE, 0);
        self.tasks[slot] = t;
    }

    /// Both tasks again, each told its reference checksum; counters cleared.
    pub fn start_preemptive_phase(&mut self)
        ensures
            final(self).wf(),
            final(self).current_phase == Phase::Preemptive,
            final(self).current_task == 0,
            forall|i: int| 0 <= i < TASK_COUNT ==> #[trigger] final(self).tasks[i] == (TaskControlBlock {
                state: TaskState::Runnable,
                frame: task_frame(old(self).launch, i, PHASE_PREEMPTIVE, old(self).results[i].reference), last_checksum: 0 }),
            final(self).results == old(self).results,
            final(self).launch == old(self).launch,
            final(self).timer_interrupt_count == 0,
            final(self).forced_switch_count == 0,
            final(self).timer_logged == 0,
    {
        self.current_phase = Phase::Preemptive;
        self.current_task = 0;
        self.tasks = [TaskControlBlock::empty(); TASK_COUNT];
        let mut slot: usize = 0;
        while slot < TASK_COUNT
            invariant
                slot <= TASK_COUNT,
                self.launch == old(self).launch,
                self.results == old(self).results,
                self.current_phase == Phase::Preemptive,
                self.current_task == 0,
                self.timer_logged == old(self).timer_logged,
                forall|i: int| 0 <= i < slot ==> #[trigger] self.tasks[i] == (TaskControlBlock {
                    state: TaskState::Runnable,
                    frame: task_frame(old(self).launch, i, PHASE_PREEMPTIVE, old(self).results[i].reference), last_checksum: 0 }),
            decreases TASK_COUNT - slot,
        {
            let t = build_task(&self.launch, slot, PHASE_PREEMPTIVE, self.results[slot].reference);
            self.tasks[slot] = t;
            slot += 1;
        }
        self.timer_interrupt_count = 0;
        self.forced_switch_count = 0;
        self.timer_logged = 0;
    }


    /// The first runnable task after `current`, `current` itself last.
    pub fn next_runnable_after(&self, current: usize) -> (r: Option<usize>)
        requires
            current < TASK_COUNT,
        ensures
            r == next_after(self.tasks@, current as int),
    {
        let mut offset: usize = 1;
        while offset <= TASK_COUNT
            invariant
                1 <= offset <= TASK_COUNT + 1,
                current < TASK_COUNT,
                offset >= 2 ==> self.tasks[((current + 1) % 2) as int].state != TaskState::Runnable,
                offset >= 3 ==> self.tasks[current as int].state != TaskState::Runnable,
            decreases TASK_COUNT + 1 - offset,
        {
            let candidate = (current + offset) % TASK_COUNT;
            assert((current + 2) % 2 == current);
            if self.tasks[candidate].state == TaskState::Runnable {
                proof {
                    assert(self.tasks@[(current + 1) % 2] == self.tasks[(current + 1) % 2]);
                    assert(self.tasks@[current as int] == self.tasks[current as int]);
                }
                return Some(candidate);
            }
            offset += 1;
        }
        proof {
            assert(self.tasks@[(current + 1) % 2] == self.tasks[(current + 1) % 2]);
            assert(self.tasks@[current as int] == self.tasks[current as int]);
        }
        None
    }

    /// A time-slice interrupt: the interrupted registers are saved and the
    /// next runnable task (the other one if it can run) is resumed; the
    /// first preemptions are logged.
    pub fn handle_timer_interrupt(&mut self, frame: &mut TrapFrame) -> (r: TimerOutcome)
        requires
            old(self).wf(),
        ensures
            final(self).wf(),
            ({
                let cur = old(self).current_task as int;
                let tasks = old(self).tasks@.update(cur, TaskControlBlock { frame: *old(frame), ..old(self).tasks[cur] });
                let count = old(self).timer_interrupt_count.wrapping_add(1);
                &&& final(self).timer_interrupt_count == count
                &&& final(self).tasks@ == tasks
                &&& final(self).results == old(self).results
                &&& final(self).current_phase == old(self).current_phase
                &&& match next_after(tasks, cur) {
                    None => r == TimerOutcome::NoRunnable && final(self).current_task == old(self).current_task
                        && final(self).forced_switch_count == old(self).forced_switch_count
                        && final(self).timer_logged == old(self).timer_logged,
                    Some(next) => {
                        let preempted = next != cur;
                        let logged = preempted && old(self).timer_logged < TIMER_LOG_LIMIT;
                        &&& r == TimerOutcome::Switched { to: next, preempted, logged,
                            capped: logged && old(self).timer_logged + 1 == TIMER_LOG_LIMIT }
                        &&& final(self).current_task == next
                        &&& *final(frame) == tasks[next as int].frame
                        &&& final(self).forced_switch_count == (if preempted {
                            old(self).forced_switch_count.wrapping_add(1) } else { old(self).forced_switch_count })
                        &&& final(self).timer_logged == (if logged { (old(self).timer_logged + 1) as usize } else {
                            old(self).timer_logged })
                    },
                }
            }),
    {
        self.timer_interrupt_count = self.timer_interrupt_count.wrapping_add(1);
        let current = self.current_task;
        let mut t = self.tasks[current];
        t.frame = *frame;
        self.tasks[current] = t;
        let next = match self.next_runnable_after(current) {
            Some(n) => n,
            None => return TimerOutcome::NoRunnable,
        };
        let mut logged = false;
        let mut capped = false;
        if next != current {
            self.forced_switch_count = self.forced_switch_count.wrapping_add(1);
            if self.timer_logged < TIMER_LOG_LIMIT {
                self.timer_logged = self.timer_logged + 1;
                logged = true;
                capped = self.timer_logged == TIMER_LOG_LIMIT;
            }
        }
        self.current_task = next;
        *frame = self.tasks[next].frame;
        TimerOutcome::Switched { to: next, preempted: next != current, logged, capped }
    }

    /// The current task finished with `checksum`: recorded as its reference
    /// or preemptive result, then the next run, phase or the end follows and
    /// `frame` holds the registers of whatever runs next.
    pub fn handle_finish(&mut self, frame: &mut TrapFrame, checksum: u64) -> (r: FinishOutcome)
        requires
            old(self).wf(),
        ensures
            final(self).wf(),
            ({
                let cur = old(self).current_task as int;
                let done = TaskControlBlock { state: TaskState::Finished, last_checksum: checksum, ..old(self).tasks[cur] };
                match old(self).current_phase {
                    Phase::Reference(slot) => {
                        let results = old(self).results@.update(slot as int,
                            Checkpoint { reference: checksum, have_reference: true, ..old(self).results[slot as int] });
                        &&& final(self).results@ == results
                        &&& if slot + 1 < TASK_COUNT {
                            &&& r == FinishOutcome::NextReference((slot + 1) as usize)
                            &&& final(self).current_phase == Phase::Reference((slot + 1) as usize)
                            &&& final(self).current_task == slot + 1
                            &&& final(self).tasks[slot + 1] == (TaskControlBlock { state: TaskState::Runnable,
                                frame: task_frame(old(self).launch, slot + 1, PHASE_REFERENCE, 0), last_checksum: 0 })
                        } else {
                            &&& r == FinishOutcome::PreemptiveStarted
                            &&& final(self).current_phase == Phase::Preemptive
                            &&& final(self).current_task == 0
                            &&& forall|i: int| 0 <= i < TASK_COUNT ==> #[trigger] final(self).tasks[i] == (TaskControlBlock {
                                state: TaskState::Runnable,
                                frame: task_frame(old(self).launch, i, PHASE_PREEMPTIVE, results[i].reference), last_checksum: 0 })
                            &&& final(self).timer_interrupt_count == 0 && final(self).forced_switch_count == 0
                        }
                        &&& *final(frame) == final(self).tasks[final(self).current_task as int].frame
                    },
                    Phase::Preemptive => {
                        let tasks = old(self).tasks@.update(cur, done);
                        &&& final(self).results@ == old(self).results@.update(cur,
                            Checkpoint { concurrent: checksum, have_concurrent: true, ..old(self).results[cur] })
                        &&& final(self).tasks@ == tasks
                        &&& final(self).current_phase == Phase::Preemptive
                        &&& final(self).timer_interrupt_count == old(self).timer_interrupt_count
                        &&& final(self).forced_switch_count == old(self).forced_switch_count
                        &&& match next_after(tasks, cur) {
                            Some(next) => r == FinishOutcome::NextTask(next) && final(self).current_task == next
                                && *final(frame) == tasks[next as int].frame,
                            None => r == FinishOutcome::ExperimentDone && final(self).current_task == old(self).current_task
                                && *final(frame) == *old(frame),
                        }
                    },
                }
            }),
    {
        let current = self.current_task;
        let mut t = self.tasks[current];
        t.state = TaskState::Finished;
        t.last_checksum = checksum;
        self.tasks[current] = t;
        match self.current_phase {
            Phase::Reference(slot) => {
                let mut c = self.results[slot];
                c.reference = checksum;
                c.have_reference = true;
                self.results[slot] = c;
                if slot + 1 < TASK_COUNT {
                    self.start_reference_phase(slot + 1);
                    *frame = self.tasks[self.current_task].frame;
                    FinishOutcome::NextReference(slot + 1)
                } else {
                    self.start_preemptive_phase();
                    *frame = self.tasks[self.current_task].frame;
                    FinishOutcome::PreemptiveStarted
                }
            },
            Phase::Preemptive => {
                let mut c = self.results[current];
                c.concurrent = checksum;
                c.have_concurrent = true;
                self.results[current] = c;
                match self.next_runnable_after(current) {
                    Some(next) => {
                        self.current_task = next;
                        *frame = self.tasks[next].frame;
                        FinishOutcome::NextTask(next)
                    },
                    None => FinishOutcome::ExperimentDone,
                }
            },
        }
    }

    /// Whether the run passed: a timer interrupt and a forced switch happened, and every
    /// task's preemptive checksum equals its reference.
    pub fn finish_experiment(&self) -> (r: ExperimentVerdict)
        ensures
            forall|i: int| 0 <= i < TASK_COUNT ==> #[trigger] r.matched[i] == self.results[i].matched(),
            r.all_match == (self.results[0].matched() && self.results[1].matched()),
            r.interrupts_ok == (self.timer_interrupt_count > 0),
            r.switches_ok == (self.forced_switch_count > 0),
    {
        let mut matched = [false; TASK_COUNT];
        let mut all_match = true;
        let mut slot: usize = 0;
        while slot < TASK_COUNT
            invariant
                slot <= TASK_COUNT,
                forall|i: int| 0 <= i < slot ==> #[trigger] matched[i] == self.results[i].matched(),
                all_match == (forall|i: int| 0 <= i < slot ==> #[trigger] self.results[i].matched()),
            decreases TASK_COUNT - slot,
        {
            let result = self.results[slot];
            let m = result.have_reference && result.have_concurrent && result.reference == result.concurrent;
            assert(m == self.results[slot as int].matched());
            matched[slot] = m;
            all_match = all_match && m;
            slot += 1;
            assert(all_match == (forall|i: int| 0 <= i < slot ==> #[trigger] self.results[i].matched())) by {
                if all_match {
                    assert forall|i: int| 0 <= i < slot implies #[trigger] self.results[i].matched() by {
                        if i < slot - 1 {
                        } else {
                        }
                    }
                }
            }
        }
        ExperimentVerdict {
            matched,
            all_match,
            interrupts_ok: self.timer_interrupt_count > 0,
            switches_ok: self.forced_switch_count > 0,
        }
    }
}

/// What a system call or trap led to.
#[derive(Clone, Copy, PartialEq, Eq, Structural)]
pub enum TrapOutcome {
    /// `write`: the caller copies `len` bytes from `addr` to the console;
    /// `a0` holds the result.
    Write { addr: usize, len: usize },
    /// `write` with a bad buffer: `a0` holds `EFAULT`.
    WriteRejected,
    Timer(TimerOutcome),
    Finish(FinishOutcome),
    /// An unknown system call: `a0` holds `ENOSYS`.
    UnsupportedSyscall(usize),
    /// A trap the kernel does not handle: it stops.
    UnexpectedTrap,
}

impl FpPreemptionKernel {
    /// A trap with cause `mcause`: system calls (with `mepc` past the
    /// `ecall`) and timer interrupts are handled; any other cause changes
    /// nothing and stops the kernel.
    pub fn dispatch_trap(&mut self, frame: &mut TrapFrame, mcause: u64, user_memory_end: usize) -> (r: TrapOutcome)
        requires
            old(self).wf(),
        ensures
            final(self).wf(),
            mcause != USER_ENV_CALL && mcause != MACHINE_TIMER_INTERRUPT ==> r == TrapOutcome::UnexpectedTrap
                && *final(frame) == *old(frame),
            mcause == MACHINE_TIMER_INTERRUPT ==> r is Timer,
            mcause == USER_ENV_CALL ==> final(frame).mepc == old(frame).mepc.wrapping_add(4) || r is Finish,
            mcause == USER_ENV_CALL && old(frame).a7 == SYS_WRITE ==> ({
                let ok = old(frame).a1 == 0 || (old(frame).a0 != 0 && range_within(old(frame).a0 as int,
                    old(frame).a1 as int, DRAM_START as int, user_memory_end as int));
                &&& ok ==> r == TrapOutcome::Write { addr: old(frame).a0, len: old(frame).a1 }
                    && final(frame).a0 == old(frame).a1 as isize as usize
                &&& !ok ==> r == TrapOutcome::WriteRejected && final(frame).a0 == EFAULT as usize
            }),
            mcause == USER_ENV_CALL && old(frame).a7 == SYS_FINISH ==> r is Finish,
            mcause == USER_ENV_CALL && old(frame).a7 != SYS_WRITE && old(frame).a7 != SYS_FINISH ==>
                r == TrapOutcome::UnsupportedSyscall(old(frame).a7) && final(frame).a0 == ENOSYS as usize,
    {
        if mcause == USER_ENV_CALL {
            frame.mepc = frame.mepc.wrapping_add(4);
            if frame.a7 == SYS_WRITE {
                let addr = frame.a0;
                let len = frame.a1;
                match validated_user_bytes(addr, len, user_memory_end) {
                    Ok(()) => {
                        frame.a0 = len as isize as usize;
                        TrapOutcome::Write { addr, len }
                    },
                    Err(_) => {
                        frame.a0 = EFAULT as usize;
                        TrapOutcome::WriteRejected
                    },
                }
            } else if frame.a7 == SYS_FINISH {
                let checksum = frame.a0 as u64;
                TrapOutcome::Finish(self.handle_finish(frame, checksum))
            } else {
                frame.a0 = ENOSYS as usize;
                TrapOutcome::UnsupportedSyscall(frame.a7)
            }
        } else if mcause == MACHINE_TIMER_INTERRUPT {
            TrapOutcome::Timer(self.handle_timer_interrupt(frame))
        } else {
            TrapOutcome::UnexpectedTrap
        }
    }
}

/// The label of a run phase.
pub fn phase_label(phase: usize) -> (r: &'static str)
    ensures
        phase == PHASE_REFERENCE ==> r@ == "reference"@,
        phase == PHASE_PREEMPTIVE ==> r@ == "preemptive"@,
        phase > 1 ==> r@ == "unknown"@,
{
    match phase {
        0 => "reference",
        1 => "preemptive",
        _ => "unknown",
    }
}

/// The `mtimecmp` deadline one time slice after `now`.
pub fn next_slice_deadline(now: u64) -> (r: u64)
    ensures
        r == now.wrapping_add(TIME_SLICE_TICKS),
{
    now.wrapping_add(TIME_SLICE_TICKS)
}

} // verus!
