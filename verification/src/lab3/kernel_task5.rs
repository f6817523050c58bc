//! Preemptive kernel threads: two supervisor-mode daemons without user
//! stacks share the CPU round robin; each forwarded timer interrupt saves
//! one and resumes the other.
use vstd::prelude::*;
use crate::common::abi::TrapFrame;
use crate::lab5::kernel_task4::{rotate_left, spec_rotl};

verus! {

pub const TASK_COUNT: usize = 2;
pub const TIME_SLICE_TICKS: u64 = 12_000;
pub const TARGET_SWITCHES: u64 = 18;
pub const SWITCH_LOG_LIMIT: u64 = 10;
/// `mcause` of a machine timer interrupt (interrupt bit and cause 7).
pub const MACHINE_TIMER_INTERRUPT: u64 = 0x8000_0000_0000_0007;
/// `scause` of a supervisor software interrupt (interrupt bit and cause 1).
pub const SUPERVISOR_SOFTWARE_INTERRUPT: u64 = 0x8000_0000_0000_0001;

/// The id, name and role of thread `i`.
pub fn task_def(i: usize) -> (r: (u64, &'static str, &'static str))
    requires
        i < TASK_COUNT,
    ensures
        r.0 == i + 1,
        i == 0 ==> r.1@ == "recycler_daemon"@ && r.2@ == "background_reclaimer"@,
        i == 1 ==> r.1@ == "logger_daemon"@ && r.2@ == "log_flusher"@,
{
    if i == 0 { (1, "recycler_daemon", "background_reclaimer") } else { (2, "logger_daemon", "log_flusher") }
}

#[derive(Clone, Copy)]
pub struct KernelTask {
    pub frame: TrapFrame,
    pub switch_ins: u64,
    pub preemptions: u64,
}

/// A thread's first registers: it returns into `returned` should its entry
/// ever return, and runs on its own kernel stack.
pub fn build_task(returned: usize, gp: usize, tp: usize, stack_top: usize, entry: usize) -> (r: KernelTask)
    ensures
        r.frame == (TrapFrame { ra: returned, gp, tp, user_sp: stack_top, mepc: entry, ..TrapFrame::zeroed_spec() }),
        r.switch_ins == 0 && r.preemptions == 0,
{
    let mut frame = TrapFrame::zeroed();
    frame.ra = returned;
    frame.gp = gp;
    frame.tp = tp;
    frame.user_sp = stack_top;
    frame.mepc = entry;
    KernelTask { frame, switch_ins: 0, preemptions: 0 }
}

/// What to print about a switch.
#[derive(Clone, Copy, PartialEq, Eq, Structural)]
pub enum SwitchLog {
    /// The switch's trace line.
    Line,
    /// The note that logging stops here.
    Capped,
    Silent,
}

/// One timer-driven switch.
#[derive(Clone, Copy, PartialEq, Eq, Structural)]
pub struct PreemptRecord {
    pub from: usize,
    pub to: usize,
    pub saved_sepc: usize,
    pub next_sepc: usize,
    pub switch_index: u64,
    pub log: SwitchLog,
    /// Enough switches happened: the summary follows.
    pub should_finish: bool,
}

/// A trap the kernel does not expect: it stops.
#[derive(Clone, Copy, PartialEq, Eq, Structural)]
pub enum ThreadFault {
    UnexpectedMachineTrap(u64),
    UnexpectedSupervisorTrap(u64),
}

/// The threads and the counters.
pub struct KernelThreads {
    pub tasks: [KernelTask; TASK_COUNT],
    pub current_task: usize,
    pub ssip: bool,
    pub machine_timer_forwards: u64,
    pub supervisor_irqs: u64,
    pub preempt_switches: u64,
    pub switch_logged: u64,
    pub task_started: [bool; TASK_COUNT],
    pub task_progress: [u64; TASK_COUNT],
    pub last_mcause: u64,
    pub last_scause: u64,
    pub last_sepc: u64,
}

/// The verdict.
#[derive(Clone, Copy)]
pub struct ThreadVerdict {
    pub independent_kernel_tasks_ok: bool,
    pub timer_preempt_ok: bool,
}

/// How a switch is logged: the first ten get a line, the next one the note.
pub open spec fn log_of(switch_index: u64, logged: u64) -> SwitchLog {
    if switch_index <= SWITCH_LOG_LIMIT { SwitchLog::Line } else if logged == SWITCH_LOG_LIMIT { SwitchLog::Capped }
    else { SwitchLog::Silent }
}

impl KernelThreads {
    pub open spec fn wf(&self) -> bool {
        self.current_task < TASK_COUNT
    }

    /// Both threads built from `tasks`, thread 0 entered first.
    pub fn initialize_tasks(tasks: [KernelTask; TASK_COUNT]) -> (r: Self)
        ensures
            r.wf(),
            r.current_task == 0,
            r.tasks[0] == (KernelTask { switch_ins: 1, ..tasks[0] }),
            r.tasks[1] == tasks[1],
            r.machine_timer_forwards == 0 && r.supervisor_irqs == 0 && r.preempt_switches == 0 && r.switch_logged == 0,
            !r.task_started[0] && !r.task_started[1] && r.task_progress[0] == 0 && r.task_progress[1] == 0,
    {
        let mut first = tasks[0];
        first.switch_ins = 1;
        KernelThreads {
            tasks: [first, tasks[1]],
            current_task: 0,
            ssip: false,
            machine_timer_forwards: 0,
            supervisor_irqs: 0,
            preempt_switches: 0,
            switch_logged: 0,
            task_started: [false, false],
            task_progress: [0, 0],
            last_mcause: 0,
            last_scause: 0,
            last_sepc: 0,
        }
    }

    /// The machine timer fired: forwarded as a pending software interrupt.
    pub fn handle_machine_trap(&mut self, mcause: u64) -> (r: Result<(), ThreadFault>)
        ensures
            final(self).wf() == old(self).wf(),
            final(self).last_mcause == mcause,
            mcause != MACHINE_TIMER_INTERRUPT ==> r == Err::<(), ThreadFault>(ThreadFault::UnexpectedMachineTrap(mcause)),
            mcause == MACHINE_TIMER_INTERRUPT ==> r is Ok && final(self).ssip
                && final(self).machine_timer_forwards == old(self).machine_timer_forwards.wrapping_add(1),
            final(self).tasks == old(self).tasks,
            final(self).current_task == old(self).current_task,
    {
        self.last_mcause = mcause;
        if mcause != MACHINE_TIMER_INTERRUPT {
            return Err(ThreadFault::UnexpectedMachineTrap(mcause));
        }
        self.ssip = true;
        self.machine_timer_forwards = self.machine_timer_forwards.wrapping_add(1);
        Ok(())
    }

    /// The forwarded interrupt preempts the running thread: its registers
    /// are saved and the other thread resumes.
    pub fn handle_supervisor_trap(&mut self, frame: &mut TrapFrame, scause: u64) -> (r: Result<PreemptRecord, ThreadFault>)
        requires
            old(self).wf(),
        ensures
            final(self).wf(),
            final(self).last_scause == scause,
            final(self).last_sepc == old(frame).mepc as u64,
            scause != SUPERVISOR_SOFTWARE_INTERRUPT ==> r == Err::<PreemptRecord, ThreadFault>(
                ThreadFault::UnexpectedSupervisorTrap(scause)) && *final(frame) == *old(frame),
            scause == SUPERVISOR_SOFTWARE_INTERRUPT ==> ({
                let cur = old(self).current_task as int;
                let next = (cur + 1) % 2;
                let n = old(self).preempt_switches.wrapping_add(1);
                let saved = KernelTask { frame: *old(frame), preemptions: old(self).tasks[cur].preemptions.wrapping_add(1),
                    ..old(self).tasks[cur] };
                let tasks = old(self).tasks@.update(cur, saved);
                &&& r == Ok::<PreemptRecord, ThreadFault>(PreemptRecord { from: cur as usize, to: next as usize,
                    saved_sepc: old(frame).mepc, next_sepc: tasks[next].frame.mepc, switch_index: n,
                    log: log_of(n, old(self).switch_logged), should_finish: n >= TARGET_SWITCHES })
                &&& final(self).tasks@ == tasks.update(next, KernelTask { switch_ins: tasks[next].switch_ins.wrapping_add(1),
                    ..tasks[next] })
                &&& final(self).current_task == next
                &&& *final(frame) == tasks[next].frame
                &&& !final(self).ssip
                &&& final(self).supervisor_irqs == old(self).supervisor_irqs.wrapping_add(1)
                &&& final(self).preempt_switches == n
                &&& final(self).switch_logged == (match log_of(n, old(self).switch_logged) {
                    SwitchLog::Line => n,
                    SwitchLog::Capped => (old(self).switch_logged + 1) as u64,
                    SwitchLog::Silent => old(self).switch_logged,
                })
            }),
    {
        self.last_scause = scause;
        self.last_sepc = frame.mepc as u64;
        if scause != SUPERVISOR_SOFTWARE_INTERRUPT {
            return Err(ThreadFault::UnexpectedSupervisorTrap(scause));
        }
        self.ssip = false;
        let current = self.current_task;
        let mut t = self.tasks[current];
        t.frame = *frame;
        t.preemptions = t.preemptions.wrapping_add(1);
        self.tasks[current] = t;
        self.supervisor_irqs = self.supervisor_irqs.wrapping_add(1);
        let next = (current + 1) % TASK_COUNT;
        let switch_index = self.preempt_switches.wrapping_add(1);
        self.preempt_switches = switch_index;
        let saved_sepc = self.tasks[current].frame.mepc;
        let next_sepc = self.tasks[next].frame.mepc;
        let mut n = self.tasks[next];
        n.switch_ins = n.switch_ins.wrapping_add(1);
        self.tasks[next] = n;
        self.current_task = next;
        *frame = self.tasks[next].frame;
        let log = if switch_index <= SWITCH_LOG_LIMIT {
            self.switch_logged = switch_index;
            SwitchLog::Line
        } else if self.switch_logged == SWITCH_LOG_LIMIT {
            self.switch_logged = self.switch_logged + 1;
            SwitchLog::Capped
        } else {
            SwitchLog::Silent
        };
        Ok(PreemptRecord { from: current, to: next, saved_sepc, next_sepc, switch_index, log,
            should_finish: switch_index >= TARGET_SWITCHES })
    }

    /// Thread `i` reports that it started.
    pub fn mark_started(&mut self, i: usize)
        requires
            i < TASK_COUNT,
        ensures
            final(self).task_started@ == old(self).task_started@.update(i as int, true),
            final(self).task_progress == old(self).task_progress,
            final(self).preempt_switches == old(self).preempt_switches,
            final(self).supervisor_irqs == old(self).supervisor_irqs,
    {
        self.task_started[i] = true;
    }

    /// Thread `i` publishes its progress word.
    pub fn record_progress(&mut self, i: usize, value: u64)
        requires
            i < TASK_COUNT,
        ensures
            final(self).task_progress@ == old(self).task_progress@.update(i as int, value),
            final(self).task_started == old(self).task_started,
            final(self).preempt_switches == old(self).preempt_switches,
            final(self).supervisor_irqs == old(self).supervisor_irqs,
    {
        self.task_progress[i] = value;
    }

    /// Whether the run passed: both threads started and made progress, and the timer
    /// preempted them.
    pub fn finish_experiment(&self) -> (r: ThreadVerdict)
        ensures
            r.independent_kernel_tasks_ok == (self.task_started[0] && self.task_started[1] && self.task_progress[0] > 0
                && self.task_progress[1] > 0),
            r.timer_preempt_ok == (self.preempt_switches > 0 && self.supervisor_irqs > 0),
    {
        ThreadVerdict {
            independent_kernel_tasks_ok: self.task_started[0] && self.task_started[1] && self.task_progress[0] > 0
                && self.task_progress[1] > 0,
            timer_preempt_ok: self.preempt_switches > 0 && self.supervisor_irqs > 0,
        }
    }
}

/// One round of the recycler's inner loop.
pub open spec fn recycler_step(acc: u64, i: u64) -> u64 {
    spec_rotl(acc, 7).wrapping_add(i ^ 0x9e37_79b9).wrapping_mul(0x5851_f42d_4c95_7f2d)
}

/// One round of the logger's inner loop.
pub open spec fn logger_step(acc: u64, i: u64) -> u64 {
    spec_rotl(acc, 11).wrapping_add(0xd1b5_4a32 ^ i).wrapping_mul(0x2545_f491_4f6c_dd1d)
}

pub open spec fn recycler_rounds(acc: u64, n: nat) -> u64
    decreases n,
{
    if n == 0 { acc } else { recycler_step(recycler_rounds(acc, (n - 1) as nat), (n - 1) as u64) }
}

pub open spec fn logger_rounds(acc: u64, n: nat) -> u64
    decreases n,
{
    if n == 0 { acc } else { logger_step(logger_rounds(acc, (n - 1) as nat), (n - 1) as u64) }
}

/// One batch of the recycler daemon: 18000 rounds; its progress word is
/// the result xor the batch number.
pub fn recycler_batch(acc: u64) -> (r: u64)
    ensures
        r == recycler_rounds(acc, 18_000),
{
    let mut a = acc;
    let mut inner: u64 = 0;
    while inner < 18_000
        invariant
            inner <= 18_000,
            a == recycler_rounds(acc, inner as nat),
        decreases 18_000 - inner,
    {
        a = rotate_left(a, 7).wrapping_add(inner ^ 0x9e37_79b9).wrapping_mul(0x5851_f42d_4c95_7f2d);
        inner += 1;
    }
    a
}

/// One batch of the logger daemon: 14000 rounds; its progress word is the
/// result plus the batch number.
pub fn logger_batch(acc: u64) -> (r: u64)
    ensures
        r == logger_rounds(acc, 14_000),
{
    let mut a = acc;
    let mut inner: u64 = 0;
    while inner < 14_000
        invariant
            inner <= 14_000,
            a == logger_rounds(acc, inner as nat),
        decreases 14_000 - inner,
    {
        a = rotate_left(a, 11).wrapping_add(0xd1b5_4a32 ^ inner).wrapping_mul(0x2545_f491_4f6c_dd1d);
        inner += 1;
    }
    a
}

} // verus!
