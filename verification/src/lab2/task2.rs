//! Per-task system call statistics: four tasks run one after another; the
//! kernel counts each task's calls (all, `write`, `get_taskinfo`, failed),
//! stamps its start and end cycles, and records how it ended. The final
//! report checks each task's profile and the trends between them.
use vstd::prelude::*;
use vstd::string::StringSliceAdditionalSpecFns;
use crate::common::abi::TrapFrame;
use crate::common::names::padded;
pub use super::kernel_task2::TaskInfo;
use super::kernel_task2::{
    padded_name, sys_write, user_mut_result, validated_user_mut, write_result, KernelEffect,
    ENOSYS, INFO_FLOOD_CALLS, IO_BURST_WRITES, SYS_EXIT, SYS_GET_TASKINFO, SYS_WRITE, TASK_COUNT,
    TASK_INFO_ALIGN, TASK_INFO_SIZE, TASK_NAME_LEN,
};

verus! {

/// How a task ended, if it did.
#[derive(Clone, Copy, PartialEq, Eq, Structural)]
pub enum TaskStatus {
    Pending,
    Exited,
    Faulted,
}

/// One task's counters and outcome.
#[derive(Clone, Copy)]
pub struct TaskStats {
    pub total_syscalls: u64,
    pub write_calls: u64,
    pub get_taskinfo_calls: u64,
    pub error_syscalls: u64,
    pub start_cycle: u64,
    pub end_cycle: u64,
    pub exit_code: i32,
    pub fault_cause: u64,
    pub fault_tval: u64,
    pub status: TaskStatus,
}

impl TaskStats {
    /// A task that has not started: every field zero, pending.
    pub open spec fn empty_spec() -> TaskStats {
        TaskStats {
            total_syscalls: 0, write_calls: 0, get_taskinfo_calls: 0, error_syscalls: 0, start_cycle: 0,
            end_cycle: 0, exit_code: 0, fault_cause: 0, fault_tval: 0, status: TaskStatus::Pending,
        }
    }

    pub fn empty() -> (r: Self)
        ensures
            r == TaskStats::empty_spec(),
    {
        TaskStats {
            total_syscalls: 0, write_calls: 0, get_taskinfo_calls: 0, error_syscalls: 0, start_cycle: 0,
            end_cycle: 0, exit_code: 0, fault_cause: 0, fault_tval: 0, status: TaskStatus::Pending,
        }
    }

    /// Cycles between start and end, modulo 2^64.
    pub open spec fn elapsed(self) -> int {
        (self.end_cycle - self.start_cycle) % 0x1_0000_0000_0000_0000
    }

    pub fn elapsed_cycles(self) -> (r: u64)
        ensures
            r == self.elapsed(),
    {
        self.end_cycle.wrapping_sub(self.start_cycle)
    }
}

/// A task of the suite: its number, name and the profile it should show.
#[derive(Clone, Copy)]
pub struct TaskConfig {
    pub id: u64,
    pub name: &'static str,
    pub task_name: [u8; TASK_NAME_LEN],
    pub expected_profile: &'static str,
}

/// The four tasks, in run order.
pub fn task_configs() -> (r: [TaskConfig; TASK_COUNT])
    ensures
        forall|i: int| 0 <= i < TASK_COUNT ==> #[trigger] r[i].id == i + 1,
        r[0].name@ == "io_burst"@ && r[1].name@ == "compute_spin"@,
        r[2].name@ == "info_flood"@ && r[3].name@ == "illegal_trap"@,
        r[0].task_name@ == padded("io_burst".spec_bytes(), 32),
        r[1].task_name@ == padded("compute_spin".spec_bytes(), 32),
        r[2].task_name@ == padded("info_flood".spec_bytes(), 32),
        r[3].task_name@ == padded("illegal_trap".spec_bytes(), 32),
{
    let io = "io_burst";
    let compute = "compute_spin";
    let info = "info_flood";
    let illegal = "illegal_trap";
    [
        TaskConfig { id: 1, name: io, task_name: padded_name(io.as_bytes()),
            expected_profile: "write syscall count should dominate; elapsed cycles should stay modest" },
        TaskConfig { id: 2, name: compute, task_name: padded_name(compute.as_bytes()),
            expected_profile: "almost no syscalls, but elapsed cycles should be the highest" },
        TaskConfig { id: 3, name: info, task_name: padded_name(info.as_bytes()),
            expected_profile: "get_taskinfo calls should dominate and returned snapshots should grow monotonically" },
        TaskConfig { id: 4, name: illegal, task_name: padded_name(illegal.as_bytes()),
            expected_profile: "should trigger an illegal-instruction trap and be recorded as faulted" },
    ]
}

/// `s` with system call `nr` counted: every call in the total, `write` and
/// `get_taskinfo` also in their own counters.
pub open spec fn noted(s: TaskStats, nr: usize) -> TaskStats {
    TaskStats {
        total_syscalls: (s.total_syscalls + 1) as u64,
        write_calls: if nr == SYS_WRITE { (s.write_calls + 1) as u64 } else { s.write_calls },
        get_taskinfo_calls: if nr == SYS_GET_TASKINFO { (s.get_taskinfo_calls + 1) as u64 } else { s.get_taskinfo_calls },
        ..s
    }
}

/// `s` with one more failed call.
pub open spec fn failed(s: TaskStats) -> TaskStats {
    TaskStats { error_syscalls: (s.error_syscalls + 1) as u64, ..s }
}

/// No counter of `s` is saturated.
pub open spec fn counters_room(s: TaskStats) -> bool {
    s.total_syscalls < u64::MAX && s.write_calls < u64::MAX && s.get_taskinfo_calls < u64::MAX
        && s.error_syscalls < u64::MAX
}

/// The suite: the task table, each task's statistics, and the running task.
pub struct StatsSuite {
    pub configs: [TaskConfig; TASK_COUNT],
    pub stats: [TaskStats; TASK_COUNT],
    pub current: usize,
}

/// The report's checks.
#[derive(Clone, Copy)]
pub struct StatsChecks {
    pub io_pass: bool,
    pub compute_pass: bool,
    pub info_pass: bool,
    pub illegal_pass: bool,
    pub trend_pass: bool,
}

impl StatsChecks {
    /// Every check passed: the machine exits with 0, else with 1.
    pub open spec fn passed(self) -> bool {
        self.io_pass && self.compute_pass && self.info_pass && self.illegal_pass && self.trend_pass
    }

    pub fn all_pass(&self) -> (r: bool)
        ensures
            r == self.passed(),
    {
        self.io_pass && self.compute_pass && self.info_pass && self.illegal_pass && self.trend_pass
    }
}

impl StatsSuite {
    /// Boot: the task table, every task pending, task 0 launched at cycle `now`.
    pub fn new(now: u64) -> (r: Self)
        ensures
            r.current == 0,
            forall|i: int| 0 <= i < TASK_COUNT ==> #[trigger] r.configs[i].id == i + 1,
            r.stats[0] == (TaskStats { start_cycle: now, ..TaskStats::empty_spec() }),
            forall|i: int| 1 <= i < TASK_COUNT ==> #[trigger] r.stats[i] == TaskStats::empty_spec(),
    {
        let mut s = StatsSuite { configs: task_configs(), stats: [TaskStats::empty(); TASK_COUNT], current: 0 };
        s.launch_task(0, now);
        s
    }

    /// Task `index` starts at cycle `now` with fresh statistics.
    pub fn launch_task(&mut self, index: usize, now: u64)
        requires
            index < TASK_COUNT,
        ensures
            final(self).current == index,
            final(self).configs == old(self).configs,
            final(self).stats@ == old(self).stats@.update(index as int, TaskStats { start_cycle: now, ..TaskStats::empty_spec() }),
    {
        self.current = index;
        let mut s = TaskStats::empty();
        s.start_cycle = now;
        self.stats[index] = s;
    }

    /// What follows the end of the running task: the next task, or the report.
    pub fn advance_to_next_task(&self) -> (r: KernelEffect)
        requires
            self.current < TASK_COUNT,
        ensures
            self.current + 1 < TASK_COUNT ==> r == (KernelEffect::Launch { index: (self.current + 1) as usize }),
            self.current + 1 >= TASK_COUNT ==> r is FinalReport,
    {
        if self.current + 1 < TASK_COUNT {
            KernelEffect::Launch { index: self.current + 1 }
        } else {
            KernelEffect::FinalReport
        }
    }

    /// The running task faulted with `mcause` and `mtval` at cycle `now`.
    pub fn handle_user_fault(&mut self, mcause: usize, mtval: usize, now: u64) -> (r: KernelEffect)
        requires
            old(self).current < TASK_COUNT,
        ensures
            final(self).current == old(self).current,
            final(self).configs == old(self).configs,
            final(self).stats@ == old(self).stats@.update(old(self).current as int, TaskStats {
                end_cycle: now, fault_cause: mcause as u64, fault_tval: mtval as u64, status: TaskStatus::Faulted,
                ..old(self).stats[old(self).current as int]
            }),
            old(self).current + 1 < TASK_COUNT ==> r == (KernelEffect::Launch { index: (old(self).current + 1) as usize }),
            old(self).current + 1 >= TASK_COUNT ==> r is FinalReport,
    {
        let mut s = self.stats[self.current];
        s.end_cycle = now;
        s.fault_cause = mcause as u64;
        s.fault_tval = mtval as u64;
        s.status = TaskStatus::Faulted;
        self.stats[self.current] = s;
        self.advance_to_next_task()
    }

    /// The system call in `frame` of the running task at cycle `now`, with
    /// user memory ending at `user_memory_end`: it is counted, performed, a
    /// failure counted, and the result stored in `a0`; `exit` ends the task
    /// instead.
    pub fn handle_syscall(&mut self, frame: &mut TrapFrame, now: u64, user_memory_end: usize) -> (r: KernelEffect)
        requires
            old(self).current < TASK_COUNT,
            counters_room(old(self).stats[old(self).current as int]),
        ensures
            final(self).current == old(self).current,
            final(self).configs == old(self).configs,
            forall|i: int| 0 <= i < TASK_COUNT && i != old(self).current ==> #[trigger] final(self).stats[i] == old(self).stats[i],
            ({
                let cur = old(self).current as int;
                let nr = old(frame).a7;
                let s1 = noted(old(self).stats[cur], nr);
                let c = old(self).configs[cur];
                if nr == SYS_WRITE {
                    let res = write_result(old(frame).a0, old(frame).a1, user_memory_end);
                    &&& *final(frame) == (TrapFrame { a0: res as usize, ..*old(frame) })
                    &&& final(self).stats[cur] == (if res < 0 { failed(s1) } else { s1 })
                    &&& r == (if res < 0 { KernelEffect::Resume } else {
                            KernelEffect::ConsoleWrite { addr: old(frame).a0, len: old(frame).a1 } })
                } else if nr == SYS_GET_TASKINFO {
                    match user_mut_result(old(frame).a0, TASK_INFO_SIZE, TASK_INFO_ALIGN, user_memory_end) {
                        Ok(()) => {
                            &&& *final(frame) == (TrapFrame { a0: 0, ..*old(frame) })
                            &&& final(self).stats[cur] == s1
                            &&& r == (KernelEffect::CopyTaskInfo { addr: old(frame).a0, info: TaskInfo {
                                    task_id: c.id, task_name: c.task_name, total_syscalls: s1.total_syscalls,
                                    write_calls: s1.write_calls, get_taskinfo_calls: s1.get_taskinfo_calls,
                                    error_syscalls: s1.error_syscalls, elapsed_cycles: now.wrapping_sub(s1.start_cycle) } })
                        },
                        Err(e) => {
                            &&& *final(frame) == (TrapFrame { a0: e as usize, ..*old(frame) })
                            &&& final(self).stats[cur] == failed(s1)
                            &&& r is Resume
                        },
                    }
                } else if nr == SYS_EXIT {
                    &&& *final(frame) == *old(frame)
                    &&& final(self).stats[cur] == (TaskStats { end_cycle: now, exit_code: old(frame).a0 as i32,
                            status: TaskStatus::Exited, ..s1 })
                    &&& r == (if cur + 1 < TASK_COUNT { KernelEffect::Launch { index: (cur + 1) as usize } }
                            else { KernelEffect::FinalReport })
                } else {
                    &&& *final(frame) == (TrapFrame { a0: ENOSYS as usize, ..*old(frame) })
                    &&& final(self).stats[cur] == failed(s1)
                    &&& r is Resume
                }
            }),
    {
        let nr = frame.a7;
        let cur = self.current;
        let mut s = self.stats[cur];
        s.total_syscalls = s.total_syscalls + 1;
        if nr == SYS_WRITE {
            s.write_calls = s.write_calls + 1;
        } else if nr == SYS_GET_TASKINFO {
            s.get_taskinfo_calls = s.get_taskinfo_calls + 1;
        }
        self.stats[cur] = s;
        let (result, effect) = if nr == SYS_WRITE {
            let addr = frame.a0;
            let len = frame.a1;
            let result = sys_write(addr, len, user_memory_end);
            (result, if result < 0 { KernelEffect::Resume } else { KernelEffect::ConsoleWrite { addr, len } })
        } else if nr == SYS_GET_TASKINFO {
            let addr = frame.a0;
            match validated_user_mut(addr, TASK_INFO_SIZE, TASK_INFO_ALIGN, user_memory_end) {
                Ok(()) => {
                    let c = self.configs[cur];
                    let info = TaskInfo {
                        task_id: c.id,
                        task_name: c.task_name,
                        total_syscalls: s.total_syscalls,
                        write_calls: s.write_calls,
                        get_taskinfo_calls: s.get_taskinfo_calls,
                        error_syscalls: s.error_syscalls,
                        elapsed_cycles: now.wrapping_sub(s.start_cycle),
                    };
                    (0isize, KernelEffect::CopyTaskInfo { addr, info })
                },
                Err(err) => (err, KernelEffect::Resume),
            }
        } else if nr == SYS_EXIT {
            s.end_cycle = now;
            s.exit_code = frame.a0 as i32;
            s.status = TaskStatus::Exited;
            self.stats[cur] = s;
            return self.advance_to_next_task();
        } else {
            (ENOSYS, KernelEffect::Resume)
        };
        if result < 0 {
            s.error_syscalls = s.error_syscalls + 1;
            self.stats[cur] = s;
        }
        frame.a0 = result as usize;
        effect
    }

    /// The report's checks over the four tasks (io_burst, compute_spin,
    /// info_flood, illegal_trap).
    pub fn final_checks(&self) -> (r: StatsChecks)
        ensures
            ({
                let io = self.stats[0];
                let compute = self.stats[1];
                let info = self.stats[2];
                let illegal = self.stats[3];
                &&& r.io_pass == (io.status == TaskStatus::Exited && io.exit_code == 0
                    && io.write_calls == IO_BURST_WRITES && io.get_taskinfo_calls == 0 && io.error_syscalls == 0)
                &&& r.compute_pass == (compute.status == TaskStatus::Exited && compute.exit_code == 0
                    && compute.total_syscalls == 1 && compute.write_calls == 0 && compute.get_taskinfo_calls == 0)
                &&& r.info_pass == (info.status == TaskStatus::Exited && info.exit_code == 0
                    && info.get_taskinfo_calls == INFO_FLOOD_CALLS && info.write_calls == 0 && info.error_syscalls == 0)
                &&& r.illegal_pass == (illegal.status == TaskStatus::Faulted && illegal.fault_cause == 2
                    && illegal.total_syscalls == 0 && illegal.write_calls == 0 && illegal.get_taskinfo_calls == 0)
                &&& r.trend_pass == (io.write_calls > compute.write_calls && io.write_calls > info.write_calls
                    && info.get_taskinfo_calls > io.get_taskinfo_calls
                    && info.get_taskinfo_calls > compute.get_taskinfo_calls
                    && compute.elapsed() > io.elapsed() && compute.elapsed() > info.elapsed())
            }),
    {
        let io = self.stats[0];
        let compute = self.stats[1];
        let info = self.stats[2];
        let illegal = self.stats[3];
        let io_pass = io.status == TaskStatus::Exited && io.exit_code == 0 && io.write_calls == IO_BURST_WRITES
            && io.get_taskinfo_calls == 0 && io.error_syscalls == 0;
        let compute_pass = compute.status == TaskStatus::Exited && compute.exit_code == 0
            && compute.total_syscalls == 1 && compute.write_calls == 0 && compute.get_taskinfo_calls == 0;
        let info_pass = info.status == TaskStatus::Exited && info.exit_code == 0
            && info.get_taskinfo_calls == INFO_FLOOD_CALLS && info.write_calls == 0 && info.error_syscalls == 0;
        let illegal_pass = illegal.status == TaskStatus::Faulted && illegal.fault_cause == 2
            && illegal.total_syscalls == 0 && illegal.write_calls == 0 && illegal.get_taskinfo_calls == 0;
        let trend_pass = io.write_calls > compute.write_calls && io.write_calls > info.write_calls
            && info.get_taskinfo_calls > io.get_taskinfo_calls
            && info.get_taskinfo_calls > compute.get_taskinfo_calls
            && compute.elapsed_cycles() > io.elapsed_cycles() && compute.elapsed_cycles() > info.elapsed_cycles();
        StatsChecks { io_pass, compute_pass, info_pass, illegal_pass, trend_pass }
    }
}

} // verus!
