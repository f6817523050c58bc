//! Per-task syscall histograms: four tasks run one after another and the
//! kernel counts, per task, how often each system call number was used.
use vstd::prelude::*;
use crate::common::abi::TrapFrame;
use crate::common::names::padded;
use crate::common::text::{name_text, padded_bytes_to_str};
use crate::common::user_mem::range_within;

verus! {

pub const DRAM_START: usize = 0x8000_0000;
pub const TASK_NAME_LEN: usize = 32;
pub const TASK_COUNT: usize = 4;
pub const SYSCALL_HIST_LEN: usize = 3;

pub const IO_BURST_WRITES: u64 = 24;
pub const INFO_FLOOD_CALLS: u64 = 20;

pub const SYS_WRITE: usize = 0;
pub const SYS_GET_TASKINFO: usize = 1;
pub const SYS_EXIT: usize = 2;

pub const EFAULT: isize = -14;
pub const EINVAL: isize = -22;
pub const ENOSYS: isize = -38;

/// Size and alignment of the `#[repr(C)]` layout of [`TaskInfo`]: a `u64`,
/// a 32-byte name and five `u64` counters.
pub const TASK_INFO_SIZE: usize = 80;
pub const TASK_INFO_ALIGN: usize = 8;

/// Snapshot of a task's statistics copied out by `get_taskinfo`.
#[derive(Clone, Copy)]
pub struct TaskInfo {
    pub task_id: u64,
    pub task_name: [u8; TASK_NAME_LEN],
    pub total_syscalls: u64,
    pub write_calls: u64,
    pub get_taskinfo_calls: u64,
    pub error_syscalls: u64,
    pub elapsed_cycles: u64,
}

impl TaskInfo {
    /// A record with every field zero.
    pub fn empty() -> (r: Self)
        ensures
            r.task_id == 0 && r.total_syscalls == 0 && r.write_calls == 0,
            r.get_taskinfo_calls == 0 && r.error_syscalls == 0 && r.elapsed_cycles == 0,
            r.task_name@ == Seq::new(32, |i: int| 0u8),
    {
        let r = TaskInfo {
            task_id: 0,
            task_name: [0u8; TASK_NAME_LEN],
            total_syscalls: 0,
            write_calls: 0,
            get_taskinfo_calls: 0,
            error_syscalls: 0,
            elapsed_cycles: 0,
        };
        assert(r.task_name@ =~= Seq::new(32, |i: int| 0u8));
        r
    }

    /// The task name as text (see [`name_text`]).
    pub fn name(&self) -> (r: &str)
        ensures
            r@ == name_text(self.task_name@),
    {
        bytes_to_str(&self.task_name)
    }
}

#[derive(Clone, Copy, PartialEq, Eq, Structural)]
pub enum TaskStatus {
    Ready,
    Exited,
    Faulted,
}

/// Syscall counters of one task.
#[derive(Clone, Copy)]
pub struct SyscallStats {
    pub total_syscalls: u64,
    pub histogram: [u64; SYSCALL_HIST_LEN],
    pub error_syscalls: u64,
    pub unknown_syscalls: u64,
}

impl SyscallStats {
    /// All counters zero.
    pub fn empty() -> (r: Self)
        ensures
            r.total_syscalls == 0 && r.error_syscalls == 0 && r.unknown_syscalls == 0,
            r.histogram@ == seq![0u64, 0u64, 0u64],
    {
        let r = SyscallStats { total_syscalls: 0, histogram: [0u64; SYSCALL_HIST_LEN], error_syscalls: 0, unknown_syscalls: 0 };
        assert(r.histogram@ =~= seq![0u64, 0u64, 0u64]);
        r
    }

    /// Number of `write` calls.
    pub fn write_calls(self) -> (r: u64)
        ensures
            r == self.histogram@[SYS_WRITE as int],
    {
        self.histogram[SYS_WRITE]
    }

    /// Number of `get_taskinfo` calls.
    pub fn get_taskinfo_calls(self) -> (r: u64)
        ensures
            r == self.histogram@[SYS_GET_TASKINFO as int],
    {
        self.histogram[SYS_GET_TASKINFO]
    }
}

/// A task and the results of its most recent run.
#[derive(Clone, Copy)]
pub struct TaskControlBlock {
    pub id: u64,
    pub name: &'static str,
    pub task_name: [u8; TASK_NAME_LEN],
    pub expected_profile: &'static str,
    pub stats: SyscallStats,
    pub start_cycle: u64,
    pub end_cycle: u64,
    pub exit_code: i32,
    pub fault_cause: u64,
    pub fault_tval: u64,
    pub status: TaskStatus,
}

/// `t` is ready and has not run: every counter, cycle stamp and result zero.
pub open spec fn not_yet_run(t: TaskControlBlock) -> bool {
    &&& t.stats.total_syscalls == 0 && t.stats.error_syscalls == 0 && t.stats.unknown_syscalls == 0
    &&& t.stats.histogram@ == seq![0u64, 0u64, 0u64]
    &&& t.start_cycle == 0 && t.end_cycle == 0 && t.exit_code == 0
    &&& t.fault_cause == 0 && t.fault_tval == 0 && t.status == TaskStatus::Ready
}

impl TaskControlBlock {
    /// A ready task that has not run yet.
    pub fn new(id: u64, name: &'static str, task_name: [u8; TASK_NAME_LEN], expected_profile: &'static str) -> (r: Self)
        ensures
            r.id == id && r.name == name && r.task_name == task_name && r.expected_profile == expected_profile,
            r.stats.total_syscalls == 0 && r.stats.error_syscalls == 0 && r.stats.unknown_syscalls == 0,
            r.stats.histogram@ == seq![0u64, 0u64, 0u64],
            r.start_cycle == 0 && r.end_cycle == 0 && r.exit_code == 0,
            r.fault_cause == 0 && r.fault_tval == 0 && r.status == TaskStatus::Ready,
    {
        TaskControlBlock {
            id,
            name,
            task_name,
            expected_profile,
            stats: SyscallStats::empty(),
            start_cycle: 0,
            end_cycle: 0,
            exit_code: 0,
            fault_cause: 0,
            fault_tval: 0,
            status: TaskStatus::Ready,
        }
    }

    /// Cycles between launch and end, modulo 2^64.
    pub fn elapsed_cycles(self) -> (r: u64)
        ensures
            r == (self.end_cycle - self.start_cycle) % 0x1_0000_0000_0000_0000,
    {
        self.end_cycle.wrapping_sub(self.start_cycle)
    }
}

/// `name` in a 32-byte buffer, cut to 31 bytes and zero padded.
pub fn padded_name(name: &[u8]) -> (r: [u8; TASK_NAME_LEN])
    ensures
        r@ == padded(name@, 32),
{
    let mut out = [0u8; TASK_NAME_LEN];
    let mut index: usize = 0;
    while index < name.len() && index < TASK_NAME_LEN - 1
        invariant
            index <= 31,
            index <= name@.len(),
            out@.len() == 32,
            forall|k: int| 0 <= k < index ==> out@[k] == name@[k],
            forall|k: int| index <= k < 32 ==> out@[k] == 0u8,
        decreases 32 - index,
    {
        out[index] = name[index];
        index += 1;
    }
    assert forall|k: int| 0 <= k < 32 implies out@[k] == padded(name@, 32)[k] by {
        if k >= index {
            assert(!(k < name@.len() && k < 31));
        }
    }
    assert(out@ =~= padded(name@, 32));
    out
}

/// The text of a zero-padded name buffer (see [`name_text`]).
pub fn bytes_to_str(bytes: &[u8; TASK_NAME_LEN]) -> (r: &str)
    ensures
        r@ == name_text(bytes@),
{
    padded_bytes_to_str(bytes.as_slice())
}

/// `PASS` or `FAIL`.
pub fn pass_fail(ok: bool) -> (r: &'static str)
    ensures
        ok ==> r@ == "PASS"@,
        !ok ==> r@ == "FAIL"@,
{
    if ok { "PASS" } else { "FAIL" }
}

/// The four tasks of the suite, in launch order.
pub fn initial_tasks() -> (r: [TaskControlBlock; TASK_COUNT])
    ensures
        r[0].name@ == "io_burst"@ && r[1].name@ == "compute_spin"@,
        r[2].name@ == "info_flood"@ && r[3].name@ == "illegal_trap"@,
        forall|i: int| 0 <= i < 4 ==> #[trigger] r[i].id == i + 1 && not_yet_run(r[i]),
{
    [
        TaskControlBlock::new(1, "io_burst", padded_name("io_burst".as_bytes()),
            "write bucket should dominate; exit bucket should be exactly 1"),
        TaskControlBlock::new(2, "compute_spin", padded_name("compute_spin".as_bytes()),
            "almost only exit syscall; elapsed cycles should be the largest"),
        TaskControlBlock::new(3, "info_flood", padded_name("info_flood".as_bytes()),
            "get_taskinfo bucket should dominate; exit bucket should be exactly 1"),
        TaskControlBlock::new(4, "illegal_trap", padded_name("illegal_trap".as_bytes()),
            "should fault before any syscall, keeping every bucket at 0"),
    ]
}

/// Checks that `[addr, addr + len)` is empty or lies in `[DRAM_START, user_memory_end)`.
pub fn user_range_valid(addr: usize, len: usize, user_memory_end: usize) -> (r: bool)
    ensures
        r == range_within(addr as int, len as int, DRAM_START as int, user_memory_end as int),
{
    if len == 0 {
        return true;
    }
    let end = match addr.checked_add(len) {
        Some(end) => end,
        None => return false,
    };
    addr >= DRAM_START && end <= user_memory_end
}

/// Checks a user buffer the kernel reads from: empty, or non-null and valid.
pub fn validated_user_bytes(addr: usize, len: usize, user_memory_end: usize) -> (r: Result<(), isize>)
    ensures
        r is Ok <==> (len == 0 || (addr != 0 && range_within(addr as int, len as int, DRAM_START as int, user_memory_end as int))),
        r is Err ==> r->Err_0 == EFAULT,
{
    if len == 0 {
        return Ok(());
    }
    if addr == 0 || !user_range_valid(addr, len, user_memory_end) {
        return Err(EFAULT);
    }
    Ok(())
}

/// The result of validating a pointer to an `size`-byte, `align`-aligned object.
pub open spec fn user_mut_result(addr: usize, size: usize, align: usize, user_memory_end: usize) -> Result<(), isize> {
    if addr == 0 {
        Err(EFAULT)
    } else if addr % align != 0 {
        Err(EINVAL)
    } else if !range_within(addr as int, size as int, DRAM_START as int, user_memory_end as int) {
        Err(EFAULT)
    } else {
        Ok(())
    }
}

/// Checks a user pointer the kernel writes an object through.
pub fn validated_user_mut(addr: usize, size: usize, align: usize, user_memory_end: usize) -> (r: Result<(), isize>)
    requires
        align > 0,
    ensures
        r == user_mut_result(addr, size, align, user_memory_end),
{
    if addr == 0 {
        return Err(EFAULT);
    }
    if addr % align != 0 {
        return Err(EINVAL);
    }
    if !user_range_valid(addr, size, user_memory_end) {
        return Err(EFAULT);
    }
    Ok(())
}

/// The result of `sys_write(addr, len)`.
pub open spec fn write_result(addr: usize, len: usize, user_memory_end: usize) -> isize {
    if len == 0 || (addr != 0 && range_within(addr as int, len as int, DRAM_START as int, user_memory_end as int)) {
        len as isize
    } else {
        EFAULT
    }
}

/// `sys_write`: validates the buffer; on success the caller copies it to the console.
pub fn sys_write(addr: usize, len: usize, user_memory_end: usize) -> (r: isize)
    ensures
        r == write_result(addr, len, user_memory_end),
{
    match validated_user_bytes(addr, len, user_memory_end) {
        Ok(()) => len as isize,
        Err(err) => err,
    }
}

/// Stats with call number `nr` counted.
pub open spec fn counted(s: SyscallStats, nr: usize) -> SyscallStats {
    if nr < SYSCALL_HIST_LEN {
        SyscallStats {
            total_syscalls: (s.total_syscalls + 1) as u64,
            histogram: vstd::array::spec_array_update(s.histogram, nr as int, (s.histogram[nr as int] + 1) as u64),
            ..s
        }
    } else {
        SyscallStats {
            total_syscalls: (s.total_syscalls + 1) as u64,
            unknown_syscalls: (s.unknown_syscalls + 1) as u64,
            ..s
        }
    }
}

/// No counter of `s` is saturated.
pub open spec fn stats_room(s: SyscallStats) -> bool {
    &&& s.total_syscalls < u64::MAX
    &&& s.error_syscalls < u64::MAX
    &&& s.unknown_syscalls < u64::MAX
    &&& forall|i: int| 0 <= i < 3 ==> s.histogram[i] < u64::MAX
}

/// The kernel state: the task table and the index of the running task.
pub struct Kernel {
    pub tasks: [TaskControlBlock; TASK_COUNT],
    pub current: usize,
}

/// What the machine-level caller does after the kernel decided a trap.
pub enum KernelEffect {
    /// Return to the running task.
    Resume,
    /// Copy `len` bytes at `addr` to the console, then return to the task.
    ConsoleWrite { addr: usize, len: usize },
    /// Store `info` at user address `addr`, then return to the task.
    CopyTaskInfo { addr: usize, info: TaskInfo },
    /// Launch the task at this index.
    Launch { index: usize },
    /// All tasks have run; print the final report.
    FinalReport,
}

impl Kernel {
    /// The suite before any task ran.
    pub fn new() -> (r: Self)
        ensures
            r.current == 0,
            r.tasks[0].name@ == "io_burst"@ && r.tasks[1].name@ == "compute_spin"@,
            r.tasks[2].name@ == "info_flood"@ && r.tasks[3].name@ == "illegal_trap"@,
            forall|i: int| 0 <= i < TASK_COUNT ==> #[trigger] r.tasks[i].id == i + 1 && not_yet_run(r.tasks[i]),
    {
        Kernel { tasks: initial_tasks(), current: 0 }
    }

    /// Resets the task at `index` and makes it current (`launch_task` before
    /// entering user mode); `now` is the cycle counter.
    pub fn launch_task(&mut self, index: usize, now: u64)
        requires
            index < TASK_COUNT,
        ensures
            final(self).current == index,
            final(self).tasks@ == old(self).tasks@.update(index as int, TaskControlBlock {
                stats: final(self).tasks[index as int].stats,
                start_cycle: now,
                end_cycle: 0,
                exit_code: 0,
                fault_cause: 0,
                fault_tval: 0,
                status: TaskStatus::Ready,
                ..old(self).tasks[index as int]
            }),
            final(self).tasks[index as int].stats.total_syscalls == 0,
            final(self).tasks[index as int].stats.error_syscalls == 0,
            final(self).tasks[index as int].stats.unknown_syscalls == 0,
            final(self).tasks[index as int].stats.histogram@ == seq![0u64, 0u64, 0u64],
    {
        self.current = index;
        let mut task = self.tasks[index];
        task.stats = SyscallStats::empty();
        task.start_cycle = now;
        task.end_cycle = 0;
        task.exit_code = 0;
        task.fault_cause = 0;
        task.fault_tval = 0;
        task.status = TaskStatus::Ready;
        self.tasks[index] = task;
    }

    /// The running task.
    pub fn current_task(&self) -> (r: TaskControlBlock)
        requires
            self.current < TASK_COUNT,
        ensures
            r == self.tasks[self.current as int],
    {
        self.tasks[self.current]
    }

    /// Counts system call number `nr` for the running task.
    pub fn record_syscall_number(&mut self, nr: usize)
        requires
            old(self).current < TASK_COUNT,
            stats_room(old(self).tasks[old(self).current as int].stats),
        ensures
            final(self).current == old(self).current,
            final(self).tasks@ == old(self).tasks@.update(old(self).current as int, TaskControlBlock {
                stats: counted(old(self).tasks[old(self).current as int].stats, nr),
                ..old(self).tasks[old(self).current as int]
            }),
    {
        let mut task = self.tasks[self.current];
        task.stats.total_syscalls = task.stats.total_syscalls + 1;
        if nr < SYSCALL_HIST_LEN {
            task.stats.histogram[nr] = task.stats.histogram[nr] + 1;
        } else {
            task.stats.unknown_syscalls = task.stats.unknown_syscalls + 1;
        }
        self.tasks[self.current] = task;
        assert(self.tasks[self.current as int].stats.histogram@ =~= counted(old(self).tasks[old(self).current as int].stats, nr).histogram@);
    }

    /// Counts a failed system call for the running task.
    pub fn record_syscall_error(&mut self)
        requires
            old(self).current < TASK_COUNT,
            old(self).tasks[old(self).current as int].stats.error_syscalls < u64::MAX,
        ensures
            final(self).current == old(self).current,
            final(self).tasks@ == old(self).tasks@.update(old(self).current as int, TaskControlBlock {
                stats: SyscallStats {
                    error_syscalls: (old(self).tasks[old(self).current as int].stats.error_syscalls + 1) as u64,
                    ..old(self).tasks[old(self).current as int].stats
                },
                ..old(self).tasks[old(self).current as int]
            }),
    {
        let mut task = self.tasks[self.current];
        task.stats.error_syscalls = task.stats.error_syscalls + 1;
        self.tasks[self.current] = task;
    }

    /// The snapshot `sys_get_taskinfo` copies out for the running task at cycle `now`.
    pub fn task_info_snapshot(&self, now: u64) -> (r: TaskInfo)
        requires
            self.current < TASK_COUNT,
        ensures
            r.task_id == self.tasks[self.current as int].id,
            r.task_name == self.tasks[self.current as int].task_name,
            r.total_syscalls == self.tasks[self.current as int].stats.total_syscalls,
            r.write_calls == self.tasks[self.current as int].stats.histogram[SYS_WRITE as int],
            r.get_taskinfo_calls == self.tasks[self.current as int].stats.histogram[SYS_GET_TASKINFO as int],
            r.error_syscalls == self.tasks[self.current as int].stats.error_syscalls,
            r.elapsed_cycles == (now - self.tasks[self.current as int].start_cycle) % 0x1_0000_0000_0000_0000,
    {
        let task = self.current_task();
        TaskInfo {
            task_id: task.id,
            task_name: task.task_name,
            total_syscalls: task.stats.total_syscalls,
            write_calls: task.stats.write_calls(),
            get_taskinfo_calls: task.stats.get_taskinfo_calls(),
            error_syscalls: task.stats.error_syscalls,
            elapsed_cycles: now.wrapping_sub(task.start_cycle),
        }
    }

    /// Marks the running task exited with `code` at cycle `now`.
    pub fn finish_current_task(&mut self, code: i32, now: u64)
        requires
            old(self).current < TASK_COUNT,
        ensures
            final(self).current == old(self).current,
            final(self).tasks@ == old(self).tasks@.update(old(self).current as int, TaskControlBlock {
                end_cycle: now,
                exit_code: code,
                status: TaskStatus::Exited,
                ..old(self).tasks[old(self).current as int]
            }),
    {
        let mut task = self.tasks[self.current];
        task.end_cycle = now;
        task.exit_code = code;
        task.status = TaskStatus::Exited;
        self.tasks[self.current] = task;
    }

    /// What follows the end of the running task: the next task, or the final report.
    pub fn advance_to_next_task(&self) -> (r: KernelEffect)
        requires
            self.current < TASK_COUNT,
        ensures
            self.current + 1 < TASK_COUNT ==> r == (KernelEffect::Launch { index: (self.current + 1) as usize }),
            self.current + 1 >= TASK_COUNT ==> r is FinalReport,
    {
        let next_index = self.current + 1;
        if next_index < TASK_COUNT {
            KernelEffect::Launch { index: next_index }
        } else {
            KernelEffect::FinalReport
        }
    }

    /// Records a user fault (`mcause`, `mtval`) of the running task at cycle `now`
    /// and moves on to the next task.
    pub fn handle_user_fault(&mut self, mcause: usize, mtval: usize, now: u64) -> (r: KernelEffect)
        requires
            old(self).current < TASK_COUNT,
        ensures
            final(self).current == old(self).current,
            final(self).tasks@ == old(self).tasks@.update(old(self).current as int, TaskControlBlock {
                end_cycle: now,
                fault_cause: mcause as u64,
                fault_tval: mtval as u64,
                status: TaskStatus::Faulted,
                ..old(self).tasks[old(self).current as int]
            }),
            old(self).current + 1 < TASK_COUNT ==> r == (KernelEffect::Launch { index: (old(self).current + 1) as usize }),
            old(self).current + 1 >= TASK_COUNT ==> r is FinalReport,
    {
        let mut task = self.tasks[self.current];
        task.end_cycle = now;
        task.fault_cause = mcause as u64;
        task.fault_tval = mtval as u64;
        task.status = TaskStatus::Faulted;
        self.tasks[self.current] = task;
        self.advance_to_next_task()
    }

    /// Handles the system call in `frame` for the running task: counts it,
    /// performs it, counts a failure, and stores the result in `a0`. `now` is
    /// the cycle counter and `user_memory_end` the end of user-accessible memory.
    pub fn handle_syscall(&mut self, frame: &mut TrapFrame, now: u64, user_memory_end: usize) -> (r: KernelEffect)
        requires
            old(self).current < TASK_COUNT,
            stats_room(old(self).tasks[old(self).current as int].stats),
        ensures
            final(self).current == old(self).current,
            ({
                let cur = old(self).current as int;
                let nr = old(frame).a7;
                let t = old(self).tasks[cur];
                let s1 = counted(t.stats, nr);
                if nr == SYS_WRITE {
                    let res = write_result(old(frame).a0, old(frame).a1, user_memory_end);
                    &&& final(frame).a0 == res as usize
                    &&& final(self).tasks[cur].stats == (if res < 0 {
                            SyscallStats { error_syscalls: (s1.error_syscalls + 1) as u64, ..s1 }
                        } else { s1 })
                    &&& (res >= 0 ==> r == (KernelEffect::ConsoleWrite { addr: old(frame).a0, len: old(frame).a1 }))
                    &&& (res < 0 ==> r is Resume)
                } else if nr == SYS_GET_TASKINFO {
                    let res = user_mut_result(old(frame).a0, TASK_INFO_SIZE, TASK_INFO_ALIGN, user_memory_end);
                    &&& (res is Ok ==> final(frame).a0 == 0 && final(self).tasks[cur].stats == s1
                            && (r matches KernelEffect::CopyTaskInfo { addr, info } && addr == old(frame).a0
                                && info.task_id == t.id && info.total_syscalls == s1.total_syscalls
                                && info.get_taskinfo_calls == s1.histogram[SYS_GET_TASKINFO as int]
                                && info.write_calls == s1.histogram[SYS_WRITE as int]))
                    &&& (res is Err ==> final(frame).a0 == res->Err_0 as usize && r is Resume
                            && final(self).tasks[cur].stats == SyscallStats { error_syscalls: (s1.error_syscalls + 1) as u64, ..s1 })
                } else if nr == SYS_EXIT {
                    &&& final(frame).a0 == old(frame).a0
                    &&& final(self).tasks[cur].stats == s1
                    &&& final(self).tasks[cur].status == TaskStatus::Exited
                    &&& final(self).tasks[cur].exit_code == old(frame).a0 as i32
                    &&& final(self).tasks[cur].end_cycle == now
                    &&& (cur + 1 < TASK_COUNT ==> r == (KernelEffect::Launch { index: (cur + 1) as usize }))
                    &&& (cur + 1 >= TASK_COUNT ==> r is FinalReport)
                } else {
                    &&& final(frame).a0 == ENOSYS as usize
                    &&& final(self).tasks[cur].stats == SyscallStats { error_syscalls: (s1.error_syscalls + 1) as u64, ..s1 }
                    &&& r is Resume
                }
            }),
            forall|i: int| 0 <= i < TASK_COUNT && i != old(self).current ==> final(self).tasks[i] == old(self).tasks[i],
    {
        let nr = frame.a7;
        self.record_syscall_number(nr);
        if nr == SYS_WRITE {
            let addr = frame.a0;
            let len = frame.a1;
            let result = sys_write(addr, len, user_memory_end);
            if result < 0 {
                self.record_syscall_error();
            }
            frame.a0 = result as usize;
            if result >= 0 {
                KernelEffect::ConsoleWrite { addr, len }
            } else {
                KernelEffect::Resume
            }
        } else if nr == SYS_GET_TASKINFO {
            let addr = frame.a0;
            match validated_user_mut(addr, TASK_INFO_SIZE, TASK_INFO_ALIGN, user_memory_end) {
                Ok(()) => {
                    let info = self.task_info_snapshot(now);
                    frame.a0 = 0;
                    KernelEffect::CopyTaskInfo { addr, info }
                },
                Err(err) => {
                    self.record_syscall_error();
                    frame.a0 = err as usize;
                    KernelEffect::Resume
                },
            }
        } else if nr == SYS_EXIT {
            self.finish_current_task(frame.a0 as i32, now);
            self.advance_to_next_task()
        } else {
            self.record_syscall_error();
            frame.a0 = ENOSYS as usize;
            KernelEffect::Resume
        }
    }
}

/// The acceptance checks of the final report.
#[derive(Clone, Copy)]
pub struct FinalChecks {
    pub io_pass: bool,
    pub compute_pass: bool,
    pub info_pass: bool,
    pub illegal_pass: bool,
    pub isolation_pass: bool,
    pub trend_pass: bool,
}

/// Elapsed cycles of a task record, modulo 2^64.
pub open spec fn elapsed(t: TaskControlBlock) -> int {
    (t.end_cycle - t.start_cycle) % 0x1_0000_0000_0000_0000
}

impl Kernel {
    /// Evaluates the acceptance checks over the four finished tasks
    /// (io_burst, compute_spin, info_flood, illegal_trap).
    pub fn final_checks(&self) -> (r: FinalChecks)
        ensures
            ({
                let io = self.tasks[0];
                let compute = self.tasks[1];
                let info = self.tasks[2];
                let illegal = self.tasks[3];
                &&& r.io_pass == (io.status == TaskStatus::Exited && io.exit_code == 0
                    && io.stats.histogram[0] == IO_BURST_WRITES && io.stats.histogram[2] == 1
                    && io.stats.histogram[1] == 0)
                &&& r.compute_pass == (compute.status == TaskStatus::Exited && compute.exit_code == 0
                    && compute.stats.histogram[0] == 0 && compute.stats.histogram[1] == 0
                    && compute.stats.histogram[2] == 1)
                &&& r.info_pass == (info.status == TaskStatus::Exited && info.exit_code == 0
                    && info.stats.histogram[1] == INFO_FLOOD_CALLS && info.stats.histogram[0] == 0
                    && info.stats.histogram[2] == 1)
                &&& r.illegal_pass == (illegal.status == TaskStatus::Faulted && illegal.stats.total_syscalls == 0
                    && illegal.stats.histogram[0] == 0 && illegal.stats.histogram[1] == 0
                    && illegal.stats.histogram[2] == 0)
                &&& r.isolation_pass == (io.stats.total_syscalls == IO_BURST_WRITES + 1
                    && compute.stats.total_syscalls == 1 && info.stats.total_syscalls == INFO_FLOOD_CALLS + 1
                    && io.stats.histogram[1] == 0 && info.stats.histogram[0] == 0
                    && compute.stats.histogram[0] == 0)
                &&& r.trend_pass == (io.stats.histogram[0] > info.stats.histogram[0]
                    && io.stats.histogram[0] > compute.stats.histogram[0]
                    && info.stats.histogram[1] > io.stats.histogram[1]
                    && info.stats.histogram[1] > compute.stats.histogram[1]
                    && elapsed(compute) > elapsed(io) && elapsed(compute) > elapsed(info))
            }),
    {
        let io = self.tasks[0];
        let compute = self.tasks[1];
        let info = self.tasks[2];
        let illegal = self.tasks[3];
        let io_pass = io.status == TaskStatus::Exited && io.exit_code == 0
            && io.stats.histogram[SYS_WRITE] == IO_BURST_WRITES && io.stats.histogram[SYS_EXIT] == 1
            && io.stats.histogram[SYS_GET_TASKINFO] == 0;
        let compute_pass = compute.status == TaskStatus::Exited && compute.exit_code == 0
            && compute.stats.histogram[SYS_WRITE] == 0 && compute.stats.histogram[SYS_GET_TASKINFO] == 0
            && compute.stats.histogram[SYS_EXIT] == 1;
        let info_pass = info.status == TaskStatus::Exited && info.exit_code == 0
            && info.stats.histogram[SYS_GET_TASKINFO] == INFO_FLOOD_CALLS
            && info.stats.histogram[SYS_WRITE] == 0 && info.stats.histogram[SYS_EXIT] == 1;
        let illegal_pass = illegal.status == TaskStatus::Faulted && illegal.stats.total_syscalls == 0
            && illegal.stats.histogram[SYS_WRITE] == 0 && illegal.stats.histogram[SYS_GET_TASKINFO] == 0
            && illegal.stats.histogram[SYS_EXIT] == 0;
        let isolation_pass = io.stats.total_syscalls == IO_BURST_WRITES + 1
            && compute.stats.total_syscalls == 1 && info.stats.total_syscalls == INFO_FLOOD_CALLS + 1
            && io.stats.histogram[SYS_GET_TASKINFO] == 0 && info.stats.histogram[SYS_WRITE] == 0
            && compute.stats.histogram[SYS_WRITE] == 0;
        let trend_pass = io.stats.histogram[SYS_WRITE] > info.stats.histogram[SYS_WRITE]
            && io.stats.histogram[SYS_WRITE] > compute.stats.histogram[SYS_WRITE]
            && info.stats.histogram[SYS_GET_TASKINFO] > io.stats.histogram[SYS_GET_TASKINFO]
            && info.stats.histogram[SYS_GET_TASKINFO] > compute.stats.histogram[SYS_GET_TASKINFO]
            && compute.elapsed_cycles() > io.elapsed_cycles()
            && compute.elapsed_cycles() > info.elapsed_cycles();
        FinalChecks { io_pass, compute_pass, info_pass, illegal_pass, isolation_pass, trend_pass }
    }
}

} // verus!
