//! Exception diagnostics: five applications run in turn under paging; two of
//! them fault on purpose (an illegal instruction, a store to an unmapped
//! page). Each fault is recorded with its cause registers and the faulting
//! instruction, the application is killed and the next one starts.
use vstd::prelude::*;
use crate::common::abi::TrapFrame;
use crate::lab4::sv39::{leaf_pte, table_pte, satp_for_root, spec_pte, spec_satp, PHYS_LIMIT};

verus! {

pub const PHYS_BASE: u64 = 0x8000_0000;
pub const USER_BASE: u64 = 0x4000_0000;
pub const UART_BASE: u64 = 0x1000_0000;
pub const QEMU_TEST_BASE: u64 = 0x0010_0000;
pub const APP_COUNT: usize = 5;
pub const SYS_WRITE: usize = 0;
pub const SYS_EXIT: usize = 1;
pub const EFAULT: isize = -14;
pub const ENOSYS: isize = -38;
pub const EXC_ILLEGAL_INSTRUCTION: u64 = 2;
pub const EXC_LOAD_PAGE_FAULT: u64 = 13;
pub const EXC_STORE_PAGE_FAULT: u64 = 15;
pub const EXC_INST_PAGE_FAULT: u64 = 12;
pub const EXC_ECALL_FROM_U: u64 = 8;
/// R, W, X and G, with A and D set: the kernel's identity gigapage.
pub const KERNEL_LEAF_FLAGS: u64 = 238;
/// R, W, X and U, with A and D set: the user alias of the same gigapage.
pub const USER_LEAF_FLAGS: u64 = 222;
/// R, W and G, with A and D set: device pages.
pub const DEVICE_LEAF_FLAGS: u64 = 230;

#[derive(Clone, Copy, PartialEq, Eq, Structural)]
pub enum RunStatus {
    Pending,
    Exited,
    Faulted,
}

#[derive(Clone, Copy, PartialEq, Eq, Structural)]
pub enum ExpectedOutcome {
    Exit(i32),
    Fault(u64),
}

/// The expected outcome of application `i`.
pub open spec fn expected_of(i: int) -> ExpectedOutcome {
    if i == 1 { ExpectedOutcome::Fault(EXC_ILLEGAL_INSTRUCTION) }
    else if i == 3 { ExpectedOutcome::Fault(EXC_STORE_PAGE_FAULT) }
    else { ExpectedOutcome::Exit(0) }
}

/// Name, expectation text and expected outcome of application `index`.
pub fn app_def(index: usize) -> (r: (&'static str, &'static str, ExpectedOutcome))
    requires
        index < APP_COUNT,
    ensures
        r.2 == expected_of(index as int),
        index == 1 ==> r.0@ == "illegal_instruction"@,
        index == 3 ==> r.0@ == "store_page_fault"@,
{
    match index {
        0 => ("healthy_before_faults", "normal write+exit path should succeed", ExpectedOutcome::Exit(0)),
        1 => ("illegal_instruction", "U-mode writes sstatus CSR and should raise Illegal Instruction",
            ExpectedOutcome::Fault(EXC_ILLEGAL_INSTRUCTION)),
        2 => ("healthy_after_illegal", "system should continue after illegal instruction fault", ExpectedOutcome::Exit(0)),
        3 => ("store_page_fault", "U-mode store to unmapped address 0x0 should raise Store/AMO Page Fault",
            ExpectedOutcome::Fault(EXC_STORE_PAGE_FAULT)),
        _ => ("healthy_after_store_fault", "system should continue after store page fault", ExpectedOutcome::Exit(0)),
    }
}

/// What one application run left behind.
#[derive(Clone, Copy, PartialEq, Eq, Structural)]
pub struct RunRecord {
    pub status: RunStatus,
    pub exit_code: i32,
    pub scause: u64,
    pub sepc: usize,
    pub stval: usize,
    pub instruction: u32,
    pub instruction_valid: bool,
    pub ra: usize,
    pub sp: usize,
    pub gp: usize,
    pub s0: usize,
    pub a0: usize,
    pub a1: usize,
    pub a7: usize,
}

impl RunRecord {
    pub open spec fn empty_spec() -> RunRecord {
        RunRecord { status: RunStatus::Pending, exit_code: 0, scause: 0, sepc: 0, stval: 0, instruction: 0,
            instruction_valid: false, ra: 0, sp: 0, gp: 0, s0: 0, a0: 0, a1: 0, a7: 0 }
    }

    pub fn empty() -> (r: Self)
        ensures
            r == RunRecord::empty_spec(),
    {
        RunRecord { status: RunStatus::Pending, exit_code: 0, scause: 0, sepc: 0, stval: 0, instruction: 0,
            instruction_valid: false, ra: 0, sp: 0, gp: 0, s0: 0, a0: 0, a1: 0, a7: 0 }
    }
}

/// Faults by kind and clean exits.
#[derive(Clone, Copy, PartialEq, Eq, Structural)]
pub struct ExceptionStats {
    pub illegal_instruction: u64,
    pub store_page_fault: u64,
    pub load_page_fault: u64,
    pub instruction_page_fault: u64,
    pub other_faults: u64,
    pub clean_exits: u64,
}

impl ExceptionStats {
    pub open spec fn empty_spec() -> ExceptionStats {
        ExceptionStats { illegal_instruction: 0, store_page_fault: 0, load_page_fault: 0, instruction_page_fault: 0,
            other_faults: 0, clean_exits: 0 }
    }

    pub fn empty() -> (r: Self)
        ensures
            r == ExceptionStats::empty_spec(),
    {
        ExceptionStats { illegal_instruction: 0, store_page_fault: 0, load_page_fault: 0, instruction_page_fault: 0,
            other_faults: 0, clean_exits: 0 }
    }

    /// The counters after one more fault with `cause_code`.
    pub open spec fn counted(self, cause_code: u64) -> ExceptionStats {
        if cause_code == EXC_ILLEGAL_INSTRUCTION {
            ExceptionStats { illegal_instruction: self.illegal_instruction.wrapping_add(1), ..self }
        } else if cause_code == EXC_STORE_PAGE_FAULT {
            ExceptionStats { store_page_fault: self.store_page_fault.wrapping_add(1), ..self }
        } else if cause_code == EXC_LOAD_PAGE_FAULT {
            ExceptionStats { load_page_fault: self.load_page_fault.wrapping_add(1), ..self }
        } else if cause_code == EXC_INST_PAGE_FAULT {
            ExceptionStats { instruction_page_fault: self.instruction_page_fault.wrapping_add(1), ..self }
        } else {
            ExceptionStats { other_faults: self.other_faults.wrapping_add(1), ..self }
        }
    }
}

/// `scause` without its interrupt bit.
pub open spec fn cause_code_of(scause: u64) -> u64 {
    (scause % 0x8000_0000_0000_0000) as u64
}

pub fn cause_code(scause: u64) -> (r: u64)
    ensures
        r == cause_code_of(scause),
        r == scause & 0x7fff_ffff_ffff_ffff,
{
    let r = scause & 0x7fff_ffff_ffff_ffff;
    assert(r == scause % 0x8000_0000_0000_0000) by (bit_vector)
        requires r == scause & 0x7fff_ffff_ffff_ffff;
    r
}

/// The name of an exception code.
pub fn exception_name(code: u64) -> (r: &'static str)
    ensures
        code == EXC_ILLEGAL_INSTRUCTION ==> r@ == "Illegal Instruction"@,
        code == EXC_LOAD_PAGE_FAULT ==> r@ == "Load Page Fault"@,
        code == EXC_STORE_PAGE_FAULT ==> r@ == "Store/AMO Page Fault"@,
        code == EXC_INST_PAGE_FAULT ==> r@ == "Instruction Page Fault"@,
        code == EXC_ECALL_FROM_U ==> r@ == "Environment Call from U-mode"@,
        code != 2 && code != 13 && code != 15 && code != 12 && code != 8 ==> r@ == "Other Exception"@,
{
    if code == EXC_ILLEGAL_INSTRUCTION {
        "Illegal Instruction"
    } else if code == EXC_LOAD_PAGE_FAULT {
        "Load Page Fault"
    } else if code == EXC_STORE_PAGE_FAULT {
        "Store/AMO Page Fault"
    } else if code == EXC_INST_PAGE_FAULT {
        "Instruction Page Fault"
    } else if code == EXC_ECALL_FROM_U {
        "Environment Call from U-mode"
    } else {
        "Other Exception"
    }
}

/// The halfword at byte offset `off` of `mem` (little-endian).
pub open spec fn halfword(mem: Seq<u8>, off: int) -> u32 {
    (mem[off] as int + mem[off + 1] as int * 256) as u32
}

/// The instruction at user address `addr`, read from `mem` (user memory
/// from `USER_BASE` on): a compressed instruction when the low bits of the
/// first halfword are not `11`, else two halfwords; nothing when the address
/// is odd or outside user memory.
pub open spec fn user_instruction(addr: u64, mem: Seq<u8>) -> Option<u32> {
    let end = USER_BASE + mem.len();
    if addr < USER_BASE || addr + 2 > end || addr % 2 != 0 {
        None
    } else {
        let off = addr - USER_BASE;
        let low = halfword(mem, off);
        if low % 4 != 3 {
            Some(low)
        } else if addr + 4 <= end {
            Some((low + halfword(mem, off + 2) * 65536) as u32)
        } else {
            None
        }
    }
}

/// Reads the faulting instruction from user memory.
pub fn read_user_instruction(addr: u64, mem: &[u8]) -> (r: Option<u32>)
    requires
        USER_BASE + mem.len() <= u64::MAX,
    ensures
        r == user_instruction(addr, mem@),
{
    let end = USER_BASE + mem.len() as u64;
    if addr < USER_BASE || end < 2 || addr > end - 2 || addr % 2 != 0 {
        return None;
    }
    let off = (addr - USER_BASE) as usize;
    let low = (mem[off] as u32) + (mem[off + 1] as u32) * 256;
    if low % 4 != 3 {
        Some(low)
    } else if end >= 4 && addr <= end - 4 {
        let high = (mem[off + 2] as u32) + (mem[off + 3] as u32) * 256;
        Some(low + high * 65536)
    } else {
        None
    }
}

/// `[addr, addr + len)` lies in user memory `[USER_BASE, user_end)`.
pub open spec fn user_range(addr: u64, len: u64, user_end: u64) -> bool {
    len == 0 || (addr + len <= u64::MAX && addr >= USER_BASE && addr + len <= user_end)
}

pub fn user_range_valid(addr: u64, len: u64, user_end: u64) -> (r: bool)
    ensures
        r == user_range(addr, len, user_end),
{
    if len == 0 {
        return true;
    }
    match addr.checked_add(len) {
        Some(end) => addr >= USER_BASE && end <= user_end,
        None => false,
    }
}

/// The user-space alias of a physical address in the kernel image.
pub fn user_alias(phys_addr: u64) -> (r: u64)
    requires
        PHYS_BASE <= phys_addr < PHYS_BASE + 0x4000_0000,
    ensures
        r == USER_BASE + (phys_addr - PHYS_BASE),
{
    USER_BASE + (phys_addr - PHYS_BASE)
}

/// The three page tables: the root maps the kernel gigapage at its physical
/// address and again for user mode at `USER_BASE`, and points at a level-1
/// table for the low region, which maps the UART and points at a level-0
/// table mapping the test device.
pub fn setup_page_tables(l1_pa: u64, l0_pa: u64) -> (r: ([u64; 512], [u64; 512], [u64; 512]))
    requires
        l1_pa < PHYS_LIMIT,
        l0_pa < PHYS_LIMIT,
    ensures
        forall|i: int| 0 <= i < 512 ==> #[trigger] r.0[i] == (if i == 2 { spec_pte(PHYS_BASE, KERNEL_LEAF_FLAGS + 1) }
            else if i == 1 { spec_pte(PHYS_BASE, USER_LEAF_FLAGS + 1) } else if i == 0 { spec_pte(l1_pa, 1) } else { 0int }),
        forall|i: int| 0 <= i < 512 ==> #[trigger] r.1[i] == (if i == 128 { spec_pte(UART_BASE, DEVICE_LEAF_FLAGS + 1) }
            else if i == 0 { spec_pte(l0_pa, 1) } else { 0int }),
        forall|i: int| 0 <= i < 512 ==> #[trigger] r.2[i] == (if i == 256 { spec_pte(QEMU_TEST_BASE, DEVICE_LEAF_FLAGS + 1) }
            else { 0int }),
{
    let mut root = [0u64; 512];
    let mut l1 = [0u64; 512];
    let mut l0 = [0u64; 512];
    root[2] = leaf_pte(PHYS_BASE, KERNEL_LEAF_FLAGS);
    root[1] = leaf_pte(PHYS_BASE, USER_LEAF_FLAGS);
    root[0] = table_pte(l1_pa);
    l1[128] = leaf_pte(UART_BASE, DEVICE_LEAF_FLAGS);
    l1[0] = table_pte(l0_pa);
    l0[256] = leaf_pte(QEMU_TEST_BASE, DEVICE_LEAF_FLAGS);
    (root, l1, l0)
}

/// `satp` for the root table at `root_pa`.
pub fn activate_paging(root_pa: u64) -> (r: u64)
    requires
        root_pa < PHYS_LIMIT,
    ensures
        r == spec_satp(root_pa),
{
    satp_for_root(root_pa)
}

/// The exceptions delegated to supervisor mode.
pub fn medeleg_mask() -> (r: u64)
    ensures
        r == (1u64 << 2) | (1u64 << 12) | (1u64 << 13) | (1u64 << 15) | (1u64 << 8),
{
    (1u64 << EXC_ILLEGAL_INSTRUCTION) | (1u64 << EXC_INST_PAGE_FAULT) | (1u64 << EXC_LOAD_PAGE_FAULT)
        | (1u64 << EXC_STORE_PAGE_FAULT) | (1u64 << EXC_ECALL_FROM_U)
}

/// What a system call or fault led to.
#[derive(Clone, Copy, PartialEq, Eq, Structural)]
pub enum SuiteOutcome {
    /// `write`: the caller copies `len` bytes from `addr` to the console;
    /// `a0` holds the result.
    Write { addr: u64, len: u64 },
    /// A call answered in `a0` (a bad buffer or an unknown number).
    Answered,
    /// The application ended and the next one launches.
    Next(usize),
    /// The last application ended: the report follows.
    Done,
}

/// The suite's state.
pub struct ExceptionSuite {
    pub runs: [RunRecord; APP_COUNT],
    pub current_app_index: usize,
    pub stats: ExceptionStats,
}

/// The final checks.
#[derive(Clone, Copy)]
pub struct SuiteReport {
    pub app_ok: [bool; APP_COUNT],
    pub stats_ok: bool,
}

impl SuiteReport {
    pub open spec fn passed(self) -> bool {
        self.app_ok[0] && self.app_ok[1] && self.app_ok[2] && self.app_ok[3] && self.app_ok[4] && self.stats_ok
    }
}

/// Run `r` of application `i` went as expected: a clean exit with the
/// expected code, or a fault of the expected kind at a non-zero address.
pub open spec fn as_expected(i: int, r: RunRecord) -> bool {
    match expected_of(i) {
        ExpectedOutcome::Exit(code) => r.status == RunStatus::Exited && r.exit_code == code,
        ExpectedOutcome::Fault(cause) => r.status == RunStatus::Faulted && cause_code_of(r.scause) == cause && r.sepc != 0,
    }
}

impl ExceptionSuite {
    pub open spec fn wf(&self) -> bool {
        self.current_app_index < APP_COUNT
    }

    /// Boot: no runs yet, application 0 launched.
    pub fn new() -> (r: Self)
        ensures
            r.wf(),
            r.current_app_index == 0,
            r.stats == ExceptionStats::empty_spec(),
            forall|i: int| 0 <= i < APP_COUNT ==> #[trigger] r.runs[i] == RunRecord::empty_spec(),
    {
        let mut s = ExceptionSuite { runs: [RunRecord::empty(); APP_COUNT], current_app_index: 0, stats: ExceptionStats::empty() };
        s.launch_app(0);
        s
    }

    /// Application `index` starts with a fresh record.
    pub fn launch_app(&mut self, index: usize)
        requires
            index < APP_COUNT,
        ensures
            final(self).wf(),
            final(self).current_app_index == index,
            final(self).runs@ == old(self).runs@.update(index as int, RunRecord::empty_spec()),
            final(self).stats == old(self).stats,
    {
        self.current_app_index = index;
        self.runs[index] = RunRecord::empty();
    }

    /// The finished application's successor launches, or the suite is done.
    pub fn advance_to_next_app(&mut self) -> (r: SuiteOutcome)
        requires
            old(self).wf(),
        ensures
            final(self).wf(),
            old(self).current_app_index + 1 < APP_COUNT ==> r == SuiteOutcome::Next((old(self).current_app_index + 1) as usize)
                && final(self).current_app_index == old(self).current_app_index + 1
                && final(self).runs@ == old(self).runs@.update(old(self).current_app_index + 1, RunRecord::empty_spec()),
            old(self).current_app_index + 1 >= APP_COUNT ==> r == SuiteOutcome::Done && final(self).runs == old(self).runs
                && final(self).current_app_index == old(self).current_app_index,
            final(self).stats == old(self).stats,
    {
        let next = self.current_app_index + 1;
        if next < APP_COUNT {
            self.launch_app(next);
            SuiteOutcome::Next(next)
        } else {
            SuiteOutcome::Done
        }
    }

    /// The current application exits with `code`: recorded as a clean exit.
    pub fn finish_current_app(&mut self, code: i32) -> (r: SuiteOutcome)
        requires
            old(self).wf(),
        ensures
            final(self).wf(),
            final(self).runs[old(self).current_app_index as int].status == RunStatus::Exited
                || old(self).current_app_index + 1 < APP_COUNT,
            final(self).stats == (ExceptionStats { clean_exits: old(self).stats.clean_exits.wrapping_add(1), ..old(self).stats }),
            ({
                let i = old(self).current_app_index as int;
                let rec = RunRecord { status: RunStatus::Exited, exit_code: code, ..old(self).runs[i] };
                &&& i + 1 < APP_COUNT ==> r == SuiteOutcome::Next((i + 1) as usize)
                    && final(self).runs@ == old(self).runs@.update(i, rec).update(i + 1, RunRecord::empty_spec())
                &&& i + 1 >= APP_COUNT ==> r == SuiteOutcome::Done && final(self).runs@ == old(self).runs@.update(i, rec)
            }),
    {
        let i = self.current_app_index;
        let mut rec = self.runs[i];
        rec.status = RunStatus::Exited;
        rec.exit_code = code;
        self.runs[i] = rec;
        self.stats.clean_exits = self.stats.clean_exits.wrapping_add(1);
        self.advance_to_next_app()
    }

    /// Counts a fault by its kind.
    pub fn update_exception_stats(&mut self, cause_code: u64)
        ensures
            final(self).stats == old(self).stats.counted(cause_code),
            final(self).runs == old(self).runs,
            final(self).current_app_index == old(self).current_app_index,
    {
        if cause_code == EXC_ILLEGAL_INSTRUCTION {
            self.stats.illegal_instruction = self.stats.illegal_instruction.wrapping_add(1);
        } else if cause_code == EXC_STORE_PAGE_FAULT {
            self.stats.store_page_fault = self.stats.store_page_fault.wrapping_add(1);
        } else if cause_code == EXC_LOAD_PAGE_FAULT {
            self.stats.load_page_fault = self.stats.load_page_fault.wrapping_add(1);
        } else if cause_code == EXC_INST_PAGE_FAULT {
            self.stats.instruction_page_fault = self.stats.instruction_page_fault.wrapping_add(1);
        } else {
            self.stats.other_faults = self.stats.other_faults.wrapping_add(1);
        }
    }

    /// A fault in the current application: its cause registers, the
    /// faulting instruction (read from user memory `mem`) and a few
    /// registers are recorded, the fault counted by kind, and the
    /// application killed.
    pub fn handle_user_exception(&mut self, frame: &TrapFrame, scause: u64, stval: usize, mem: &[u8]) -> (r: SuiteOutcome)
        requires
            old(self).wf(),
            USER_BASE + mem.len() <= u64::MAX,
        ensures
            final(self).wf(),
            final(self).stats == old(self).stats.counted(cause_code_of(scause)),
            ({
                let i = old(self).current_app_index as int;
                let ins = user_instruction(frame.mepc as u64, mem@);
                let rec = RunRecord { status: RunStatus::Faulted, exit_code: old(self).runs[i].exit_code, scause,
                    sepc: frame.mepc, stval, instruction: if ins is Some { ins->0 } else { 0 },
                    instruction_valid: ins is Some, ra: frame.ra, sp: frame.user_sp, gp: frame.gp, s0: frame.s0,
                    a0: frame.a0, a1: frame.a1, a7: frame.a7 };
                &&& i + 1 < APP_COUNT ==> r == SuiteOutcome::Next((i + 1) as usize)
                    && final(self).runs@ == old(self).runs@.update(i, rec).update(i + 1, RunRecord::empty_spec())
                &&& i + 1 >= APP_COUNT ==> r == SuiteOutcome::Done && final(self).runs@ == old(self).runs@.update(i, rec)
            }),
    {
        let code = cause_code(scause);
        let instruction = read_user_instruction(frame.mepc as u64, mem);
        let i = self.current_app_index;
        let mut rec = self.runs[i];
        rec.status = RunStatus::Faulted;
        rec.scause = scause;
        rec.sepc = frame.mepc;
        rec.stval = stval;
        rec.instruction = match instruction {
            Some(w) => w,
            None => 0,
        };
        rec.instruction_valid = instruction.is_some();
        rec.ra = frame.ra;
        rec.sp = frame.user_sp;
        rec.gp = frame.gp;
        rec.s0 = frame.s0;
        rec.a0 = frame.a0;
        rec.a1 = frame.a1;
        rec.a7 = frame.a7;
        self.runs[i] = rec;
        self.update_exception_stats(code);
        self.advance_to_next_app()
    }

    /// A system call: `write` checks the buffer lies in user memory (below
    /// `user_end`), `exit` ends the application, other numbers get
    /// `ENOSYS`.
    pub fn handle_syscall(&mut self, frame: &mut TrapFrame, user_end: u64) -> (r: SuiteOutcome)
        requires
            old(self).wf(),
        ensures
            final(self).wf(),
            old(frame).a7 == SYS_WRITE && user_range(old(frame).a0 as u64, old(frame).a1 as u64, user_end) ==>
                r == (SuiteOutcome::Write { addr: old(frame).a0 as u64, len: old(frame).a1 as u64 })
                && *final(frame) == (TrapFrame { a0: old(frame).a1 as isize as usize, ..*old(frame) })
                && *final(self) == *old(self),
            old(frame).a7 == SYS_WRITE && !user_range(old(frame).a0 as u64, old(frame).a1 as u64, user_end) ==>
                r == SuiteOutcome::Answered && *final(frame) == (TrapFrame { a0: EFAULT as usize, ..*old(frame) })
                && *final(self) == *old(self),
            old(frame).a7 == SYS_EXIT ==> final(self).stats.clean_exits == old(self).stats.clean_exits.wrapping_add(1)
                && (r is Next || r is Done),
            old(frame).a7 > SYS_EXIT ==> r == SuiteOutcome::Answered
                && *final(frame) == (TrapFrame { a0: ENOSYS as usize, ..*old(frame) })
                && *final(self) == *old(self),
    {
        if frame.a7 == SYS_WRITE {
            let addr = frame.a0 as u64;
            let len = frame.a1 as u64;
            if user_range_valid(addr, len, user_end) {
                frame.a0 = frame.a1 as isize as usize;
                SuiteOutcome::Write { addr, len }
            } else {
                frame.a0 = EFAULT as usize;
                SuiteOutcome::Answered
            }
        } else if frame.a7 == SYS_EXIT {
            self.finish_current_app(frame.a0 as i32)
        } else {
            frame.a0 = ENOSYS as usize;
            SuiteOutcome::Answered
        }
    }

    /// Whether application `index` went as expected.
    pub fn matches_expected(&self, index: usize) -> (r: bool)
        requires
            index < APP_COUNT,
        ensures
            r == as_expected(index as int, self.runs[index as int]),
    {
        let record = self.runs[index];
        match app_def(index).2 {
            ExpectedOutcome::Exit(code) => record.status == RunStatus::Exited && record.exit_code == code,
            ExpectedOutcome::Fault(expected) => {
                let actual = cause_code(record.scause);
                record.status == RunStatus::Faulted && actual == expected && record.sepc != 0
            },
        }
    }

    /// The report: every application as expected, one fault of each
    /// provoked kind, no other fault and three clean exits.
    pub fn final_report(&self) -> (r: SuiteReport)
        ensures
            forall|i: int| 0 <= i < APP_COUNT ==> #[trigger] r.app_ok[i] == as_expected(i, self.runs[i]),
            r.stats_ok == (self.stats.illegal_instruction == 1 && self.stats.store_page_fault == 1
                && self.stats.other_faults == 0 && self.stats.clean_exits == 3),
    {
        let app_ok = [self.matches_expected(0), self.matches_expected(1), self.matches_expected(2),
            self.matches_expected(3), self.matches_expected(4)];
        let s = self.stats;
        SuiteReport {
            app_ok,
            stats_ok: s.illegal_instruction == 1 && s.store_page_fault == 1 && s.other_faults == 0 && s.clean_exits == 3,
        }
    }
}

} // verus!
