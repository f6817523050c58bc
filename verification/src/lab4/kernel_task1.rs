//! One address space shared by kernel and user: the kernel's identity window
//! is mapped without `U`, the user's text, data and stack pages with `U`, so
//! a user load from the kernel window must fault.
use vstd::prelude::*;
use crate::lab4::sv39::{
    flag, lemma_pte_roundtrip, leaf_pte, page_addr, pte_accessed, pte_has_user, pte_has_write,
    pte_is_dirty, pte_is_executable, pte_is_global, pte_is_readable, pte_is_valid, slot_in,
    spec_leaf, spec_pte, spec_pte_pa, spec_valid, spec_walk, table_pte, vpn, vpn0_index, vpn1_index,
    vpn2_index, PageTable, TableSet, WalkResult, MEGA_PAGE_SIZE, PTE_A, PTE_D, PTE_G, PTE_R,
    PTE_U, PTE_V, PTE_W, PTE_X,
};

verus! {

pub const QEMU_TEST_BASE: u64 = 0x0010_0000;
pub const UART0_ADDR: u64 = 0x1000_0000;
pub const KERNEL_BASE: u64 = 0x8000_0000;
pub const KERNEL_WINDOW_SIZE: u64 = 0x100_0000;
pub const USER_TEXT_VA: u64 = 0x0040_0000;
pub const USER_DATA_VA: u64 = 0x0040_1000;
pub const USER_STACK_VA: u64 = 0x0040_2000;
pub const USER_STACK_TOP: u64 = 0x0040_3000;
pub const KERNEL_PROBE_VA: u64 = 0x8000_0000;
pub const USER_STAGE_BEFORE_PROBE: u64 = 0xfeed_face_0000_0001;
pub const USER_SEED: u64 = 0x1122_3344_5566_7788;

pub const USER_ENV_CALL: usize = 8;
pub const INSTRUCTION_PAGE_FAULT: usize = 12;
pub const LOAD_PAGE_FAULT: usize = 13;
pub const STORE_PAGE_FAULT: usize = 15;

/// Leaf flags (without `V`).
pub const KERNEL_LEAF_FLAGS: u64 = 0xce;
pub const DEVICE_LEAF_FLAGS: u64 = 0xc6;
pub const USER_TEXT_FLAGS: u64 = 0x5a;
pub const USER_RW_FLAGS: u64 = 0xd6;

/// Physical addresses of the kernel's page tables and user pages.
#[derive(Clone, Copy)]
pub struct Layout {
    pub root: u64,
    pub low_l1: u64,
    pub dev_l0: u64,
    pub user_l0: u64,
    pub kernel_l1: u64,
    pub code: u64,
    pub data: u64,
    pub stack: u64,
}

/// Page-aligned addresses, and the five tables at distinct addresses.
pub open spec fn layout_ok(l: Layout) -> bool {
    &&& page_addr(l.root) && page_addr(l.low_l1) && page_addr(l.dev_l0)
    &&& page_addr(l.user_l0) && page_addr(l.kernel_l1)
    &&& page_addr(l.code) && page_addr(l.data) && page_addr(l.stack)
    &&& l.root != l.low_l1 && l.root != l.dev_l0 && l.root != l.user_l0 && l.root != l.kernel_l1
    &&& l.low_l1 != l.dev_l0 && l.low_l1 != l.user_l0 && l.low_l1 != l.kernel_l1
    &&& l.dev_l0 != l.user_l0 && l.dev_l0 != l.kernel_l1
    &&& l.user_l0 != l.kernel_l1
}

/// The walk of `va` ends in a valid 4 KiB user leaf mapping `pa`.
pub open spec fn user_page_at(t: Seq<PageTable>, root: u64, va: u64, pa: u64) -> bool {
    let w = spec_walk(t, root, va);
    &&& w.leaf_level == 0
    &&& spec_valid(w.leaf_pte) && spec_leaf(w.leaf_pte)
    &&& flag(w.leaf_pte, PTE_U)
    &&& spec_pte_pa(w.leaf_pte) == pa
}

/// The tables isolate the kernel from the user: the kernel window is a valid
/// 2 MiB supervisor-only leaf and the three user pages are user leaves.
pub open spec fn isolation(t: Seq<PageTable>, l: Layout) -> bool {
    let k = spec_walk(t, l.root, KERNEL_PROBE_VA);
    &&& k.leaf_level == 1 && spec_valid(k.leaf_pte) && spec_leaf(k.leaf_pte)
    &&& !flag(k.leaf_pte, PTE_U) && spec_pte_pa(k.leaf_pte) == KERNEL_BASE
    &&& k.root_pte != 0
    &&& user_page_at(t, l.root, USER_TEXT_VA, l.code)
    &&& user_page_at(t, l.root, USER_DATA_VA, l.data)
    &&& user_page_at(t, l.root, USER_STACK_VA, l.stack)
}

/// The user program's shared data page.
#[derive(Clone, Copy)]
pub struct UserSharedData {
    pub seed: u64,
    pub readback: u64,
    pub stage_marker: u64,
    pub unexpected_kernel_value: u64,
    pub stack_echo: u64,
    pub unexpected_syscall_code: u64,
}

/// What the user program left in its data page, collected after the trap.
pub type UserEvidence = UserSharedData;

impl UserSharedData {
    /// The contents `initialize_user_pages` leaves: the seed, everything else 0.
    pub fn initial() -> (r: Self)
        ensures
            r.seed == USER_SEED,
            r.readback == 0 && r.stage_marker == 0 && r.unexpected_kernel_value == 0,
            r.stack_echo == 0 && r.unexpected_syscall_code == 0,
    {
        UserSharedData { seed: USER_SEED, readback: 0, stage_marker: 0, unexpected_kernel_value: 0, stack_echo: 0, unexpected_syscall_code: 0 }
    }

    /// The data page after an `ecall` the probe should never reach: `a0` is kept
    /// as the unexpected system call code.
    pub fn record_unexpected_ecall(&mut self, a0: usize)
        ensures
            *final(self) == (UserSharedData { unexpected_syscall_code: a0 as u64, ..*old(self) }),
    {
        self.unexpected_syscall_code = a0 as u64;
    }
}

/// The empty walk (`leaf_level` marks "none").
pub fn walk_zeroed() -> (r: WalkResult)
    ensures
        r.vpn2 == 0 && r.vpn1 == 0 && r.vpn0 == 0 && r.root_pte == 0 && r.l1_pte == 0 && r.l0_pte == 0,
        r.leaf_level == usize::MAX && r.leaf_pte == 0,
{
    WalkResult { vpn2: 0, vpn1: 0, vpn0: 0, root_pte: 0, l1_pte: 0, l0_pte: 0, leaf_level: usize::MAX, leaf_pte: 0 }
}

/// The flag letters of a PTE in the order V R W X U G A D, `-` for a clear bit.
pub fn pte_flag_chars(pte: u64) -> (r: [char; 8])
    ensures
        r[0] == (if flag(pte, PTE_V) { 'V' } else { '-' }),
        r[1] == (if flag(pte, PTE_R) { 'R' } else { '-' }),
        r[2] == (if flag(pte, PTE_W) { 'W' } else { '-' }),
        r[3] == (if flag(pte, PTE_X) { 'X' } else { '-' }),
        r[4] == (if flag(pte, PTE_U) { 'U' } else { '-' }),
        r[5] == (if flag(pte, PTE_G) { 'G' } else { '-' }),
        r[6] == (if flag(pte, PTE_A) { 'A' } else { '-' }),
        r[7] == (if flag(pte, PTE_D) { 'D' } else { '-' }),
{
    [
        if pte_is_valid(pte) { 'V' } else { '-' },
        if pte_bit(pte, PTE_R) { 'R' } else { '-' },
        if pte_has_write(pte) { 'W' } else { '-' },
        if pte_bit(pte, PTE_X) { 'X' } else { '-' },
        if pte_has_user(pte) { 'U' } else { '-' },
        if pte_bit(pte, PTE_G) { 'G' } else { '-' },
        if pte_accessed(pte) { 'A' } else { '-' },
        if pte_bit(pte, PTE_D) { 'D' } else { '-' },
    ]
}

/// The page tables of the single address space.
pub fn build_single_page_table(l: &Layout) -> (r: TableSet)
    requires
        layout_ok(*l),
    ensures
        r@.len() == 5,
        r@[0].pa == l.root,
        isolation(r@, *l),
{
    let mut root = PageTable::zeroed(l.root);
    let mut low_l1 = PageTable::zeroed(l.low_l1);
    let mut dev_l0 = PageTable::zeroed(l.dev_l0);
    let mut user_l0 = PageTable::zeroed(l.user_l0);
    let mut kernel_l1 = PageTable::zeroed(l.kernel_l1);

    root.entries[vpn2_index(KERNEL_PROBE_VA)] = table_pte(l.kernel_l1);
    root.entries[vpn2_index(USER_TEXT_VA)] = table_pte(l.low_l1);

    low_l1.entries[vpn1_index(QEMU_TEST_BASE)] = table_pte(l.dev_l0);
    dev_l0.entries[vpn0_index(QEMU_TEST_BASE)] = leaf_pte(QEMU_TEST_BASE, DEVICE_LEAF_FLAGS);
    low_l1.entries[vpn1_index(UART0_ADDR)] = leaf_pte(UART0_ADDR, DEVICE_LEAF_FLAGS);
    low_l1.entries[vpn1_index(USER_TEXT_VA)] = table_pte(l.user_l0);
    user_l0.entries[vpn0_index(USER_TEXT_VA)] = leaf_pte(l.code, USER_TEXT_FLAGS);
    user_l0.entries[vpn0_index(USER_DATA_VA)] = leaf_pte(l.data, USER_RW_FLAGS);
    user_l0.entries[vpn0_index(USER_STACK_VA)] = leaf_pte(l.stack, USER_RW_FLAGS);

    let mut entry_index: usize = 0;
    while entry_index < 8
        invariant
            entry_index <= 8,
            kernel_l1.pa == l.kernel_l1,
            forall|j: int| 0 <= j < entry_index ==> kernel_l1.entries[j] == spec_pte((KERNEL_BASE + j * MEGA_PAGE_SIZE) as u64, KERNEL_LEAF_FLAGS + 1),
            forall|j: int| entry_index <= j < 512 ==> kernel_l1.entries[j] == 0,
        decreases 8 - entry_index,
    {
        let pa = KERNEL_BASE + (entry_index as u64) * MEGA_PAGE_SIZE;
        kernel_l1.entries[entry_index] = leaf_pte(pa, KERNEL_LEAF_FLAGS);
        entry_index += 1;
    }

    let mut tables: Vec<PageTable> = Vec::new();
    tables.push(root);
    tables.push(low_l1);
    tables.push(dev_l0);
    tables.push(user_l0);
    tables.push(kernel_l1);
    let r = TableSet { tables };
    proof {
        let t = r@;
        reveal_with_fuel(slot_in, 6);
        assert(slot_in(t, l.root, 5) == 0);
        assert(slot_in(t, l.low_l1, 5) == 1);
        assert(slot_in(t, l.user_l0, 5) == 3);
        assert(slot_in(t, l.kernel_l1, 5) == 4);
        lemma_pte_roundtrip(l.kernel_l1, 1);
        lemma_pte_roundtrip(l.low_l1, 1);
        lemma_pte_roundtrip(l.user_l0, 1);
        lemma_pte_roundtrip(KERNEL_BASE, (KERNEL_LEAF_FLAGS + 1) as int);
        lemma_pte_roundtrip(l.code, (USER_TEXT_FLAGS + 1) as int);
        lemma_pte_roundtrip(l.data, (USER_RW_FLAGS + 1) as int);
        lemma_pte_roundtrip(l.stack, (USER_RW_FLAGS + 1) as int);
        assert(flag(spec_pte(l.kernel_l1, 1) as u64, 1));
        assert(!flag(spec_pte(l.kernel_l1, 1) as u64, 2) && !flag(spec_pte(l.kernel_l1, 1) as u64, 4) && !flag(spec_pte(l.kernel_l1, 1) as u64, 8));
        assert(flag(spec_pte(l.low_l1, 1) as u64, 1));
        assert(!flag(spec_pte(l.low_l1, 1) as u64, 2) && !flag(spec_pte(l.low_l1, 1) as u64, 4) && !flag(spec_pte(l.low_l1, 1) as u64, 8));
        assert(flag(spec_pte(l.user_l0, 1) as u64, 1));
        assert(!flag(spec_pte(l.user_l0, 1) as u64, 2) && !flag(spec_pte(l.user_l0, 1) as u64, 4) && !flag(spec_pte(l.user_l0, 1) as u64, 8));
        assert(flag(spec_pte(KERNEL_BASE, 0xcf) as u64, 1) && flag(spec_pte(KERNEL_BASE, 0xcf) as u64, 2));
        assert(!flag(spec_pte(KERNEL_BASE, 0xcf) as u64, 16));
        assert(flag(spec_pte(l.code, 0x5b) as u64, 1) && flag(spec_pte(l.code, 0x5b) as u64, 2) && flag(spec_pte(l.code, 0x5b) as u64, 16));
        assert(flag(spec_pte(l.data, 0xd7) as u64, 1) && flag(spec_pte(l.data, 0xd7) as u64, 2) && flag(spec_pte(l.data, 0xd7) as u64, 16));
        assert(flag(spec_pte(l.stack, 0xd7) as u64, 1) && flag(spec_pte(l.stack, 0xd7) as u64, 2) && flag(spec_pte(l.stack, 0xd7) as u64, 16));
        assert(t[4].entries[0] == spec_pte(KERNEL_BASE, 0xcf));
    }
    r
}

/// A single bit of a PTE.
pub fn pte_bit(pte: u64, bit: u64) -> (r: bool)
    requires
        bit == PTE_R || bit == PTE_X || bit == PTE_G || bit == PTE_D,
    ensures
        r == flag(pte, bit),
{
    if bit == PTE_R {
        pte_is_readable(pte)
    } else if bit == PTE_X {
        pte_is_executable(pte)
    } else if bit == PTE_G {
        pte_is_global(pte)
    } else {
        pte_is_dirty(pte)
    }
}

/// The three acceptance checks the kernel evaluates after the expected fault.
#[derive(Clone, Copy)]
pub struct Acceptance {
    pub same_tree_ok: bool,
    pub u_flag_ok: bool,
    pub fault_ok: bool,
}

/// The kernel window and the user text sit in different root slots of one
/// tree that `satp` selects.
pub open spec fn same_tree(t: Seq<PageTable>, l: Layout, satp: u64, root_satp: u64) -> bool {
    let k = spec_walk(t, l.root, KERNEL_PROBE_VA);
    let u = spec_walk(t, l.root, USER_TEXT_VA);
    satp == root_satp && k.root_pte != 0 && u.root_pte != 0 && k.vpn2 != u.vpn2
}

pub open spec fn u_flags_split(t: Seq<PageTable>, l: Layout) -> bool {
    &&& !flag(spec_walk(t, l.root, KERNEL_PROBE_VA).leaf_pte, PTE_U)
    &&& flag(spec_walk(t, l.root, USER_TEXT_VA).leaf_pte, PTE_U)
    &&& flag(spec_walk(t, l.root, USER_DATA_VA).leaf_pte, PTE_U)
    &&& flag(spec_walk(t, l.root, USER_STACK_VA).leaf_pte, PTE_U)
}

/// The user probe got as far as the forbidden load and no further.
pub open spec fn fault_as_expected(stval: u64, e: UserEvidence) -> bool {
    &&& stval == KERNEL_PROBE_VA
    &&& e.readback == e.seed && e.stack_echo == e.seed
    &&& e.stage_marker == USER_STAGE_BEFORE_PROBE
    &&& e.unexpected_kernel_value == 0 && e.unexpected_syscall_code == 0
}

/// Judges the expected fault of the user's kernel probe: whether one root
/// maps kernel and user, whether only the user leaves carry `U`, and whether
/// the probe faulted where expected; from the tables, the live and recorded
/// `satp`, `stval` and the user's evidence.
pub fn handle_expected_kernel_access_fault(t: &TableSet, l: &Layout, satp: u64, root_satp: u64, stval: u64, evidence: &UserEvidence) -> (r: Acceptance)
    ensures
        r.same_tree_ok == same_tree(t@, *l, satp, root_satp),
        r.u_flag_ok == u_flags_split(t@, *l),
        r.fault_ok == fault_as_expected(stval, *evidence),
{
    let kernel_walk = t.walk(l.root, KERNEL_PROBE_VA);
    let user_text_walk = t.walk(l.root, USER_TEXT_VA);
    let user_data_walk = t.walk(l.root, USER_DATA_VA);
    let user_stack_walk = t.walk(l.root, USER_STACK_VA);
    let same_tree_ok = satp == root_satp && kernel_walk.root_pte != 0 && user_text_walk.root_pte != 0
        && kernel_walk.vpn2 != user_text_walk.vpn2;
    let u_flag_ok = !pte_has_user(kernel_walk.leaf_pte) && pte_has_user(user_text_walk.leaf_pte)
        && pte_has_user(user_data_walk.leaf_pte) && pte_has_user(user_stack_walk.leaf_pte);
    let fault_ok = stval == KERNEL_PROBE_VA && evidence.readback == evidence.seed
        && evidence.stack_echo == evidence.seed && evidence.stage_marker == USER_STAGE_BEFORE_PROBE
        && evidence.unexpected_kernel_value == 0 && evidence.unexpected_syscall_code == 0;
    Acceptance { same_tree_ok, u_flag_ok, fault_ok }
}

/// Tables built by [`build_single_page_table`] pass both structural checks
/// whenever the live `satp` is the one installed for their root.
pub proof fn lemma_built_tables_pass_structural_checks(t: Seq<PageTable>, l: Layout, satp: u64)
    requires
        isolation(t, l),
    ensures
        same_tree(t, l, satp, satp),
        u_flags_split(t, l),
{
    let u = spec_walk(t, l.root, USER_TEXT_VA);
    assert(vpn(KERNEL_PROBE_VA, 2) == 2);
    assert(vpn(USER_TEXT_VA, 2) == 0);
    assert(u.leaf_level == 0);
    assert(u.root_pte != 0) by {
        if u.root_pte == 0 {
            assert(!spec_valid(u.root_pte));
        }
    }
}

/// What the trap handler decided.
pub enum TrapDecision {
    /// The expected load page fault: evaluate the acceptance checks and exit.
    ExpectedAccessFault { stval: u64 },
    /// A user `ecall`, which the probe never reaches: record `a0` and fail.
    UnexpectedEcall { a0: usize },
    /// Anything else: report and fail.
    Unexpected { scause: usize },
}

/// The dispatch of `handle_supervisor_trap` on `scause`.
pub fn handle_supervisor_trap(scause: usize, stval: u64, a0: usize) -> (r: TrapDecision)
    ensures
        scause == LOAD_PAGE_FAULT ==> r == (TrapDecision::ExpectedAccessFault { stval }),
        scause == USER_ENV_CALL ==> r == (TrapDecision::UnexpectedEcall { a0 }),
        scause != LOAD_PAGE_FAULT && scause != USER_ENV_CALL ==> r == (TrapDecision::Unexpected { scause }),
{
    if scause == LOAD_PAGE_FAULT {
        TrapDecision::ExpectedAccessFault { stval }
    } else if scause == USER_ENV_CALL {
        TrapDecision::UnexpectedEcall { a0 }
    } else {
        TrapDecision::Unexpected { scause }
    }
}

/// Where the user program starts: its text page, with the stack top as `sp`.
#[derive(Clone, Copy)]
pub struct UserEntry {
    pub epc: u64,
    pub sp: u64,
}

/// The user frame `prepare_user_frame` sets up.
pub fn prepare_user_frame() -> (r: UserEntry)
    ensures
        r.epc == USER_TEXT_VA && r.sp == USER_STACK_TOP,
{
    UserEntry { epc: USER_TEXT_VA, sp: USER_STACK_TOP }
}

/// The exceptions delegated to S-mode.
pub fn medeleg_mask() -> (r: u64)
    ensures
        r == (1u64 << 8) | (1u64 << 12) | (1u64 << 13) | (1u64 << 15),
{
    (1u64 << 8) | (1u64 << 12) | (1u64 << 13) | (1u64 << 15)
}

/// The exit status: 0 when all three checks passed.
pub fn exit_code(a: Acceptance) -> (r: u32)
    ensures
        r == (if a.same_tree_ok && a.u_flag_ok && a.fault_ok { 0u32 } else { 1u32 }),
{
    if a.same_tree_ok && a.u_flag_ok && a.fault_ok { 0 } else { 1 }
}

} // verus!
