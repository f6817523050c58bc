//! Lazy anonymous paging: `sbrk` and `mmap` only reserve a VMA; the first
//! load or store in a reserved page faults, and the fault handler allocates a
//! zeroed frame and installs a user leaf for it.
use vstd::prelude::*;
use crate::lab4::sv39::{
    flag, lemma_pte_roundtrip, lemma_slot_in, leaf_pte, page_addr, page_align_down, page_align_up,
    pte_has_user, pte_is_valid, pte_to_pa, slot_in, spec_leaf, spec_pte, spec_pte_pa, spec_valid,
    spec_walk, table_pte, vpn, vpn0_index, vpn1_index, vpn2_index, PageTable, TableSet, WalkResult,
    PHYS_LIMIT, PTE_A, PTE_D, PTE_R, PTE_U, PTE_W,
};

verus! {

pub const QEMU_TEST_BASE: u64 = 0x0010_0000;
pub const UART0_ADDR: u64 = 0x1000_0000;
pub const KERNEL_BASE: u64 = 0x8000_0000;
pub const USER_TEXT_VA: u64 = 0x0040_0000;
pub const USER_SHARED_VA: u64 = 0x0040_1000;
pub const USER_STACK_VA: u64 = 0x0040_2000;
pub const USER_STACK_TOP: u64 = 0x0040_3000;
pub const USER_HEAP_BASE: u64 = 0x0041_0000;
pub const USER_HEAP_LIMIT: u64 = 0x0042_0000;
pub const USER_MMAP_BASE: u64 = 0x0042_0000;
pub const USER_MMAP_LIMIT: u64 = 0x0044_0000;

pub const STAGE_DONE: u64 = 0x5555_6666_7777_8888;
pub const HEAP_PAGE0_VALUE: u64 = 0x1111_2222_3333_4444;
pub const HEAP_PAGE1_VALUE: u64 = 0x5555_6666_7777_8888;
pub const MMAP_PAGE0_VALUE: u64 = 0x9999_aaaa_bbbb_cccc;
pub const MMAP_PAGE1_VALUE: u64 = 0xdddd_eeee_ffff_0001;

pub const SYS_SBRK: usize = 1;
pub const SYS_MMAP: usize = 2;
pub const SYS_EXIT: usize = 3;

pub const USER_ENV_CALL: usize = 8;
pub const LOAD_PAGE_FAULT: usize = 13;
pub const STORE_PAGE_FAULT: usize = 15;

pub const VMA_READ: u64 = 1;
pub const VMA_WRITE: u64 = 2;
pub const VMA_KIND_HEAP: u64 = 1;
pub const VMA_KIND_MMAP: u64 = 2;

pub const MAX_VMAS: usize = 4;
pub const MAX_LAZY_PAGES: usize = 16;

pub const KERNEL_LEAF_FLAGS: u64 = 0xce;
pub const DEVICE_LEAF_FLAGS: u64 = 0xc6;
pub const USER_TEXT_FLAGS: u64 = 0x5a;
pub const USER_RW_FLAGS: u64 = 0xd6;

/// A reserved virtual range.
#[derive(Clone, Copy)]
pub struct Vma {
    pub active: bool,
    pub start: u64,
    pub end: u64,
    pub flags: u64,
    pub kind: u64,
    pub fault_count: usize,
    pub mapped_pages: usize,
}

impl Vma {
    /// An unused slot.
    pub fn empty() -> (r: Self)
        ensures
            !r.active && r.start == 0 && r.end == 0 && r.flags == 0 && r.kind == 0,
            r.fault_count == 0 && r.mapped_pages == 0,
    {
        Vma { active: false, start: 0, end: 0, flags: 0, kind: 0, fault_count: 0, mapped_pages: 0 }
    }
}

#[derive(Clone, Copy)]
pub struct LazyStats {
    pub reserve_count: usize,
    pub sbrk_calls: usize,
    pub mmap_calls: usize,
    pub page_fault_count: usize,
    pub load_fault_count: usize,
    pub store_fault_count: usize,
    pub page_alloc_count: usize,
    pub map_install_count: usize,
}

impl LazyStats {
    pub fn zeroed() -> (r: Self)
        ensures
            r.reserve_count == 0 && r.sbrk_calls == 0 && r.mmap_calls == 0 && r.page_fault_count == 0,
            r.load_fault_count == 0 && r.store_fault_count == 0 && r.page_alloc_count == 0 && r.map_install_count == 0,
    {
        LazyStats { reserve_count: 0, sbrk_calls: 0, mmap_calls: 0, page_fault_count: 0, load_fault_count: 0,
            store_fault_count: 0, page_alloc_count: 0, map_install_count: 0 }
    }
}

#[derive(Clone, Copy)]
pub struct LazyEvidence {
    pub heap_unmapped_after_sbrk: bool,
    pub mmap_unmapped_after_mmap: bool,
    pub first_fault_seen: bool,
    pub alloc_count_before_first_fault: usize,
    pub lazy_map_success_count: usize,
}

impl LazyEvidence {
    pub fn zeroed() -> (r: Self)
        ensures
            !r.heap_unmapped_after_sbrk && !r.mmap_unmapped_after_mmap && !r.first_fault_seen,
            r.alloc_count_before_first_fault == 0 && r.lazy_map_success_count == 0,
    {
        LazyEvidence { heap_unmapped_after_sbrk: false, mmap_unmapped_after_mmap: false, first_fault_seen: false,
            alloc_count_before_first_fault: 0, lazy_map_success_count: 0 }
    }
}

/// Physical addresses of the tables, the eager user pages and the lazy pool.
#[derive(Clone, Copy)]
pub struct Layout {
    pub root: u64,
    pub low_l1: u64,
    pub dev_l0: u64,
    pub user_l0: u64,
    pub kernel_l1: u64,
    pub code: u64,
    pub shared: u64,
    pub stack: u64,
    pub pool: u64,
}

pub open spec fn layout_ok(l: Layout) -> bool {
    &&& page_addr(l.root) && page_addr(l.low_l1) && page_addr(l.dev_l0)
    &&& page_addr(l.user_l0) && page_addr(l.kernel_l1)
    &&& page_addr(l.code) && page_addr(l.shared) && page_addr(l.stack)
    &&& page_addr(l.pool) && l.pool + 16 * 4096 <= PHYS_LIMIT
    &&& l.root != l.low_l1 && l.root != l.dev_l0 && l.root != l.user_l0 && l.root != l.kernel_l1
    &&& l.low_l1 != l.dev_l0 && l.low_l1 != l.user_l0 && l.low_l1 != l.kernel_l1
    &&& l.dev_l0 != l.user_l0 && l.dev_l0 != l.kernel_l1
    &&& l.user_l0 != l.kernel_l1
}

/// The VA of entry `i` of the user L0 table.
pub open spec fn l0_va(i: int) -> int {
    USER_TEXT_VA + i * 4096
}

/// The walk of any VA in the user 2 MiB window reads the user L0 table.
pub open spec fn user_window(va: u64) -> bool {
    USER_TEXT_VA <= va < USER_TEXT_VA + 0x20_0000
}

/// The user leaf flags a VMA's permissions give.
pub open spec fn spec_leaf_flags(vma_flags: u64) -> u64 {
    (PTE_U + PTE_A
        + (if flag(vma_flags, VMA_READ) { PTE_R } else { 0 })
        + (if flag(vma_flags, VMA_WRITE) { PTE_W + PTE_D } else { 0 })) as u64
}

/// The index of the first active VMA containing `va`.
pub open spec fn covering(vmas: Seq<Vma>, va: u64, n: int) -> Option<int>
    decreases n,
{
    if n <= 0 {
        None
    } else {
        match covering(vmas, va, n - 1) {
            Some(i) => Some(i),
            None => if vmas[n - 1].active && vmas[n - 1].start <= va < vmas[n - 1].end { Some(n - 1) } else { None },
        }
    }
}

pub proof fn lemma_covering(vmas: Seq<Vma>, va: u64, n: int)
    requires
        0 <= n <= vmas.len(),
    ensures
        covering(vmas, va, n) matches Some(i) ==> 0 <= i < n && vmas[i].active && vmas[i].start <= va < vmas[i].end,
        covering(vmas, va, n) is None ==> forall|i: int| 0 <= i < n ==> !(vmas[i].active && vmas[i].start <= va < vmas[i].end),
    decreases n,
{
    if n > 0 {
        lemma_covering(vmas, va, n - 1);
    }
}

/// `sbrk(length)` is refused: the rounded length overflows, the break
/// passes the heap limit, or no VMA slot can hold the heap.
pub open spec fn sbrk_fails(k: LazyKernel, length: u64) -> bool {
    length > u64::MAX - 4095 || k.heap_break + (length + 4095) / 4096 * 4096 > USER_HEAP_LIMIT || heap_slots_full(k.vmas@)
}

/// `mmap(length)` is refused: the rounded length overflows, the cursor
/// passes the mmap limit, or every VMA slot is taken.
pub open spec fn mmap_fails(k: LazyKernel, length: u64) -> bool {
    length > u64::MAX - 4095 || k.next_mmap_base + (length + 4095) / 4096 * 4096 > USER_MMAP_LIMIT
        || forall|i: int| 0 <= i < MAX_VMAS ==> #[trigger] k.vmas[i].active
}

/// Every VMA slot is in use and none of them is the heap's.
pub open spec fn heap_slots_full(vmas: Seq<Vma>) -> bool {
    forall|i: int| 0 <= i < MAX_VMAS ==> #[trigger] vmas[i].active && vmas[i].kind != VMA_KIND_HEAP
}

/// Why the kernel stops with a failure.
pub type KernelFail = &'static str;

/// Evidence the kernel took a lazy fault.
#[derive(Clone, Copy)]
pub struct FaultReport {
    pub fault_va: u64,
    pub vma_index: usize,
    pub before: WalkResult,
    pub after: WalkResult,
    /// The frame mapped; the caller zero-fills it before resuming the user.
    pub pa: u64,
}

/// The lazy-paging kernel.
pub struct LazyKernel {
    pub layout: Layout,
    pub tables: TableSet,
    pub vmas: [Vma; MAX_VMAS],
    pub next_free_lazy_page: usize,
    pub stats: LazyStats,
    pub evidence: LazyEvidence,
    pub heap_break: u64,
    pub next_mmap_base: u64,
}

impl LazyKernel {
    /// Below the break or in the mmap area handed out so far.
    pub open spec fn reserved(&self, va: int) -> bool {
        (USER_HEAP_BASE <= va < self.heap_break) || (USER_MMAP_BASE <= va < self.next_mmap_base)
    }

    pub open spec fn wf(&self) -> bool {
        let t = self.tables@;
        let l = self.layout;
        &&& layout_ok(l)
        &&& t.len() == 5
        &&& t[0].pa == l.root && t[1].pa == l.low_l1 && t[2].pa == l.dev_l0 && t[3].pa == l.user_l0 && t[4].pa == l.kernel_l1
        &&& t[0].entries[0] == spec_pte(l.low_l1, 1)
        &&& t[1].entries[2] == spec_pte(l.user_l0, 1)
        &&& self.next_free_lazy_page <= MAX_LAZY_PAGES
        &&& self.stats.page_alloc_count == self.next_free_lazy_page
        &&& self.stats.map_install_count <= self.stats.page_alloc_count
        &&& self.evidence.lazy_map_success_count <= self.stats.map_install_count
        &&& USER_HEAP_BASE <= self.heap_break <= USER_HEAP_LIMIT
        &&& USER_MMAP_BASE <= self.next_mmap_base <= USER_MMAP_LIMIT
        &&& self.heap_break % 4096 == 0 && self.next_mmap_base % 4096 == 0
        &&& forall|i: int| 0 <= i < MAX_VMAS && #[trigger] self.vmas[i].active ==> {
            let v = self.vmas[i];
            ||| (v.kind == VMA_KIND_HEAP && v.start == USER_HEAP_BASE && v.end <= self.heap_break)
            ||| (v.kind == VMA_KIND_MMAP && USER_MMAP_BASE <= v.start && v.end <= self.next_mmap_base)
        }
        // Every lazily mapped page lies in reserved space.
        &&& forall|i: int| 16 <= i < 64 && #[trigger] spec_valid(t[3].entries[i]) ==> self.reserved(l0_va(i))
    }

    /// Counters that a trap increments are below their maximum.
    pub open spec fn room(&self) -> bool {
        &&& self.stats.reserve_count < usize::MAX && self.stats.sbrk_calls < usize::MAX && self.stats.mmap_calls < usize::MAX
        &&& self.stats.page_fault_count < usize::MAX && self.stats.load_fault_count < usize::MAX
        &&& self.stats.store_fault_count < usize::MAX
        &&& forall|i: int| 0 <= i < MAX_VMAS ==> #[trigger] self.vmas[i].fault_count < usize::MAX && self.vmas[i].mapped_pages < usize::MAX
    }

    /// The walk of `va` in this kernel's tables.
    pub open spec fn spec_walk_va(&self, va: u64) -> WalkResult {
        spec_walk(self.tables@, self.layout.root, va)
    }

    /// The runtime after `initialize_lazy_runtime` and `build_page_tables`.
    pub fn new(l: Layout) -> (r: Self)
        requires
            layout_ok(l),
        ensures
            r.wf(),
            r.layout == l,
            r.heap_break == USER_HEAP_BASE && r.next_mmap_base == USER_MMAP_BASE,
            r.next_free_lazy_page == 0,
            forall|i: int| 0 <= i < MAX_VMAS ==> !r.vmas[i].active,
            r.stats == LazyStats::zeroed_spec(),
            r.evidence == LazyEvidence::zeroed_spec(),
            forall|i: int| 16 <= i < 64 ==> r.tables@[3].entries[i] == 0,
    {
        let tables = build_page_tables(&l);
        LazyKernel {
            layout: l,
            tables,
            vmas: [Vma::empty(); MAX_VMAS],
            next_free_lazy_page: 0,
            stats: LazyStats::zeroed(),
            evidence: LazyEvidence::zeroed(),
            heap_break: USER_HEAP_BASE,
            next_mmap_base: USER_MMAP_BASE,
        }
    }
}

impl LazyStats {
    pub open spec fn zeroed_spec() -> Self {
        LazyStats { reserve_count: 0, sbrk_calls: 0, mmap_calls: 0, page_fault_count: 0, load_fault_count: 0,
            store_fault_count: 0, page_alloc_count: 0, map_install_count: 0 }
    }
}

impl LazyEvidence {
    pub open spec fn zeroed_spec() -> Self {
        LazyEvidence { heap_unmapped_after_sbrk: false, mmap_unmapped_after_mmap: false, first_fault_seen: false,
            alloc_count_before_first_fault: 0, lazy_map_success_count: 0 }
    }
}

/// The page tables: kernel window, devices, eager user text/shared/stack
/// pages, and an empty lazy area.
pub fn build_page_tables(l: &Layout) -> (r: TableSet)
    requires
        layout_ok(*l),
    ensures
        r@.len() == 5,
        r@[0].pa == l.root && r@[1].pa == l.low_l1 && r@[2].pa == l.dev_l0 && r@[3].pa == l.user_l0 && r@[4].pa == l.kernel_l1,
        r@[0].entries[0] == spec_pte(l.low_l1, 1),
        r@[0].entries[2] == spec_pte(l.kernel_l1, 1),
        r@[1].entries[2] == spec_pte(l.user_l0, 1),
        r@[3].entries[0] == spec_pte(l.code, USER_TEXT_FLAGS + 1),
        r@[3].entries[1] == spec_pte(l.shared, USER_RW_FLAGS + 1),
        r@[3].entries[2] == spec_pte(l.stack, USER_RW_FLAGS + 1),
        forall|i: int| 3 <= i < 512 ==> r@[3].entries[i] == 0,
{
    let mut root = PageTable::zeroed(l.root);
    let mut low_l1 = PageTable::zeroed(l.low_l1);
    let mut dev_l0 = PageTable::zeroed(l.dev_l0);
    let mut user_l0 = PageTable::zeroed(l.user_l0);
    let mut kernel_l1 = PageTable::zeroed(l.kernel_l1);

    root.entries[vpn2_index(KERNEL_BASE)] = table_pte(l.kernel_l1);
    root.entries[vpn2_index(USER_TEXT_VA)] = table_pte(l.low_l1);
    low_l1.entries[vpn1_index(QEMU_TEST_BASE)] = table_pte(l.dev_l0);
    dev_l0.entries[vpn0_index(QEMU_TEST_BASE)] = leaf_pte(QEMU_TEST_BASE, DEVICE_LEAF_FLAGS);
    low_l1.entries[vpn1_index(UART0_ADDR)] = leaf_pte(UART0_ADDR, DEVICE_LEAF_FLAGS);
    low_l1.entries[vpn1_index(USER_TEXT_VA)] = table_pte(l.user_l0);
    user_l0.entries[vpn0_index(USER_TEXT_VA)] = leaf_pte(l.code, USER_TEXT_FLAGS);
    user_l0.entries[vpn0_index(USER_SHARED_VA)] = leaf_pte(l.shared, USER_RW_FLAGS);
    user_l0.entries[vpn0_index(USER_STACK_VA)] = leaf_pte(l.stack, USER_RW_FLAGS);

    let mut entry_index: usize = 0;
    while entry_index < 8
        invariant
            entry_index <= 8,
            kernel_l1.pa == l.kernel_l1,
        decreases 8 - entry_index,
    {
        let pa = KERNEL_BASE + (entry_index as u64) * 0x20_0000;
        kernel_l1.entries[entry_index] = leaf_pte(pa, KERNEL_LEAF_FLAGS);
        entry_index += 1;
    }

    let mut tables: Vec<PageTable> = Vec::new();
    tables.push(root);
    tables.push(low_l1);
    tables.push(dev_l0);
    tables.push(user_l0);
    tables.push(kernel_l1);
    TableSet { tables }
}

/// Under `wf`, a VA in the user window walks through the user L0 table.
pub proof fn lemma_user_window_walk(k: &LazyKernel, va: u64)
    requires
        k.wf(),
        user_window(va),
    ensures
        k.spec_walk_va(va).leaf_level == 0,
        k.spec_walk_va(va).leaf_pte == k.tables@[3].entries[vpn(va, 0) as int],
        vpn(va, 0) as int == (va - USER_TEXT_VA) / 4096,
{
    let t = k.tables@;
    let l = k.layout;
    reveal_with_fuel(slot_in, 6);
    assert(slot_in(t, l.root, 5) == 0);
    assert(slot_in(t, l.low_l1, 5) == 1);
    assert(slot_in(t, l.user_l0, 5) == 3);
    lemma_pte_roundtrip(l.low_l1, 1);
    lemma_pte_roundtrip(l.user_l0, 1);
    assert(flag(spec_pte(l.low_l1, 1) as u64, 1));
    assert(!flag(spec_pte(l.low_l1, 1) as u64, 2) && !flag(spec_pte(l.low_l1, 1) as u64, 4) && !flag(spec_pte(l.low_l1, 1) as u64, 8));
    assert(flag(spec_pte(l.user_l0, 1) as u64, 1));
    assert(!flag(spec_pte(l.user_l0, 1) as u64, 2) && !flag(spec_pte(l.user_l0, 1) as u64, 4) && !flag(spec_pte(l.user_l0, 1) as u64, 8));
    assert(vpn(va, 2) == 0);
    assert(vpn(va, 1) == 2);
}

impl LazyKernel {
    /// Updates the active VMA of `kind`, or inserts one.
    pub fn upsert_vma(&mut self, kind: u64, start: u64, end: u64, flags: u64) -> (r: Result<(), KernelFail>)
        ensures
            final(self).tables@ == old(self).tables@,
            final(self).layout == old(self).layout,
            final(self).stats == old(self).stats && final(self).evidence == old(self).evidence,
            final(self).heap_break == old(self).heap_break && final(self).next_mmap_base == old(self).next_mmap_base,
            final(self).next_free_lazy_page == old(self).next_free_lazy_page,
            forall|i: int| 0 <= i < MAX_VMAS ==> #[trigger] final(self).vmas[i].active ==> {
                ||| final(self).vmas[i] == old(self).vmas[i]
                ||| (final(self).vmas[i].kind == kind && final(self).vmas[i].start == start && final(self).vmas[i].end == end)
            },
            r is Ok ==> exists|i: int| 0 <= i < MAX_VMAS && #[trigger] final(self).vmas[i].active
                && final(self).vmas[i].kind == kind && final(self).vmas[i].start == start && final(self).vmas[i].end == end
                && final(self).vmas[i].flags == flags,
            forall|i: int| 0 <= i < MAX_VMAS ==> (#[trigger] final(self).vmas[i]).fault_count == old(self).vmas[i].fault_count
                || final(self).vmas[i].fault_count == 0,
            r is Err <==> forall|i: int| 0 <= i < MAX_VMAS ==> #[trigger] old(self).vmas[i].active && old(self).vmas[i].kind != kind,
    {
        let mut index: usize = 0;
        while index < MAX_VMAS
            invariant
                index <= MAX_VMAS,
                *self == *old(self),
                forall|i: int| 0 <= i < index ==> !(self.vmas[i].active && self.vmas[i].kind == kind),
            decreases MAX_VMAS - index,
        {
            if self.vmas[index].active && self.vmas[index].kind == kind {
                let mut v = self.vmas[index];
                v.start = start;
                v.end = end;
                v.flags = flags;
                self.vmas[index] = v;
                assert(self.vmas[index as int].active);
                return Ok(());
            }
            index += 1;
        }
        self.insert_vma(start, end, flags, kind)
    }

    /// Stores a new VMA in the first free slot; fails when none is free.
    pub fn insert_vma(&mut self, start: u64, end: u64, flags: u64, kind: u64) -> (r: Result<(), KernelFail>)
        ensures
            final(self).tables@ == old(self).tables@,
            final(self).layout == old(self).layout,
            final(self).stats == old(self).stats && final(self).evidence == old(self).evidence,
            final(self).heap_break == old(self).heap_break && final(self).next_mmap_base == old(self).next_mmap_base,
            final(self).next_free_lazy_page == old(self).next_free_lazy_page,
            r is Err <==> forall|i: int| 0 <= i < MAX_VMAS ==> #[trigger] old(self).vmas[i].active,
            r is Err ==> final(self).vmas == old(self).vmas,
            r is Ok ==> exists|s: int| 0 <= s < MAX_VMAS && !old(self).vmas[s].active
                && (forall|i: int| 0 <= i < s ==> #[trigger] old(self).vmas[i].active)
                && final(self).vmas@ == old(self).vmas@.update(s, Vma { active: true, start, end, flags, kind, fault_count: 0, mapped_pages: 0 }),
            forall|i: int| 0 <= i < MAX_VMAS ==> #[trigger] final(self).vmas[i].active ==> {
                ||| final(self).vmas[i] == old(self).vmas[i]
                ||| (final(self).vmas[i].kind == kind && final(self).vmas[i].start == start && final(self).vmas[i].end == end)
            },
            r is Ok ==> exists|i: int| 0 <= i < MAX_VMAS && #[trigger] final(self).vmas[i].active
                && final(self).vmas[i].kind == kind && final(self).vmas[i].start == start && final(self).vmas[i].end == end
                && final(self).vmas[i].flags == flags,
            forall|i: int| 0 <= i < MAX_VMAS ==> (#[trigger] final(self).vmas[i]).fault_count == old(self).vmas[i].fault_count
                || final(self).vmas[i].fault_count == 0,
    {
        let mut index: usize = 0;
        while index < MAX_VMAS
            invariant
                index <= MAX_VMAS,
                *self == *old(self),
                forall|i: int| 0 <= i < index ==> #[trigger] self.vmas[i].active,
            decreases MAX_VMAS - index,
        {
            if !self.vmas[index].active {
                self.vmas[index] = Vma { active: true, start, end, flags, kind, fault_count: 0, mapped_pages: 0 };
                proof {
                    assert(self.vmas[index as int].active);
                }
                return Ok(());
            }
            index += 1;
        }
        Err("out of VMA slots")
    }

    /// The first active VMA containing `va`.
    pub fn find_vma_index(&self, va: u64) -> (r: Option<usize>)
        ensures
            match r {
                Some(i) => covering(self.vmas@, va, MAX_VMAS as int) == Some(i as int),
                None => covering(self.vmas@, va, MAX_VMAS as int) is None,
            },
    {
        let mut index: usize = 0;
        while index < MAX_VMAS
            invariant
                index <= MAX_VMAS,
                covering(self.vmas@, va, index as int) is None,
            decreases MAX_VMAS - index,
        {
            let vma = self.vmas[index];
            if vma.active && va >= vma.start && va < vma.end {
                proof {
                    assert(covering(self.vmas@, va, index + 1) == Some(index as int));
                    lemma_covering_stays(self.vmas@, va, index as int + 1, MAX_VMAS as int);
                }
                return Some(index);
            }
            index += 1;
        }
        None
    }

    /// Takes the next frame of the lazy pool; fails when the pool is exhausted.
    /// The caller zero-fills the frame.
    pub fn allocate_lazy_page(&mut self) -> (r: Result<u64, KernelFail>)
        requires
            old(self).wf(),
        ensures
            old(self).next_free_lazy_page >= MAX_LAZY_PAGES ==> r is Err && *final(self) == *old(self),
            old(self).next_free_lazy_page < MAX_LAZY_PAGES ==> {
                &&& r == Ok::<u64, KernelFail>((old(self).layout.pool + old(self).next_free_lazy_page * 4096) as u64)
                &&& final(self).next_free_lazy_page == old(self).next_free_lazy_page + 1
                &&& final(self).stats == (LazyStats { page_alloc_count: (old(self).stats.page_alloc_count + 1) as usize, ..old(self).stats })
                &&& final(self).tables@ == old(self).tables@ && final(self).layout == old(self).layout
                &&& final(self).vmas == old(self).vmas && final(self).evidence == old(self).evidence
                &&& final(self).heap_break == old(self).heap_break && final(self).next_mmap_base == old(self).next_mmap_base
            },
    {
        let page_index = self.next_free_lazy_page;
        if page_index >= MAX_LAZY_PAGES {
            return Err("lazy page pool exhausted");
        }
        let pa = self.layout.pool + (page_index as u64) * 4096;
        self.next_free_lazy_page = page_index + 1;
        self.stats.page_alloc_count = self.stats.page_alloc_count + 1;
        Ok(pa)
    }

    /// Installs a user leaf for `va` in the user L0 table; fails if present.
    pub fn install_user_leaf(&mut self, va: u64, pa: u64, flags: u64) -> (r: Result<(), KernelFail>)
        requires
            old(self).wf(),
            pa < PHYS_LIMIT,
            flags < 1024,
            flags % 2 == 0,
            old(self).stats.map_install_count < old(self).stats.page_alloc_count,
        ensures
            spec_valid(old(self).tables@[3].entries[vpn(va, 0) as int]) ==> r is Err && *final(self) == *old(self),
            !spec_valid(old(self).tables@[3].entries[vpn(va, 0) as int]) ==> {
                &&& r is Ok
                &&& final(self).tables@ == old(self).tables@.update(3, PageTable {
                        entries: vstd::array::spec_array_update(old(self).tables@[3].entries, vpn(va, 0) as int, spec_pte(pa, flags + 1) as u64),
                        ..old(self).tables@[3]
                    })
                &&& final(self).stats == (LazyStats { map_install_count: (old(self).stats.map_install_count + 1) as usize, ..old(self).stats })
                &&& final(self).layout == old(self).layout && final(self).vmas == old(self).vmas
                &&& final(self).evidence == old(self).evidence && final(self).next_free_lazy_page == old(self).next_free_lazy_page
                &&& final(self).heap_break == old(self).heap_break && final(self).next_mmap_base == old(self).next_mmap_base
            },
    {
        let index = vpn0_index(va);
        let entry = self.tables.tables[3].entries[index];
        if pte_is_valid(entry) {
            return Err("attempted to install an already-present lazy PTE");
        }
        let pte = leaf_pte(pa, flags);
        self.tables.write_entry(3, index, pte);
        self.stats.map_install_count = self.stats.map_install_count + 1;
        Ok(())
    }
}

pub proof fn lemma_covering_stays(vmas: Seq<Vma>, va: u64, n: int, m: int)
    requires
        0 <= n <= m,
        covering(vmas, va, n) is Some,
    ensures
        covering(vmas, va, m) == covering(vmas, va, n),
    decreases m - n,
{
    if m > n {
        lemma_covering_stays(vmas, va, n, m - 1);
    }
}

/// Leaf flags for a VMA: always `U|A`, `R` when readable, `W|D` when writable.
pub fn user_leaf_flags_for_vma(vma_flags: u64) -> (r: u64)
    ensures
        r == spec_leaf_flags(vma_flags),
        r < 1024,
        r % 2 == 0,
{
    proof { crate::lab4::sv39::lemma_flag_bits_pub(vma_flags); }
    let mut flags = PTE_U + PTE_A;
    if (vma_flags & VMA_READ) != 0 {
        flags = flags + PTE_R;
    }
    if (vma_flags & VMA_WRITE) != 0 {
        flags = flags + PTE_W + PTE_D;
    }
    flags
}

/// `load`, `store` or `unknown`.
pub fn fault_kind_name(scause: usize) -> (r: &'static str)
    ensures
        scause == LOAD_PAGE_FAULT ==> r@ == "load"@,
        scause == STORE_PAGE_FAULT ==> r@ == "store"@,
        scause != LOAD_PAGE_FAULT && scause != STORE_PAGE_FAULT ==> r@ == "unknown"@,
{
    if scause == LOAD_PAGE_FAULT { "load" } else if scause == STORE_PAGE_FAULT { "store" } else { "unknown" }
}

/// `heap`, `mmap` or `unknown`.
pub fn vma_kind_name(kind: u64) -> (r: &'static str)
    ensures
        kind == VMA_KIND_HEAP ==> r@ == "heap"@,
        kind == VMA_KIND_MMAP ==> r@ == "mmap"@,
        kind != VMA_KIND_HEAP && kind != VMA_KIND_MMAP ==> r@ == "unknown"@,
{
    if kind == VMA_KIND_HEAP { "heap" } else if kind == VMA_KIND_MMAP { "mmap" } else { "unknown" }
}

/// `rw`, `r`, `w` or `-`.
pub fn vma_flags_name(flags: u64) -> (r: &'static str)
    ensures
        flags == 3 ==> r@ == "rw"@,
        flags == VMA_READ ==> r@ == "r"@,
        flags == VMA_WRITE ==> r@ == "w"@,
        flags != 3 && flags != VMA_READ && flags != VMA_WRITE ==> r@ == "-"@,
{
    if flags == 3 { "rw" } else if flags == VMA_READ { "r" } else if flags == VMA_WRITE { "w" } else { "-" }
}

/// `yes` or `no`.
pub fn yes_no(condition: bool) -> (r: &'static str)
    ensures
        condition ==> r@ == "yes"@,
        !condition ==> r@ == "no"@,
{
    if condition { "yes" } else { "no" }
}


/// What `sbrk` or `mmap` reserved, with the walk of the first reserved page.
#[derive(Clone, Copy)]
pub struct Reservation {
    pub base: u64,
    pub end: u64,
    pub walk: WalkResult,
}

/// The registers of a user `ecall` the kernel reads and writes.
#[derive(Clone, Copy)]
pub struct SyscallFrame {
    pub epc: u64,
    pub a0: u64,
    pub a7: usize,
}

/// What follows a user `ecall`.
pub enum EcallOutcome {
    /// Return to the user with `a0` set.
    Resume,
    /// The program exited with this code: run the final checks.
    Exit { code: u64 },
    /// An unknown call: report and fail.
    UnexpectedSyscall,
    /// The kernel stopped with a failure.
    Fail { reason: KernelFail },
}

/// The four acceptance checks run when the program exits.
#[derive(Clone, Copy)]
pub struct LazyAcceptance {
    pub reservation_ok: bool,
    pub fault_path_ok: bool,
    pub mapped_ok: bool,
    pub user_ok: bool,
}

/// The user program's shared page.
#[derive(Clone, Copy)]
pub struct UserSharedData {
    pub stage_marker: u64,
    pub heap_base: u64,
    pub mmap_base: u64,
    pub heap_page0_readback: u64,
    pub heap_page1_readback: u64,
    pub mmap_page0_initial: u64,
    pub mmap_page0_readback: u64,
    pub mmap_page1_initial: u64,
    pub mmap_page1_readback: u64,
    pub exit_code: u64,
}

impl UserSharedData {
    /// The page as `initialize_user_pages` leaves it: all zero.
    pub fn zeroed() -> (r: Self)
        ensures
            r.stage_marker == 0 && r.heap_base == 0 && r.mmap_base == 0 && r.exit_code == 0,
            r.heap_page0_readback == 0 && r.heap_page1_readback == 0,
            r.mmap_page0_initial == 0 && r.mmap_page0_readback == 0,
            r.mmap_page1_initial == 0 && r.mmap_page1_readback == 0,
    {
        UserSharedData { stage_marker: 0, heap_base: 0, mmap_base: 0, heap_page0_readback: 0, heap_page1_readback: 0,
            mmap_page0_initial: 0, mmap_page0_readback: 0, mmap_page1_initial: 0, mmap_page1_readback: 0, exit_code: 0 }
    }
}

/// A reserved page the kernel has not mapped yet walks to an invalid entry.
proof fn lemma_unreserved_unmapped(k: &LazyKernel, va: u64)
    requires
        k.wf(),
        va % 4096 == 0,
        USER_HEAP_BASE <= va < USER_MMAP_LIMIT,
        !k.reserved(va as int),
    ensures
        !spec_valid(k.spec_walk_va(va).leaf_pte),
{
    lemma_user_window_walk(k, va);
    let i = (va - USER_TEXT_VA) / 4096;
    assert(l0_va(i) == va);
    assert(16 <= i < 64);
}

impl LazyKernel {
    /// The walk of `va` in the current tables.
    pub fn walk_virtual(&self, va: u64) -> (r: WalkResult)
        ensures
            r == self.spec_walk_va(va),
    {
        self.tables.walk(self.layout.root, va)
    }

    /// `sys_sbrk`: grows the heap reservation by `length` rounded up to pages
    /// and returns the old break. No frame is allocated and no entry changes.
    #[verifier::rlimit(60)]
    #[verifier::spinoff_prover]
    pub fn sys_sbrk(&mut self, length: u64) -> (r: Result<Reservation, KernelFail>)
        requires
            old(self).wf(),
            old(self).room(),
        ensures
            final(self).wf(),
            final(self).tables@ == old(self).tables@,
            final(self).stats.page_alloc_count == old(self).stats.page_alloc_count,
            final(self).stats.map_install_count == old(self).stats.map_install_count,
            length > u64::MAX - 4095 ==> r is Err,
            length <= u64::MAX - 4095 && old(self).heap_break + (length + 4095) / 4096 * 4096 > USER_HEAP_LIMIT ==> r is Err,
            r is Err <==> (length > u64::MAX - 4095 || old(self).heap_break + (length + 4095) / 4096 * 4096 > USER_HEAP_LIMIT
                || heap_slots_full(old(self).vmas@)),
            r matches Ok(res) ==> {
                &&& res.base == old(self).heap_break
                &&& res.end == old(self).heap_break + (length + 4095) / 4096 * 4096
                &&& final(self).heap_break == res.end
                &&& final(self).next_mmap_base == old(self).next_mmap_base
                &&& final(self).stats == (LazyStats { reserve_count: (old(self).stats.reserve_count + 1) as usize,
                    sbrk_calls: (old(self).stats.sbrk_calls + 1) as usize, ..old(self).stats })
                &&& exists|i: int| 0 <= i < MAX_VMAS && #[trigger] final(self).vmas[i].active
                    && final(self).vmas[i].kind == VMA_KIND_HEAP && final(self).vmas[i].start == USER_HEAP_BASE
                    && final(self).vmas[i].end == res.end && final(self).vmas[i].flags == VMA_READ | VMA_WRITE
                &&& res.walk == final(self).spec_walk_va(res.base)
                &&& (res.base < USER_HEAP_LIMIT ==> !spec_valid(res.walk.leaf_pte))
                &&& final(self).evidence.heap_unmapped_after_sbrk == !spec_valid(res.walk.leaf_pte)
            },
    {
        if length > u64::MAX - 4095 {
            return Err("heap break overflow");
        }
        let grow_len = page_align_up(length);
        proof {
            assert(grow_len == (length + 4095) / 4096 * 4096) by (nonlinear_arith)
                requires grow_len == (length + 4095) - (length + 4095) % 4096;
        }
        let old_break = self.heap_break;
        let new_break = match old_break.checked_add(grow_len) {
            Some(b) => b,
            None => return Err("heap break overflow"),
        };
        if new_break > USER_HEAP_LIMIT {
            return Err("heap reservation exceeds limit");
        }
        proof {
            if old_break < USER_HEAP_LIMIT {
                lemma_unreserved_unmapped(self, old_break);
            }
        }
        self.heap_break = new_break;
        self.stats.reserve_count = self.stats.reserve_count + 1;
        self.stats.sbrk_calls = self.stats.sbrk_calls + 1;
        let ghost before_upsert = *self;
        assert(before_upsert.vmas == old(self).vmas);
        match self.upsert_vma(VMA_KIND_HEAP, USER_HEAP_BASE, new_break, VMA_READ | VMA_WRITE) {
            Ok(()) => {},
            Err(e) => {
                assert forall|i: int| 0 <= i < MAX_VMAS implies #[trigger] old(self).vmas[i].active
                    && old(self).vmas[i].kind != VMA_KIND_HEAP by {
                    assert(before_upsert.vmas[i] == old(self).vmas[i]);
                }
                assert(heap_slots_full(old(self).vmas@));
                return Err(e);
            },
        }
        let walk = self.walk_virtual(old_break);
        self.evidence.heap_unmapped_after_sbrk = !pte_is_valid(walk.leaf_pte);
        Ok(Reservation { base: old_break, end: new_break, walk })
    }
}


impl LazyKernel {
    /// `sys_mmap`: reserves `length` rounded up to pages at the mmap cursor and
    /// returns its base. No frame is allocated and no entry changes.
    #[verifier::rlimit(60)]
    #[verifier::spinoff_prover]
    pub fn sys_mmap(&mut self, length: u64) -> (r: Result<Reservation, KernelFail>)
        requires
            old(self).wf(),
            old(self).room(),
        ensures
            final(self).wf(),
            final(self).tables@ == old(self).tables@,
            final(self).stats.page_alloc_count == old(self).stats.page_alloc_count,
            final(self).stats.map_install_count == old(self).stats.map_install_count,
            length > u64::MAX - 4095 ==> r is Err,
            length <= u64::MAX - 4095 && old(self).next_mmap_base + (length + 4095) / 4096 * 4096 > USER_MMAP_LIMIT ==> r is Err,
            r is Err <==> (length > u64::MAX - 4095 || old(self).next_mmap_base + (length + 4095) / 4096 * 4096 > USER_MMAP_LIMIT
                || forall|i: int| 0 <= i < MAX_VMAS ==> #[trigger] old(self).vmas[i].active),
            r matches Ok(res) ==> {
                &&& res.base == old(self).next_mmap_base
                &&& res.end == old(self).next_mmap_base + (length + 4095) / 4096 * 4096
                &&& final(self).next_mmap_base == res.end
                &&& final(self).heap_break == old(self).heap_break
                &&& final(self).stats == (LazyStats { reserve_count: (old(self).stats.reserve_count + 1) as usize,
                    mmap_calls: (old(self).stats.mmap_calls + 1) as usize, ..old(self).stats })
                &&& exists|s: int| 0 <= s < MAX_VMAS && !old(self).vmas[s].active
                    && (forall|i: int| 0 <= i < s ==> #[trigger] old(self).vmas[i].active)
                    && final(self).vmas@ == old(self).vmas@.update(s, Vma { active: true, start: res.base, end: res.end,
                        flags: VMA_READ | VMA_WRITE, kind: VMA_KIND_MMAP, fault_count: 0, mapped_pages: 0 })
                &&& res.walk == final(self).spec_walk_va(res.base)
                &&& (res.base < USER_MMAP_LIMIT ==> !spec_valid(res.walk.leaf_pte))
                &&& final(self).evidence.mmap_unmapped_after_mmap == !spec_valid(res.walk.leaf_pte)
            },
    {
        if length > u64::MAX - 4095 {
            return Err("mmap reservation overflow");
        }
        let map_len = page_align_up(length);
        proof {
            assert(map_len == (length + 4095) / 4096 * 4096) by (nonlinear_arith)
                requires map_len == (length + 4095) - (length + 4095) % 4096;
        }
        let base = self.next_mmap_base;
        let end = match base.checked_add(map_len) {
            Some(e) => e,
            None => return Err("mmap reservation overflow"),
        };
        if end > USER_MMAP_LIMIT {
            return Err("mmap reservation exceeds limit");
        }
        proof {
            if base < USER_MMAP_LIMIT {
                lemma_unreserved_unmapped(self, base);
            }
        }
        self.next_mmap_base = end;
        self.stats.reserve_count = self.stats.reserve_count + 1;
        self.stats.mmap_calls = self.stats.mmap_calls + 1;
        match self.insert_vma(base, end, VMA_READ | VMA_WRITE, VMA_KIND_MMAP) {
            Ok(()) => {},
            Err(e) => {
                return Err(e);
            },
        }
        let walk = self.walk_virtual(base);
        self.evidence.mmap_unmapped_after_mmap = !pte_is_valid(walk.leaf_pte);
        Ok(Reservation { base, end, walk })
    }

    /// A load or store page fault at `stval`: maps a fresh frame for the page
    /// when it lies in a VMA and is not mapped yet.
    #[verifier::rlimit(80)]
    #[verifier::spinoff_prover]
    pub fn handle_lazy_page_fault(&mut self, scause: usize, stval: u64) -> (r: Result<FaultReport, KernelFail>)
        requires
            old(self).wf(),
            old(self).room(),
        ensures
            final(self).wf(),
            final(self).stats.page_fault_count == old(self).stats.page_fault_count + 1,
            covering(old(self).vmas@, (stval - stval % 4096) as u64, MAX_VMAS as int) is None ==> r is Err,
            r is Err <==> (covering(old(self).vmas@, (stval - stval % 4096) as u64, MAX_VMAS as int) is None
                || spec_valid(old(self).spec_walk_va((stval - stval % 4096) as u64).leaf_pte)
                || old(self).next_free_lazy_page >= MAX_LAZY_PAGES),
            final(self).stats.load_fault_count == old(self).stats.load_fault_count + (if scause == LOAD_PAGE_FAULT { 1int } else { 0 }),
            final(self).stats.store_fault_count == old(self).stats.store_fault_count + (if scause == LOAD_PAGE_FAULT { 0int } else { 1 }),
            r matches Ok(rep) ==> {
                let va = (stval - stval % 4096) as u64;
                let vma = old(self).vmas[rep.vma_index as int];
                &&& rep.fault_va == va
                &&& covering(old(self).vmas@, va, MAX_VMAS as int) == Some(rep.vma_index as int)
                &&& !spec_valid(old(self).spec_walk_va(va).leaf_pte)
                &&& old(self).next_free_lazy_page < MAX_LAZY_PAGES
                &&& rep.pa == old(self).layout.pool + old(self).next_free_lazy_page * 4096
                &&& rep.before == old(self).spec_walk_va(va)
                &&& rep.after == final(self).spec_walk_va(va)
                &&& rep.after.leaf_level == 0
                &&& rep.after.leaf_pte == spec_pte(rep.pa, spec_leaf_flags(vma.flags) + 1)
                &&& spec_valid(rep.after.leaf_pte) && flag(rep.after.leaf_pte, PTE_U)
                &&& spec_pte_pa(rep.after.leaf_pte) == rep.pa
                &&& final(self).stats.page_alloc_count == old(self).stats.page_alloc_count + 1
                &&& final(self).stats.map_install_count == old(self).stats.map_install_count + 1
                &&& final(self).evidence.lazy_map_success_count == old(self).evidence.lazy_map_success_count + 1
                &&& final(self).tables@ == old(self).tables@.update(3, PageTable {
                        entries: vstd::array::spec_array_update(old(self).tables@[3].entries, vpn(va, 0) as int, rep.after.leaf_pte),
                        ..old(self).tables@[3]
                    })
            },
    {
        let fault_va = page_align_down(stval);
        let before = self.walk_virtual(fault_va);
        self.stats.page_fault_count = self.stats.page_fault_count + 1;
        if scause == LOAD_PAGE_FAULT {
            self.stats.load_fault_count = self.stats.load_fault_count + 1;
        } else {
            self.stats.store_fault_count = self.stats.store_fault_count + 1;
        }
        if !self.evidence.first_fault_seen {
            self.evidence.first_fault_seen = true;
            self.evidence.alloc_count_before_first_fault = self.stats.page_alloc_count;
        }
        let vma_index = match self.find_vma_index(fault_va) {
            Some(i) => i,
            None => return Err("page fault is outside all lazy VMAs"),
        };
        proof {
            lemma_covering(self.vmas@, fault_va, MAX_VMAS as int);
            lemma_user_window_walk(self, fault_va);
        }
        if pte_is_valid(before.leaf_pte) {
            return Err("page fault hit an already-mapped leaf");
        }
        let pa = match self.allocate_lazy_page() {
            Ok(pa) => pa,
            Err(e) => return Err(e),
        };
        let vma_flags = self.vmas[vma_index].flags;
        let flags = user_leaf_flags_for_vma(vma_flags);
        proof {
            assert(pa < PHYS_LIMIT);
        }
        match self.install_user_leaf(fault_va, pa, flags) {
            Ok(()) => {},
            Err(e) => return Err(e),
        }
        let mut vma = self.vmas[vma_index];
        vma.fault_count = vma.fault_count + 1;
        vma.mapped_pages = vma.mapped_pages + 1;
        self.vmas[vma_index] = vma;
        proof {
            let i = vpn(fault_va, 0) as int;
            assert(l0_va(i) == fault_va);
            lemma_user_window_walk(self, fault_va);
            assert(page_addr(pa) || pa % 4096 == 0);
            crate::lab4::sv39::lemma_pte_roundtrip(pa, (flags + 1) as int);
        }
        let after = self.walk_virtual(fault_va);
        if pte_is_valid(after.leaf_pte) && pte_to_pa(after.leaf_pte) == pa && pte_has_user(after.leaf_pte) {
            self.evidence.lazy_map_success_count = self.evidence.lazy_map_success_count + 1;
        }
        Ok(FaultReport { fault_va, vma_index, before, after, pa })
    }
}


/// The reservation, fault-path, mapping and user-side checks.
pub open spec fn spec_acceptance(k: &LazyKernel, exit_code: u64, shared: UserSharedData) -> LazyAcceptance {
    let st = k.stats;
    let ev = k.evidence;
    let h0 = k.spec_walk_va(USER_HEAP_BASE).leaf_pte;
    let h1 = k.spec_walk_va((USER_HEAP_BASE + 4096) as u64).leaf_pte;
    let m0 = k.spec_walk_va(USER_MMAP_BASE).leaf_pte;
    let m1 = k.spec_walk_va((USER_MMAP_BASE + 4096) as u64).leaf_pte;
    LazyAcceptance {
        reservation_ok: ev.heap_unmapped_after_sbrk && ev.mmap_unmapped_after_mmap && ev.first_fault_seen
            && ev.alloc_count_before_first_fault == 0,
        fault_path_ok: st.page_fault_count == 4 && st.load_fault_count == 2 && st.store_fault_count == 2
            && st.page_alloc_count == 4 && st.map_install_count == 4 && ev.lazy_map_success_count == 4,
        mapped_ok: spec_valid(h0) && spec_valid(h1) && spec_valid(m0) && spec_valid(m1)
            && flag(h0, PTE_U) && flag(h1, PTE_U) && flag(m0, PTE_U) && flag(m1, PTE_U),
        user_ok: exit_code == 0 && shared.stage_marker == STAGE_DONE && shared.heap_base == USER_HEAP_BASE
            && shared.mmap_base == USER_MMAP_BASE && shared.heap_page0_readback == HEAP_PAGE0_VALUE
            && shared.heap_page1_readback == HEAP_PAGE1_VALUE && shared.mmap_page0_initial == 0
            && shared.mmap_page0_readback == MMAP_PAGE0_VALUE && shared.mmap_page1_initial == 0
            && shared.mmap_page1_readback == MMAP_PAGE1_VALUE,
    }
}

impl LazyKernel {
    /// The checks `finish_user_program` prints once the program exited.
    pub fn finish_user_program(&self, exit_code: u64, shared: &UserSharedData) -> (r: LazyAcceptance)
        ensures
            r == spec_acceptance(self, exit_code, *shared),
    {
        let heap_page0_walk = self.walk_virtual(USER_HEAP_BASE);
        let heap_page1_walk = self.walk_virtual(USER_HEAP_BASE + 4096);
        let mmap_page0_walk = self.walk_virtual(USER_MMAP_BASE);
        let mmap_page1_walk = self.walk_virtual(USER_MMAP_BASE + 4096);
        let st = self.stats;
        let ev = self.evidence;
        let reservation_ok = ev.heap_unmapped_after_sbrk && ev.mmap_unmapped_after_mmap && ev.first_fault_seen
            && ev.alloc_count_before_first_fault == 0;
        let fault_path_ok = st.page_fault_count == 4 && st.load_fault_count == 2 && st.store_fault_count == 2
            && st.page_alloc_count == 4 && st.map_install_count == 4 && ev.lazy_map_success_count == 4;
        let mapped_ok = pte_is_valid(heap_page0_walk.leaf_pte) && pte_is_valid(heap_page1_walk.leaf_pte)
            && pte_is_valid(mmap_page0_walk.leaf_pte) && pte_is_valid(mmap_page1_walk.leaf_pte)
            && pte_has_user(heap_page0_walk.leaf_pte) && pte_has_user(heap_page1_walk.leaf_pte)
            && pte_has_user(mmap_page0_walk.leaf_pte) && pte_has_user(mmap_page1_walk.leaf_pte);
        let user_ok = exit_code == 0 && shared.stage_marker == STAGE_DONE && shared.heap_base == USER_HEAP_BASE
            && shared.mmap_base == USER_MMAP_BASE && shared.heap_page0_readback == HEAP_PAGE0_VALUE
            && shared.heap_page1_readback == HEAP_PAGE1_VALUE && shared.mmap_page0_initial == 0
            && shared.mmap_page0_readback == MMAP_PAGE0_VALUE && shared.mmap_page1_initial == 0
            && shared.mmap_page1_readback == MMAP_PAGE1_VALUE;
        LazyAcceptance { reservation_ok, fault_path_ok, mapped_ok, user_ok }
    }

    /// A user `ecall`: steps past it, then `sbrk`, `mmap` or `exit`.
    pub fn handle_user_ecall(&mut self, frame: &mut SyscallFrame) -> (r: EcallOutcome)
        requires
            old(self).wf(),
            old(self).room(),
            old(frame).epc <= u64::MAX - 4,
        ensures
            final(self).wf(),
            final(frame).epc == old(frame).epc + 4,
            final(frame).a7 == old(frame).a7,
            old(frame).a7 == SYS_SBRK ==> {
                &&& r is Fail <==> sbrk_fails(*old(self), old(frame).a0)
                &&& !(r is Fail) ==> r is Resume && final(frame).a0 == old(self).heap_break
                    && final(self).heap_break == old(self).heap_break + (old(frame).a0 + 4095) / 4096 * 4096
                    && final(self).next_mmap_base == old(self).next_mmap_base
                    && final(self).stats == (LazyStats { reserve_count: (old(self).stats.reserve_count + 1) as usize,
                        sbrk_calls: (old(self).stats.sbrk_calls + 1) as usize, ..old(self).stats })
            },
            old(frame).a7 == SYS_MMAP ==> {
                &&& r is Fail <==> mmap_fails(*old(self), old(frame).a0)
                &&& !(r is Fail) ==> r is Resume && final(frame).a0 == old(self).next_mmap_base
                    && final(self).next_mmap_base == old(self).next_mmap_base + (old(frame).a0 + 4095) / 4096 * 4096
                    && final(self).heap_break == old(self).heap_break
                    && final(self).stats == (LazyStats { reserve_count: (old(self).stats.reserve_count + 1) as usize,
                        mmap_calls: (old(self).stats.mmap_calls + 1) as usize, ..old(self).stats })
            },
            old(frame).a7 == SYS_EXIT ==> r == (EcallOutcome::Exit { code: old(frame).a0 }) && *final(self) == *old(self),
            old(frame).a7 != SYS_SBRK && old(frame).a7 != SYS_MMAP && old(frame).a7 != SYS_EXIT ==> r is UnexpectedSyscall,
            final(self).tables@ == old(self).tables@,
    {
        let nr = frame.a7;
        frame.epc = frame.epc + 4;
        if nr == SYS_SBRK {
            match self.sys_sbrk(frame.a0) {
                Ok(res) => {
                    frame.a0 = res.base;
                    EcallOutcome::Resume
                },
                Err(reason) => EcallOutcome::Fail { reason },
            }
        } else if nr == SYS_MMAP {
            match self.sys_mmap(frame.a0) {
                Ok(res) => {
                    frame.a0 = res.base;
                    EcallOutcome::Resume
                },
                Err(reason) => EcallOutcome::Fail { reason },
            }
        } else if nr == SYS_EXIT {
            EcallOutcome::Exit { code: frame.a0 }
        } else {
            EcallOutcome::UnexpectedSyscall
        }
    }
}

/// What a supervisor trap led to.
pub enum SupervisorTrapOutcome {
    /// A user `ecall`, handled as `handle_user_ecall` does.
    Ecall(EcallOutcome),
    /// A load or store page fault, handled as `handle_lazy_page_fault` does.
    PageFault(Result<FaultReport, KernelFail>),
    /// Any other cause: the kernel reports it and stops with status 1.
    Unexpected,
}

/// `after` and `outcome` are what a user `ecall` made of `frame` and `k`:
/// the `ecall` stepped over; `sbrk` and `mmap` fail exactly when their
/// reservation does, and otherwise return the old break or mapping cursor,
/// which moves by the page-rounded length; `exit` hands its code on; any
/// other call is unexpected.
pub open spec fn ecall_result(k: LazyKernel, k2: LazyKernel, frame: SyscallFrame, after: SyscallFrame, outcome: EcallOutcome) -> bool {
    let grown = (frame.a0 + 4095) / 4096 * 4096;
    &&& after.epc == frame.epc + 4 && after.a7 == frame.a7
    &&& frame.a7 == SYS_SBRK ==> {
        &&& (outcome is Fail) == sbrk_fails(k, frame.a0)
        &&& !(outcome is Fail) ==> outcome is Resume && after.a0 == k.heap_break
            && k2.heap_break == k.heap_break + grown && k2.next_mmap_base == k.next_mmap_base
    }
    &&& frame.a7 == SYS_MMAP ==> {
        &&& (outcome is Fail) == mmap_fails(k, frame.a0)
        &&& !(outcome is Fail) ==> outcome is Resume && after.a0 == k.next_mmap_base
            && k2.next_mmap_base == k.next_mmap_base + grown && k2.heap_break == k.heap_break
    }
    &&& frame.a7 == SYS_EXIT ==> outcome == (EcallOutcome::Exit { code: frame.a0 }) && k2 == k
    &&& frame.a7 != SYS_SBRK && frame.a7 != SYS_MMAP && frame.a7 != SYS_EXIT ==> outcome is UnexpectedSyscall
}

/// `res` is what a page fault at `stval` made of `k`: it fails exactly when
/// the page lies in no VMA, is already mapped, or no lazy page is left;
/// otherwise the next lazy page is mapped there with the VMA's permissions.
pub open spec fn fault_result(k: LazyKernel, k2: LazyKernel, stval: u64, res: Result<FaultReport, KernelFail>) -> bool {
    let va = (stval - stval % 4096) as u64;
    &&& (res is Err) == (covering(k.vmas@, va, MAX_VMAS as int) is None || spec_valid(k.spec_walk_va(va).leaf_pte)
            || k.next_free_lazy_page >= MAX_LAZY_PAGES)
    &&& res matches Ok(rep) ==> {
        &&& rep.fault_va == va
        &&& covering(k.vmas@, va, MAX_VMAS as int) == Some(rep.vma_index as int)
        &&& rep.pa == k.layout.pool + k.next_free_lazy_page * 4096
        &&& k2.spec_walk_va(va).leaf_pte == spec_pte(rep.pa, spec_leaf_flags(k.vmas[rep.vma_index as int].flags) + 1)
    }
}

impl LazyKernel {
    /// A trap taken to supervisor mode with cause `scause` and trap value
    /// `stval`: a user `ecall` or a load or store page fault is handled; any
    /// other cause changes nothing and stops the kernel.
    pub fn handle_supervisor_trap(&mut self, frame: &mut SyscallFrame, scause: usize, stval: u64) -> (r: SupervisorTrapOutcome)
        requires
            old(self).wf(),
            old(self).room(),
            old(frame).epc <= u64::MAX - 4,
        ensures
            final(self).wf(),
            match r {
                SupervisorTrapOutcome::Ecall(o) => scause == USER_ENV_CALL
                    && ecall_result(*old(self), *final(self), *old(frame), *final(frame), o),
                SupervisorTrapOutcome::PageFault(res) => (scause == LOAD_PAGE_FAULT || scause == STORE_PAGE_FAULT)
                    && *final(frame) == *old(frame) && fault_result(*old(self), *final(self), stval, res),
                SupervisorTrapOutcome::Unexpected => scause != USER_ENV_CALL && scause != LOAD_PAGE_FAULT
                    && scause != STORE_PAGE_FAULT && *final(frame) == *old(frame) && *final(self) == *old(self),
            },
    {
        if scause == USER_ENV_CALL {
            SupervisorTrapOutcome::Ecall(self.handle_user_ecall(frame))
        } else if scause == LOAD_PAGE_FAULT || scause == STORE_PAGE_FAULT {
            SupervisorTrapOutcome::PageFault(self.handle_lazy_page_fault(scause, stval))
        } else {
            SupervisorTrapOutcome::Unexpected
        }
    }
}

/// Where the user program starts.
#[derive(Clone, Copy)]
pub struct UserEntry {
    pub epc: u64,
    pub sp: u64,
}

/// The user frame `prepare_user_frame` sets up.
pub fn prepare_user_frame() -> (r: UserEntry)
    ensures
        r.epc == USER_TEXT_VA && r.sp == USER_STACK_TOP,
{
    UserEntry { epc: USER_TEXT_VA, sp: USER_STACK_TOP }
}

} // verus!
