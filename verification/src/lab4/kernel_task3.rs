//! Copy-on-write fork: the child gets its own page tables but shares the
//! parent's data frame, both mappings read-only and marked COW, and the frame's
//! reference count goes up. A store to a COW page copies the frame while it is
//! shared, or simply makes the mapping writable once it no longer is.
use vstd::prelude::*;
use crate::lab4::sv39::{
    flag, lemma_pte_roundtrip, leaf_pte, page_addr, page_align_down, pte_has_cow, pte_has_write,
    pte_is_valid, pte_to_pa, satp_for_root, slot_in, spec_leaf, spec_pte, spec_pte_pa, spec_satp,
    spec_valid, spec_walk, table_pte, vpn, vpn0_index, vpn1_index, vpn2_index, PageTable, TableSet,
    WalkResult, PHYS_LIMIT, PTE_COW, PTE_U, PTE_W,
};

verus! {

pub const QEMU_TEST_BASE: u64 = 0x0010_0000;
pub const UART0_ADDR: u64 = 0x1000_0000;
pub const KERNEL_BASE: u64 = 0x8000_0000;
pub const USER_TEXT_VA: u64 = 0x0040_0000;
pub const USER_DATA_VA: u64 = 0x0040_1000;
pub const USER_STACK_TOP: u64 = 0x0040_4000;

pub const INITIAL_VALUE: u64 = 0x1111_2222_3333_4444;
pub const CHILD_WRITE_VALUE: u64 = 0xc0ff_ee00_0000_0001;
pub const PARENT_WRITE_VALUE: u64 = 0xa11c_e000_0000_0002;

pub const SYS_FORK: usize = 1;
pub const SYS_YIELD: usize = 2;
pub const SYS_REPORT: usize = 3;
pub const SYS_EXIT: usize = 4;

pub const USER_ENV_CALL: usize = 8;
pub const LOAD_PAGE_FAULT: usize = 13;
pub const STORE_PAGE_FAULT: usize = 15;

pub const MAX_PROCS: usize = 2;
pub const PID_PARENT: usize = 0;
pub const PID_CHILD: usize = 1;

pub const PROC_UNUSED: usize = 0;
pub const PROC_RUNNABLE: usize = 1;
pub const PROC_EXITED: usize = 2;

pub const MAX_DATA_PAGES: usize = 4;
pub const WORDS_PER_PAGE: usize = 512;

pub const KERNEL_LEAF_FLAGS: u64 = 0xce;
pub const DEVICE_LEAF_FLAGS: u64 = 0xc6;
pub const USER_TEXT_FLAGS: u64 = 0x5a;
/// `R|W|U|A|D`
pub const WRITABLE_DATA_FLAGS: u64 = 0xd6;
/// `R|U|A|COW`
pub const COW_DATA_FLAGS: u64 = 0x152;

/// Why the kernel stops with a failure.
pub type KernelFail = &'static str;

#[derive(Clone, Copy)]
pub struct ProcessControl {
    pub state: usize,
    pub satp: u64,
    pub exit_code: u64,
}

impl ProcessControl {
    pub fn empty() -> (r: Self)
        ensures
            r.state == PROC_UNUSED && r.satp == 0 && r.exit_code == 0,
    {
        ProcessControl { state: PROC_UNUSED, satp: 0, exit_code: 0 }
    }
}

#[derive(Clone, Copy)]
pub struct ProcessReport {
    pub reported: bool,
    pub first_read: u64,
    pub second_read: u64,
    pub third_read: u64,
}

impl ProcessReport {
    pub fn empty() -> (r: Self)
        ensures
            !r.reported && r.first_read == 0 && r.second_read == 0 && r.third_read == 0,
    {
        ProcessReport { reported: false, first_read: 0, second_read: 0, third_read: 0 }
    }
}

#[derive(Clone, Copy)]
pub struct ForkStats {
    pub calls: usize,
    pub shared_pa: u64,
    pub alloc_count_before: usize,
    pub alloc_count_after: usize,
    pub refcount_before: usize,
    pub refcount_after: usize,
    pub parent_pte_after: u64,
    pub child_pte_after: u64,
}

impl ForkStats {
    pub fn zeroed() -> (r: Self)
        ensures
            r.calls == 0 && r.shared_pa == 0 && r.alloc_count_before == 0 && r.alloc_count_after == 0,
            r.refcount_before == 0 && r.refcount_after == 0 && r.parent_pte_after == 0 && r.child_pte_after == 0,
    {
        ForkStats { calls: 0, shared_pa: 0, alloc_count_before: 0, alloc_count_after: 0, refcount_before: 0,
            refcount_after: 0, parent_pte_after: 0, child_pte_after: 0 }
    }
}

#[derive(Clone, Copy)]
pub struct CowStats {
    pub store_faults: usize,
    pub copy_faults: usize,
    pub reuse_faults: usize,
    pub child_refcount_before: usize,
    pub child_old_pa: u64,
    pub child_new_pa: u64,
    pub parent_refcount_before: usize,
    pub parent_old_pa: u64,
    pub parent_new_pa: u64,
}

impl CowStats {
    pub fn zeroed() -> (r: Self)
        ensures
            r.store_faults == 0 && r.copy_faults == 0 && r.reuse_faults == 0,
            r.child_refcount_before == 0 && r.child_old_pa == 0 && r.child_new_pa == 0,
            r.parent_refcount_before == 0 && r.parent_old_pa == 0 && r.parent_new_pa == 0,
    {
        CowStats { store_faults: 0, copy_faults: 0, reuse_faults: 0, child_refcount_before: 0, child_old_pa: 0,
            child_new_pa: 0, parent_refcount_before: 0, parent_old_pa: 0, parent_new_pa: 0 }
    }
}

/// The registers of a process the kernel reads and writes.
#[derive(Clone, Copy)]
pub struct ProcFrame {
    pub epc: u64,
    pub sp: u64,
    pub a0: u64,
    pub a1: u64,
    pub a2: u64,
    pub a3: u64,
    pub a7: usize,
}

impl ProcFrame {
    pub fn zeroed() -> (r: Self)
        ensures
            r.epc == 0 && r.sp == 0 && r.a0 == 0 && r.a1 == 0 && r.a2 == 0 && r.a3 == 0 && r.a7 == 0,
    {
        ProcFrame { epc: 0, sp: 0, a0: 0, a1: 0, a2: 0, a3: 0, a7: 0 }
    }
}

/// Physical addresses of the tables, the text page and the data page pool.
#[derive(Clone, Copy)]
pub struct Layout {
    pub dev_l0: u64,
    pub kernel_l1: u64,
    pub roots: [u64; MAX_PROCS],
    pub low_l1s: [u64; MAX_PROCS],
    pub user_l0s: [u64; MAX_PROCS],
    pub code: u64,
    pub pool: u64,
}

/// The addresses of the eight tables, in slot order.
pub open spec fn table_pas(l: Layout) -> Seq<u64> {
    seq![l.dev_l0, l.kernel_l1, l.roots[0], l.roots[1], l.low_l1s[0], l.low_l1s[1], l.user_l0s[0], l.user_l0s[1]]
}

pub open spec fn layout_ok(l: Layout) -> bool {
    &&& forall|i: int| 0 <= i < 8 ==> page_addr(#[trigger] table_pas(l)[i])
    &&& forall|i: int, j: int| 0 <= i < j < 8 ==> table_pas(l)[i] != table_pas(l)[j]
    &&& page_addr(l.code)
    &&& page_addr(l.pool) && l.pool + 4 * 4096 <= PHYS_LIMIT
}

/// `pa` is a frame of the data pool.
pub open spec fn in_pool(l: Layout, pa: u64) -> bool {
    l.pool <= pa < l.pool + 4 * 4096 && (pa - l.pool) % 4096 == 0
}

pub open spec fn pool_index(l: Layout, pa: u64) -> int {
    (pa - l.pool) / 4096
}

/// The copy-on-write fork kernel.
pub struct CowKernel {
    pub layout: Layout,
    pub tables: TableSet,
    /// Contents of the data pool, one 512-word array per frame.
    pub frames: [[u64; WORDS_PER_PAGE]; MAX_DATA_PAGES],
    pub proc_frames: [ProcFrame; MAX_PROCS],
    pub procs: [ProcessControl; MAX_PROCS],
    pub reports: [ProcessReport; MAX_PROCS],
    pub refcounts: [usize; MAX_DATA_PAGES],
    pub next_free_data_page: usize,
    pub data_page_alloc_count: usize,
    pub current_pid: usize,
    pub fork_stats: ForkStats,
    pub cow_stats: CowStats,
}

impl CowKernel {
    /// Process `p`'s root points at its low L1, which points at its user L0.
    pub open spec fn linked(&self, p: int) -> bool {
        let t = self.tables@;
        &&& t[2 + p].entries[0] == spec_pte(self.layout.low_l1s[p], 1)
        &&& t[4 + p].entries[2] == spec_pte(self.layout.user_l0s[p], 1)
    }

    /// The PTE through which process `p` sees its data page (0 while its
    /// tables are not linked).
    pub open spec fn data_pte(&self, p: int) -> u64 {
        if self.linked(p) { self.tables@[6 + p].entries[1] } else { 0 }
    }

    /// Process `p` maps pool frame `j` at its data address.
    pub open spec fn maps(&self, p: int, j: int) -> bool {
        spec_valid(self.data_pte(p)) && in_pool(self.layout, spec_pte_pa(self.data_pte(p)))
            && pool_index(self.layout, spec_pte_pa(self.data_pte(p))) == j
    }

    /// How many processes map pool frame `j`.
    pub open spec fn map_count(&self, j: int) -> int {
        (if self.maps(0, j) { 1int } else { 0 }) + (if self.maps(1, j) { 1int } else { 0 })
    }

    /// Word `w` of process `p`'s data page.
    pub open spec fn load(&self, p: int, w: int) -> u64 {
        self.frames[pool_index(self.layout, spec_pte_pa(self.data_pte(p)))][w]
    }

    /// The frame contents after a store of `v` to word `w` through `p`'s mapping.
    pub open spec fn frames_after_store(&self, p: int, w: int, v: u64) -> Seq<[u64; WORDS_PER_PAGE]> {
        let j = pool_index(self.layout, spec_pte_pa(self.data_pte(p)));
        self.frames@.update(j, vstd::array::spec_array_update(self.frames[j], w, v))
    }

    #[verifier::opaque]
    pub open spec fn wf(&self) -> bool {
        let t = self.tables@;
        let l = self.layout;
        &&& layout_ok(l)
        &&& t.len() == 8
        &&& forall|i: int| 0 <= i < 8 ==> #[trigger] t[i].pa == table_pas(l)[i]
        &&& self.linked(0)
        &&& forall|p: int| 0 <= p < 2 ==> self.linked(p) || #[trigger] t[2 + p].entries[0] == 0
        &&& self.next_free_data_page <= MAX_DATA_PAGES
        &&& self.data_page_alloc_count == self.next_free_data_page
        &&& self.current_pid < MAX_PROCS
        &&& forall|j: int| 0 <= j < 4 ==> #[trigger] self.refcounts[j] >= self.map_count(j)
        &&& forall|j: int| self.next_free_data_page <= j < 4 ==> #[trigger] self.refcounts[j] == 0
        &&& forall|p: int| 0 <= p < 2 && #[trigger] spec_valid(self.data_pte(p)) ==> {
            &&& in_pool(l, spec_pte_pa(self.data_pte(p)))
            &&& pool_index(l, spec_pte_pa(self.data_pte(p))) < self.next_free_data_page
        }
        // A writable data mapping is the frame's only reference.
        &&& forall|p: int| 0 <= p < 2 && spec_valid(self.data_pte(p)) && #[trigger] flag(self.data_pte(p), PTE_W)
            ==> self.refcounts[pool_index(l, spec_pte_pa(self.data_pte(p)))] == 1
    }
}

/// A writable mapping is exclusive: a store through it leaves every other
/// process's view of its data page unchanged.
pub proof fn lemma_writable_store_is_private(k: &CowKernel, p: int, q: int, w: int, v: u64, x: int)
    requires
        k.wf(),
        0 <= p < 2,
        0 <= q < 2,
        p != q,
        0 <= w < 512,
        0 <= x < 512,
        spec_valid(k.data_pte(p)),
        flag(k.data_pte(p), PTE_W),
        spec_valid(k.data_pte(q)),
    ensures
        k.frames_after_store(p, w, v)[pool_index(k.layout, spec_pte_pa(k.data_pte(q)))][x] == k.load(q, x),
{
    reveal(CowKernel::wf);
    let jp = pool_index(k.layout, spec_pte_pa(k.data_pte(p)));
    let jq = pool_index(k.layout, spec_pte_pa(k.data_pte(q)));
    assert(k.maps(p, jp));
    assert(k.maps(q, jq));
    if jp == jq {
        assert(k.refcounts[jp] >= k.map_count(jp));
        assert(k.map_count(jp) == 2);
        assert(false);
    }
}


/// A writable user data mapping of `pa`.
pub fn make_writable_data_pte(pa: u64) -> (r: u64)
    requires
        pa < PHYS_LIMIT,
    ensures
        r == spec_pte(pa, WRITABLE_DATA_FLAGS + 1),
{
    leaf_pte(pa, WRITABLE_DATA_FLAGS)
}

/// A read-only copy-on-write user data mapping of `pa`.
pub fn make_cow_pte(pa: u64) -> (r: u64)
    requires
        pa < PHYS_LIMIT,
    ensures
        r == spec_pte(pa, COW_DATA_FLAGS + 1),
{
    leaf_pte(pa, COW_DATA_FLAGS)
}

/// The other of the two processes.
pub fn other_pid(pid: usize) -> (r: usize)
    ensures
        pid == PID_PARENT ==> r == PID_CHILD,
        pid != PID_PARENT ==> r == PID_PARENT,
{
    if pid == PID_PARENT { PID_CHILD } else { PID_PARENT }
}

proof fn lemma_data_pte_flags(pa: u64)
    requires
        page_addr(pa),
    ensures
        spec_valid(spec_pte(pa, WRITABLE_DATA_FLAGS + 1) as u64),
        flag(spec_pte(pa, WRITABLE_DATA_FLAGS + 1) as u64, PTE_W),
        !flag(spec_pte(pa, WRITABLE_DATA_FLAGS + 1) as u64, PTE_COW),
        flag(spec_pte(pa, WRITABLE_DATA_FLAGS + 1) as u64, PTE_U),
        spec_pte_pa(spec_pte(pa, WRITABLE_DATA_FLAGS + 1) as u64) == pa,
        spec_valid(spec_pte(pa, COW_DATA_FLAGS + 1) as u64),
        !flag(spec_pte(pa, COW_DATA_FLAGS + 1) as u64, PTE_W),
        flag(spec_pte(pa, COW_DATA_FLAGS + 1) as u64, PTE_COW),
        flag(spec_pte(pa, COW_DATA_FLAGS + 1) as u64, PTE_U),
        spec_pte_pa(spec_pte(pa, COW_DATA_FLAGS + 1) as u64) == pa,
{
    lemma_pte_roundtrip(pa, (WRITABLE_DATA_FLAGS + 1) as int);
    lemma_pte_roundtrip(pa, (COW_DATA_FLAGS + 1) as int);
    assert(flag(spec_pte(pa, WRITABLE_DATA_FLAGS + 1) as u64, 1));
    assert(flag(spec_pte(pa, WRITABLE_DATA_FLAGS + 1) as u64, 4));
    assert(!flag(spec_pte(pa, WRITABLE_DATA_FLAGS + 1) as u64, 256));
    assert(flag(spec_pte(pa, WRITABLE_DATA_FLAGS + 1) as u64, 16));
    assert(flag(spec_pte(pa, COW_DATA_FLAGS + 1) as u64, 1));
    assert(!flag(spec_pte(pa, COW_DATA_FLAGS + 1) as u64, 4));
    assert(flag(spec_pte(pa, COW_DATA_FLAGS + 1) as u64, 256));
    assert(flag(spec_pte(pa, COW_DATA_FLAGS + 1) as u64, 16));
}

/// Pool frame `j`'s address is in the pool, page aligned, with index `j`.
proof fn lemma_pool_frame(l: Layout, j: int)
    requires
        layout_ok(l),
        0 <= j < 4,
    ensures
        in_pool(l, (l.pool + j * 4096) as u64),
        pool_index(l, (l.pool + j * 4096) as u64) == j,
        page_addr((l.pool + j * 4096) as u64),
{
}

impl CowKernel {
    /// The pool index of `pa`; fails for an address outside the pool.
    pub fn data_page_index(&self, pa: u64) -> (r: Result<usize, KernelFail>)
        requires
            layout_ok(self.layout),
        ensures
            r is Ok <==> in_pool(self.layout, pa),
            r matches Ok(j) ==> j == pool_index(self.layout, pa) && j < MAX_DATA_PAGES,
    {
        let base = self.layout.pool;
        if pa < base || pa >= base + 4 * 4096 || (pa - base) % 4096 != 0 {
            return Err("physical page is outside the COW data page pool");
        }
        Ok(((pa - base) / 4096) as usize)
    }

    /// The reference count of the frame at `pa`.
    pub fn data_page_refcount(&self, pa: u64) -> (r: Result<usize, KernelFail>)
        requires
            layout_ok(self.layout),
        ensures
            r is Ok <==> in_pool(self.layout, pa),
            r matches Ok(c) ==> c == self.refcounts[pool_index(self.layout, pa)],
    {
        match self.data_page_index(pa) {
            Ok(j) => Ok(self.refcounts[j]),
            Err(e) => Err(e),
        }
    }

    /// Adds a reference to the frame at `pa`.
    pub fn increment_data_page_refcount(&mut self, pa: u64) -> (r: Result<(), KernelFail>)
        requires
            layout_ok(old(self).layout),
            in_pool(old(self).layout, pa) ==> old(self).refcounts[pool_index(old(self).layout, pa)] < usize::MAX,
        ensures
            r is Ok <==> in_pool(old(self).layout, pa),
            r is Ok ==> final(self).refcounts@ == old(self).refcounts@.update(pool_index(old(self).layout, pa),
                (old(self).refcounts[pool_index(old(self).layout, pa)] + 1) as usize),
            r is Err ==> final(self).refcounts == old(self).refcounts,
            final(self).tables@ == old(self).tables@ && final(self).layout == old(self).layout,
            final(self).frames == old(self).frames && final(self).next_free_data_page == old(self).next_free_data_page,
            final(self).data_page_alloc_count == old(self).data_page_alloc_count,
            final(self).procs == old(self).procs && final(self).proc_frames == old(self).proc_frames,
            final(self).reports == old(self).reports && final(self).current_pid == old(self).current_pid,
            final(self).fork_stats == old(self).fork_stats && final(self).cow_stats == old(self).cow_stats,
    {
        let j = match self.data_page_index(pa) {
            Ok(j) => j,
            Err(e) => return Err(e),
        };
        self.refcounts[j] = self.refcounts[j] + 1;
        Ok(())
    }

    /// Drops a reference to the frame at `pa`; fails on a zero count.
    pub fn decrement_data_page_refcount(&mut self, pa: u64) -> (r: Result<(), KernelFail>)
        requires
            layout_ok(old(self).layout),
        ensures
            r is Ok <==> in_pool(old(self).layout, pa) && old(self).refcounts[pool_index(old(self).layout, pa)] > 0,
            r is Ok ==> final(self).refcounts@ == old(self).refcounts@.update(pool_index(old(self).layout, pa),
                (old(self).refcounts[pool_index(old(self).layout, pa)] - 1) as usize),
            r is Err ==> final(self).refcounts == old(self).refcounts,
            final(self).tables@ == old(self).tables@ && final(self).layout == old(self).layout,
            final(self).frames == old(self).frames && final(self).next_free_data_page == old(self).next_free_data_page,
            final(self).data_page_alloc_count == old(self).data_page_alloc_count,
            final(self).procs == old(self).procs && final(self).proc_frames == old(self).proc_frames,
            final(self).reports == old(self).reports && final(self).current_pid == old(self).current_pid,
            final(self).fork_stats == old(self).fork_stats && final(self).cow_stats == old(self).cow_stats,
    {
        let j = match self.data_page_index(pa) {
            Ok(j) => j,
            Err(e) => return Err(e),
        };
        if self.refcounts[j] == 0 {
            return Err("decrement on zero refcount");
        }
        self.refcounts[j] = self.refcounts[j] - 1;
        Ok(())
    }

    /// Takes the next pool frame: zero-filled, with one reference.
    pub fn allocate_data_page(&mut self) -> (r: Result<u64, KernelFail>)
        requires
            layout_ok(old(self).layout),
            old(self).next_free_data_page <= MAX_DATA_PAGES,
            old(self).data_page_alloc_count < usize::MAX,
        ensures
            r is Err <==> old(self).next_free_data_page >= MAX_DATA_PAGES,
            r is Err ==> *final(self) == *old(self),
            r matches Ok(pa) ==> {
                let j = old(self).next_free_data_page as int;
                &&& pa == old(self).layout.pool + j * 4096
                &&& final(self).next_free_data_page == j + 1
                &&& final(self).data_page_alloc_count == old(self).data_page_alloc_count + 1
                &&& final(self).refcounts@ == old(self).refcounts@.update(j, 1)
                &&& final(self).frames@ == old(self).frames@.update(j, [0u64; WORDS_PER_PAGE])
                &&& final(self).tables@ == old(self).tables@ && final(self).layout == old(self).layout
                &&& final(self).procs == old(self).procs && final(self).proc_frames == old(self).proc_frames
                &&& final(self).reports == old(self).reports && final(self).current_pid == old(self).current_pid
                &&& final(self).fork_stats == old(self).fork_stats && final(self).cow_stats == old(self).cow_stats
            },
    {
        let index = self.next_free_data_page;
        if index >= MAX_DATA_PAGES {
            return Err("data page pool exhausted");
        }
        let pa = self.layout.pool + (index as u64) * 4096;
        self.frames[index] = [0u64; WORDS_PER_PAGE];
        self.refcounts[index] = 1;
        self.next_free_data_page = index + 1;
        self.data_page_alloc_count = self.data_page_alloc_count + 1;
        Ok(pa)
    }

    /// Copies the frame at `src_pa` over the frame at `dst_pa`.
    pub fn copy_page(&mut self, dst_pa: u64, src_pa: u64)
        requires
            in_pool(old(self).layout, dst_pa),
            in_pool(old(self).layout, src_pa),
        ensures
            final(self).frames@ == old(self).frames@.update(pool_index(old(self).layout, dst_pa),
                old(self).frames[pool_index(old(self).layout, src_pa)]),
            final(self).tables@ == old(self).tables@ && final(self).layout == old(self).layout,
            final(self).refcounts == old(self).refcounts && final(self).next_free_data_page == old(self).next_free_data_page,
            final(self).data_page_alloc_count == old(self).data_page_alloc_count,
            final(self).procs == old(self).procs && final(self).proc_frames == old(self).proc_frames,
            final(self).reports == old(self).reports && final(self).current_pid == old(self).current_pid,
            final(self).fork_stats == old(self).fork_stats && final(self).cow_stats == old(self).cow_stats,
    {
        let dst = ((dst_pa - self.layout.pool) / 4096) as usize;
        let src = ((src_pa - self.layout.pool) / 4096) as usize;
        let contents = self.frames[src];
        self.frames[dst] = contents;
    }

    /// Stores `pte` as process `pid`'s data mapping.
    pub fn install_data_pte(&mut self, pid: usize, pte: u64)
        requires
            old(self).tables@.len() == 8,
            pid < MAX_PROCS,
        ensures
            final(self).tables@ == old(self).tables@.update(6 + pid, PageTable {
                entries: vstd::array::spec_array_update(old(self).tables@[6 + pid].entries, 1, pte),
                ..old(self).tables@[6 + pid]
            }),
            final(self).layout == old(self).layout && final(self).frames == old(self).frames,
            final(self).refcounts == old(self).refcounts && final(self).next_free_data_page == old(self).next_free_data_page,
            final(self).data_page_alloc_count == old(self).data_page_alloc_count,
            final(self).procs == old(self).procs && final(self).proc_frames == old(self).proc_frames,
            final(self).reports == old(self).reports && final(self).current_pid == old(self).current_pid,
            final(self).fork_stats == old(self).fork_stats && final(self).cow_stats == old(self).cow_stats,
    {
        let index = vpn0_index(USER_DATA_VA);
        self.tables.write_entry(6 + pid, index, pte);
    }

    /// The walk of `va` in process `pid`'s address space.
    pub fn walk_proc_virtual(&self, pid: usize, va: u64) -> (r: WalkResult)
        requires
            pid < MAX_PROCS,
        ensures
            r == spec_walk(self.tables@, self.layout.roots[pid as int], va),
    {
        self.tables.walk(self.layout.roots[pid], va)
    }
}

/// Under `wf`, the walk of the data address reads exactly `data_pte`.
proof fn lemma_data_walk(k: &CowKernel, p: int)
    requires
        k.wf(),
        0 <= p < 2,
    ensures
        spec_walk(k.tables@, k.layout.roots[p], USER_DATA_VA).leaf_pte == k.data_pte(p),
{
    reveal(CowKernel::wf);
    let t = k.tables@;
    let l = k.layout;
    reveal_with_fuel(slot_in, 9);
    assert(table_pas(l)[2 + p] == l.roots[p]);
    assert(table_pas(l)[4 + p] == l.low_l1s[p]);
    assert(table_pas(l)[6 + p] == l.user_l0s[p]);
    assert(t[2 + p].pa == l.roots[p]);
    assert(t[4 + p].pa == l.low_l1s[p]);
    assert(t[6 + p].pa == l.user_l0s[p]);
    assert(slot_in(t, l.roots[p], 8) == 2 + p);
    assert(vpn(USER_DATA_VA, 2) == 0);
    assert(vpn(USER_DATA_VA, 1) == 2);
    assert(vpn(USER_DATA_VA, 0) == 1);
    if k.linked(p) {
        assert(page_addr(table_pas(l)[4 + p]));
        assert(page_addr(table_pas(l)[6 + p]));
        lemma_pte_roundtrip(l.low_l1s[p], 1);
        lemma_pte_roundtrip(l.user_l0s[p], 1);
        assert(slot_in(t, l.low_l1s[p], 8) == 4 + p);
        assert(slot_in(t, l.user_l0s[p], 8) == 6 + p);
        assert(flag(spec_pte(l.low_l1s[p], 1) as u64, 1));
        assert(!flag(spec_pte(l.low_l1s[p], 1) as u64, 2) && !flag(spec_pte(l.low_l1s[p], 1) as u64, 4) && !flag(spec_pte(l.low_l1s[p], 1) as u64, 8));
        assert(flag(spec_pte(l.user_l0s[p], 1) as u64, 1));
        assert(!flag(spec_pte(l.user_l0s[p], 1) as u64, 2) && !flag(spec_pte(l.user_l0s[p], 1) as u64, 4) && !flag(spec_pte(l.user_l0s[p], 1) as u64, 8));
    } else {
        assert(t[2 + p].entries[0] == 0);
        assert(!spec_valid(0u64));
    }
}


/// Facts `wf` gives about one process's data mapping.
proof fn lemma_wf_facts(k: &CowKernel, p: int)
    requires
        k.wf(),
        0 <= p < 2,
    ensures
        layout_ok(k.layout),
        k.tables@.len() == 8,
        spec_valid(k.data_pte(p)) ==> in_pool(k.layout, spec_pte_pa(k.data_pte(p)))
            && pool_index(k.layout, spec_pte_pa(k.data_pte(p))) < k.next_free_data_page
            && k.refcounts[pool_index(k.layout, spec_pte_pa(k.data_pte(p)))] >= 1,
        k.next_free_data_page <= MAX_DATA_PAGES,
        k.data_page_alloc_count == k.next_free_data_page,
        k.current_pid < MAX_PROCS,
{
    reveal(CowKernel::wf);
    if spec_valid(k.data_pte(p)) {
        let j = pool_index(k.layout, spec_pte_pa(k.data_pte(p)));
        assert(k.maps(p, j));
        assert(k.refcounts[j] >= k.map_count(j));
    }
}

/// `wf` does not look at the statistics, reports, frames of registers or
/// process states.
proof fn lemma_wf_ignores_stats(a: CowKernel, b: CowKernel)
    requires
        a.wf(),
        b.layout == a.layout,
        b.tables@ == a.tables@,
        b.frames == a.frames,
        b.refcounts == a.refcounts,
        b.next_free_data_page == a.next_free_data_page,
        b.data_page_alloc_count == a.data_page_alloc_count,
        b.current_pid == a.current_pid,
    ensures
        b.wf(),
        forall|p: int| #![trigger b.data_pte(p)] 0 <= p < 2 ==> b.data_pte(p) == a.data_pte(p),
        forall|p: int, w: int| #![trigger b.load(p, w)] 0 <= p < 2 ==> b.load(p, w) == a.load(p, w),
{
    reveal(CowKernel::wf);
    assert forall|p: int| 0 <= p < 2 implies b.linked(p) == a.linked(p) && b.data_pte(p) == a.data_pte(p) by {}
    assert forall|j: int| 0 <= j < 4 implies #[trigger] b.map_count(j) == a.map_count(j) by {
        assert(b.maps(0, j) == a.maps(0, j));
        assert(b.maps(1, j) == a.maps(1, j));
    }
    assert(b.wf());
}

/// The facts shared by both ways of resolving a COW fault of process `pid`.
pub open spec fn resolved(old_k: CowKernel, new_k: CowKernel, pid: int) -> bool {
    let new_pte = new_k.data_pte(pid);
    &&& new_k.wf()
    &&& spec_valid(new_pte) && flag(new_pte, PTE_W) && !flag(new_pte, PTE_COW) && flag(new_pte, PTE_U)
    &&& new_k.data_pte(1 - pid) == old_k.data_pte(1 - pid)
    &&& forall|q: int, w: int| 0 <= q < 2 && 0 <= w < 512 && spec_valid(old_k.data_pte(q))
            ==> #[trigger] new_k.load(q, w) == old_k.load(q, w)
    &&& new_k.procs == old_k.procs && new_k.proc_frames == old_k.proc_frames
    &&& new_k.reports == old_k.reports && new_k.current_pid == old_k.current_pid
    &&& new_k.fork_stats == old_k.fork_stats && new_k.cow_stats == old_k.cow_stats
    &&& new_k.layout == old_k.layout
}

impl CowKernel {
    /// Room in the counters a store fault increments.
    pub open spec fn cow_room(&self) -> bool {
        &&& self.cow_stats.store_faults < usize::MAX
        &&& self.cow_stats.copy_faults < usize::MAX
        &&& self.cow_stats.reuse_faults < usize::MAX
    }

    /// A store fault of `p` at `stval` is refused: it is not on the data page,
    /// the page is not a valid copy-on-write mapping, or it needs a copy and
    /// the frame pool is exhausted.
    pub open spec fn cow_fault_fails_at(&self, p: int, stval: u64) -> bool {
        let pte = self.data_pte(p);
        ||| stval - stval % 4096 != USER_DATA_VA
        ||| !spec_valid(pte) || !flag(pte, PTE_COW)
        ||| (self.refcounts[pool_index(self.layout, spec_pte_pa(pte))] > 1 && self.next_free_data_page >= MAX_DATA_PAGES)
    }

    /// Gives `pid` a private writable copy of the shared frame at `old_pa`.
    #[verifier::rlimit(40)]
    fn resolve_by_copy(&mut self, pid: usize, old_pa: u64) -> (r: Result<u64, KernelFail>)
        requires
            old(self).wf(),
            pid < MAX_PROCS,
            spec_valid(old(self).data_pte(pid as int)),
            spec_pte_pa(old(self).data_pte(pid as int)) == old_pa,
            old(self).refcounts[pool_index(old(self).layout, old_pa)] > 1,
        ensures
            r is Err ==> final(self).wf(),
            r is Err <==> old(self).next_free_data_page >= MAX_DATA_PAGES,
            r matches Ok(fresh_pa) ==> {
                &&& resolved(*old(self), *final(self), pid as int)
                &&& fresh_pa == old(self).layout.pool + old(self).next_free_data_page * 4096
                &&& spec_pte_pa(final(self).data_pte(pid as int)) == fresh_pa
                &&& final(self).data_pte(pid as int) == spec_pte(fresh_pa, WRITABLE_DATA_FLAGS + 1)
                &&& final(self).data_page_alloc_count == old(self).data_page_alloc_count + 1
                &&& final(self).refcounts[pool_index(old(self).layout, old_pa)] == old(self).refcounts[pool_index(old(self).layout, old_pa)] - 1
            },
    {
        let ghost old_k = *self;
        let ghost j_old = pool_index(self.layout, old_pa);
        proof {
            reveal(CowKernel::wf);
            assert(old_k.maps(pid as int, j_old));
        }
        let fresh_pa = match self.allocate_data_page() {
            Ok(pa) => pa,
            Err(e) => return Err(e),
        };
        let ghost j_new = old_k.next_free_data_page as int;
        proof {
            lemma_pool_frame(self.layout, j_new);
        }
        self.copy_page(fresh_pa, old_pa);
        match self.decrement_data_page_refcount(old_pa) {
            Ok(()) => {},
            Err(e) => {
                assert(false);
                return Err(e);
            },
        }
        let pte = make_writable_data_pte(fresh_pa);
        self.install_data_pte(pid, pte);
        proof {
            lemma_data_pte_flags(fresh_pa);
            let other = 1 - pid as int;
            assert(self.linked(pid as int) == old_k.linked(pid as int));
            assert(self.linked(other) == old_k.linked(other));
            assert(self.data_pte(pid as int) == pte);
            assert(self.data_pte(other) == old_k.data_pte(other));
            assert(self.maps(pid as int, j_new));
            assert(!old_k.maps(other, j_new));
            assert forall|j: int| 0 <= j < 4 implies #[trigger] self.refcounts[j] >= self.map_count(j) by {
                if j == j_new {
                    assert(!self.maps(other, j));
                } else if j == j_old {
                    assert(!self.maps(pid as int, j));
                } else {
                    assert(!self.maps(pid as int, j));
                    assert(!old_k.maps(pid as int, j));
                }
            }
            assert forall|p: int| 0 <= p < 2 && spec_valid(self.data_pte(p)) && #[trigger] flag(self.data_pte(p), PTE_W)
                implies self.refcounts[pool_index(self.layout, spec_pte_pa(self.data_pte(p)))] == 1 by {
                if p == other {
                    let jq = pool_index(self.layout, spec_pte_pa(self.data_pte(p)));
                    assert(old_k.maps(other, jq));
                    if jq == j_old {
                        assert(old_k.map_count(j_old) == 2);
                    }
                }
            }
            assert forall|q: int, w: int| 0 <= q < 2 && 0 <= w < 512 && spec_valid(old_k.data_pte(q))
                implies #[trigger] self.load(q, w) == old_k.load(q, w) by {
                if q == other {
                    assert(old_k.maps(other, pool_index(self.layout, spec_pte_pa(old_k.data_pte(q)))));
                }
            }
        }
        Ok(fresh_pa)
    }

    /// Makes `pid`'s mapping of the unshared frame at `old_pa` writable.
    #[verifier::rlimit(40)]
    fn resolve_in_place(&mut self, pid: usize, old_pa: u64)
        requires
            old(self).wf(),
            pid < MAX_PROCS,
            spec_valid(old(self).data_pte(pid as int)),
            spec_pte_pa(old(self).data_pte(pid as int)) == old_pa,
            old(self).refcounts[pool_index(old(self).layout, old_pa)] <= 1,
        ensures
            resolved(*old(self), *final(self), pid as int),
            spec_pte_pa(final(self).data_pte(pid as int)) == old_pa,
            final(self).data_pte(pid as int) == spec_pte(old_pa, WRITABLE_DATA_FLAGS + 1),
            final(self).data_page_alloc_count == old(self).data_page_alloc_count,
    {
        let ghost old_k = *self;
        let ghost j_old = pool_index(self.layout, old_pa);
        proof {
            reveal(CowKernel::wf);
            assert(old_k.maps(pid as int, j_old));
            lemma_pool_frame(self.layout, j_old);
        }
        let pte = make_writable_data_pte(old_pa);
        self.install_data_pte(pid, pte);
        proof {
            lemma_data_pte_flags(old_pa);
            let other = 1 - pid as int;
            assert(self.linked(pid as int) == old_k.linked(pid as int));
            assert(self.linked(other) == old_k.linked(other));
            assert(self.data_pte(pid as int) == pte);
            assert(self.data_pte(other) == old_k.data_pte(other));
            assert(old_k.map_count(j_old) >= 1);
            assert(!old_k.maps(other, j_old));
            assert forall|j: int| 0 <= j < 4 implies #[trigger] self.refcounts[j] >= self.map_count(j) by {
                assert(self.maps(pid as int, j) == old_k.maps(pid as int, j));
            }
        }
    }

    /// A store page fault of process `pid` at `stval`: copies a shared COW
    /// frame, or makes an unshared one writable in place.
    #[verifier::rlimit(100)]
    pub fn handle_cow_store_fault(&mut self, pid: usize, stval: u64) -> (r: Result<Option<usize>, KernelFail>)
        requires
            old(self).wf(),
            old(self).cow_room(),
            pid < MAX_PROCS,
        ensures
            final(self).wf(),
            stval - stval % 4096 != USER_DATA_VA ==> r is Err,
            !spec_valid(old(self).data_pte(pid as int)) || !flag(old(self).data_pte(pid as int), PTE_COW) ==> r is Err,
            r is Err <==> old(self).cow_fault_fails_at(pid as int, stval),
            r is Ok ==> {
                let old_pte = old(self).data_pte(pid as int);
                let new_pte = final(self).data_pte(pid as int);
                let j = pool_index(old(self).layout, spec_pte_pa(old_pte));
                &&& r == Ok::<Option<usize>, KernelFail>(Some(pid))
                &&& spec_valid(new_pte) && flag(new_pte, PTE_W) && !flag(new_pte, PTE_COW) && flag(new_pte, PTE_U)
                &&& new_pte == spec_pte(spec_pte_pa(new_pte), WRITABLE_DATA_FLAGS + 1)
                &&& final(self).refcounts[pool_index(old(self).layout, spec_pte_pa(new_pte))] == 1
                &&& final(self).cow_stats.store_faults == old(self).cow_stats.store_faults + 1
                &&& final(self).data_pte(1 - pid) == old(self).data_pte(1 - pid)
                &&& (forall|q: int, w: int| 0 <= q < 2 && 0 <= w < 512 && spec_valid(old(self).data_pte(q))
                        ==> #[trigger] final(self).load(q, w) == old(self).load(q, w))
                &&& (old(self).refcounts[j] > 1 ==> {
                        &&& final(self).data_page_alloc_count == old(self).data_page_alloc_count + 1
                        &&& spec_pte_pa(new_pte) == old(self).layout.pool + old(self).next_free_data_page * 4096
                        &&& final(self).refcounts[j] == old(self).refcounts[j] - 1
                        &&& final(self).cow_stats.copy_faults == old(self).cow_stats.copy_faults + 1
                    })
                &&& (old(self).refcounts[j] <= 1 ==> {
                        &&& final(self).data_page_alloc_count == old(self).data_page_alloc_count
                        &&& spec_pte_pa(new_pte) == spec_pte_pa(old_pte)
                        &&& final(self).cow_stats.reuse_faults == old(self).cow_stats.reuse_faults + 1
                    })
            },
    {
        let fault_va = page_align_down(stval);
        if fault_va != USER_DATA_VA {
            return Err("unexpected store page fault");
        }
        let before = self.walk_proc_virtual(pid, USER_DATA_VA);
        proof {
            lemma_data_walk(self, pid as int);
            lemma_wf_facts(self, pid as int);
        }
        if !pte_is_valid(before.leaf_pte) || !pte_has_cow(before.leaf_pte) {
            return Err("store fault on non-COW page");
        }
        let old_pa = pte_to_pa(before.leaf_pte);
        let refcount_before = match self.data_page_refcount(old_pa) {
            Ok(c) => c,
            Err(e) => return Err(e),
        };
        let ghost k0 = *self;
        self.cow_stats.store_faults = self.cow_stats.store_faults + 1;
        proof {
            lemma_wf_ignores_stats(k0, *self);
        }
        if refcount_before > 1 {
            let fresh_pa = match self.resolve_by_copy(pid, old_pa) {
                Ok(pa) => pa,
                Err(e) => return Err(e),
            };
            let ghost k1 = *self;
            self.cow_stats.copy_faults = self.cow_stats.copy_faults + 1;
            if pid == PID_CHILD {
                self.cow_stats.child_refcount_before = refcount_before;
                self.cow_stats.child_old_pa = old_pa;
                self.cow_stats.child_new_pa = fresh_pa;
            }
            proof {
                lemma_wf_ignores_stats(k1, *self);
            }
        } else {
            self.resolve_in_place(pid, old_pa);
            let ghost k1 = *self;
            self.cow_stats.reuse_faults = self.cow_stats.reuse_faults + 1;
            if pid == PID_PARENT {
                self.cow_stats.parent_refcount_before = refcount_before;
                self.cow_stats.parent_old_pa = old_pa;
                self.cow_stats.parent_new_pa = old_pa;
            }
            proof {
                lemma_wf_ignores_stats(k1, *self);
            }
        }
        proof {
            reveal(CowKernel::wf);
            assert(spec_valid(self.data_pte(pid as int)) && flag(self.data_pte(pid as int), PTE_W));
        }
        Ok(Some(pid))
    }
}


/// The global device L0 and kernel-window L1 tables.
pub fn build_global_kernel_tables(l: &Layout) -> (r: (PageTable, PageTable))
    requires
        layout_ok(*l),
    ensures
        r.0.pa == l.dev_l0 && r.1.pa == l.kernel_l1,
{
    proof { assert(table_pas(*l)[0] == l.dev_l0); assert(table_pas(*l)[1] == l.kernel_l1); }
    let mut dev_l0 = PageTable::zeroed(l.dev_l0);
    let mut kernel_l1 = PageTable::zeroed(l.kernel_l1);
    dev_l0.entries[vpn0_index(QEMU_TEST_BASE)] = leaf_pte(QEMU_TEST_BASE, DEVICE_LEAF_FLAGS);
    let mut entry_index: usize = 0;
    while entry_index < 8
        invariant
            entry_index <= 8,
            kernel_l1.pa == l.kernel_l1,
        decreases 8 - entry_index,
    {
        let pa = KERNEL_BASE + (entry_index as u64) * 0x20_0000;
        kernel_l1.entries[entry_index] = leaf_pte(pa, 0xce);
        entry_index += 1;
    }
    (dev_l0, kernel_l1)
}

/// Process `pid`'s root, low L1 and user L0 tables with `data_pte` as its
/// data mapping.
pub fn build_process_tables(l: &Layout, pid: usize, data_pte: u64) -> (r: (PageTable, PageTable, PageTable))
    requires
        layout_ok(*l),
        pid < MAX_PROCS,
    ensures
        r.0.pa == l.roots[pid as int] && r.1.pa == l.low_l1s[pid as int] && r.2.pa == l.user_l0s[pid as int],
        r.0.entries[0] == spec_pte(l.low_l1s[pid as int], 1),
        r.1.entries[2] == spec_pte(l.user_l0s[pid as int], 1),
        r.2.entries[1] == data_pte,
{
    proof {
        assert(page_addr(table_pas(*l)[1]));
        assert(page_addr(table_pas(*l)[4 + pid]));
        assert(page_addr(table_pas(*l)[6 + pid]));
        assert(page_addr(table_pas(*l)[0]));
    }
    let mut root = PageTable::zeroed(l.roots[pid]);
    let mut low_l1 = PageTable::zeroed(l.low_l1s[pid]);
    let mut user_l0 = PageTable::zeroed(l.user_l0s[pid]);
    root.entries[vpn2_index(KERNEL_BASE)] = table_pte(l.kernel_l1);
    root.entries[vpn2_index(USER_TEXT_VA)] = table_pte(l.low_l1s[pid]);
    low_l1.entries[vpn1_index(QEMU_TEST_BASE)] = table_pte(l.dev_l0);
    low_l1.entries[vpn1_index(UART0_ADDR)] = leaf_pte(UART0_ADDR, DEVICE_LEAF_FLAGS);
    low_l1.entries[vpn1_index(USER_TEXT_VA)] = table_pte(l.user_l0s[pid]);
    user_l0.entries[vpn0_index(USER_TEXT_VA)] = leaf_pte(l.code, USER_TEXT_FLAGS);
    user_l0.entries[vpn0_index(USER_DATA_VA)] = data_pte;
    (root, low_l1, user_l0)
}

impl CowKernel {
    /// The runtime after `initialize_runtime`: global tables, the parent
    /// built around a fresh data frame holding `INITIAL_VALUE`, ready to run.
    pub fn new(l: Layout) -> (r: Self)
        requires
            layout_ok(l),
        ensures
            r.wf(),
            r.layout == l,
            r.current_pid == PID_PARENT,
            r.procs[0].state == PROC_RUNNABLE && r.procs[1].state == PROC_UNUSED,
            r.proc_frames[0].epc == USER_TEXT_VA && r.proc_frames[0].sp == USER_STACK_TOP,
            r.next_free_data_page == 1 && r.refcounts[0] == 1,
            spec_valid(r.data_pte(0)) && flag(r.data_pte(0), PTE_W),
            spec_pte_pa(r.data_pte(0)) == l.pool,
            r.load(0, 0) == INITIAL_VALUE,
            !spec_valid(r.data_pte(1)),
    {
        let (dev_l0, kernel_l1) = build_global_kernel_tables(&l);
        proof { lemma_pool_frame(l, 0); }
        let data_pte = make_writable_data_pte(l.pool);
        let (root0, low0, l0_0) = build_process_tables(&l, PID_PARENT, data_pte);
        let mut tables: Vec<PageTable> = Vec::new();
        tables.push(dev_l0);
        tables.push(kernel_l1);
        tables.push(root0);
        tables.push(PageTable::zeroed(l.roots[1]));
        tables.push(low0);
        tables.push(PageTable::zeroed(l.low_l1s[1]));
        tables.push(l0_0);
        tables.push(PageTable::zeroed(l.user_l0s[1]));
        let mut frames = [[0u64; WORDS_PER_PAGE]; MAX_DATA_PAGES];
        let mut first = [0u64; WORDS_PER_PAGE];
        first[0] = INITIAL_VALUE;
        frames[0] = first;
        let mut proc_frames = [ProcFrame::zeroed(); MAX_PROCS];
        let mut parent_frame = ProcFrame::zeroed();
        parent_frame.epc = USER_TEXT_VA;
        parent_frame.sp = USER_STACK_TOP;
        proc_frames[0] = parent_frame;
        let mut procs = [ProcessControl::empty(); MAX_PROCS];
        proof { assert(page_addr(table_pas(l)[2])); }
        procs[0] = ProcessControl { state: PROC_RUNNABLE, satp: satp_for_root(l.roots[0]), exit_code: 0 };
        let r = CowKernel {
            layout: l,
            tables: TableSet { tables },
            frames,
            proc_frames,
            procs,
            reports: [ProcessReport::empty(); MAX_PROCS],
            refcounts: [1, 0, 0, 0],
            next_free_data_page: 1,
            data_page_alloc_count: 1,
            current_pid: PID_PARENT,
            fork_stats: ForkStats::zeroed(),
            cow_stats: CowStats::zeroed(),
        };
        proof {
            reveal(CowKernel::wf);
            lemma_data_pte_flags(l.pool);
            assert(table_pas(l)[3] == l.roots[1]);
            assert(r.tables@[3].entries[0] == 0);
            assert(r.linked(0));
            assert(r.data_pte(0) == data_pte);
            assert(!r.linked(1)) by {
                assert(r.tables@[3].entries[0] == 0);
                assert(page_addr(table_pas(l)[5]));
                lemma_pte_roundtrip(l.low_l1s[1], 1);
                assert(flag(spec_pte(l.low_l1s[1], 1) as u64, 1));
            }
            assert(!spec_valid(0u64));
            assert forall|j: int| 0 <= j < 4 implies #[trigger] r.refcounts[j] >= r.map_count(j) by {
                assert(r.maps(0, j) ==> j == 0);
                assert(!r.maps(1, j));
            }
            assert(r.frames[0][0] == INITIAL_VALUE);
        }
        r
    }
}


impl CowKernel {
    /// The table work of `fork`: the child's tables become copies of the
    /// parent's linked to the child's own L1 and L0, both data mappings become
    /// read-only COW mappings of the parent's frame, and its count goes up.
    #[verifier::rlimit(40)]
    fn fork_tables(&mut self) -> (r: Result<u64, KernelFail>)
        requires
            old(self).wf(),
            forall|j: int| 0 <= j < 4 ==> #[trigger] old(self).refcounts[j] < usize::MAX,
        ensures
            final(self).wf(),
            r is Err <==> !spec_valid(old(self).data_pte(0)),
            r is Err ==> *final(self) == *old(self),
            r matches Ok(shared_pa) ==> {
                let j = pool_index(old(self).layout, shared_pa);
                &&& spec_valid(old(self).data_pte(0)) && shared_pa == spec_pte_pa(old(self).data_pte(0))
                &&& final(self).data_pte(0) == spec_pte(shared_pa, COW_DATA_FLAGS + 1)
                &&& final(self).data_pte(1) == spec_pte(shared_pa, COW_DATA_FLAGS + 1)
                &&& final(self).refcounts[j] == old(self).refcounts[j] + 1
                &&& final(self).data_page_alloc_count == old(self).data_page_alloc_count
                &&& forall|p: int, w: int| #![trigger final(self).load(p, w)] 0 <= p < 2 ==> final(self).load(p, w) == old(self).load(0, w)
            },
            final(self).procs == old(self).procs && final(self).proc_frames == old(self).proc_frames,
            final(self).reports == old(self).reports && final(self).current_pid == old(self).current_pid,
            final(self).fork_stats == old(self).fork_stats && final(self).cow_stats == old(self).cow_stats,
            final(self).layout == old(self).layout,
    {
        proof { reveal(CowKernel::wf); lemma_wf_facts(self, 0); }
        let ghost old_k = *self;
        let parent_data_pte = self.tables.tables[6].entries[vpn0_index(USER_DATA_VA)];
        let shared_pa = pte_to_pa(parent_data_pte);
        if !pte_is_valid(parent_data_pte) {
            return Err("fork without a parent data page");
        }
        let ghost j = pool_index(self.layout, shared_pa);
        proof {
            assert(old_k.data_pte(0) == parent_data_pte);
            assert(old_k.maps(0, j));
        }
        match self.data_page_refcount(shared_pa) {
            Ok(_) => {},
            Err(e) => return Err(e),
        }
        self.tables.copy_table(3, 2);
        self.tables.copy_table(5, 4);
        self.tables.copy_table(7, 6);
        proof {
            assert(page_addr(table_pas(self.layout)[5]));
            assert(page_addr(table_pas(self.layout)[7]));
        }
        let child_low = table_pte(self.layout.low_l1s[1]);
        let child_l0 = table_pte(self.layout.user_l0s[1]);
        self.tables.write_entry(3, vpn2_index(USER_TEXT_VA), child_low);
        self.tables.write_entry(5, vpn1_index(USER_TEXT_VA), child_l0);
        proof { lemma_pool_frame(self.layout, j); }
        let cow_pte = make_cow_pte(shared_pa);
        self.install_data_pte(PID_PARENT, cow_pte);
        self.install_data_pte(PID_CHILD, cow_pte);
        match self.increment_data_page_refcount(shared_pa) {
            Ok(()) => {},
            Err(e) => {
                assert(false);
                return Err(e);
            },
        }
        proof {
            lemma_data_pte_flags(shared_pa);
            assert(self.tables@[3].pa == table_pas(self.layout)[3]);
            assert(self.linked(0));
            assert(self.linked(1));
            assert(self.data_pte(0) == cow_pte);
            assert(self.data_pte(1) == cow_pte);
            assert forall|jj: int| 0 <= jj < 4 implies #[trigger] self.refcounts[jj] >= self.map_count(jj) by {
                if jj == j {
                    assert(old_k.refcounts[j] >= 1);
                } else {
                    assert(!self.maps(0, jj));
                    assert(!self.maps(1, jj));
                }
            }
        }
        Ok(shared_pa)
    }

    /// `fork`: shares the parent's data frame copy-on-write with the child,
    /// copies the parent's registers to the child (`a0 = 0` in the child, the
    /// child's pid in the parent) and records the statistics.
    pub fn do_fork(&mut self) -> (r: Result<(), KernelFail>)
        requires
            old(self).wf(),
            forall|j: int| 0 <= j < 4 ==> #[trigger] old(self).refcounts[j] < usize::MAX,
            old(self).fork_stats.calls < usize::MAX,
        ensures
            final(self).wf(),
            r is Err <==> !spec_valid(old(self).data_pte(0)),
            r is Err ==> final(self).proc_frames == old(self).proc_frames,
            r is Ok ==> {
                let shared_pa = spec_pte_pa(old(self).data_pte(0));
                &&& final(self).data_pte(0) == spec_pte(shared_pa, COW_DATA_FLAGS + 1)
                &&& final(self).data_pte(1) == final(self).data_pte(0)
                &&& !flag(final(self).data_pte(0), PTE_W) && flag(final(self).data_pte(0), PTE_COW)
                &&& final(self).data_page_alloc_count == old(self).data_page_alloc_count
                &&& final(self).refcounts[pool_index(old(self).layout, shared_pa)] == old(self).refcounts[pool_index(old(self).layout, shared_pa)] + 1
                &&& (forall|p: int, w: int| #![trigger final(self).load(p, w)] 0 <= p < 2 ==> final(self).load(p, w) == old(self).load(0, w))
                &&& final(self).procs[1].state == PROC_RUNNABLE
                &&& final(self).proc_frames[1] == (ProcFrame { a0: 0, ..old(self).proc_frames[0] })
                &&& final(self).proc_frames[0] == (ProcFrame { a0: PID_CHILD as u64, ..old(self).proc_frames[0] })
                &&& final(self).fork_stats.calls == old(self).fork_stats.calls + 1
                &&& final(self).fork_stats.alloc_count_after == final(self).fork_stats.alloc_count_before
            },
    {
        let alloc_before = self.data_page_alloc_count;
        let ghost old_k = *self;
        proof { lemma_wf_facts(self, 0); }
        let parent_data_pte = self.tables.tables[6].entries[vpn0_index(USER_DATA_VA)];
        let probe_pa = pte_to_pa(parent_data_pte);
        let ref_before = match self.data_page_refcount(probe_pa) {
            Ok(c) => c,
            Err(_) => 0,
        };
        let shared_pa = match self.fork_tables() {
            Ok(pa) => pa,
            Err(e) => return Err(e),
        };
        proof { lemma_data_pte_flags_pub(shared_pa, self.layout); }
        let ghost k1 = *self;
        let mut child = self.procs[PID_CHILD];
        child.state = PROC_RUNNABLE;
        proof { reveal(CowKernel::wf); assert(page_addr(table_pas(self.layout)[3])); }
        child.satp = satp_for_root(self.layout.roots[PID_CHILD]);
        child.exit_code = 0;
        self.procs[PID_CHILD] = child;
        self.reports[PID_CHILD] = ProcessReport::empty();
        let mut child_frame = self.proc_frames[PID_PARENT];
        child_frame.a0 = 0;
        self.proc_frames[PID_CHILD] = child_frame;
        let mut parent_frame = self.proc_frames[PID_PARENT];
        parent_frame.a0 = PID_CHILD as u64;
        self.proc_frames[PID_PARENT] = parent_frame;
        let ref_after = match self.data_page_refcount(shared_pa) {
            Ok(c) => c,
            Err(_) => 0,
        };
        self.fork_stats.calls = self.fork_stats.calls + 1;
        self.fork_stats.shared_pa = shared_pa;
        self.fork_stats.alloc_count_before = alloc_before;
        self.fork_stats.alloc_count_after = self.data_page_alloc_count;
        self.fork_stats.refcount_before = ref_before;
        self.fork_stats.refcount_after = ref_after;
        self.fork_stats.parent_pte_after = self.tables.tables[6].entries[vpn0_index(USER_DATA_VA)];
        self.fork_stats.child_pte_after = self.tables.tables[7].entries[vpn0_index(USER_DATA_VA)];
        proof {
            lemma_wf_ignores_stats(k1, *self);
        }
        Ok(())
    }
}

proof fn lemma_data_pte_flags_pub(pa: u64, l: Layout)
    requires
        in_pool(l, pa),
        layout_ok(l),
    ensures
        !flag(spec_pte(pa, COW_DATA_FLAGS + 1) as u64, PTE_W),
        flag(spec_pte(pa, COW_DATA_FLAGS + 1) as u64, PTE_COW),
{
    lemma_data_pte_flags(pa);
}


/// The acceptance checks of the experiment.
#[derive(Clone, Copy)]
pub struct CowAcceptance {
    pub fork_ok: bool,
    pub cow_ok: bool,
    pub semantics_ok: bool,
}

/// What the trap handler decided.
pub enum CowTrapOutcome {
    /// Resume `pid` with `frame` (its address space is `satp`).
    Run { pid: usize, frame: ProcFrame, satp: u64 },
    /// No process is left: evaluate the experiment.
    Finish,
    /// The kernel stopped with a failure.
    Fail { reason: KernelFail },
}

impl CowKernel {
    /// Keeps the values the process reports in `a1`..`a3`.
    pub fn store_process_report(&mut self, pid: usize)
        requires
            pid < MAX_PROCS,
        ensures
            final(self).reports[pid as int] == (ProcessReport {
                reported: true,
                first_read: old(self).proc_frames[pid as int].a1,
                second_read: old(self).proc_frames[pid as int].a2,
                third_read: old(self).proc_frames[pid as int].a3,
            }),
            forall|q: int| 0 <= q < MAX_PROCS && q != pid ==> final(self).reports[q] == old(self).reports[q],
            final(self).tables@ == old(self).tables@ && final(self).layout == old(self).layout,
            final(self).frames == old(self).frames && final(self).refcounts == old(self).refcounts,
            final(self).next_free_data_page == old(self).next_free_data_page,
            final(self).data_page_alloc_count == old(self).data_page_alloc_count,
            final(self).current_pid == old(self).current_pid && final(self).procs == old(self).procs,
            final(self).proc_frames == old(self).proc_frames,
    {
        let f = self.proc_frames[pid];
        self.reports[pid] = ProcessReport { reported: true, first_read: f.a1, second_read: f.a2, third_read: f.a3 };
    }

    /// The other process if it is runnable, else `pid` itself.
    pub fn other_runnable_or_self(&self, pid: usize) -> (r: usize)
        requires
            pid < MAX_PROCS,
        ensures
            self.procs[1 - pid].state == PROC_RUNNABLE ==> r == 1 - pid,
            self.procs[1 - pid].state != PROC_RUNNABLE ==> r == pid,
    {
        let other = other_pid(pid);
        if self.procs[other].state == PROC_RUNNABLE { other } else { pid }
    }

    /// The lowest-numbered runnable process.
    pub fn next_runnable_after_exit(&self) -> (r: Option<usize>)
        ensures
            self.procs[0].state == PROC_RUNNABLE ==> r == Some(0usize),
            self.procs[0].state != PROC_RUNNABLE && self.procs[1].state == PROC_RUNNABLE ==> r == Some(1usize),
            self.procs[0].state != PROC_RUNNABLE && self.procs[1].state != PROC_RUNNABLE ==> r is None,
    {
        let mut pid: usize = 0;
        while pid < MAX_PROCS
            invariant
                pid <= MAX_PROCS,
                forall|q: int| 0 <= q < pid ==> self.procs[q].state != PROC_RUNNABLE,
            decreases MAX_PROCS - pid,
        {
            if self.procs[pid].state == PROC_RUNNABLE {
                return Some(pid);
            }
            pid += 1;
        }
        None
    }

    /// A user `ecall` of `pid`: steps past it and runs `fork`, `yield`,
    /// `report` or `exit`; returns the process to run next (`None` when none is
    /// left).
    pub fn handle_user_ecall(&mut self, pid: usize) -> (r: Result<Option<usize>, KernelFail>)
        requires
            old(self).wf(),
            pid < MAX_PROCS,
            old(self).proc_frames[pid as int].epc <= u64::MAX - 4,
            forall|j: int| 0 <= j < 4 ==> #[trigger] old(self).refcounts[j] < usize::MAX,
            old(self).fork_stats.calls < usize::MAX,
        ensures
            final(self).wf(),
            old(self).proc_frames[pid as int].a7 != SYS_FORK || pid == PID_PARENT ==>
                final(self).proc_frames[pid as int].epc == old(self).proc_frames[pid as int].epc + 4,
            ({
                let nr = old(self).proc_frames[pid as int].a7;
                &&& nr == SYS_YIELD ==> r == Ok::<Option<usize>, KernelFail>(Some(
                        if old(self).procs[1 - pid].state == PROC_RUNNABLE { (1 - pid) as usize } else { pid }))
                &&& nr == SYS_REPORT ==> r == Ok::<Option<usize>, KernelFail>(Some(pid)) && final(self).reports[pid as int].reported
                &&& nr == SYS_FORK ==> (r is Ok ==> r == Ok::<Option<usize>, KernelFail>(Some(pid)))
                &&& nr == SYS_FORK ==> (r is Err <==> !spec_valid(old(self).data_pte(0)))
                &&& nr == SYS_EXIT ==> final(self).procs[pid as int].state == PROC_EXITED
                        && final(self).procs[pid as int].exit_code == old(self).proc_frames[pid as int].a0
                        && r == Ok::<Option<usize>, KernelFail>(exit_next(old(self).procs@, pid as int))
                &&& (nr != SYS_FORK && nr != SYS_YIELD && nr != SYS_REPORT && nr != SYS_EXIT) ==> r is Err
            }),
    {
        let syscall_nr = self.proc_frames[pid].a7;
        let ghost k0 = *self;
        let mut f = self.proc_frames[pid];
        f.epc = f.epc + 4;
        self.proc_frames[pid] = f;
        proof { lemma_wf_ignores_stats(k0, *self); }
        if syscall_nr == SYS_FORK {
            match self.do_fork() {
                Ok(()) => Ok(Some(pid)),
                Err(e) => Err(e),
            }
        } else if syscall_nr == SYS_YIELD {
            Ok(Some(self.other_runnable_or_self(pid)))
        } else if syscall_nr == SYS_REPORT {
            let ghost k1 = *self;
            self.store_process_report(pid);
            proof { lemma_wf_ignores_stats(k1, *self); }
            Ok(Some(pid))
        } else if syscall_nr == SYS_EXIT {
            let ghost k1 = *self;
            let mut p = self.procs[pid];
            p.state = PROC_EXITED;
            p.exit_code = self.proc_frames[pid].a0;
            self.procs[pid] = p;
            proof { lemma_wf_ignores_stats(k1, *self); }
            Ok(self.next_runnable_after_exit())
        } else {
            Err("unexpected syscall")
        }
    }
}


/// `r` resumes process `p`.
pub open spec fn runs(r: CowTrapOutcome, p: int) -> bool {
    match r {
        CowTrapOutcome::Run { pid, .. } => pid == p,
        _ => false,
    }
}

/// The process to run after `pid` exits: the lowest-numbered other one that
/// is runnable.
pub open spec fn exit_next(procs: Seq<ProcessControl>, pid: int) -> Option<usize> {
    if pid != 0 && procs[0].state == PROC_RUNNABLE {
        Some(0usize)
    } else if pid != 1 && procs[1].state == PROC_RUNNABLE {
        Some(1usize)
    } else {
        None
    }
}

impl CowKernel {
    /// A trap from the running process: saves its registers, handles the
    /// `ecall` or store page fault, and picks what runs next.
    pub fn handle_supervisor_trap(&mut self, frame: ProcFrame, scause: usize, stval: u64) -> (r: CowTrapOutcome)
        requires
            old(self).wf(),
            old(self).cow_room(),
            frame.epc <= u64::MAX - 4,
            forall|j: int| 0 <= j < 4 ==> #[trigger] old(self).refcounts[j] < usize::MAX,
            old(self).fork_stats.calls < usize::MAX,
        ensures
            final(self).wf(),
            scause != USER_ENV_CALL && scause != STORE_PAGE_FAULT ==> r is Fail,
            r matches CowTrapOutcome::Run { pid, frame: f, satp } ==> pid < MAX_PROCS && pid == final(self).current_pid
                && f == final(self).proc_frames[pid as int] && satp == final(self).procs[pid as int].satp,
            ({
                let cur = old(self).current_pid as int;
                let nr = frame.a7;
                &&& scause == USER_ENV_CALL && nr == SYS_YIELD ==> runs(r, if old(self).procs[1 - cur].state == PROC_RUNNABLE { 1 - cur } else { cur })
                &&& scause == USER_ENV_CALL && nr == SYS_REPORT ==> runs(r, cur)
                &&& scause == USER_ENV_CALL && nr == SYS_FORK ==> (r is Fail <==> !spec_valid(old(self).data_pte(0)))
                    && (!(r is Fail) ==> runs(r, cur))
                &&& scause == USER_ENV_CALL && nr == SYS_EXIT ==> match exit_next(old(self).procs@, cur) {
                        Some(n) => runs(r, n as int),
                        None => r is Finish,
                    }
                &&& scause == USER_ENV_CALL && nr != SYS_FORK && nr != SYS_YIELD && nr != SYS_REPORT && nr != SYS_EXIT
                    ==> r is Fail
                &&& scause == STORE_PAGE_FAULT ==> (r is Fail <==> old(self).cow_fault_fails_at(cur, stval))
                    && (!(r is Fail) ==> runs(r, cur))
            }),
    {
        proof { lemma_wf_facts(self, 0); }
        let pid = self.current_pid;
        let ghost k0 = *self;
        self.proc_frames[pid] = frame;
        proof { lemma_wf_ignores_stats(k0, *self); }
        let next = if scause == USER_ENV_CALL {
            self.handle_user_ecall(pid)
        } else if scause == STORE_PAGE_FAULT {
            self.handle_cow_store_fault(pid, stval)
        } else {
            return CowTrapOutcome::Fail { reason: "unexpected supervisor trap" };
        };
        match next {
            Ok(Some(next_pid)) => {
                if next_pid >= MAX_PROCS {
                    return CowTrapOutcome::Fail { reason: "no such process" };
                }
                let ghost k1 = *self;
                self.current_pid = next_pid;
                proof { lemma_wf_ignores_stats_pid(k1, *self); }
                CowTrapOutcome::Run { pid: next_pid, frame: self.proc_frames[next_pid], satp: self.procs[next_pid].satp }
            },
            Ok(None) => CowTrapOutcome::Finish,
            Err(reason) => CowTrapOutcome::Fail { reason },
        }
    }

    /// The checks `finish_experiment` prints.
    pub fn finish_experiment(&self) -> (r: Result<CowAcceptance, KernelFail>)
        requires
            self.wf(),
        ensures
            r is Ok <==> in_pool(self.layout, spec_pte_pa(self.data_pte(0))) && in_pool(self.layout, spec_pte_pa(self.data_pte(1))),
            r matches Ok(a) ==> {
                let pw = self.data_pte(0);
                let cw = self.data_pte(1);
                let fs = self.fork_stats;
                let cs = self.cow_stats;
                &&& a.fork_ok == (fs.calls == 1 && fs.alloc_count_after == fs.alloc_count_before
                    && fs.refcount_before == 1 && fs.refcount_after == 2
                    && spec_pte_pa(fs.parent_pte_after) == fs.shared_pa && spec_pte_pa(fs.child_pte_after) == fs.shared_pa
                    && !flag(fs.parent_pte_after, PTE_W) && !flag(fs.child_pte_after, PTE_W)
                    && flag(fs.parent_pte_after, PTE_COW) && flag(fs.child_pte_after, PTE_COW))
                &&& a.cow_ok == (cs.store_faults == 2 && cs.copy_faults == 1 && cs.reuse_faults == 1
                    && cs.child_refcount_before == 2 && cs.child_old_pa != 0 && cs.child_old_pa != cs.child_new_pa
                    && cs.parent_refcount_before == 1 && cs.parent_old_pa == cs.parent_new_pa
                    && flag(pw, PTE_W) && flag(cw, PTE_W) && !flag(pw, PTE_COW) && !flag(cw, PTE_COW))
                &&& a.semantics_ok == (self.procs[0].exit_code == 0 && self.procs[1].exit_code == 0
                    && self.reports[0].reported && self.reports[1].reported
                    && self.reports[0].first_read == INITIAL_VALUE && self.reports[1].first_read == INITIAL_VALUE
                    && self.reports[0].second_read == INITIAL_VALUE && self.reports[1].second_read == CHILD_WRITE_VALUE
                    && self.reports[0].third_read == PARENT_WRITE_VALUE
                    && self.load(0, 0) == PARENT_WRITE_VALUE && self.load(1, 0) == CHILD_WRITE_VALUE
                    && spec_pte_pa(pw) != spec_pte_pa(cw)
                    && self.refcounts[pool_index(self.layout, spec_pte_pa(pw))] == 1
                    && self.refcounts[pool_index(self.layout, spec_pte_pa(cw))] == 1)
            },
    {
        let parent_walk = self.walk_proc_virtual(PID_PARENT, USER_DATA_VA);
        let child_walk = self.walk_proc_virtual(PID_CHILD, USER_DATA_VA);
        proof {
            lemma_data_walk(self, 0);
            lemma_data_walk(self, 1);
            lemma_wf_facts(self, 0);
        }
        let parent_pa = pte_to_pa(parent_walk.leaf_pte);
        let child_pa = pte_to_pa(child_walk.leaf_pte);
        let parent_index = match self.data_page_index(parent_pa) {
            Ok(j) => j,
            Err(e) => return Err(e),
        };
        let child_index = match self.data_page_index(child_pa) {
            Ok(j) => j,
            Err(e) => return Err(e),
        };
        let parent_value = self.frames[parent_index][0];
        let child_value = self.frames[child_index][0];
        let parent_report = self.reports[PID_PARENT];
        let child_report = self.reports[PID_CHILD];
        let fs = self.fork_stats;
        let cs = self.cow_stats;
        let fork_ok = fs.calls == 1 && fs.alloc_count_after == fs.alloc_count_before
            && fs.refcount_before == 1 && fs.refcount_after == 2
            && pte_to_pa(fs.parent_pte_after) == fs.shared_pa && pte_to_pa(fs.child_pte_after) == fs.shared_pa
            && !pte_has_write(fs.parent_pte_after) && !pte_has_write(fs.child_pte_after)
            && pte_has_cow(fs.parent_pte_after) && pte_has_cow(fs.child_pte_after);
        let cow_ok = cs.store_faults == 2 && cs.copy_faults == 1 && cs.reuse_faults == 1
            && cs.child_refcount_before == 2 && cs.child_old_pa != 0 && cs.child_old_pa != cs.child_new_pa
            && cs.parent_refcount_before == 1 && cs.parent_old_pa == cs.parent_new_pa
            && pte_has_write(parent_walk.leaf_pte) && pte_has_write(child_walk.leaf_pte)
            && !pte_has_cow(parent_walk.leaf_pte) && !pte_has_cow(child_walk.leaf_pte);
        let semantics_ok = self.procs[PID_PARENT].exit_code == 0 && self.procs[PID_CHILD].exit_code == 0
            && parent_report.reported && child_report.reported
            && parent_report.first_read == INITIAL_VALUE && child_report.first_read == INITIAL_VALUE
            && parent_report.second_read == INITIAL_VALUE && child_report.second_read == CHILD_WRITE_VALUE
            && parent_report.third_read == PARENT_WRITE_VALUE
            && parent_value == PARENT_WRITE_VALUE && child_value == CHILD_WRITE_VALUE
            && parent_pa != child_pa
            && self.refcounts[parent_index] == 1 && self.refcounts[child_index] == 1;
        Ok(CowAcceptance { fork_ok, cow_ok, semantics_ok })
    }
}

proof fn lemma_wf_ignores_stats_pid(a: CowKernel, b: CowKernel)
    requires
        a.wf(),
        b.layout == a.layout,
        b.tables@ == a.tables@,
        b.frames == a.frames,
        b.refcounts == a.refcounts,
        b.next_free_data_page == a.next_free_data_page,
        b.data_page_alloc_count == a.data_page_alloc_count,
        b.current_pid < MAX_PROCS,
    ensures
        b.wf(),
{
    reveal(CowKernel::wf);
    assert forall|p: int| 0 <= p < 2 implies b.linked(p) == a.linked(p) && b.data_pte(p) == a.data_pte(p) by {}
    assert forall|j: int| 0 <= j < 4 implies #[trigger] b.map_count(j) == a.map_count(j) by {
        assert(b.maps(0, j) == a.maps(0, j));
        assert(b.maps(1, j) == a.maps(1, j));
    }
    assert(b.wf());
}

} // verus!
