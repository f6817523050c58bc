//! Swapping with Clock replacement: three working-set pages share two
//! resident frames. A fault on a page that is neither resident nor swapped
//! maps a zeroed frame; a fault on a swapped page copies it back from its swap
//! slot. When no frame is free the clock hand gives accessed pages a second
//! chance and writes the first unaccessed one out to a swap slot, leaving a
//! swap PTE that records the slot.
use vstd::prelude::*;
use crate::lab4::sv39::{
    flag, lemma_pte_roundtrip, leaf_pte, page_addr, page_align_down, pte_clear_accessed, pte_has_write,
    pte_is_swapped, pte_is_valid, slot_in, spec_leaf, spec_pte, spec_pte_pa, spec_valid, spec_walk,
    swap_pte, swap_slot_from_pte, table_pte, vpn, vpn0_index, vpn1_index, vpn2_index, PageTable,
    TableSet, WalkResult, PHYS_LIMIT, PTE_A, PTE_COW, PTE_U, PTE_V, PTE_W,
};

verus! {

pub const QEMU_TEST_BASE: u64 = 0x0010_0000;
pub const UART0_ADDR: u64 = 0x1000_0000;
pub const KERNEL_BASE: u64 = 0x8000_0000;
pub const USER_TEXT_VA: u64 = 0x0040_0000;
pub const USER_SHARED_VA: u64 = 0x0040_1000;
pub const USER_STACK_VA: u64 = 0x0040_2000;
pub const USER_STACK_TOP: u64 = 0x0040_3000;
pub const USER_WORKINGSET_BASE: u64 = 0x0041_0000;
pub const USER_WORKINGSET_PAGES: usize = 3;
pub const USER_WORKINGSET_LIMIT: u64 = 0x0041_3000;

pub const PAGE0_VALUE: u64 = 0x1111_2222_3333_4444;
pub const PAGE2_VALUE: u64 = 0x9999_aaaa_bbbb_cccc;
pub const STAGE_DONE: u64 = 0xabcd_ef01_2345_6789;
pub const WORKINGSET_ACCESS_COUNT: usize = 6;

pub const SYS_EXIT: usize = 1;
pub const USER_ENV_CALL: usize = 8;
pub const LOAD_PAGE_FAULT: usize = 13;
pub const STORE_PAGE_FAULT: usize = 15;

pub const RESIDENT_FRAME_COUNT: usize = 2;
pub const SWAP_SLOT_COUNT: usize = 4;
pub const WORDS_PER_PAGE: usize = 512;

pub const KERNEL_LEAF_FLAGS: u64 = 0xce;
pub const DEVICE_LEAF_FLAGS: u64 = 0xc6;
pub const USER_TEXT_FLAGS: u64 = 0x5a;
/// `R|W|U|A|D`
pub const USER_RW_FLAGS: u64 = 0xd6;

/// Why the kernel stops with a failure.
pub type KernelFail = &'static str;

/// Where a working-set page lives.
#[derive(Clone, Copy)]
pub struct WorkingPage {
    pub resident: bool,
    pub frame_index: usize,
    pub swap_slot: usize,
    pub has_swap: bool,
}

impl WorkingPage {
    pub fn zeroed() -> (r: Self)
        ensures
            !r.resident && r.frame_index == 0 && r.swap_slot == 0 && !r.has_swap,
    {
        WorkingPage { resident: false, frame_index: 0, swap_slot: 0, has_swap: false }
    }
}

/// Which page a resident frame holds.
#[derive(Clone, Copy)]
pub struct ResidentFrame {
    pub in_use: bool,
    pub page_index: usize,
}

impl ResidentFrame {
    pub fn empty() -> (r: Self)
        ensures
            !r.in_use && r.page_index == 0,
    {
        ResidentFrame { in_use: false, page_index: 0 }
    }
}

#[derive(Clone, Copy)]
pub struct SwapStats {
    pub page_faults: usize,
    pub load_faults: usize,
    pub store_faults: usize,
    pub lazy_allocs: usize,
    pub swap_outs: usize,
    pub swap_ins: usize,
    pub clock_scans: usize,
    pub second_chances: usize,
    pub accesses: usize,
    pub hits: usize,
}

impl SwapStats {
    pub fn zeroed() -> (r: Self)
        ensures
            r.page_faults == 0 && r.load_faults == 0 && r.store_faults == 0 && r.lazy_allocs == 0,
            r.swap_outs == 0 && r.swap_ins == 0 && r.clock_scans == 0 && r.second_chances == 0,
            r.accesses == 0 && r.hits == 0,
    {
        SwapStats { page_faults: 0, load_faults: 0, store_faults: 0, lazy_allocs: 0, swap_outs: 0, swap_ins: 0,
            clock_scans: 0, second_chances: 0, accesses: 0, hits: 0 }
    }
}

#[derive(Clone, Copy)]
pub struct SwapEvidence {
    pub replacement_triggered: bool,
    pub evicted_page_index: usize,
    pub evicted_slot: usize,
    pub evicted_swap_pte: u64,
    pub swapin_page_index: usize,
    pub swapin_slot: usize,
    pub swapin_restored_pa: u64,
}

impl SwapEvidence {
    pub fn zeroed() -> (r: Self)
        ensures
            !r.replacement_triggered && r.evicted_page_index == 0 && r.evicted_slot == 0 && r.evicted_swap_pte == 0,
            r.swapin_page_index == 0 && r.swapin_slot == 0 && r.swapin_restored_pa == 0,
    {
        SwapEvidence { replacement_triggered: false, evicted_page_index: 0, evicted_slot: 0, evicted_swap_pte: 0,
            swapin_page_index: 0, swapin_slot: 0, swapin_restored_pa: 0 }
    }
}

/// Physical addresses of the tables, eager pages, resident frames and swap area.
#[derive(Clone, Copy)]
pub struct Layout {
    pub root: u64,
    pub low_l1: u64,
    pub dev_l0: u64,
    pub user_l0: u64,
    pub kernel_l1: u64,
    pub code: u64,
    pub shared: u64,
    pub stack: u64,
    pub frame_pool: u64,
    pub swap_area: u64,
}

pub open spec fn layout_ok(l: Layout) -> bool {
    &&& page_addr(l.root) && page_addr(l.low_l1) && page_addr(l.dev_l0)
    &&& page_addr(l.user_l0) && page_addr(l.kernel_l1)
    &&& page_addr(l.code) && page_addr(l.shared) && page_addr(l.stack)
    &&& page_addr(l.frame_pool) && l.frame_pool + 2 * 4096 <= PHYS_LIMIT
    &&& page_addr(l.swap_area) && l.swap_area + 4 * 4096 <= PHYS_LIMIT
    &&& l.root != l.low_l1 && l.root != l.dev_l0 && l.root != l.user_l0 && l.root != l.kernel_l1
    &&& l.low_l1 != l.dev_l0 && l.low_l1 != l.user_l0 && l.low_l1 != l.kernel_l1
    &&& l.dev_l0 != l.user_l0 && l.dev_l0 != l.kernel_l1
    &&& l.user_l0 != l.kernel_l1
}

/// The swap PTE of slot `slot`.
pub open spec fn swap_entry(slot: int) -> u64 {
    (slot * 1024 + 256) as u64
}

/// The working page at `va`.
pub fn is_workingset_va(va: u64) -> (r: bool)
    ensures
        r == (USER_WORKINGSET_BASE <= va < USER_WORKINGSET_LIMIT),
{
    va >= USER_WORKINGSET_BASE && va < USER_WORKINGSET_LIMIT
}

pub fn working_page_index(va: u64) -> (r: usize)
    requires
        USER_WORKINGSET_BASE <= va < USER_WORKINGSET_LIMIT,
    ensures
        r == (va - USER_WORKINGSET_BASE) / 4096,
        r < USER_WORKINGSET_PAGES,
{
    ((va - USER_WORKINGSET_BASE) / 4096) as usize
}

pub fn working_page_va(index: usize) -> (r: u64)
    requires
        index < USER_WORKINGSET_PAGES,
    ensures
        r == USER_WORKINGSET_BASE + index * 4096,
{
    USER_WORKINGSET_BASE + (index as u64) * 4096
}

/// `load`, `store` or `unknown`.
pub fn fault_kind_name(scause: usize) -> (r: &'static str)
    ensures
        scause == LOAD_PAGE_FAULT ==> r@ == "load"@,
        scause == STORE_PAGE_FAULT ==> r@ == "store"@,
        scause != LOAD_PAGE_FAULT && scause != STORE_PAGE_FAULT ==> r@ == "unknown"@,
{
    if scause == LOAD_PAGE_FAULT { "load" } else if scause == STORE_PAGE_FAULT { "store" } else { "unknown" }
}

/// The swapping kernel.
pub struct SwapKernel {
    pub layout: Layout,
    pub tables: TableSet,
    pub frames: [[u64; WORDS_PER_PAGE]; RESIDENT_FRAME_COUNT],
    pub slots: [[u64; WORDS_PER_PAGE]; SWAP_SLOT_COUNT],
    pub working_pages: [WorkingPage; USER_WORKINGSET_PAGES],
    pub resident_frames: [ResidentFrame; RESIDENT_FRAME_COUNT],
    pub swap_slot_in_use: [bool; SWAP_SLOT_COUNT],
    pub clock_hand: usize,
    pub stats: SwapStats,
    pub evidence: SwapEvidence,
}

impl SwapKernel {
    /// The PTE of working page `i`.
    pub open spec fn wp_pte(&self, i: int) -> u64 {
        self.tables@[3].entries[16 + i]
    }

    pub open spec fn frame_pa(&self, f: int) -> u64 {
        (self.layout.frame_pool + f * 4096) as u64
    }

    /// What working page `i` holds, wherever it lives: its resident frame,
    /// its swap slot, or (never touched) zeros.
    pub open spec fn content(&self, i: int) -> [u64; WORDS_PER_PAGE] {
        let wp = self.working_pages[i];
        if wp.resident {
            self.frames[wp.frame_index as int]
        } else if wp.has_swap {
            self.slots[wp.swap_slot as int]
        } else {
            [0u64; WORDS_PER_PAGE]
        }
    }

    /// Every swap slot is in use.
    pub open spec fn slots_full(&self) -> bool {
        forall|s: int| 0 <= s < SWAP_SLOT_COUNT ==> #[trigger] self.swap_slot_in_use[s]
    }

    /// Both resident frames hold a page.
    pub open spec fn frames_full(&self) -> bool {
        self.resident_frames[0].in_use && self.resident_frames[1].in_use
    }

    /// How many resident frames hold a page whose PTE has `A` set.
    pub open spec fn accessed_count(&self) -> int {
        (if flag(self.wp_pte(self.resident_frames[0].page_index as int), PTE_A) { 1int } else { 0 })
            + (if flag(self.wp_pte(self.resident_frames[1].page_index as int), PTE_A) { 1int } else { 0 })
    }

    /// The page in resident frame `f` has its `A` bit set.
    pub open spec fn frame_accessed(&self, f: int) -> bool {
        flag(self.wp_pte(self.resident_frames[f].page_index as int), PTE_A)
    }

    /// How many frames the clock hand passes over (clearing `A`) before it
    /// reaches one whose page has `A` clear: none when the frame under the
    /// hand is unaccessed, one when only the next is, else both, after which
    /// the frame under the hand is reached again with `A` cleared.
    pub open spec fn clock_passed(&self) -> int {
        let h = self.clock_hand as int;
        if !self.frame_accessed(h) {
            0
        } else if !self.frame_accessed(1 - h) {
            1
        } else {
            2
        }
    }

    /// The frame Clock picks: the first frame from the hand, in cyclic order,
    /// whose page has `A` clear when the hand reaches it.
    pub open spec fn clock_victim(&self) -> int {
        if self.clock_passed() == 1 {
            1 - self.clock_hand
        } else {
            self.clock_hand as int
        }
    }

    #[verifier::opaque]
    pub open spec fn wf(&self) -> bool {
        let t = self.tables@;
        let l = self.layout;
        &&& layout_ok(l)
        &&& t.len() == 5
        &&& t[0].pa == l.root && t[1].pa == l.low_l1 && t[2].pa == l.dev_l0 && t[3].pa == l.user_l0 && t[4].pa == l.kernel_l1
        &&& t[0].entries[0] == spec_pte(l.low_l1, 1)
        &&& t[1].entries[2] == spec_pte(l.user_l0, 1)
        &&& self.clock_hand < RESIDENT_FRAME_COUNT
        &&& forall|i: int| 0 <= i < 3 && #[trigger] self.working_pages[i].resident ==> {
            let f = self.working_pages[i].frame_index as int;
            &&& f < 2 && self.resident_frames[f].in_use && self.resident_frames[f].page_index == i
            &&& !self.working_pages[i].has_swap
            &&& (self.wp_pte(i) == spec_pte(self.frame_pa(f), USER_RW_FLAGS + 1)
                || self.wp_pte(i) == spec_pte(self.frame_pa(f), USER_RW_FLAGS + 1 - 64))
        }
        &&& forall|i: int| 0 <= i < 3 && #[trigger] self.working_pages[i].has_swap ==> {
            let s = self.working_pages[i].swap_slot as int;
            &&& s < 4 && self.swap_slot_in_use[s]
            &&& self.wp_pte(i) == swap_entry(s)
        }
        &&& forall|i: int| 0 <= i < 3 && !(#[trigger] self.working_pages[i]).resident && !self.working_pages[i].has_swap
            ==> self.wp_pte(i) == 0
        &&& forall|f: int| 0 <= f < 2 && #[trigger] self.resident_frames[f].in_use ==> {
            let p = self.resident_frames[f].page_index as int;
            &&& p < 3 && self.working_pages[p].resident && self.working_pages[p].frame_index == f
        }
        &&& forall|i: int, j: int| 0 <= i < 3 && 0 <= j < 3 && i != j && #[trigger] self.working_pages[i].has_swap
            && #[trigger] self.working_pages[j].has_swap ==> self.working_pages[i].swap_slot != self.working_pages[j].swap_slot
    }
}


/// The frame of working page `i` under the two PTE forms `wf` allows.
proof fn lemma_resident_pte_flags(pa: u64)
    requires
        page_addr(pa),
    ensures
        flag(spec_pte(pa, USER_RW_FLAGS + 1) as u64, PTE_A),
        !flag(spec_pte(pa, USER_RW_FLAGS + 1 - 64) as u64, PTE_A),
        spec_valid(spec_pte(pa, USER_RW_FLAGS + 1) as u64),
        spec_valid(spec_pte(pa, USER_RW_FLAGS + 1 - 64) as u64),
        !flag(spec_pte(pa, USER_RW_FLAGS + 1) as u64, PTE_COW),
        !flag(spec_pte(pa, USER_RW_FLAGS + 1 - 64) as u64, PTE_COW),
        flag(spec_pte(pa, USER_RW_FLAGS + 1) as u64, PTE_W),
        flag(spec_pte(pa, USER_RW_FLAGS + 1 - 64) as u64, PTE_W),
        spec_pte_pa(spec_pte(pa, USER_RW_FLAGS + 1) as u64) == pa,
{
    lemma_pte_roundtrip(pa, (USER_RW_FLAGS + 1) as int);
    lemma_pte_roundtrip(pa, (USER_RW_FLAGS + 1 - 64) as int);
    assert(flag(spec_pte(pa, USER_RW_FLAGS + 1) as u64, 64));
    assert(!flag(spec_pte(pa, USER_RW_FLAGS + 1 - 64) as u64, 64));
    assert(flag(spec_pte(pa, USER_RW_FLAGS + 1) as u64, 1));
    assert(flag(spec_pte(pa, USER_RW_FLAGS + 1 - 64) as u64, 1));
    assert(!flag(spec_pte(pa, USER_RW_FLAGS + 1) as u64, 256));
    assert(!flag(spec_pte(pa, USER_RW_FLAGS + 1 - 64) as u64, 256));
    assert(flag(spec_pte(pa, USER_RW_FLAGS + 1) as u64, 4));
    assert(flag(spec_pte(pa, USER_RW_FLAGS + 1 - 64) as u64, 4));
}

/// A swap PTE is not valid, carries the swap marker, and decodes back to its
/// slot.
pub proof fn lemma_swap_entry_flags(slot: int)
    requires
        0 <= slot < 4,
    ensures
        !spec_valid(swap_entry(slot)),
        flag(swap_entry(slot), PTE_COW),
        !flag(swap_entry(slot), PTE_A),
        swap_entry(slot) / 1024 == slot,
{
}

impl SwapKernel {
    /// The first free swap slot, now marked in use; fails when all are taken.
    pub fn allocate_swap_slot(&mut self) -> (r: Result<usize, KernelFail>)
        ensures
            r is Err <==> forall|s: int| 0 <= s < SWAP_SLOT_COUNT ==> #[trigger] old(self).swap_slot_in_use[s],
            r is Err ==> *final(self) == *old(self),
            r matches Ok(slot) ==> slot < SWAP_SLOT_COUNT && !old(self).swap_slot_in_use[slot as int]
                && (forall|s: int| 0 <= s < slot ==> #[trigger] old(self).swap_slot_in_use[s])
                && final(self).swap_slot_in_use@ == old(self).swap_slot_in_use@.update(slot as int, true),
            final(self).tables@ == old(self).tables@ && final(self).layout == old(self).layout,
            final(self).frames == old(self).frames && final(self).slots == old(self).slots,
            final(self).working_pages == old(self).working_pages && final(self).resident_frames == old(self).resident_frames,
            final(self).clock_hand == old(self).clock_hand,
            final(self).stats == old(self).stats && final(self).evidence == old(self).evidence,
    {
        let mut slot: usize = 0;
        while slot < SWAP_SLOT_COUNT
            invariant
                slot <= SWAP_SLOT_COUNT,
                *self == *old(self),
                forall|s: int| 0 <= s < slot ==> #[trigger] self.swap_slot_in_use[s],
            decreases SWAP_SLOT_COUNT - slot,
        {
            if !self.swap_slot_in_use[slot] {
                self.swap_slot_in_use[slot] = true;
                return Ok(slot);
            }
            slot += 1;
        }
        Err("swap area exhausted")
    }

    /// Gives the page in `frame_index` a second chance: clears its `A` bit.
    #[verifier::rlimit(40)]
    fn second_chance(&mut self, frame_index: usize)
        requires
            old(self).wf(),
            frame_index < RESIDENT_FRAME_COUNT,
            old(self).resident_frames[0].in_use && old(self).resident_frames[1].in_use,
            flag(old(self).wp_pte(old(self).resident_frames[frame_index as int].page_index as int), PTE_A),
        ensures
            final(self).wf(),
            final(self).accessed_count() < old(self).accessed_count(),
            final(self).working_pages == old(self).working_pages && final(self).resident_frames == old(self).resident_frames,
            final(self).frames == old(self).frames && final(self).slots == old(self).slots,
            final(self).swap_slot_in_use == old(self).swap_slot_in_use && final(self).layout == old(self).layout,
            final(self).clock_hand == old(self).clock_hand,
            final(self).stats == old(self).stats && final(self).evidence == old(self).evidence,
            forall|i: int| 0 <= i < 3 && i != old(self).resident_frames[frame_index as int].page_index
                ==> #[trigger] final(self).wp_pte(i) == old(self).wp_pte(i),
            final(self).wp_pte(old(self).resident_frames[frame_index as int].page_index as int)
                == spec_pte(old(self).frame_pa(frame_index as int), USER_RW_FLAGS + 1 - 64),
    {
        proof { reveal(SwapKernel::wf); }
        let ghost old_k = *self;
        let victim = self.resident_frames[frame_index].page_index;
        let victim_va = working_page_va(victim);
        let index = vpn0_index(victim_va);
        proof { assert(index == 16 + victim); }
        let pte = self.tables.tables[3].entries[index];
        let cleared = pte_clear_accessed(pte);
        self.tables.write_entry(3, index, cleared);
        proof {
            let f = frame_index as int;
            let v = victim as int;
            let pa = old_k.frame_pa(f);
            assert(old_k.working_pages[v].resident);
            assert(page_addr(pa));
            lemma_resident_pte_flags(pa);
            assert(cleared == spec_pte(pa, USER_RW_FLAGS + 1 - 64));
            let other = 1 - f;
            if old_k.resident_frames[other].in_use {
                assert(old_k.resident_frames[other].page_index != v);
            }
            assert forall|i: int| 0 <= i < 3 && i != v implies #[trigger] self.wp_pte(i) == old_k.wp_pte(i) by {}
            assert(self.wp_pte(v) == cleared);
            assert(!flag(self.wp_pte(v), PTE_A));
            assert(self.resident_frames[f].page_index == v);
            let p0 = old_k.resident_frames[0].page_index as int;
            let p1 = old_k.resident_frames[1].page_index as int;
            assert(old_k.working_pages[p0].frame_index == 0);
            assert(old_k.working_pages[p1].frame_index == 1);
            assert(p0 != p1);
            if f == 0 {
                assert(self.wp_pte(p1) == old_k.wp_pte(p1));
            } else {
                assert(self.wp_pte(p0) == old_k.wp_pte(p0));
            }
            assert(self.wf());
        }
    }

    /// Writes the page in `frame_index` to a fresh swap slot, replaces its PTE
    /// by the slot's swap PTE and frees the frame.
    #[verifier::rlimit(40)]
    fn swap_out_frame(&mut self, frame_index: usize) -> (r: Result<usize, KernelFail>)
        requires
            old(self).wf(),
            frame_index < RESIDENT_FRAME_COUNT,
            old(self).resident_frames[frame_index as int].in_use,
            old(self).stats.swap_outs < usize::MAX,
        ensures
            final(self).wf(),
            forall|i: int| 0 <= i < 3 ==> #[trigger] final(self).content(i) == old(self).content(i),
            forall|i: int| 0 <= i < 3 && !old(self).working_pages[i].resident ==> #[trigger] final(self).working_pages[i] == old(self).working_pages[i],
            r is Err ==> *final(self) == *old(self),
            r is Err <==> old(self).slots_full(),
            r matches Ok(slot) ==> {
                let v = old(self).resident_frames[frame_index as int].page_index as int;
                &&& !final(self).resident_frames[frame_index as int].in_use
                &&& final(self).resident_frames[1 - frame_index] == old(self).resident_frames[1 - frame_index]
                &&& final(self).working_pages[v].has_swap && final(self).working_pages[v].swap_slot == slot
                &&& final(self).wp_pte(v) == swap_entry(slot as int)
                &&& final(self).stats.swap_outs == old(self).stats.swap_outs + 1
                &&& !old(self).swap_slot_in_use[slot as int]
                &&& (forall|s: int| 0 <= s < slot ==> #[trigger] old(self).swap_slot_in_use[s])
                &&& final(self).swap_slot_in_use@ == old(self).swap_slot_in_use@.update(slot as int, true)
                &&& final(self).working_pages[v] == (WorkingPage { resident: false, has_swap: true, swap_slot: slot,
                        ..old(self).working_pages[v] })
                &&& (forall|i: int| 0 <= i < 3 && i != v ==> #[trigger] final(self).working_pages[i] == old(self).working_pages[i])
                &&& (forall|i: int| 0 <= i < 3 && i != v ==> #[trigger] final(self).wp_pte(i) == old(self).wp_pte(i))
                &&& final(self).slots[slot as int] == old(self).frames[frame_index as int]
            },
            final(self).layout == old(self).layout && final(self).clock_hand == old(self).clock_hand,
            final(self).stats == (SwapStats { swap_outs: final(self).stats.swap_outs, ..old(self).stats }),
            final(self).stats.swap_outs <= old(self).stats.swap_outs + 1,
    {
        proof { reveal(SwapKernel::wf); }
        let ghost old_k = *self;
        let victim = self.resident_frames[frame_index].page_index;
        let slot = match self.allocate_swap_slot() {
            Ok(s) => s,
            Err(e) => return Err(e),
        };
        let contents = self.frames[frame_index];
        self.slots[slot] = contents;
        let victim_va = working_page_va(victim);
        let index = vpn0_index(victim_va);
        proof { assert(index == 16 + victim); }
        let entry = swap_pte(slot as u64);
        self.tables.write_entry(3, index, entry);
        let mut wp = self.working_pages[victim];
        wp.resident = false;
        wp.has_swap = true;
        wp.swap_slot = slot;
        self.working_pages[victim] = wp;
        let mut rf = self.resident_frames[frame_index];
        rf.in_use = false;
        self.resident_frames[frame_index] = rf;
        self.stats.swap_outs = self.stats.swap_outs + 1;
        if self.evidence.evicted_swap_pte == 0 {
            self.evidence.evicted_page_index = victim;
            self.evidence.evicted_slot = slot;
            self.evidence.evicted_swap_pte = entry;
        }
        proof {
            let f = frame_index as int;
            let v = victim as int;
            assert(old_k.working_pages[v].resident);
            assert(entry == swap_entry(slot as int));
            assert forall|i: int| 0 <= i < 3 && i != v implies #[trigger] self.wp_pte(i) == old_k.wp_pte(i) by {}
            assert forall|i: int| 0 <= i < 3 && old_k.working_pages[i].has_swap implies old_k.working_pages[i].swap_slot != slot by {}
            assert forall|i: int| 0 <= i < 3 implies #[trigger] self.content(i) == old_k.content(i) by {
                if i != v && old_k.working_pages[i].resident {
                    assert(old_k.working_pages[i].frame_index != f);
                }
            }
            assert(self.wf());
        }
        Ok(slot)
    }

    /// Clock replacement: sweeps the hand over the resident frames, clearing
    /// `A` on accessed pages, and swaps out the first page found without it.
    /// Returns the freed frame.
    #[verifier::rlimit(80)]
    #[verifier::spinoff_prover]
    pub fn evict_with_clock(&mut self, incoming_page_index: usize) -> (r: Result<usize, KernelFail>)
        requires
            old(self).wf(),
            old(self).resident_frames[0].in_use && old(self).resident_frames[1].in_use,
            old(self).stats.clock_scans < usize::MAX - 3,
            old(self).stats.second_chances < usize::MAX - 3,
            old(self).stats.swap_outs < usize::MAX,
        ensures
            final(self).wf(),
            forall|i: int| 0 <= i < 3 ==> #[trigger] final(self).content(i) == old(self).content(i),
            forall|i: int| 0 <= i < 3 && !old(self).working_pages[i].resident ==> #[trigger] final(self).working_pages[i] == old(self).working_pages[i],
            r is Err <==> old(self).slots_full(),
            final(self).layout == old(self).layout,
            final(self).stats == (SwapStats {
                clock_scans: (old(self).stats.clock_scans + old(self).clock_passed() + 1) as usize,
                second_chances: (old(self).stats.second_chances + old(self).clock_passed()) as usize,
                swap_outs: final(self).stats.swap_outs,
                ..old(self).stats
            }),
            r is Err ==> final(self).stats.swap_outs == old(self).stats.swap_outs,
            r matches Ok(f) ==> {
                let v = old(self).clock_victim();
                let o = 1 - v;
                let page = old(self).resident_frames[v].page_index as int;
                let other = old(self).resident_frames[o].page_index as int;
                let slot = final(self).working_pages[page].swap_slot as int;
                &&& f == v
                &&& final(self).clock_hand == (v + 1) % 2
                &&& final(self).stats.swap_outs == old(self).stats.swap_outs + 1
                &&& !final(self).resident_frames[v].in_use
                &&& final(self).resident_frames[o] == old(self).resident_frames[o]
                &&& final(self).working_pages[page] == (WorkingPage { resident: false, has_swap: true,
                        swap_slot: slot as usize, ..old(self).working_pages[page] })
                &&& slot < SWAP_SLOT_COUNT && !old(self).swap_slot_in_use[slot]
                &&& (forall|s: int| 0 <= s < slot ==> #[trigger] old(self).swap_slot_in_use[s])
                &&& final(self).swap_slot_in_use@ == old(self).swap_slot_in_use@.update(slot, true)
                &&& final(self).wp_pte(page) == swap_entry(slot)
                &&& final(self).slots[slot] == old(self).frames[v]
                &&& final(self).working_pages[other] == old(self).working_pages[other]
                &&& final(self).wp_pte(other) == if old(self).frame_accessed(old(self).clock_hand as int) {
                        spec_pte(old(self).frame_pa(o), USER_RW_FLAGS + 1 - 64) as u64
                    } else {
                        old(self).wp_pte(other)
                    }
            },
    {
        let ghost old_k = *self;
        let ghost h = old_k.clock_hand as int;
        let ghost mut passed: int = 0;
        proof {
            reveal(SwapKernel::wf);
            let p0 = old_k.resident_frames[0].page_index as int;
            let p1 = old_k.resident_frames[1].page_index as int;
            assert(old_k.working_pages[p0].frame_index == 0);
            assert(old_k.working_pages[p1].frame_index == 1);
            assert(page_addr(old_k.frame_pa(0)) && page_addr(old_k.frame_pa(1)));
        }
        loop
            invariant
                self.wf(),
                old_k == *old(self),
                h == old_k.clock_hand,
                h < 2,
                old_k.resident_frames[0].page_index != old_k.resident_frames[1].page_index,
                page_addr(old_k.frame_pa(0)) && page_addr(old_k.frame_pa(1)),
                self.resident_frames == old_k.resident_frames,
                self.working_pages == old_k.working_pages,
                self.swap_slot_in_use == old_k.swap_slot_in_use,
                self.frames == old_k.frames && self.slots == old_k.slots,
                self.layout == old_k.layout,
                self.resident_frames[0].in_use && self.resident_frames[1].in_use,
                0 <= passed <= 2,
                self.clock_hand == (h + passed) % 2,
                passed >= 1 ==> old_k.frame_accessed(h),
                passed >= 2 ==> old_k.frame_accessed(1 - h),
                forall|f: int| 0 <= f < 2 ==> #[trigger] self.wp_pte(old_k.resident_frames[f].page_index as int)
                    == if (f == h && passed >= 1) || (f == 1 - h && passed >= 2) {
                        spec_pte(old_k.frame_pa(f), USER_RW_FLAGS + 1 - 64) as u64
                    } else {
                        old_k.wp_pte(old_k.resident_frames[f].page_index as int)
                    },
                self.stats == (SwapStats {
                    clock_scans: (old_k.stats.clock_scans + passed) as usize,
                    second_chances: (old_k.stats.second_chances + passed) as usize,
                    ..old_k.stats
                }),
                old_k.stats.clock_scans < usize::MAX - 3,
                old_k.stats.second_chances < usize::MAX - 3,
                old_k.stats.swap_outs < usize::MAX,
            decreases 2 - passed,
        {
            proof { reveal(SwapKernel::wf); }
            let frame_index = self.clock_hand;
            let victim = self.resident_frames[frame_index].page_index;
            let victim_va = working_page_va(victim);
            let pte = self.tables.tables[3].entries[vpn0_index(victim_va)];
            self.stats.clock_scans = self.stats.clock_scans + 1;
            proof {
                assert(vpn0_index_spec(victim_va) == 16 + victim);
                assert(pte == self.wp_pte(victim as int));
                lemma_resident_pte_flags(old_k.frame_pa(frame_index as int));
            }
            if crate::lab4::sv39::pte_accessed(pte) {
                proof {
                    assert(passed < 2);
                    if passed == 0 {
                        assert(frame_index == h);
                    } else {
                        assert(frame_index == 1 - h);
                    }
                }
                let ghost k0 = *self;
                self.second_chance(frame_index);
                self.stats.second_chances = self.stats.second_chances + 1;
                let ghost k1 = *self;
                self.clock_hand = (self.clock_hand + 1) % RESIDENT_FRAME_COUNT;
                proof {
                    lemma_wf_ignores_hand(k1, *self);
                    passed = passed + 1;
                    assert forall|f: int| 0 <= f < 2 implies #[trigger] self.wp_pte(old_k.resident_frames[f].page_index as int)
                        == if (f == h && passed >= 1) || (f == 1 - h && passed >= 2) {
                            spec_pte(old_k.frame_pa(f), USER_RW_FLAGS + 1 - 64) as u64
                        } else {
                            old_k.wp_pte(old_k.resident_frames[f].page_index as int)
                        } by {
                        if f != frame_index {
                            assert(old_k.resident_frames[f].page_index != victim);
                            assert(self.wp_pte(old_k.resident_frames[f].page_index as int)
                                == k0.wp_pte(old_k.resident_frames[f].page_index as int));
                        }
                    }
                }
                continue;
            }
            proof {
                if passed == 0 {
                    assert(frame_index == h);
                    assert(old_k.clock_passed() == 0);
                } else if passed == 1 {
                    assert(frame_index == 1 - h);
                    assert(old_k.clock_passed() == 1);
                } else {
                    assert(frame_index == h);
                    assert(old_k.clock_passed() == 2);
                }
                assert(frame_index == old_k.clock_victim());
            }
            let ghost k0 = *self;
            let res = self.swap_out_frame(frame_index);
            match res {
                Ok(_) => {
                    let ghost k1 = *self;
                    self.clock_hand = (self.clock_hand + 1) % RESIDENT_FRAME_COUNT;
                    proof {
                        lemma_wf_ignores_hand(k1, *self);
                        assert forall|i: int| 0 <= i < 3 implies #[trigger] self.content(i) == k1.content(i) by {}
                        let o = 1 - frame_index;
                        let other = old_k.resident_frames[o].page_index as int;
                        assert(other != victim);
                        assert(self.wp_pte(other) == k0.wp_pte(other));
                    }
                    return Ok(frame_index);
                },
                Err(e) => return Err(e),
            }
        }
    }
}

pub open spec fn vpn0_index_spec(va: u64) -> usize {
    vpn(va, 0)
}

/// `wf` holds for any hand position below the frame count, and any counters.
proof fn lemma_wf_ignores_hand(a: SwapKernel, b: SwapKernel)
    requires
        a.wf(),
        b.layout == a.layout,
        b.tables@ == a.tables@,
        b.working_pages == a.working_pages,
        b.resident_frames == a.resident_frames,
        b.swap_slot_in_use == a.swap_slot_in_use,
        b.clock_hand < RESIDENT_FRAME_COUNT,
    ensures
        b.wf(),
{
    reveal(SwapKernel::wf);
    assert forall|i: int| 0 <= i < 3 implies #[trigger] b.wp_pte(i) == a.wp_pte(i) by {}
    assert forall|f: int| 0 <= f < 2 implies #[trigger] b.frame_pa(f) == a.frame_pa(f) by {}
}


/// The counters resolving a fault may increment have room.
pub open spec fn resolve_room(s: SwapStats) -> bool {
    &&& s.lazy_allocs < usize::MAX && s.swap_ins < usize::MAX && s.swap_outs < usize::MAX
    &&& s.clock_scans < usize::MAX - 3 && s.second_chances < usize::MAX - 3
}

/// The counters a fault may increment have room.
pub open spec fn fault_room(s: SwapStats) -> bool {
    &&& s.page_faults < usize::MAX && s.load_faults < usize::MAX && s.store_faults < usize::MAX
    &&& resolve_room(s)
}

/// How the fault was resolved.
#[derive(Clone, Copy)]
pub enum FaultResolution {
    /// A zeroed frame was mapped for a page never used before.
    LazyAllocated { frame_index: usize, pa: u64 },
    /// The page was copied back from `slot`.
    SwappedIn { frame_index: usize, pa: u64, slot: usize },
}

impl SwapKernel {
    pub fn resident_frame_pa(&self, index: usize) -> (r: u64)
        requires
            layout_ok(self.layout),
            index < RESIDENT_FRAME_COUNT,
        ensures
            r == self.frame_pa(index as int),
    {
        self.layout.frame_pool + (index as u64) * 4096
    }

    pub fn swap_slot_pa(&self, slot: usize) -> (r: u64)
        requires
            layout_ok(self.layout),
            slot < SWAP_SLOT_COUNT,
        ensures
            r == self.layout.swap_area + slot * 4096,
    {
        self.layout.swap_area + (slot as u64) * 4096
    }

    /// The walk of `va` in the current tables.
    pub fn walk_virtual(&self, va: u64) -> (r: WalkResult)
        ensures
            r == spec_walk(self.tables@, self.layout.root, va),
    {
        self.tables.walk(self.layout.root, va)
    }

    /// A free frame for `page_index`: the first unused one, else one freed by
    /// Clock replacement.
    pub fn acquire_frame_for_page(&mut self, page_index: usize) -> (r: Result<usize, KernelFail>)
        requires
            old(self).wf(),
            page_index < USER_WORKINGSET_PAGES,
            !old(self).working_pages[page_index as int].resident,
            resolve_room(old(self).stats),
        ensures
            final(self).wf(),
            final(self).stats.page_faults == old(self).stats.page_faults,
            final(self).stats.load_faults == old(self).stats.load_faults,
            final(self).stats.store_faults == old(self).stats.store_faults,
            final(self).stats.lazy_allocs == old(self).stats.lazy_allocs,
            final(self).stats.swap_ins == old(self).stats.swap_ins,
            final(self).stats.swap_outs <= old(self).stats.swap_outs + 1,
            forall|i: int| 0 <= i < 3 ==> #[trigger] final(self).content(i) == old(self).content(i),
            final(self).working_pages[page_index as int] == old(self).working_pages[page_index as int],
            final(self).layout == old(self).layout,
            r matches Ok(f) ==> f < RESIDENT_FRAME_COUNT && !final(self).resident_frames[f as int].in_use,
            r is Err <==> old(self).frames_full() && old(self).slots_full(),
    {
        proof { reveal(SwapKernel::wf); }
        let mut frame_index: usize = 0;
        while frame_index < RESIDENT_FRAME_COUNT
            invariant
                frame_index <= RESIDENT_FRAME_COUNT,
                *self == *old(self),
                self.wf(),
                forall|f: int| 0 <= f < frame_index ==> #[trigger] self.resident_frames[f].in_use,
            decreases RESIDENT_FRAME_COUNT - frame_index,
        {
            if !self.resident_frames[frame_index].in_use {
                return Ok(frame_index);
            }
            frame_index += 1;
        }
        let ghost k0 = *self;
        self.evidence.replacement_triggered = true;
        proof {
            assert(self.content(page_index as int) == k0.content(page_index as int));
            lemma_wf_ignores_hand(k0, *self);
            assert forall|i: int| 0 <= i < 3 implies #[trigger] self.content(i) == k0.content(i) by {}
            assert(old(self).frames_full());
            assert(self.swap_slot_in_use == old(self).swap_slot_in_use);
            assert(self.slots_full() == old(self).slots_full());
        }
        self.evict_with_clock(page_index)
    }

    /// Maps `pa` writable for the user at `va`.
    pub fn install_working_leaf(&mut self, va: u64, pa: u64)
        requires
            old(self).tables@.len() == 5,
            pa < PHYS_LIMIT,
        ensures
            final(self).tables@ == old(self).tables@.update(3, PageTable {
                entries: vstd::array::spec_array_update(old(self).tables@[3].entries, vpn(va, 0) as int, spec_pte(pa, USER_RW_FLAGS + 1) as u64),
                ..old(self).tables@[3]
            }),
            final(self).layout == old(self).layout && final(self).frames == old(self).frames,
            final(self).slots == old(self).slots && final(self).working_pages == old(self).working_pages,
            final(self).resident_frames == old(self).resident_frames,
            final(self).swap_slot_in_use == old(self).swap_slot_in_use,
            final(self).clock_hand == old(self).clock_hand,
            final(self).stats == old(self).stats && final(self).evidence == old(self).evidence,
    {
        let pte = leaf_pte(pa, USER_RW_FLAGS);
        self.tables.write_entry(3, vpn0_index(va), pte);
    }

    /// Maps a zero-filled frame for a page never used before.
    #[verifier::rlimit(40)]
    pub fn lazy_allocate_page(&mut self, page_index: usize, fault_va: u64) -> (r: Result<FaultResolution, KernelFail>)
        requires
            old(self).wf(),
            page_index < USER_WORKINGSET_PAGES,
            fault_va == USER_WORKINGSET_BASE + page_index * 4096,
            !old(self).working_pages[page_index as int].resident,
            !old(self).working_pages[page_index as int].has_swap,
            resolve_room(old(self).stats),
        ensures
            final(self).wf(),
            forall|i: int| 0 <= i < 3 ==> #[trigger] final(self).content(i) == old(self).content(i),
            r is Ok ==> final(self).working_pages[page_index as int].resident,
            r is Ok ==> r.unwrap() is LazyAllocated,
            r is Err <==> old(self).frames_full() && old(self).slots_full(),
            final(self).stats.page_faults == old(self).stats.page_faults,
            final(self).stats.load_faults == old(self).stats.load_faults,
            final(self).stats.store_faults == old(self).stats.store_faults,
            final(self).stats.swap_ins == old(self).stats.swap_ins,
            final(self).stats.lazy_allocs <= old(self).stats.lazy_allocs + 1,
            final(self).stats.swap_outs <= old(self).stats.swap_outs + 1,
            final(self).layout == old(self).layout,
    {
        let ghost k0 = *self;
        let frame_index = match self.acquire_frame_for_page(page_index) {
            Ok(f) => f,
            Err(e) => return Err(e),
        };
        proof { reveal(SwapKernel::wf); }
        let pa = self.resident_frame_pa(frame_index);
        let ghost k1 = *self;
        self.frames[frame_index] = [0u64; WORDS_PER_PAGE];
        let mut wp = self.working_pages[page_index];
        wp.resident = true;
        wp.frame_index = frame_index;
        wp.has_swap = false;
        self.working_pages[page_index] = wp;
        self.resident_frames[frame_index] = ResidentFrame { in_use: true, page_index };
        self.stats.lazy_allocs = self.stats.lazy_allocs + 1;
        self.install_working_leaf(fault_va, pa);
        proof {
            let p = page_index as int;
            let f = frame_index as int;
            assert(vpn(fault_va, 0) == 16 + p);
            assert forall|i: int| 0 <= i < 3 && i != p implies #[trigger] self.wp_pte(i) == k1.wp_pte(i) by {}
            assert(self.wp_pte(p) == spec_pte(pa, USER_RW_FLAGS + 1));
            assert forall|i: int| 0 <= i < 3 && i != p && k1.working_pages[i].resident implies k1.working_pages[i].frame_index != f by {}
            assert forall|i: int| 0 <= i < 3 implies #[trigger] self.content(i) == k0.content(i) by {
                assert(k1.content(i) == k0.content(i));
                if i != p && k1.working_pages[i].resident {
                    assert(self.frames[k1.working_pages[i].frame_index as int] == k1.frames[k1.working_pages[i].frame_index as int]);
                }
                assert(self.content(i) == k1.content(i) || i == p);
            }
            assert(self.wf());
        }
        Ok(FaultResolution::LazyAllocated { frame_index, pa })
    }

    /// Copies a swapped page back from its slot into a frame and maps it.
    #[verifier::rlimit(40)]
    pub fn swap_in_page(&mut self, page_index: usize, fault_va: u64, swap_entry_pte: u64) -> (r: Result<FaultResolution, KernelFail>)
        requires
            old(self).wf(),
            page_index < USER_WORKINGSET_PAGES,
            fault_va == USER_WORKINGSET_BASE + page_index * 4096,
            old(self).working_pages[page_index as int].has_swap,
            swap_entry_pte == old(self).wp_pte(page_index as int),
            resolve_room(old(self).stats),
        ensures
            final(self).wf(),
            forall|i: int| 0 <= i < 3 ==> #[trigger] final(self).content(i) == old(self).content(i),
            r is Ok ==> final(self).working_pages[page_index as int].resident,
            r is Ok ==> r.unwrap() is SwappedIn,
            r is Err <==> old(self).frames_full() && old(self).slots_full(),
            r matches Ok(FaultResolution::SwappedIn { slot, .. }) ==> slot == old(self).working_pages[page_index as int].swap_slot,
            final(self).stats.page_faults == old(self).stats.page_faults,
            final(self).stats.load_faults == old(self).stats.load_faults,
            final(self).stats.store_faults == old(self).stats.store_faults,
            final(self).stats.lazy_allocs == old(self).stats.lazy_allocs,
            final(self).stats.swap_ins <= old(self).stats.swap_ins + 1,
            final(self).stats.swap_outs <= old(self).stats.swap_outs + 1,
            final(self).layout == old(self).layout,
    {
        proof { reveal(SwapKernel::wf); }
        let ghost k0 = *self;
        let slot = swap_slot_from_pte(swap_entry_pte) as usize;
        proof {
            assert(slot == k0.working_pages[page_index as int].swap_slot);
        }
        let frame_index = match self.acquire_frame_for_page(page_index) {
            Ok(f) => f,
            Err(e) => return Err(e),
        };
        proof { reveal(SwapKernel::wf); }
        let pa = self.resident_frame_pa(frame_index);
        let ghost k1 = *self;
        let contents = self.slots[slot];
        self.frames[frame_index] = contents;
        let mut wp = self.working_pages[page_index];
        wp.resident = true;
        wp.frame_index = frame_index;
        wp.has_swap = false;
        wp.swap_slot = slot;
        self.working_pages[page_index] = wp;
        self.resident_frames[frame_index] = ResidentFrame { in_use: true, page_index };
        self.swap_slot_in_use[slot] = false;
        self.stats.swap_ins = self.stats.swap_ins + 1;
        self.evidence.swapin_page_index = page_index;
        self.evidence.swapin_slot = slot;
        self.evidence.swapin_restored_pa = pa;
        self.install_working_leaf(fault_va, pa);
        proof {
            let p = page_index as int;
            let f = frame_index as int;
            assert(vpn(fault_va, 0) == 16 + p);
            assert forall|i: int| 0 <= i < 3 && i != p implies #[trigger] self.wp_pte(i) == k1.wp_pte(i) by {}
            assert forall|i: int| 0 <= i < 3 && i != p && k1.working_pages[i].resident implies k1.working_pages[i].frame_index != f by {}
            assert forall|i: int| 0 <= i < 3 && i != p && k1.working_pages[i].has_swap implies k1.working_pages[i].swap_slot != slot by {}
            assert forall|i: int| 0 <= i < 3 implies #[trigger] self.content(i) == k0.content(i) by {
                assert(k1.content(i) == k0.content(i));
                if i != p && k1.working_pages[i].resident {
                    assert(self.frames[k1.working_pages[i].frame_index as int] == k1.frames[k1.working_pages[i].frame_index as int]);
                }
                assert(self.content(i) == k1.content(i) || i == p);
            }
            assert(self.wf());
        }
        Ok(FaultResolution::SwappedIn { frame_index, pa, slot })
    }

    /// A load or store page fault at `stval` in the working set: swaps the
    /// page in when its PTE records a slot, maps a zeroed frame when it has
    /// none, and fails on anything else.
    pub fn handle_user_page_fault(&mut self, scause: usize, stval: u64) -> (r: Result<FaultResolution, KernelFail>)
        requires
            old(self).wf(),
            fault_room(old(self).stats),
        ensures
            final(self).wf(),
            forall|i: int| 0 <= i < 3 ==> #[trigger] final(self).content(i) == old(self).content(i),
            !(USER_WORKINGSET_BASE <= stval - stval % 4096 < USER_WORKINGSET_LIMIT) ==> r is Err,
            r is Ok ==> {
                let p = ((stval - stval % 4096 - USER_WORKINGSET_BASE) / 4096) as int;
                &&& final(self).working_pages[p].resident
                &&& final(self).stats.page_faults == old(self).stats.page_faults + 1
                &&& (old(self).working_pages[p].has_swap <==> r.unwrap() is SwappedIn)
            },
            r is Ok ==> old(self).working_pages[((stval - stval % 4096 - USER_WORKINGSET_BASE) / 4096) as int].resident == false,
            r is Err <==> (!(USER_WORKINGSET_BASE <= stval - stval % 4096 < USER_WORKINGSET_LIMIT)
                || old(self).working_pages[((stval - stval % 4096 - USER_WORKINGSET_BASE) / 4096) as int].resident
                || (old(self).frames_full() && old(self).slots_full())),
    {
        let fault_va = page_align_down(stval);
        if !is_workingset_va(fault_va) {
            return Err("fault outside managed working set");
        }
        let page_index = working_page_index(fault_va);
        let before = self.walk_virtual(fault_va);
        proof {
            reveal(SwapKernel::wf);
            lemma_working_walk(self, page_index as int);
            assert(fault_va == USER_WORKINGSET_BASE + page_index * 4096);
        }
        let ghost k0 = *self;
        self.stats.page_faults = self.stats.page_faults + 1;
        if scause == LOAD_PAGE_FAULT {
            self.stats.load_faults = self.stats.load_faults + 1;
        } else {
            self.stats.store_faults = self.stats.store_faults + 1;
        }
        proof {
            lemma_wf_ignores_hand(k0, *self);
            assert forall|i: int| 0 <= i < 3 implies #[trigger] self.content(i) == k0.content(i) by {}
            reveal(SwapKernel::wf);
            let p = page_index as int;
            if k0.working_pages[p].resident {
                let pa = k0.frame_pa(k0.working_pages[p].frame_index as int);
                assert(page_addr(pa));
                lemma_resident_pte_flags(pa);
            } else if k0.working_pages[p].has_swap {
                lemma_swap_entry_flags(k0.working_pages[p].swap_slot as int);
            } else {
                assert(!spec_valid(0u64) && !flag(0u64, PTE_COW));
            }
            assert(self.swap_slot_in_use == old(self).swap_slot_in_use);
            assert(self.resident_frames == old(self).resident_frames);
            assert(self.working_pages == old(self).working_pages);
            assert(self.slots_full() == old(self).slots_full());
            assert(self.frames_full() == old(self).frames_full());
            assert(p == (stval - stval % 4096 - USER_WORKINGSET_BASE) / 4096);
        }
        if pte_is_swapped(before.leaf_pte) {
            self.swap_in_page(page_index, fault_va, before.leaf_pte)
        } else if !pte_is_valid(before.leaf_pte) {
            self.lazy_allocate_page(page_index, fault_va)
        } else {
            Err("page fault hit an already-present mapping")
        }
    }
}

/// Under `wf`, a working-set page's walk reads its PTE in the user L0 table.
proof fn lemma_working_walk(k: &SwapKernel, p: int)
    requires
        k.wf(),
        0 <= p < 3,
    ensures
        spec_walk(k.tables@, k.layout.root, (USER_WORKINGSET_BASE + p * 4096) as u64).leaf_pte == k.wp_pte(p),
{
    reveal(SwapKernel::wf);
    let t = k.tables@;
    let l = k.layout;
    let va = (USER_WORKINGSET_BASE + p * 4096) as u64;
    reveal_with_fuel(slot_in, 6);
    assert(slot_in(t, l.root, 5) == 0);
    assert(slot_in(t, l.low_l1, 5) == 1);
    assert(slot_in(t, l.user_l0, 5) == 3);
    lemma_pte_roundtrip(l.low_l1, 1);
    lemma_pte_roundtrip(l.user_l0, 1);
    assert(flag(spec_pte(l.low_l1, 1) as u64, 1));
    assert(!flag(spec_pte(l.low_l1, 1) as u64, 2) && !flag(spec_pte(l.low_l1, 1) as u64, 4) && !flag(spec_pte(l.low_l1, 1) as u64, 8));
    assert(flag(spec_pte(l.user_l0, 1) as u64, 1));
    assert(!flag(spec_pte(l.user_l0, 1) as u64, 2) && !flag(spec_pte(l.user_l0, 1) as u64, 4) && !flag(spec_pte(l.user_l0, 1) as u64, 8));
    assert(vpn(va, 2) == 0);
    assert(vpn(va, 1) == 2);
    assert(vpn(va, 0) == 16 + p);
}


/// The user program's shared page.
#[derive(Clone, Copy)]
pub struct UserSharedData {
    pub stage_marker: u64,
    pub page2_hit_readback: u64,
    pub page0_swapin_readback: u64,
    pub page0_hit_again: u64,
    pub exit_code: u64,
}

/// The acceptance checks run when the program exits.
#[derive(Clone, Copy)]
pub struct SwapAcceptance {
    pub replacement_ok: bool,
    pub swap_pte_ok: bool,
    pub swapin_ok: bool,
    pub counts_ok: bool,
}

/// The page tables: kernel window, devices, eager user text/shared/stack
/// pages, and an empty working set.
pub fn build_page_tables(l: &Layout) -> (r: TableSet)
    requires
        layout_ok(*l),
    ensures
        r@.len() == 5,
        r@[0].pa == l.root && r@[1].pa == l.low_l1 && r@[2].pa == l.dev_l0 && r@[3].pa == l.user_l0 && r@[4].pa == l.kernel_l1,
        r@[0].entries[0] == spec_pte(l.low_l1, 1),
        r@[1].entries[2] == spec_pte(l.user_l0, 1),
        forall|i: int| 3 <= i < 512 ==> r@[3].entries[i] == 0,
{
    let mut root = PageTable::zeroed(l.root);
    let mut low_l1 = PageTable::zeroed(l.low_l1);
    let mut dev_l0 = PageTable::zeroed(l.dev_l0);
    let mut user_l0 = PageTable::zeroed(l.user_l0);
    let mut kernel_l1 = PageTable::zeroed(l.kernel_l1);
    root.entries[vpn2_index(KERNEL_BASE)] = table_pte(l.kernel_l1);
    root.entries[vpn2_index(USER_TEXT_VA)] = table_pte(l.low_l1);
    low_l1.entries[vpn1_index(QEMU_TEST_BASE)] = table_pte(l.dev_l0);
    dev_l0.entries[vpn0_index(QEMU_TEST_BASE)] = leaf_pte(QEMU_TEST_BASE, DEVICE_LEAF_FLAGS);
    low_l1.entries[vpn1_index(UART0_ADDR)] = leaf_pte(UART0_ADDR, DEVICE_LEAF_FLAGS);
    low_l1.entries[vpn1_index(USER_TEXT_VA)] = table_pte(l.user_l0);
    user_l0.entries[vpn0_index(USER_TEXT_VA)] = leaf_pte(l.code, USER_TEXT_FLAGS);
    user_l0.entries[vpn0_index(USER_SHARED_VA)] = leaf_pte(l.shared, USER_RW_FLAGS);
    user_l0.entries[vpn0_index(USER_STACK_VA)] = leaf_pte(l.stack, USER_RW_FLAGS);
    let mut entry_index: usize = 0;
    while entry_index < 8
        invariant
            entry_index <= 8,
            kernel_l1.pa == l.kernel_l1,
        decreases 8 - entry_index,
    {
        let pa = KERNEL_BASE + (entry_index as u64) * 0x20_0000;
        kernel_l1.entries[entry_index] = leaf_pte(pa, KERNEL_LEAF_FLAGS);
        entry_index += 1;
    }
    let mut tables: Vec<PageTable> = Vec::new();
    tables.push(root);
    tables.push(low_l1);
    tables.push(dev_l0);
    tables.push(user_l0);
    tables.push(kernel_l1);
    TableSet { tables }
}

impl SwapKernel {
    /// The runtime after `initialize_runtime` and `build_page_tables`: no
    /// working page resident or swapped, every frame and slot free and zero.
    pub fn new(l: Layout) -> (r: Self)
        requires
            layout_ok(l),
        ensures
            r.wf(),
            r.layout == l,
            forall|i: int| 0 <= i < 3 ==> !(#[trigger] r.working_pages[i]).resident && !r.working_pages[i].has_swap,
            forall|i: int| 0 <= i < 3 ==> #[trigger] r.content(i) == [0u64; WORDS_PER_PAGE],
            r.stats == SwapStats::zeroed_spec(),
    {
        let tables = build_page_tables(&l);
        let r = SwapKernel {
            layout: l,
            tables,
            frames: [[0u64; WORDS_PER_PAGE]; RESIDENT_FRAME_COUNT],
            slots: [[0u64; WORDS_PER_PAGE]; SWAP_SLOT_COUNT],
            working_pages: [WorkingPage::zeroed(); USER_WORKINGSET_PAGES],
            resident_frames: [ResidentFrame::empty(); RESIDENT_FRAME_COUNT],
            swap_slot_in_use: [false; SWAP_SLOT_COUNT],
            clock_hand: 0,
            stats: SwapStats::zeroed(),
            evidence: SwapEvidence::zeroed(),
        };
        proof {
            reveal(SwapKernel::wf);
            assert forall|i: int| 0 <= i < 3 implies #[trigger] r.wp_pte(i) == 0 by {}
        }
        r
    }

    /// The checks `finish_user_program` prints; the access count is fixed by
    /// the user program and hits are the accesses that did not fault.
    pub fn finish_user_program(&mut self, exit_code: u64, shared: &UserSharedData) -> (r: SwapAcceptance)
        requires
            old(self).stats.page_faults <= WORKINGSET_ACCESS_COUNT,
        ensures
            final(self).stats.accesses == WORKINGSET_ACCESS_COUNT,
            final(self).stats.hits == WORKINGSET_ACCESS_COUNT - old(self).stats.page_faults,
            r.replacement_ok == (old(self).evidence.replacement_triggered && old(self).stats.swap_outs >= 1 && old(self).stats.clock_scans >= 1),
            r.swap_pte_ok == (!flag(old(self).evidence.evicted_swap_pte, PTE_V) && flag(old(self).evidence.evicted_swap_pte, PTE_COW)
                && old(self).evidence.evicted_swap_pte / 1024 == old(self).evidence.evicted_slot
                && old(self).evidence.evicted_page_index == 0),
            r.counts_ok == (exit_code == 0 && shared.stage_marker == STAGE_DONE && old(self).stats.page_faults == 4
                && old(self).stats.load_faults == 1 && old(self).stats.store_faults == 3 && old(self).stats.lazy_allocs == 3
                && old(self).stats.swap_outs == 2 && old(self).stats.swap_ins == 1
                && WORKINGSET_ACCESS_COUNT - old(self).stats.page_faults == 2),
            r.swapin_ok ==> {
                let w = spec_walk(old(self).tables@, old(self).layout.root, USER_WORKINGSET_BASE);
                spec_valid(w.leaf_pte) && flag(w.leaf_pte, PTE_W) && shared.page0_swapin_readback == PAGE0_VALUE
            },
    {
        let page0_walk = self.walk_virtual(USER_WORKINGSET_BASE);
        self.stats.accesses = WORKINGSET_ACCESS_COUNT;
        self.stats.hits = WORKINGSET_ACCESS_COUNT - self.stats.page_faults;
        let st = self.stats;
        let ev = self.evidence;
        let replacement_ok = ev.replacement_triggered && st.swap_outs >= 1 && st.clock_scans >= 1;
        let swap_pte_ok = pte_is_swapped(ev.evicted_swap_pte) && swap_slot_from_pte(ev.evicted_swap_pte) == ev.evicted_slot as u64
            && ev.evicted_page_index == 0;
        let swapin_ok = st.swap_ins >= 1 && ev.swapin_page_index == 0 && ev.swapin_slot == ev.evicted_slot
            && pte_is_valid(page0_walk.leaf_pte) && !pte_is_swapped(page0_walk.leaf_pte) && pte_has_write(page0_walk.leaf_pte)
            && shared.page0_swapin_readback == PAGE0_VALUE && shared.page0_hit_again == PAGE0_VALUE
            && shared.page2_hit_readback == PAGE2_VALUE;
        let counts_ok = exit_code == 0 && shared.stage_marker == STAGE_DONE && st.page_faults == 4 && st.load_faults == 1
            && st.store_faults == 3 && st.lazy_allocs == 3 && st.swap_outs == 2 && st.swap_ins == 1 && st.hits == 2;
        SwapAcceptance { replacement_ok, swap_pte_ok, swapin_ok, counts_ok }
    }
}

impl SwapStats {
    pub open spec fn zeroed_spec() -> Self {
        SwapStats { page_faults: 0, load_faults: 0, store_faults: 0, lazy_allocs: 0, swap_outs: 0, swap_ins: 0,
            clock_scans: 0, second_chances: 0, accesses: 0, hits: 0 }
    }
}

/// What follows a user `ecall`.
pub enum EcallOutcome {
    /// The program exited with this code: run the final checks.
    Exit { code: u64 },
    /// An unknown call: report and fail.
    UnexpectedSyscall,
}

/// A user `ecall`: `exit` is the only call; `epc` steps past the `ecall`.
pub fn handle_user_ecall(epc: &mut u64, a7: usize, a0: u64) -> (r: EcallOutcome)
    requires
        *old(epc) <= u64::MAX - 4,
    ensures
        *final(epc) == *old(epc) + 4,
        a7 == SYS_EXIT ==> r == (EcallOutcome::Exit { code: a0 }),
        a7 != SYS_EXIT ==> r is UnexpectedSyscall,
{
    *epc = *epc + 4;
    if a7 == SYS_EXIT { EcallOutcome::Exit { code: a0 } } else { EcallOutcome::UnexpectedSyscall }
}

} // verus!
