//! Sv39 page-table entries, page tables in physical memory, and the
//! three-level walk the hardware performs.
use vstd::prelude::*;

verus! {

pub const PAGE_SIZE: u64 = 4096;
pub const PAGE_SHIFT: u64 = 12;
pub const PAGE_TABLE_ENTRIES: usize = 512;
pub const MEGA_PAGE_SIZE: u64 = 0x20_0000;

pub const PTE_V: u64 = 1;
pub const PTE_R: u64 = 2;
pub const PTE_W: u64 = 4;
pub const PTE_X: u64 = 8;
pub const PTE_U: u64 = 16;
pub const PTE_G: u64 = 32;
pub const PTE_A: u64 = 64;
pub const PTE_D: u64 = 128;
/// Software bit marking a copy-on-write mapping.
pub const PTE_COW: u64 = 256;

/// The MODE field of `satp` selecting Sv39.
pub const SATP_MODE_SV39: u64 = 0x8000_0000_0000_0000;

/// Physical addresses the model handles exactly: below 2^56, as in Sv39.
pub const PHYS_LIMIT: u64 = 0x100_0000_0000_0000;

/// Bit `bit` (a power of two) of `pte` is set.
pub open spec fn flag(pte: u64, bit: u64) -> bool {
    (pte as int / bit as int) % 2 == 1
}

pub open spec fn spec_valid(pte: u64) -> bool {
    flag(pte, PTE_V)
}

/// A leaf grants at least one of read, write or execute.
pub open spec fn spec_leaf(pte: u64) -> bool {
    flag(pte, PTE_R) || flag(pte, PTE_W) || flag(pte, PTE_X)
}

/// The physical address a PTE points at (its PPN shifted into place, as a
/// 64-bit value).
pub open spec fn spec_pte_pa(pte: u64) -> u64 {
    ((pte as int / 1024 % 0x10_0000_0000_0000) * 4096) as u64
}

/// A PTE pointing at `pa` with the given low bits (V included or not in `low`).
pub open spec fn spec_pte(pa: u64, low: int) -> int {
    (pa as int / 4096) * 1024 + low
}

/// The VPN index of `va` at `level` (2 = root).
pub open spec fn vpn(va: u64, level: int) -> usize {
    if level == 2 {
        (va as int / 0x4000_0000 % 512) as usize
    } else if level == 1 {
        (va as int / 0x20_0000 % 512) as usize
    } else {
        (va as int / 0x1000 % 512) as usize
    }
}

pub open spec fn spec_satp(root_pa: u64) -> u64 {
    (SATP_MODE_SV39 + root_pa as int / 4096) as u64
}

/// A page-aligned physical address the model handles exactly.
pub open spec fn page_addr(pa: u64) -> bool {
    pa % 4096 == 0 && pa < PHYS_LIMIT
}

pub proof fn lemma_flag_bits_pub(pte: u64)
    ensures
        ((pte & 1) != 0) == ((pte / 1) % 2 == 1),
        ((pte & 2) != 0) == ((pte / 2) % 2 == 1),
{
    lemma_flag_bits(pte);
}

proof fn lemma_flag_bits(pte: u64)
    by (bit_vector)
    ensures
        ((pte & 1) != 0) == ((pte / 1) % 2 == 1),
        ((pte & 2) != 0) == ((pte / 2) % 2 == 1),
        ((pte & 4) != 0) == ((pte / 4) % 2 == 1),
        ((pte & 8) != 0) == ((pte / 8) % 2 == 1),
        ((pte & 16) != 0) == ((pte / 16) % 2 == 1),
        ((pte & 32) != 0) == ((pte / 32) % 2 == 1),
        ((pte & 64) != 0) == ((pte / 64) % 2 == 1),
        ((pte & 128) != 0) == ((pte / 128) % 2 == 1),
        ((pte & 256) != 0) == ((pte / 256) % 2 == 1),
        ((pte & 14) != 0) == ((pte / 2) % 2 == 1 || (pte / 4) % 2 == 1 || (pte / 8) % 2 == 1),
{
}

proof fn lemma_pa_bits(pte: u64)
    by (bit_vector)
    ensures
        (pte >> 10) << 12 == ((pte / 1024) % 0x10_0000_0000_0000) * 4096,
{
}

proof fn lemma_compose_bits(pa: u64, low: u64)
    by (bit_vector)
    requires
        low < 1024,
        pa < 0x100_0000_0000_0000,
    ensures
        ((pa >> 12) << 10) | low == (pa / 4096) * 1024 + low,
        0x8000_0000_0000_0000u64 | (pa >> 12) == 0x8000_0000_0000_0000u64 + pa / 4096,
{
}

proof fn lemma_vpn_bits(va: u64)
    by (bit_vector)
    ensures
        (va >> 30) & 0x1ff == (va / 0x4000_0000) % 512,
        (va >> 21) & 0x1ff == (va / 0x20_0000) % 512,
        (va >> 12) & 0x1ff == (va / 0x1000) % 512,
{
}

proof fn lemma_align_bits(value: u64)
    by (bit_vector)
    ensures
        value & !0xfffu64 == value - value % 4096,
{
}

/// Reading bit `bit` of a PTE built from `page` and `low` only sees `low`.
pub proof fn lemma_flag_of_pte(page: int, low: int, bit: int)
    requires
        0 <= page,
        0 <= low < 1024,
        bit == 1 || bit == 2 || bit == 4 || bit == 8 || bit == 16 || bit == 32 || bit == 64 || bit == 128 || bit == 256,
    ensures
        ((page * 1024 + low) / bit) % 2 == (low / bit) % 2,
{
    let m: int = 1024int / bit;
    assert(page * 1024 == (page * m) * bit) by (nonlinear_arith)
        requires m == 1024int / bit, bit == 1 || bit == 2 || bit == 4 || bit == 8 || bit == 16 || bit == 32 || bit == 64 || bit == 128 || bit == 256;
    assert((page * m * bit + low) / bit == page * m + low / bit) by (nonlinear_arith)
        requires bit > 0, 0 <= low;
    let k: int = page * (m / 2);
    assert(page * m == 2 * k) by (nonlinear_arith)
        requires k == page * (m / 2), m % 2 == 0;
}

/// The PTE built for `pa` and `low` decodes back to `pa` and `low`.
pub proof fn lemma_pte_roundtrip(pa: u64, low: int)
    requires
        page_addr(pa),
        0 <= low < 1024,
    ensures
        spec_pte(pa, low) < 0x4000_0000_0000_0000,
        spec_pte_pa(spec_pte(pa, low) as u64) == pa,
        forall|bit: u64| #![trigger flag(spec_pte(pa, low) as u64, bit)]
            (bit == 1 || bit == 2 || bit == 4 || bit == 8 || bit == 16 || bit == 32 || bit == 64 || bit == 128 || bit == 256)
            ==> (flag(spec_pte(pa, low) as u64, bit) == ((low / bit as int) % 2 == 1)),
{
    let page = pa as int / 4096;
    assert(page * 1024 + low < 0x4000_0000_0000_0000) by (nonlinear_arith)
        requires page == pa as int / 4096, pa < 0x100_0000_0000_0000, low < 1024;
    assert((page * 1024 + low) / 1024 == page) by (nonlinear_arith)
        requires 0 <= low < 1024, page >= 0;
    assert(page * 4096 == pa) by (nonlinear_arith)
        requires page == pa as int / 4096, pa % 4096 == 0;
    assert forall|bit: u64|
        (bit == 1 || bit == 2 || bit == 4 || bit == 8 || bit == 16 || bit == 32 || bit == 64 || bit == 128 || bit == 256)
        implies (#[trigger] flag(spec_pte(pa, low) as u64, bit) == ((low / bit as int) % 2 == 1)) by {
        lemma_flag_of_pte(page, low, bit as int);
    }
}

/// Bit `PTE_V` is set.
pub fn pte_is_valid(pte: u64) -> (r: bool)
    ensures
        r == spec_valid(pte),
{
    proof { lemma_flag_bits(pte); }
    (pte & PTE_V) != 0
}

/// One of `R`, `W`, `X` is set.
pub fn pte_is_leaf(pte: u64) -> (r: bool)
    ensures
        r == spec_leaf(pte),
{
    proof { lemma_flag_bits(pte); }
    // R | W | X
    (pte & 0xe) != 0
}

/// Bit `PTE_U` is set.
pub fn pte_has_user(pte: u64) -> (r: bool)
    ensures
        r == flag(pte, PTE_U),
{
    proof { lemma_flag_bits(pte); }
    (pte & PTE_U) != 0
}

/// Bit `PTE_W` is set.
pub fn pte_has_write(pte: u64) -> (r: bool)
    ensures
        r == flag(pte, PTE_W),
{
    proof { lemma_flag_bits(pte); }
    (pte & PTE_W) != 0
}

/// Bit `PTE_COW` is set.
pub fn pte_has_cow(pte: u64) -> (r: bool)
    ensures
        r == flag(pte, PTE_COW),
{
    proof { lemma_flag_bits(pte); }
    (pte & PTE_COW) != 0
}

/// Bit `PTE_A` is set.
pub fn pte_accessed(pte: u64) -> (r: bool)
    ensures
        r == flag(pte, PTE_A),
{
    proof { lemma_flag_bits(pte); }
    (pte & PTE_A) != 0
}

/// Bit `PTE_R` is set.
pub fn pte_is_readable(pte: u64) -> (r: bool)
    ensures
        r == flag(pte, PTE_R),
{
    proof { lemma_flag_bits(pte); }
    (pte & PTE_R) != 0
}

/// Bit `PTE_X` is set.
pub fn pte_is_executable(pte: u64) -> (r: bool)
    ensures
        r == flag(pte, PTE_X),
{
    proof { lemma_flag_bits(pte); }
    (pte & PTE_X) != 0
}

/// Bit `PTE_G` is set.
pub fn pte_is_global(pte: u64) -> (r: bool)
    ensures
        r == flag(pte, PTE_G),
{
    proof { lemma_flag_bits(pte); }
    (pte & PTE_G) != 0
}

/// Bit `PTE_D` is set.
pub fn pte_is_dirty(pte: u64) -> (r: bool)
    ensures
        r == flag(pte, PTE_D),
{
    proof { lemma_flag_bits(pte); }
    (pte & PTE_D) != 0
}

proof fn lemma_clear_bit_bits(pte: u64)
    by (bit_vector)
    ensures
        (pte & 64) != 0 ==> pte & !64u64 == (pte - 64) as u64,
        (pte & 64) == 0 ==> pte & !64u64 == pte,
        (pte & 1) == 0 && (pte & 256) != 0 ==> true,
{
}

proof fn lemma_swap_bits(slot: u64)
    by (bit_vector)
    requires
        slot < 0x40_0000_0000_0000,
    ensures
        (slot << 10) | 256 == slot * 1024 + 256,
        ((slot * 1024 + 256) as u64) >> 10 == slot,
{
}

/// `pte` with `PTE_A` cleared.
pub fn pte_clear_accessed(pte: u64) -> (r: u64)
    ensures
        flag(pte, PTE_A) ==> r == pte - 64,
        !flag(pte, PTE_A) ==> r == pte,
{
    proof { lemma_clear_bit_bits(pte); lemma_flag_bits(pte); }
    pte & !PTE_A
}

/// An invalid PTE recording that the page lives in swap slot `slot`.
pub fn swap_pte(slot: u64) -> (r: u64)
    requires
        slot < 0x40_0000_0000_0000,
    ensures
        r == slot * 1024 + 256,
{
    proof { lemma_swap_bits(slot); }
    (slot << 10) | PTE_COW
}

/// The swap slot recorded in a swap PTE.
pub fn swap_slot_from_pte(pte: u64) -> (r: u64)
    ensures
        r == pte / 1024,
{
    proof { lemma_pa_bits(pte); lemma_shift_bits(pte); }
    pte >> 10
}

proof fn lemma_shift_bits(pte: u64)
    by (bit_vector)
    ensures
        pte >> 10 == pte / 1024,
{
}

/// Not valid, but carrying the swap marker bit.
pub fn pte_is_swapped(pte: u64) -> (r: bool)
    ensures
        r == (!flag(pte, PTE_V) && flag(pte, PTE_COW)),
{
    proof { lemma_flag_bits(pte); }
    (pte & PTE_V) == 0 && (pte & PTE_COW) != 0
}

/// The physical address the PTE maps.
pub fn pte_to_pa(pte: u64) -> (r: u64)
    ensures
        r == spec_pte_pa(pte),
{
    proof { lemma_pa_bits(pte); }
    (pte >> 10) << PAGE_SHIFT
}

/// A valid leaf PTE mapping `pa` with `flags`.
pub fn leaf_pte(pa: u64, flags: u64) -> (r: u64)
    requires
        pa < PHYS_LIMIT,
        flags < 1024,
        flags % 2 == 0,
    ensures
        r == spec_pte(pa, flags + 1),
{
    proof { lemma_compose_bits(pa, (flags + 1) as u64); }
    ((pa >> PAGE_SHIFT) << 10) | (flags + PTE_V)
}

/// A valid non-leaf PTE pointing at the table at `pa`.
pub fn table_pte(pa: u64) -> (r: u64)
    requires
        pa < PHYS_LIMIT,
    ensures
        r == spec_pte(pa, 1),
{
    proof { lemma_compose_bits(pa, 1); }
    ((pa >> PAGE_SHIFT) << 10) | PTE_V
}

/// `satp` selecting Sv39 with the root table at `root_pa`.
pub fn satp_for_root(root_pa: u64) -> (r: u64)
    requires
        root_pa < PHYS_LIMIT,
    ensures
        r == spec_satp(root_pa),
{
    proof { lemma_compose_bits(root_pa, 0); }
    SATP_MODE_SV39 | (root_pa >> PAGE_SHIFT)
}

pub fn vpn2_index(va: u64) -> (r: usize)
    ensures
        r == vpn(va, 2),
{
    proof { lemma_vpn_bits(va); }
    ((va >> 30) & 0x1ff) as usize
}

pub fn vpn1_index(va: u64) -> (r: usize)
    ensures
        r == vpn(va, 1),
{
    proof { lemma_vpn_bits(va); }
    ((va >> 21) & 0x1ff) as usize
}

pub fn vpn0_index(va: u64) -> (r: usize)
    ensures
        r == vpn(va, 0),
{
    proof { lemma_vpn_bits(va); }
    ((va >> 12) & 0x1ff) as usize
}

/// `value` rounded down to a page boundary.
pub fn page_align_down(value: u64) -> (r: u64)
    ensures
        r == value - value % 4096,
{
    proof { lemma_align_bits(value); }
    value & !(PAGE_SIZE - 1)
}

/// `value` rounded up to a page boundary.
pub fn page_align_up(value: u64) -> (r: u64)
    requires
        value + 4095 <= u64::MAX,
    ensures
        r % 4096 == 0,
        value <= r < value + 4096,
        r == (value + 4095) - (value + 4095) % 4096,
{
    proof { lemma_align_bits((value + 4095) as u64); }
    (value + (PAGE_SIZE - 1)) & !(PAGE_SIZE - 1)
}

/// `level` as the size of the page it maps.
pub fn leaf_level_name(level: usize) -> (r: &'static str)
    ensures
        level == 0 ==> r@ == "L0-4K"@,
        level == 1 ==> r@ == "L1-2M"@,
        level == 2 ==> r@ == "L2-1G"@,
        level > 2 ==> r@ == "invalid"@,
{
    match level {
        0 => "L0-4K",
        1 => "L1-2M",
        2 => "L2-1G",
        _ => "invalid",
    }
}

/// One 4 KiB page table at physical address `pa`.
#[derive(Clone, Copy)]
pub struct PageTable {
    pub pa: u64,
    pub entries: [u64; PAGE_TABLE_ENTRIES],
}

impl PageTable {
    /// An empty table at `pa`.
    pub fn zeroed(pa: u64) -> (r: Self)
        ensures
            r.pa == pa,
            forall|i: int| 0 <= i < 512 ==> r.entries[i] == 0,
    {
        PageTable { pa, entries: [0u64; PAGE_TABLE_ENTRIES] }
    }
}

/// The slot of the last table among the first `n` whose address is `pa`, or -1.
pub open spec fn slot_in(tables: Seq<PageTable>, pa: u64, n: int) -> int
    decreases n,
{
    if n <= 0 {
        -1
    } else if tables[n - 1].pa == pa {
        n - 1
    } else {
        slot_in(tables, pa, n - 1)
    }
}

pub proof fn lemma_slot_in(tables: Seq<PageTable>, pa: u64, n: int)
    requires
        0 <= n <= tables.len(),
    ensures
        -1 <= slot_in(tables, pa, n) < n,
        slot_in(tables, pa, n) >= 0 ==> tables[slot_in(tables, pa, n)].pa == pa,
        slot_in(tables, pa, n) == -1 ==> forall|i: int| 0 <= i < n ==> tables[i].pa != pa,
    decreases n,
{
    if n > 0 {
        lemma_slot_in(tables, pa, n - 1);
    }
}

/// Entry `index` of the table at `pa`; an address that holds no table of the
/// set reads as an empty table.
pub open spec fn entry_at(tables: Seq<PageTable>, pa: u64, index: usize) -> u64 {
    let slot = slot_in(tables, pa, tables.len() as int);
    if slot >= 0 {
        tables[slot].entries[index as int]
    } else {
        0
    }
}

/// What a three-level walk saw for one virtual address.
#[derive(Clone, Copy)]
pub struct WalkResult {
    pub vpn2: usize,
    pub vpn1: usize,
    pub vpn0: usize,
    pub root_pte: u64,
    pub l1_pte: u64,
    pub l0_pte: u64,
    /// 2, 1 or 0: the level the walk stopped at.
    pub leaf_level: usize,
    pub leaf_pte: u64,
}

/// The walk of `va` from the root table at `root_pa`, stopping at the first
/// invalid or leaf entry.
pub open spec fn spec_walk(tables: Seq<PageTable>, root_pa: u64, va: u64) -> WalkResult {
    let root_pte = entry_at(tables, root_pa, vpn(va, 2));
    if !spec_valid(root_pte) || spec_leaf(root_pte) {
        WalkResult { vpn2: vpn(va, 2), vpn1: vpn(va, 1), vpn0: vpn(va, 0), root_pte, l1_pte: 0, l0_pte: 0, leaf_level: 2, leaf_pte: root_pte }
    } else {
        let l1_pte = entry_at(tables, spec_pte_pa(root_pte), vpn(va, 1));
        if !spec_valid(l1_pte) || spec_leaf(l1_pte) {
            WalkResult { vpn2: vpn(va, 2), vpn1: vpn(va, 1), vpn0: vpn(va, 0), root_pte, l1_pte, l0_pte: 0, leaf_level: 1, leaf_pte: l1_pte }
        } else {
            let l0_pte = entry_at(tables, spec_pte_pa(l1_pte), vpn(va, 0));
            WalkResult { vpn2: vpn(va, 2), vpn1: vpn(va, 1), vpn0: vpn(va, 0), root_pte, l1_pte, l0_pte, leaf_level: 0, leaf_pte: l0_pte }
        }
    }
}

/// The page tables of a kernel, each at its own physical address.
pub struct TableSet {
    pub tables: Vec<PageTable>,
}

impl TableSet {
    pub open spec fn view(&self) -> Seq<PageTable> {
        self.tables@
    }

    /// The slot of the table at `pa`, if the set has one.
    pub fn find(&self, pa: u64) -> (r: Option<usize>)
        ensures
            match r {
                Some(slot) => slot as int == slot_in(self@, pa, self@.len() as int),
                None => slot_in(self@, pa, self@.len() as int) == -1,
            },
    {
        let mut n = self.tables.len();
        while n > 0
            invariant
                n <= self.tables.len(),
                slot_in(self@, pa, self@.len() as int) == slot_in(self@, pa, n as int),
            decreases n,
        {
            if self.tables[n - 1].pa == pa {
                return Some(n - 1);
            }
            n -= 1;
        }
        None
    }

    /// Entry `index` of the table at `pa` (empty if there is none).
    pub fn read_entry(&self, pa: u64, index: usize) -> (r: u64)
        requires
            index < 512,
        ensures
            r == entry_at(self@, pa, index),
    {
        proof { lemma_slot_in(self@, pa, self@.len() as int); }
        match self.find(pa) {
            Some(slot) => self.tables[slot].entries[index],
            None => 0,
        }
    }

    /// Walks `va` from the root table at `root_pa`.
    pub fn walk(&self, root_pa: u64, va: u64) -> (r: WalkResult)
        ensures
            r == spec_walk(self@, root_pa, va),
    {
        let vpn2 = vpn2_index(va);
        let vpn1 = vpn1_index(va);
        let vpn0 = vpn0_index(va);
        let root_pte = self.read_entry(root_pa, vpn2);
        if !pte_is_valid(root_pte) || pte_is_leaf(root_pte) {
            return WalkResult { vpn2, vpn1, vpn0, root_pte, l1_pte: 0, l0_pte: 0, leaf_level: 2, leaf_pte: root_pte };
        }
        let l1_pte = self.read_entry(pte_to_pa(root_pte), vpn1);
        if !pte_is_valid(l1_pte) || pte_is_leaf(l1_pte) {
            return WalkResult { vpn2, vpn1, vpn0, root_pte, l1_pte, l0_pte: 0, leaf_level: 1, leaf_pte: l1_pte };
        }
        let l0_pte = self.read_entry(pte_to_pa(l1_pte), vpn0);
        WalkResult { vpn2, vpn1, vpn0, root_pte, l1_pte, l0_pte, leaf_level: 0, leaf_pte: l0_pte }
    }

    /// Gives the table in `dst` the entries of the table in `src`; `dst` keeps
    /// its own address.
    pub fn copy_table(&mut self, dst: usize, src: usize)
        requires
            dst < old(self)@.len(),
            src < old(self)@.len(),
        ensures
            final(self)@ == old(self)@.update(dst as int, PageTable { entries: old(self)@[src as int].entries, ..old(self)@[dst as int] }),
    {
        let entries = self.tables[src].entries;
        let mut table = self.tables[dst];
        table.entries = entries;
        self.tables.set(dst, table);
    }

    /// Replaces the table in `slot`.
    pub fn set_table(&mut self, slot: usize, table: PageTable)
        requires
            slot < old(self)@.len(),
        ensures
            final(self)@ == old(self)@.update(slot as int, table),
    {
        self.tables.set(slot, table);
    }

    /// Stores `pte` as entry `index` of the table in `slot`.
    pub fn write_entry(&mut self, slot: usize, index: usize, pte: u64)
        requires
            slot < old(self)@.len(),
            index < 512,
        ensures
            final(self)@.len() == old(self)@.len(),
            final(self)@ == old(self)@.update(slot as int, PageTable {
                entries: vstd::array::spec_array_update(old(self)@[slot as int].entries, index as int, pte),
                ..old(self)@[slot as int]
            }),
    {
        let mut table = self.tables[slot];
        table.entries[index] = pte;
        self.tables.set(slot, table);
        proof {
            assert(table.entries@ =~= vstd::array::spec_array_update(old(self)@[slot as int].entries, index as int, pte)@);
        }
    }
}

} // verus!
