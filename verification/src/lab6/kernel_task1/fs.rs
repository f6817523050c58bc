//! The file system: a fixed inode table, a pool of 512-byte data blocks and
//! a pool of pointer blocks. A file's logical block goes through one of its
//! ten direct pointers, or through one, two or three levels of pointer
//! blocks; a zero pointer means "not allocated" (reads as zeros), and a
//! stored pointer is the pool index plus one.
//!
//! Ghost ownership records which inode and logical position every
//! allocated block belongs to; it is what shows that a write to one file
//! never changes another, and that a read gives back what was written.
use vstd::prelude::*;
use super::{FS_MAX_INODES, FS_MAX_DATA_BLOCKS, FS_MAX_PTR_BLOCKS, FS_BLOCK_SIZE, FS_POINTERS_PER_BLOCK,
    FS_DIRECT_POINTERS, FS_NAME_MAX, FS_MAX_DIR_ENTRIES};

verus! {

pub const ROOT_INODE: usize = 0;
pub const NULL_SLOT: u32 = 0;
/// Size of the `#[repr(C)]` layout of [`DiskInode`] and the offsets of its
/// block pointers.
pub const DISK_INODE_SIZE: u32 = 168;
pub const DIRECT_OFFSET: u32 = 116;
pub const SINGLE_OFFSET: u32 = 156;
pub const DOUBLE_OFFSET: u32 = 160;
pub const TRIPLE_OFFSET: u32 = 164;

/// An inode: a file or directory, its name, its children (directories)
/// and its block pointers (files).
#[derive(Clone, Copy)]
pub struct DiskInode {
    pub used: bool,
    pub kind: u8,
    pub highest_level: u8,
    pub name_len: u8,
    pub parent: u16,
    pub name: [u8; FS_NAME_MAX],
    pub size_bytes: u64,
    pub blocks_used: u64,
    pub child_count: u16,
    pub children: [u16; FS_MAX_DIR_ENTRIES],
    pub direct: [u32; FS_DIRECT_POINTERS],
    pub single_indirect: u32,
    pub double_indirect: u32,
    pub triple_indirect: u32,
}

/// Counters of the block-mapping recursion.
#[derive(Clone, Copy, PartialEq, Eq, Structural)]
pub struct InternalDiagnostics {
    pub recursive_calls: u64,
    pub max_recursion_depth: u64,
    pub triple_resolution_calls: u64,
}

/// Blocks one level-`k` pointer block covers (`128^k`), for `k <= 3`.
pub open spec fn pow128(k: nat) -> int {
    if k == 0 { 1 } else if k == 1 { 128 } else if k == 2 { 16384 } else { 2097152 }
}

/// The first logical block of a tree: direct (0), single (1), double (2)
/// or triple (3) indirect.
pub open spec fn tree_start(t: int) -> int {
    if t == 0 { 0 } else if t == 1 { 10 } else if t == 2 { 138 } else { 16522 }
}

/// The data block reached from `slot` through `k` levels of pointer blocks
/// for index `idx` below it; `None` at the first zero pointer.
pub open spec fn walk(ptrs: Seq<[u32; 128]>, slot: u32, k: nat, idx: int) -> Option<int>
    decreases k,
{
    if slot == 0 {
        None
    } else if k == 0 {
        Some(slot - 1)
    } else {
        let span = pow128((k - 1) as nat);
        walk(ptrs, ptrs[slot - 1][idx / span], (k - 1) as nat, idx % span)
    }
}

/// The data block holding logical block `l` of inode `ino`, if allocated.
pub open spec fn block_of(inodes: Seq<DiskInode>, ptrs: Seq<[u32; 128]>, ino: int, l: int) -> Option<int> {
    let n = inodes[ino];
    if l < 0 {
        None
    } else if l < 10 {
        walk(ptrs, n.direct[l], 0, 0)
    } else if l < 138 {
        walk(ptrs, n.single_indirect, 1, l - 10)
    } else if l < 16522 {
        walk(ptrs, n.double_indirect, 2, l - 138)
    } else if l < 2_113_674 {
        walk(ptrs, n.triple_indirect, 3, l - 16522)
    } else {
        None
    }
}

/// The abstract state: the tables, the pools and who owns each block.
pub struct FsView {
    pub inodes: Seq<DiskInode>,
    pub ptrs: Seq<[u32; 128]>,
    pub data: Seq<[u8; 512]>,
    pub next_inode: int,
    pub next_data: int,
    pub next_ptr: int,
    /// Data block `b` belongs to `(inode, logical block)`.
    pub data_owner: Seq<(int, int)>,
    /// Pointer block `p` belongs to `(inode, tree, level, first index)`.
    pub ptr_owner: Seq<(int, int, nat, int)>,
}

/// Byte `off` of inode `ino`'s contents (unallocated blocks read as zero).
pub open spec fn file_byte(v: FsView, ino: int, off: int) -> u8 {
    match block_of(v.inodes, v.ptrs, ino, off / 512) {
        Some(b) => v.data[b][off % 512],
        None => 0,
    }
}

/// `slot` is empty or points at a block owned by position `(ino, t, k, base)`:
/// a data block (`k == 0`) for logical block `tree_start(t) + base`, or a
/// pointer block of level `k` covering indices from `base`.
pub open spec fn slot_ok(v: FsView, slot: u32, ino: int, t: int, k: nat, base: int) -> bool {
    slot == 0 || (if k == 0 {
        slot - 1 < v.next_data && v.data_owner[slot - 1] == (ino, tree_start(t) + base)
    } else {
        slot - 1 < v.next_ptr && v.ptr_owner[slot - 1] == (ino, t, k, base)
    })
}

/// Pointer block `p`'s entries point at blocks of its subtree.
pub open spec fn ptr_block_ok(v: FsView, p: int) -> bool {
    let o = v.ptr_owner[p];
    &&& 1 <= o.2 <= 3
    &&& forall|e: int| 0 <= e < 128 ==> slot_ok(v, #[trigger] v.ptrs[p][e], o.0, o.1, (o.2 - 1) as nat,
        o.3 + e * pow128((o.2 - 1) as nat))
}

/// Inode `ino`'s pointers point at blocks it owns.
pub open spec fn inode_ok(v: FsView, ino: int) -> bool {
    let n = v.inodes[ino];
    &&& forall|j: int| 0 <= j < 10 ==> #[trigger] slot_ok(v, n.direct[j], ino, 0, 0, j)
    &&& slot_ok(v, n.single_indirect, ino, 1, 1, 0)
    &&& slot_ok(v, n.double_indirect, ino, 2, 2, 0)
    &&& slot_ok(v, n.triple_indirect, ino, 3, 3, 0)
}

/// The pools' shape and every pointer's ownership.
pub open spec fn blocks_wf(v: FsView) -> bool {
    &&& v.inodes.len() == FS_MAX_INODES
    &&& v.ptrs.len() == FS_MAX_PTR_BLOCKS
    &&& v.data.len() == FS_MAX_DATA_BLOCKS
    &&& 0 <= v.next_data <= FS_MAX_DATA_BLOCKS
    &&& 0 <= v.next_ptr <= FS_MAX_PTR_BLOCKS
    &&& v.data_owner.len() == v.next_data
    &&& v.ptr_owner.len() == v.next_ptr
    &&& forall|p: int| 0 <= p < v.next_ptr ==> #[trigger] ptr_block_ok(v, p)
    &&& forall|ino: int| 0 <= ino < FS_MAX_INODES ==> #[trigger] inode_ok(v, ino)
}

/// A walk that finds a block finds one owned by the walked position.
pub proof fn lemma_walk_owner(v: FsView, s: u32, ino: int, t: int, k: nat, base: int, idx: int)
    requires
        blocks_wf(v),
        slot_ok(v, s, ino, t, k, base),
        k <= 3,
        0 <= idx < pow128(k),
        walk(v.ptrs, s, k, idx) is Some,
    ensures
        ({
            let b = walk(v.ptrs, s, k, idx)->0;
            0 <= b < v.next_data && v.data_owner[b] == (ino, tree_start(t) + base + idx)
        }),
    decreases k,
{
    if k > 0 {
        let x = s - 1;
        let span = pow128((k - 1) as nat);
        let e = idx / span;
        assert(ptr_block_ok(v, x));
        assert(pow128(k) == span * 128);
        assert(0 <= e < 128 && 0 <= idx % span < span && e * span + idx % span == idx) by (nonlinear_arith)
            requires span > 0, 0 <= idx < span * 128, e == idx / span;
        assert(slot_ok(v, v.ptrs[x][e], ino, t, (k - 1) as nat, base + e * span));
        lemma_walk_owner(v, v.ptrs[x][e], ino, t, (k - 1) as nat, base + e * span, idx % span);
    }
}

/// `new`'s pointer blocks are `old`'s with block `p` all zero and, when
/// `set_entry`, entry `e0` of block `x0` pointing at `p`.
pub open spec fn ptr_inserted(old: FsView, new: FsView, p: int, x0: int, e0: int, set_entry: bool) -> bool {
    &&& new.ptrs.len() == old.ptrs.len()
    &&& forall|x: int, e: int| 0 <= x < FS_MAX_PTR_BLOCKS && 0 <= e < 128 ==> #[trigger] new.ptrs[x][e] == (if x == p {
        0u32 } else if set_entry && x == x0 && e == e0 { (p + 1) as u32 } else { old.ptrs[x][e] })
}

/// `new`'s pointer blocks are `old`'s with entry `e0` of block `x0` set to
/// `value`.
pub open spec fn entry_set(old: FsView, new: FsView, x0: int, e0: int, value: u32) -> bool {
    &&& new.ptrs.len() == old.ptrs.len()
    &&& forall|x: int, e: int| 0 <= x < FS_MAX_PTR_BLOCKS && 0 <= e < 128 ==> #[trigger] new.ptrs[x][e] == (if x == x0
        && e == e0 { value } else { old.ptrs[x][e] })
}

/// The position the entry `e` of pointer block `x` stands for.
pub open spec fn entry_ctx(v: FsView, x: int, e: int) -> (int, int, nat, int) {
    let o = v.ptr_owner[x];
    (o.0, o.1, (o.2 - 1) as nat, o.3 + e * pow128((o.2 - 1) as nat))
}

/// A fresh all-zero pointer block changes no walk: the walks that now reach
/// it stop at its zero entries, as they stopped before at the zero pointer.
pub proof fn lemma_fresh_ptr_invisible(old: FsView, new: FsView, p: int, x0: int, e0: int, set_entry: bool,
    s: u32, ino: int, t: int, k: nat, base: int, idx: int)
    requires
        blocks_wf(old),
        p == old.next_ptr,
        p < FS_MAX_PTR_BLOCKS,
        ptr_inserted(old, new, p, x0, e0, set_entry),
        set_entry ==> 0 <= x0 < old.next_ptr && 0 <= e0 < 128 && old.ptrs[x0][e0] == 0 && old.ptr_owner[x0].2 >= 2,
        slot_ok(old, s, ino, t, k, base),
        k <= 3,
        0 <= idx < pow128(k),
    ensures
        walk(new.ptrs, s, k, idx) == walk(old.ptrs, s, k, idx),
    decreases k,
{
    if s != 0 && k > 0 {
        let x = s - 1;
        let span = pow128((k - 1) as nat);
        let e = idx / span;
        assert(ptr_block_ok(old, x));
        assert(pow128(k) == span * 128);
        assert(0 <= e < 128 && 0 <= idx % span < span) by (nonlinear_arith)
            requires span > 0, 0 <= idx < span * 128, e == idx / span;
        {
            assert(walk(new.ptrs, s, k, idx) == walk(new.ptrs, new.ptrs[x][e], (k - 1) as nat, idx % span));
            assert(walk(old.ptrs, s, k, idx) == walk(old.ptrs, old.ptrs[x][e], (k - 1) as nat, idx % span));
            assert(slot_ok(old, old.ptrs[x][e], ino, t, (k - 1) as nat, base + e * span));
            if set_entry && x == x0 && e == e0 {
                assert(new.ptrs[x][e] == (p + 1) as u32);
                lemma_fresh_ptr_stops(new, p, (k - 1) as nat, idx % span);
            } else {
                assert(new.ptrs[x][e] == old.ptrs[x][e]);
                lemma_fresh_ptr_invisible(old, new, p, x0, e0, set_entry, old.ptrs[x][e], ino, t, (k - 1) as nat,
                    base + e * span, idx % span);
            }
        }
    }
}

/// A walk entering a fresh all-zero pointer block stops there.
pub proof fn lemma_fresh_ptr_stops(new: FsView, p: int, k: nat, idx: int)
    requires
        k >= 1,
        0 <= p < FS_MAX_PTR_BLOCKS,
        0 <= idx,
        forall|e: int| 0 <= e < 128 ==> #[trigger] new.ptrs[p][e] == 0u32,
        k <= 3,
        idx < pow128(k),
    ensures
        walk(new.ptrs, (p + 1) as u32, k, idx) is None,
{
    let span = pow128((k - 1) as nat);
    let e = idx / span;
    assert(pow128(k) == span * 128);
    assert(0 <= e < 128) by (nonlinear_arith)
        requires span > 0, 0 <= idx < span * 128, e == idx / span;
    assert(new.ptrs[p][e] == 0u32);
    assert(walk(new.ptrs, 0u32, (k - 1) as nat, idx % span) is None);
}

/// A fresh data block put into an empty leaf entry changes exactly one
/// walk: the one for the entry's own position, from nothing to that block.
pub proof fn lemma_fresh_data_walk(old: FsView, new: FsView, b: int, x0: int, e0: int,
    s: u32, ino: int, t: int, k: nat, base: int, idx: int)
    requires
        blocks_wf(old),
        0 <= x0 < old.next_ptr,
        0 <= e0 < 128,
        old.ptr_owner[x0].2 == 1,
        old.ptrs[x0][e0] == 0,
        0 <= b < u32::MAX,
        entry_set(old, new, x0, e0, (b + 1) as u32),
        slot_ok(old, s, ino, t, k, base),
        k <= 3,
        0 <= idx < pow128(k),
    ensures
        walk(new.ptrs, s, k, idx) == walk(old.ptrs, s, k, idx) || (walk(old.ptrs, s, k, idx) is None
            && walk(new.ptrs, s, k, idx) == Some(b) && ino == old.ptr_owner[x0].0
            && tree_start(t) + base + idx == tree_start(old.ptr_owner[x0].1) + old.ptr_owner[x0].3 + e0),
    decreases k,
{
    if s != 0 && k > 0 {
        let x = s - 1;
        let span = pow128((k - 1) as nat);
        let e = idx / span;
        assert(ptr_block_ok(old, x));
        assert(pow128(k) == span * 128);
        assert(0 <= e < 128 && 0 <= idx % span < span && e * span + idx % span == idx) by (nonlinear_arith)
            requires span > 0, 0 <= idx < span * 128, e == idx / span;
        assert(walk(new.ptrs, s, k, idx) == walk(new.ptrs, new.ptrs[x][e], (k - 1) as nat, idx % span));
        assert(walk(old.ptrs, s, k, idx) == walk(old.ptrs, old.ptrs[x][e], (k - 1) as nat, idx % span));
        assert(slot_ok(old, old.ptrs[x][e], ino, t, (k - 1) as nat, base + e * span));
        if x == x0 && e == e0 {
            assert(new.ptrs[x][e] == (b + 1) as u32);
            assert(k == 1);
            assert(walk(new.ptrs, (b + 1) as u32, 0, idx % span) == Some(b));
        } else {
            assert(new.ptrs[x][e] == old.ptrs[x][e]);
            lemma_fresh_data_walk(old, new, b, x0, e0, old.ptrs[x][e], ino, t, (k - 1) as nat, base + e * span,
                idx % span);
        }
    }
}

/// Where a block pointer lives: a direct pointer of an inode, an inode's
/// indirect root (tree 1, 2 or 3), or an entry of a pointer block.
#[derive(Clone, Copy, PartialEq, Eq, Structural)]
pub enum SlotLoc {
    Direct(usize, usize),
    Root(usize, usize),
    Entry(usize, usize),
}

/// The pointer at `loc`.
pub open spec fn slot_at(v: FsView, loc: SlotLoc) -> u32 {
    match loc {
        SlotLoc::Direct(ino, j) => v.inodes[ino as int].direct[j as int],
        SlotLoc::Root(ino, t) => if t == 1 { v.inodes[ino as int].single_indirect } else if t == 2 {
            v.inodes[ino as int].double_indirect } else { v.inodes[ino as int].triple_indirect },
        SlotLoc::Entry(x, e) => v.ptrs[x as int][e as int],
    }
}

/// The position the pointer at `loc` stands for.
pub open spec fn loc_ctx(v: FsView, loc: SlotLoc) -> (int, int, nat, int) {
    match loc {
        SlotLoc::Direct(ino, j) => (ino as int, 0, 0, j as int),
        SlotLoc::Root(ino, t) => (ino as int, t as int, t as nat, 0),
        SlotLoc::Entry(x, e) => entry_ctx(v, x as int, e as int),
    }
}

/// `loc` names a pointer of the state.
pub open spec fn loc_valid(v: FsView, loc: SlotLoc) -> bool {
    match loc {
        SlotLoc::Direct(ino, j) => ino < FS_MAX_INODES && j < 10,
        SlotLoc::Root(ino, t) => ino < FS_MAX_INODES && 1 <= t <= 3,
        SlotLoc::Entry(x, e) => x < v.next_ptr && e < 128,
    }
}

/// Everything of an inode but its block pointers.
pub open spec fn same_meta(a: DiskInode, b: DiskInode) -> bool {
    &&& a.used == b.used && a.kind == b.kind && a.highest_level == b.highest_level && a.name_len == b.name_len
    &&& a.parent == b.parent && a.name == b.name && a.size_bytes == b.size_bytes && a.blocks_used == b.blocks_used
    &&& a.child_count == b.child_count && a.children == b.children
}

/// Each indirect root of `b` is `a`'s or was empty in `a`.
pub open spec fn roots_grow(a: DiskInode, b: DiskInode) -> bool {
    &&& (b.single_indirect == a.single_indirect || a.single_indirect == 0)
    &&& (b.double_indirect == a.double_indirect || a.double_indirect == 0)
    &&& (b.triple_indirect == a.triple_indirect || a.triple_indirect == 0)
}

/// `new` came from `old` by allocating blocks: only empty pointers were
/// filled, the pools only grew, and no existing data changed.
pub open spec fn grows(old: FsView, new: FsView) -> bool {
    &&& new.inodes.len() == old.inodes.len()
    &&& new.next_inode == old.next_inode
    &&& old.next_ptr <= new.next_ptr
    &&& old.next_data <= new.next_data
    &&& new.data_owner.subrange(0, old.next_data) == old.data_owner
    &&& new.ptr_owner.subrange(0, old.next_ptr) == old.ptr_owner
    &&& forall|x: int, e: int| 0 <= x < old.next_ptr && 0 <= e < 128 ==>
        #[trigger] new.ptrs[x][e] == old.ptrs[x][e] || old.ptrs[x][e] == 0
    &&& forall|ino: int| 0 <= ino < FS_MAX_INODES ==> #[trigger] same_meta(old.inodes[ino], new.inodes[ino])
        && roots_grow(old.inodes[ino], new.inodes[ino])
    &&& forall|ino: int, j: int| 0 <= ino < FS_MAX_INODES && 0 <= j < 10 ==> #[trigger] new.inodes[ino].direct[j]
        == old.inodes[ino].direct[j] || old.inodes[ino].direct[j] == 0
    &&& forall|b: int| 0 <= b < old.next_data ==> #[trigger] new.data[b] == old.data[b]
}

/// The file system.
pub struct FileSystem {
    pub inodes: Vec<DiskInode>,
    pub data_blocks: Vec<[u8; FS_BLOCK_SIZE]>,
    pub ptr_blocks: Vec<[u32; FS_POINTERS_PER_BLOCK]>,
    pub next_inode: usize,
    pub next_data_block: usize,
    pub next_ptr_block: usize,
    pub diagnostics: InternalDiagnostics,
    pub data_owner: Ghost<Seq<(int, int)>>,
    pub ptr_owner: Ghost<Seq<(int, int, nat, int)>>,
}

impl FileSystem {
    pub open spec fn model(&self) -> FsView {
        FsView {
            inodes: self.inodes@,
            ptrs: self.ptr_blocks@,
            data: self.data_blocks@,
            next_inode: self.next_inode as int,
            next_data: self.next_data_block as int,
            next_ptr: self.next_ptr_block as int,
            data_owner: self.data_owner@,
            ptr_owner: self.ptr_owner@,
        }
    }

    /// The pointer at `loc`.
    pub fn read_slot(&self, loc: SlotLoc) -> (r: u32)
        requires
            blocks_wf(self.model()),
            loc_valid(self.model(), loc),
        ensures
            r == slot_at(self.model(), loc),
    {
        match loc {
            SlotLoc::Direct(ino, j) => self.inodes[ino].direct[j],
            SlotLoc::Root(ino, t) => if t == 1 { self.inodes[ino].single_indirect } else if t == 2 {
                self.inodes[ino].double_indirect } else { self.inodes[ino].triple_indirect },
            SlotLoc::Entry(x, e) => self.ptr_blocks[x][e],
        }
    }

    /// Sets the pointer at `loc`.
    fn write_slot(&mut self, loc: SlotLoc, value: u32)
        requires
            old(self).inodes.len() == FS_MAX_INODES,
            old(self).ptr_blocks.len() == FS_MAX_PTR_BLOCKS,
            loc_valid(old(self).model(), loc),
            loc is Entry ==> old(self).next_ptr_block <= FS_MAX_PTR_BLOCKS,
        ensures
            slot_at(final(self).model(), loc) == value,
            final(self).next_inode == old(self).next_inode,
            final(self).next_data_block == old(self).next_data_block,
            final(self).next_ptr_block == old(self).next_ptr_block,
            final(self).data_owner == old(self).data_owner,
            final(self).ptr_owner == old(self).ptr_owner,
            final(self).data_blocks@ == old(self).data_blocks@,
            final(self).diagnostics == old(self).diagnostics,
            final(self).inodes.len() == old(self).inodes.len(),
            final(self).ptr_blocks.len() == old(self).ptr_blocks.len(),
            match loc {
                SlotLoc::Entry(x, e) => final(self).inodes@ == old(self).inodes@
                    && entry_set(old(self).model(), final(self).model(), x as int, e as int, value),
                _ => final(self).ptr_blocks@ == old(self).ptr_blocks@
                    && forall|i: int| 0 <= i < FS_MAX_INODES && i != loc_ino(loc) ==> #[trigger] final(self).inodes@[i]
                        == old(self).inodes@[i],
            },
            forall|i: int| 0 <= i < FS_MAX_INODES ==> #[trigger] same_meta(old(self).inodes@[i], final(self).inodes@[i]),
            forall|i: int| 0 <= i < FS_MAX_INODES ==> #[trigger] slot_unchanged_but(old(self).inodes@[i], final(self).inodes@[i],
                loc, i),
    {
        match loc {
            SlotLoc::Direct(ino, j) => {
                let mut n = self.inodes[ino];
                n.direct[j] = value;
                self.inodes.set(ino, n);
            },
            SlotLoc::Root(ino, t) => {
                let mut n = self.inodes[ino];
                if t == 1 {
                    n.single_indirect = value;
                } else if t == 2 {
                    n.double_indirect = value;
                } else {
                    n.triple_indirect = value;
                }
                self.inodes.set(ino, n);
            },
            SlotLoc::Entry(x, e) => {
                let mut b = self.ptr_blocks[x];
                b[e] = value;
                self.ptr_blocks.set(x, b);
            },
        }
    }
}

/// The inode `loc` lies in (none for a pointer-block entry).
pub open spec fn loc_ino(loc: SlotLoc) -> int {
    match loc {
        SlotLoc::Direct(ino, _) => ino as int,
        SlotLoc::Root(ino, _) => ino as int,
        SlotLoc::Entry(_, _) => -1,
    }
}

/// Inode `i`'s pointers are unchanged but the one at `loc`.
pub open spec fn slot_unchanged_but(a: DiskInode, b: DiskInode, loc: SlotLoc, i: int) -> bool {
    &&& forall|j: int| 0 <= j < 10 && !(loc == SlotLoc::Direct(i as usize, j as usize)) ==> #[trigger] b.direct[j] == a.direct[j]
    &&& loc != SlotLoc::Root(i as usize, 1) ==> b.single_indirect == a.single_indirect
    &&& loc != SlotLoc::Root(i as usize, 2) ==> b.double_indirect == a.double_indirect
    &&& loc != SlotLoc::Root(i as usize, 3) ==> b.triple_indirect == a.triple_indirect
}

/// An owned pointer stays owned when the pools only grow.
pub proof fn lemma_slot_ok_grows(old: FsView, new: FsView, s: u32, ino: int, t: int, k: nat, base: int)
    requires
        slot_ok(old, s, ino, t, k, base),
        old.next_data <= new.next_data,
        old.next_ptr <= new.next_ptr,
        old.data_owner.len() == old.next_data,
        old.ptr_owner.len() == old.next_ptr,
        0 <= old.next_data <= new.data_owner.len(),
        0 <= old.next_ptr <= new.ptr_owner.len(),
        new.data_owner.subrange(0, old.next_data) == old.data_owner,
        new.ptr_owner.subrange(0, old.next_ptr) == old.ptr_owner,
    ensures
        slot_ok(new, s, ino, t, k, base),
{
    if s != 0 {
        if k == 0 {
            assert(new.data_owner[s - 1] == new.data_owner.subrange(0, old.next_data)[s - 1]);
        } else {
            assert(new.ptr_owner[s - 1] == new.ptr_owner.subrange(0, old.next_ptr)[s - 1]);
        }
    }
}

/// The pointer roots of an inode for each tree.
pub open spec fn root_of(n: DiskInode, t: int) -> u32 {
    if t == 1 { n.single_indirect } else if t == 2 { n.double_indirect } else { n.triple_indirect }
}

/// Allocating a zeroed pointer block, hung below an empty entry or an empty
/// inode root, maps no logical block anywhere.
pub proof fn lemma_block_of_fresh_ptr(old: FsView, new: FsView, p: int, x0: int, e0: int, set_entry: bool, ino0: int, t0: int)
    requires
        blocks_wf(old),
        p == old.next_ptr,
        p < FS_MAX_PTR_BLOCKS,
        ptr_inserted(old, new, p, x0, e0, set_entry),
        set_entry ==> 0 <= x0 < old.next_ptr && 0 <= e0 < 128 && old.ptrs[x0][e0] == 0 && old.ptr_owner[x0].2 >= 2,
        new.inodes.len() == old.inodes.len(),
        set_entry ==> new.inodes == old.inodes,
        !set_entry ==> 0 <= ino0 < FS_MAX_INODES && 1 <= t0 <= 3 && root_of(old.inodes[ino0], t0) == 0
            && root_of(new.inodes[ino0], t0) == (p + 1) as u32,
        !set_entry ==> forall|i: int| 0 <= i < FS_MAX_INODES ==> #[trigger] slot_unchanged_but(old.inodes[i], new.inodes[i],
            SlotLoc::Root(ino0 as usize, t0 as usize), i),
    ensures
        forall|ino: int, l: int| 0 <= ino < FS_MAX_INODES ==> #[trigger] block_of(new.inodes, new.ptrs, ino, l)
            == block_of(old.inodes, old.ptrs, ino, l),
{
    assert forall|ino: int, l: int| 0 <= ino < FS_MAX_INODES implies #[trigger] block_of(new.inodes, new.ptrs, ino, l)
        == block_of(old.inodes, old.ptrs, ino, l) by {
        assert(inode_ok(old, ino));
        let on = old.inodes[ino];
        let nn = new.inodes[ino];
        if !set_entry {
            assert(slot_unchanged_but(on, nn, SlotLoc::Root(ino0 as usize, t0 as usize), ino));
        }
        if 0 <= l < 10 {
            assert(slot_ok(old, on.direct[l], ino, 0, 0, l));
            assert(nn.direct[l] == on.direct[l]);
        } else if 10 <= l < 2_113_674 {
            let t: int = if l < 138 { 1 } else if l < 16522 { 2 } else { 3 };
            let idx = l - tree_start(t);
            assert(0 <= idx < pow128(t as nat));
            assert(slot_ok(old, root_of(on, t), ino, t, t as nat, 0));
            if !set_entry && ino == ino0 && t == t0 {
                lemma_fresh_ptr_stops(new, p, t as nat, idx);
            } else {
                assert(root_of(nn, t) == root_of(on, t));
                lemma_fresh_ptr_invisible(old, new, p, x0, e0, set_entry, root_of(on, t), ino, t, t as nat, 0, idx);
            }
        }
    }
}

/// A fresh data block put into an empty leaf entry maps exactly the entry's
/// own position.
pub proof fn lemma_block_of_fresh_data_entry(old: FsView, new: FsView, b: int, x0: int, e0: int)
    requires
        blocks_wf(old),
        0 <= x0 < old.next_ptr,
        0 <= e0 < 128,
        old.ptr_owner[x0].2 == 1,
        old.ptrs[x0][e0] == 0,
        0 <= b < u32::MAX,
        entry_set(old, new, x0, e0, (b + 1) as u32),
        new.inodes == old.inodes,
    ensures
        forall|ino: int, l: int| 0 <= ino < FS_MAX_INODES ==> #[trigger] block_of(new.inodes, new.ptrs, ino, l)
            == block_of(old.inodes, old.ptrs, ino, l) || (block_of(old.inodes, old.ptrs, ino, l) is None
            && block_of(new.inodes, new.ptrs, ino, l) == Some(b) && ino == old.ptr_owner[x0].0
            && l == tree_start(old.ptr_owner[x0].1) + old.ptr_owner[x0].3 + e0),
{
    assert forall|ino: int, l: int| 0 <= ino < FS_MAX_INODES implies #[trigger] block_of(new.inodes, new.ptrs, ino, l)
        == block_of(old.inodes, old.ptrs, ino, l) || (block_of(old.inodes, old.ptrs, ino, l) is None
        && block_of(new.inodes, new.ptrs, ino, l) == Some(b) && ino == old.ptr_owner[x0].0
        && l == tree_start(old.ptr_owner[x0].1) + old.ptr_owner[x0].3 + e0) by {
        assert(inode_ok(old, ino));
        let on = old.inodes[ino];
        if 0 <= l < 10 {
            assert(slot_ok(old, on.direct[l], ino, 0, 0, l));
        } else if 10 <= l < 2_113_674 {
            let t: int = if l < 138 { 1 } else if l < 16522 { 2 } else { 3 };
            let idx = l - tree_start(t);
            assert(0 <= idx < pow128(t as nat));
            assert(slot_ok(old, root_of(on, t), ino, t, t as nat, 0));
            lemma_fresh_data_walk(old, new, b, x0, e0, root_of(on, t), ino, t, t as nat, 0, idx);
        }
    }
}

/// The walls stay up after a zeroed pointer block is hung at an empty
/// pointer `loc` that stands for a pointer-block position.
pub proof fn lemma_wf_fresh_ptr(old: FsView, new: FsView, p: int, loc: SlotLoc)
    requires
        blocks_wf(old),
        loc_valid(old, loc),
        loc_ctx(old, loc).2 >= 1,
        slot_at(old, loc) == 0,
        p == old.next_ptr,
        p < FS_MAX_PTR_BLOCKS,
        new.inodes.len() == FS_MAX_INODES,
        new.data == old.data,
        new.next_data == old.next_data,
        new.data_owner == old.data_owner,
        new.next_ptr == p + 1,
        new.ptr_owner == old.ptr_owner.push(loc_ctx(old, loc)),
        ptr_inserted(old, new, p, (if loc is Entry { loc->Entry_0 } else { 0 }) as int,
            (if loc is Entry { loc->Entry_1 } else { 0 }) as int, loc is Entry),
        loc is Entry ==> new.inodes == old.inodes,
        !(loc is Entry) ==> slot_at(new, loc) == (p + 1) as u32,
        !(loc is Entry) ==> forall|i: int| 0 <= i < FS_MAX_INODES ==> #[trigger] slot_unchanged_but(old.inodes[i],
            new.inodes[i], loc, i),
    ensures
        blocks_wf(new),
{
    let ctx = loc_ctx(old, loc);
    assert(new.ptr_owner.subrange(0, old.next_ptr) =~= old.ptr_owner);
    assert(new.data_owner.subrange(0, old.next_data) =~= old.data_owner);
    assert(ctx.2 <= 3) by {
        match loc {
            SlotLoc::Entry(x, e) => { assert(ptr_block_ok(old, x as int)); },
            _ => {},
        }
    }
    assert forall|y: int| 0 <= y < new.next_ptr implies #[trigger] ptr_block_ok(new, y) by {
        if y == p {
            assert(new.ptr_owner[y] == ctx);
            assert forall|e: int| 0 <= e < 128 implies slot_ok(new, #[trigger] new.ptrs[y][e], new.ptr_owner[y].0,
                new.ptr_owner[y].1, (new.ptr_owner[y].2 - 1) as nat,
                new.ptr_owner[y].3 + e * pow128((new.ptr_owner[y].2 - 1) as nat)) by {
                assert(new.ptrs[y][e] == 0u32);
            }
        } else {
            assert(ptr_block_ok(old, y));
            assert(new.ptr_owner[y] == old.ptr_owner[y]);
            let o = old.ptr_owner[y];
            assert forall|e: int| 0 <= e < 128 implies slot_ok(new, #[trigger] new.ptrs[y][e], o.0, o.1, (o.2 - 1) as nat,
                o.3 + e * pow128((o.2 - 1) as nat)) by {
                if loc is Entry && y == loc->Entry_0 && e == loc->Entry_1 {
                    assert(new.ptrs[y][e] == (p + 1) as u32);
                    assert(entry_ctx(old, y, e) == ctx);
                } else {
                    assert(new.ptrs[y][e] == old.ptrs[y][e]);
                    assert(slot_ok(old, old.ptrs[y][e], o.0, o.1, (o.2 - 1) as nat, o.3 + e * pow128((o.2 - 1) as nat)));
                    lemma_slot_ok_grows(old, new, old.ptrs[y][e], o.0, o.1, (o.2 - 1) as nat, o.3 + e * pow128((o.2 - 1) as nat));
                }
            }
        }
    }
    assert forall|ino: int| 0 <= ino < FS_MAX_INODES implies #[trigger] inode_ok(new, ino) by {
        assert(inode_ok(old, ino));
        let on = old.inodes[ino];
        let nn = new.inodes[ino];
        if !(loc is Entry) {
            assert(slot_unchanged_but(on, nn, loc, ino));
        }
        assert forall|j: int| 0 <= j < 10 implies #[trigger] slot_ok(new, nn.direct[j], ino, 0, 0, j) by {
            assert(slot_ok(old, on.direct[j], ino, 0, 0, j));
            if loc == SlotLoc::Direct(ino as usize, j as usize) {
                assert(false);
            } else {
                assert(nn.direct[j] == on.direct[j]);
                lemma_slot_ok_grows(old, new, on.direct[j], ino, 0, 0, j);
            }
        }
        assert forall|t: int| 1 <= t <= 3 implies #[trigger] slot_ok(new, root_of(nn, t), ino, t, t as nat, 0) by {
            assert(slot_ok(old, root_of(on, t), ino, t, t as nat, 0));
            if loc == SlotLoc::Root(ino as usize, t as usize) {
                assert(root_of(nn, t) == (p + 1) as u32);
            } else {
                assert(root_of(nn, t) == root_of(on, t));
                lemma_slot_ok_grows(old, new, root_of(on, t), ino, t, t as nat, 0);
            }
        }
        assert(slot_ok(new, root_of(nn, 1), ino, 1, 1, 0));
        assert(slot_ok(new, root_of(nn, 2), ino, 2, 2, 0));
        assert(slot_ok(new, root_of(nn, 3), ino, 3, 3, 0));
    }
}

/// The data position `loc` stands for: `(inode, logical block)`.
pub open spec fn data_target(v: FsView, loc: SlotLoc) -> (int, int) {
    let c = loc_ctx(v, loc);
    (c.0, tree_start(c.1) + c.3)
}

/// The walls stay up after a fresh data block is put at an empty pointer
/// `loc` that stands for a data position.
pub proof fn lemma_wf_fresh_data(old: FsView, new: FsView, b: int, loc: SlotLoc)
    requires
        blocks_wf(old),
        loc_valid(old, loc),
        loc_ctx(old, loc).2 == 0,
        slot_at(old, loc) == 0,
        b == old.next_data,
        b < FS_MAX_DATA_BLOCKS,
        new.inodes.len() == FS_MAX_INODES,
        new.data.len() == FS_MAX_DATA_BLOCKS,
        new.next_data == b + 1,
        new.data_owner == old.data_owner.push(data_target(old, loc)),
        new.next_ptr == old.next_ptr,
        new.ptr_owner == old.ptr_owner,
        loc is Entry ==> new.inodes == old.inodes && entry_set(old, new, loc->Entry_0 as int, loc->Entry_1 as int,
            (b + 1) as u32),
        !(loc is Entry) ==> new.ptrs == old.ptrs && slot_at(new, loc) == (b + 1) as u32,
        !(loc is Entry) ==> forall|i: int| 0 <= i < FS_MAX_INODES ==> #[trigger] slot_unchanged_but(old.inodes[i],
            new.inodes[i], loc, i),
    ensures
        blocks_wf(new),
{
    assert(new.ptr_owner.subrange(0, old.next_ptr) =~= old.ptr_owner);
    assert(new.data_owner.subrange(0, old.next_data) =~= old.data_owner);
    assert forall|y: int| 0 <= y < new.next_ptr implies #[trigger] ptr_block_ok(new, y) by {
        assert(ptr_block_ok(old, y));
        let o = old.ptr_owner[y];
        assert forall|e: int| 0 <= e < 128 implies slot_ok(new, #[trigger] new.ptrs[y][e], o.0, o.1, (o.2 - 1) as nat,
            o.3 + e * pow128((o.2 - 1) as nat)) by {
            if loc is Entry && y == loc->Entry_0 && e == loc->Entry_1 {
                assert(new.ptrs[y][e] == (b + 1) as u32);
                assert(new.data_owner[b] == data_target(old, loc));
            } else {
                assert(new.ptrs[y][e] == old.ptrs[y][e]);
                assert(slot_ok(old, old.ptrs[y][e], o.0, o.1, (o.2 - 1) as nat, o.3 + e * pow128((o.2 - 1) as nat)));
                lemma_slot_ok_grows(old, new, old.ptrs[y][e], o.0, o.1, (o.2 - 1) as nat, o.3 + e * pow128((o.2 - 1) as nat));
            }
        }
    }
    assert forall|ino: int| 0 <= ino < FS_MAX_INODES implies #[trigger] inode_ok(new, ino) by {
        assert(inode_ok(old, ino));
        let on = old.inodes[ino];
        let nn = new.inodes[ino];
        if !(loc is Entry) {
            assert(slot_unchanged_but(on, nn, loc, ino));
        }
        assert forall|j: int| 0 <= j < 10 implies #[trigger] slot_ok(new, nn.direct[j], ino, 0, 0, j) by {
            assert(slot_ok(old, on.direct[j], ino, 0, 0, j));
            if loc == SlotLoc::Direct(ino as usize, j as usize) {
                assert(nn.direct[j] == (b + 1) as u32);
                assert(new.data_owner[b] == data_target(old, loc));
            } else {
                assert(nn.direct[j] == on.direct[j]);
                lemma_slot_ok_grows(old, new, on.direct[j], ino, 0, 0, j);
            }
        }
        assert forall|t: int| 1 <= t <= 3 implies #[trigger] slot_ok(new, root_of(nn, t), ino, t, t as nat, 0) by {
            assert(slot_ok(old, root_of(on, t), ino, t, t as nat, 0));
            assert(root_of(nn, t) == root_of(on, t));
            lemma_slot_ok_grows(old, new, root_of(on, t), ino, t, t as nat, 0);
        }
        assert(slot_ok(new, root_of(nn, 1), ino, 1, 1, 0));
        assert(slot_ok(new, root_of(nn, 2), ino, 2, 2, 0));
        assert(slot_ok(new, root_of(nn, 3), ino, 3, 3, 0));
    }
}

/// A state grows into itself.
pub proof fn lemma_grows_refl(v: FsView)
    requires
        blocks_wf(v),
    ensures
        grows(v, v),
{
    assert(v.data_owner.subrange(0, v.next_data) =~= v.data_owner);
    assert(v.ptr_owner.subrange(0, v.next_ptr) =~= v.ptr_owner);
}

/// What growth keeps of one inode.
pub proof fn lemma_grows_inode(a: FsView, b: FsView, ino: int)
    requires
        grows(a, b),
        0 <= ino < FS_MAX_INODES,
    ensures
        same_meta(a.inodes[ino], b.inodes[ino]),
        roots_grow(a.inodes[ino], b.inodes[ino]),
{
    assert(same_meta(a.inodes[ino], b.inodes[ino]));
    let x = a.inodes[ino];
    let y = b.inodes[ino];
    assert(y.single_indirect == x.single_indirect || x.single_indirect == 0);
}

/// Growth is transitive.
pub proof fn lemma_grows_trans(a: FsView, b: FsView, c: FsView)
    requires
        blocks_wf(a),
        blocks_wf(b),
        blocks_wf(c),
        grows(a, b),
        grows(b, c),
    ensures
        grows(a, c),
{
    assert(c.data_owner.subrange(0, a.next_data) =~= c.data_owner.subrange(0, b.next_data).subrange(0, a.next_data));
    assert(c.ptr_owner.subrange(0, a.next_ptr) =~= c.ptr_owner.subrange(0, b.next_ptr).subrange(0, a.next_ptr));
    assert forall|x: int, e: int| 0 <= x < a.next_ptr && 0 <= e < 128 implies
        #[trigger] c.ptrs[x][e] == a.ptrs[x][e] || a.ptrs[x][e] == 0 by {
        assert(b.ptrs[x][e] == a.ptrs[x][e] || a.ptrs[x][e] == 0);
        assert(c.ptrs[x][e] == b.ptrs[x][e] || b.ptrs[x][e] == 0);
    }
    assert forall|ino: int| 0 <= ino < FS_MAX_INODES implies #[trigger] same_meta(a.inodes[ino], c.inodes[ino])
        && roots_grow(a.inodes[ino], c.inodes[ino]) by {
        assert(same_meta(a.inodes[ino], b.inodes[ino]) && roots_grow(a.inodes[ino], b.inodes[ino]));
        assert(same_meta(b.inodes[ino], c.inodes[ino]) && roots_grow(b.inodes[ino], c.inodes[ino]));
    }
    assert forall|ino: int, j: int| 0 <= ino < FS_MAX_INODES && 0 <= j < 10 implies #[trigger] c.inodes[ino].direct[j]
        == a.inodes[ino].direct[j] || a.inodes[ino].direct[j] == 0 by {
        assert(b.inodes[ino].direct[j] == a.inodes[ino].direct[j] || a.inodes[ino].direct[j] == 0);
        assert(c.inodes[ino].direct[j] == b.inodes[ino].direct[j] || b.inodes[ino].direct[j] == 0);
    }
    assert forall|blk: int| 0 <= blk < a.next_data implies #[trigger] c.data[blk] == a.data[blk] by {
        assert(b.data[blk] == a.data[blk]);
        assert(c.data[blk] == b.data[blk]);
    }
}

/// Every pointer of a well-formed state is owned by its position.
pub proof fn lemma_loc_slot_ok(v: FsView, loc: SlotLoc)
    requires
        blocks_wf(v),
        loc_valid(v, loc),
    ensures
        ({
            let c = loc_ctx(v, loc);
            slot_ok(v, slot_at(v, loc), c.0, c.1, c.2, c.3)
        }),
        loc_ctx(v, loc).2 <= 3,
        loc_ctx(v, loc).0 == loc_ino(loc) || loc is Entry,
{
    match loc {
        SlotLoc::Direct(ino, j) => {
            assert(inode_ok(v, ino as int));
            assert(slot_ok(v, v.inodes[ino as int].direct[j as int], ino as int, 0, 0, j as int));
        },
        SlotLoc::Root(ino, t) => {
            assert(inode_ok(v, ino as int));
        },
        SlotLoc::Entry(x, e) => {
            assert(ptr_block_ok(v, x as int));
            assert(slot_ok(v, v.ptrs[x as int][e as int], entry_ctx(v, x as int, e as int).0, entry_ctx(v, x as int, e as int).1,
                entry_ctx(v, x as int, e as int).2, entry_ctx(v, x as int, e as int).3));
        },
    }
}

impl FileSystem {
    /// The pointer block at `loc`, allocated (zeroed) when empty and
    /// `allocate` is set: `ENOENT` when empty and not allocating, `ENOSPC`
    /// when the pool is used up.
    pub fn ensure_ptr_block(&mut self, loc: SlotLoc, allocate: bool) -> (r: Result<usize, isize>)
        requires
            blocks_wf(old(self).model()),
            loc_valid(old(self).model(), loc),
            loc_ctx(old(self).model(), loc).2 >= 1,
        ensures
            blocks_wf(final(self).model()),
            grows(old(self).model(), final(self).model()),
            forall|ino: int, l: int| 0 <= ino < FS_MAX_INODES ==> #[trigger] block_of(final(self).model().inodes,
                final(self).model().ptrs, ino, l) == block_of(old(self).model().inodes, old(self).model().ptrs, ino, l),
            final(self).data_blocks@ == old(self).data_blocks@,
            final(self).next_data_block == old(self).next_data_block,
            final(self).diagnostics == old(self).diagnostics,
            loc_valid(final(self).model(), loc),
            loc_ctx(final(self).model(), loc) == loc_ctx(old(self).model(), loc),
            ({
                let s0 = slot_at(old(self).model(), loc);
                match r {
                    Ok(p) => slot_at(final(self).model(), loc) == p + 1 && p < final(self).next_ptr_block
                        && final(self).ptr_owner@[p as int] == loc_ctx(old(self).model(), loc)
                        && (s0 != 0 ==> p == s0 - 1 && final(self).model() == old(self).model())
                        && (s0 == 0 ==> allocate && p == old(self).next_ptr_block
                            && forall|e: int| 0 <= e < 128 ==> #[trigger] final(self).model().ptrs[p as int][e] == 0u32),
                    Err(e) => final(self).model() == old(self).model() && s0 == 0 && ((!allocate && e == super::ENOENT)
                        || (allocate && e == super::ENOSPC && old(self).next_ptr_block >= FS_MAX_PTR_BLOCKS)),
                }
            }),
    {
        proof {
            lemma_loc_slot_ok(self.model(), loc);
            lemma_grows_refl(self.model());
        }
        let slot = self.read_slot(loc);
        if slot == NULL_SLOT {
            if !allocate {
                return Err(super::ENOENT);
            }
            if self.next_ptr_block >= FS_MAX_PTR_BLOCKS {
                return Err(super::ENOSPC);
            }
            let p = self.next_ptr_block;
            let ghost old_v = self.model();
            let ghost ctx = loc_ctx(old_v, loc);
            self.next_ptr_block = p + 1;
            let zero = [0u32; FS_POINTERS_PER_BLOCK];
            proof {
                broadcast use vstd::array::axiom_spec_array_fill_for_copy_type;
                assert(forall|e: int| 0 <= e < 128 ==> #[trigger] zero[e] == 0u32);
            }
            self.ptr_blocks.set(p, zero);
            self.ptr_owner = Ghost(self.ptr_owner@.push(ctx));
            let ghost mid = self.model();
            assert(loc_valid(mid, loc));
            self.write_slot(loc, (p + 1) as u32);
            proof {
                let new_v = self.model();
                let set_entry = loc is Entry;
                let x0: int = (if loc is Entry { loc->Entry_0 } else { 0 }) as int;
                let e0: int = (if loc is Entry { loc->Entry_1 } else { 0 }) as int;
                assert forall|x: int, e: int| 0 <= x < FS_MAX_PTR_BLOCKS && 0 <= e < 128 implies #[trigger] new_v.ptrs[x][e]
                    == (if x == p { 0u32 } else if set_entry && x == x0 && e == e0 { (p + 1) as u32 } else { old_v.ptrs[x][e] }) by {
                    if x == p {
                        assert(mid.ptrs[x] == zero);
                    }
                }
                assert(ptr_inserted(old_v, new_v, p as int, x0, e0, set_entry));
                assert(loc_ctx(new_v, loc) == ctx) by {
                    if loc is Entry {
                        assert(new_v.ptr_owner[x0] == old_v.ptr_owner[x0]);
                    }
                }
                if loc is Entry {
                    assert(ptr_block_ok(old_v, x0));
                }
                assert forall|ino: int| 0 <= ino < FS_MAX_INODES implies #[trigger] same_meta(old_v.inodes[ino], new_v.inodes[ino])
                    && roots_grow(old_v.inodes[ino], new_v.inodes[ino]) by {
                    assert(same_meta(mid.inodes[ino], new_v.inodes[ino]));
                    assert(mid.inodes[ino] == old_v.inodes[ino]);
                    if !(loc is Entry) {
                        assert(slot_unchanged_but(mid.inodes[ino], new_v.inodes[ino], loc, ino));
                    }
                }
                assert forall|ino: int, j: int| 0 <= ino < FS_MAX_INODES && 0 <= j < 10 implies #[trigger] new_v.inodes[ino].direct[j]
                    == old_v.inodes[ino].direct[j] || old_v.inodes[ino].direct[j] == 0 by {
                    assert(mid.inodes[ino] == old_v.inodes[ino]);
                    if !(loc is Entry) {
                        assert(slot_unchanged_but(mid.inodes[ino], new_v.inodes[ino], loc, ino));
                    }
                }
                lemma_wf_fresh_ptr(old_v, new_v, p as int, loc);
                lemma_block_of_fresh_ptr(old_v, new_v, p as int, x0, e0, set_entry, loc_ino(loc),
                    (if loc is Root { loc->Root_1 } else { 0 }) as int);
                assert(new_v.ptr_owner.subrange(0, old_v.next_ptr) =~= old_v.ptr_owner);
                assert(new_v.data_owner.subrange(0, old_v.next_data) =~= old_v.data_owner);
            }
            return Ok(p);
        }
        Ok((slot - 1) as usize)
    }
}

/// Filling an empty direct pointer maps exactly that logical block.
pub proof fn lemma_block_of_direct_set(old: FsView, new: FsView, ino0: int, j0: int, b: int)
    requires
        new.ptrs == old.ptrs,
        new.inodes.len() == old.inodes.len(),
        0 <= ino0 < FS_MAX_INODES,
        0 <= j0 < 10,
        0 <= b < u32::MAX,
        new.inodes[ino0].direct[j0] == (b + 1) as u32,
        forall|i: int| 0 <= i < FS_MAX_INODES ==> #[trigger] slot_unchanged_but(old.inodes[i], new.inodes[i],
            SlotLoc::Direct(ino0 as usize, j0 as usize), i),
    ensures
        forall|ino: int, l: int| 0 <= ino < FS_MAX_INODES ==> #[trigger] block_of(new.inodes, new.ptrs, ino, l)
            == (if ino == ino0 && l == j0 { Some(b) } else { block_of(old.inodes, old.ptrs, ino, l) }),
{
    assert forall|ino: int, l: int| 0 <= ino < FS_MAX_INODES implies #[trigger] block_of(new.inodes, new.ptrs, ino, l)
        == (if ino == ino0 && l == j0 { Some(b) } else { block_of(old.inodes, old.ptrs, ino, l) }) by {
        assert(slot_unchanged_but(old.inodes[ino], new.inodes[ino], SlotLoc::Direct(ino0 as usize, j0 as usize), ino));
        if 0 <= l < 10 && !(ino == ino0 && l == j0) {
            assert(new.inodes[ino].direct[l] == old.inodes[ino].direct[l]);
        }
    }
}

/// Only the entry's own position can change, from nothing to `b`.
pub open spec fn maps_gained(old: FsView, new: FsView, target: (int, int), b: int) -> bool {
    forall|ino: int, l: int| 0 <= ino < FS_MAX_INODES ==> #[trigger] block_of(new.inodes, new.ptrs, ino, l)
        == block_of(old.inodes, old.ptrs, ino, l) || (block_of(old.inodes, old.ptrs, ino, l) is None
        && block_of(new.inodes, new.ptrs, ino, l) == Some(b) && (ino, l) == target)
}

/// Every logical block keeps its data block.
pub open spec fn maps_kept(old: FsView, new: FsView) -> bool {
    forall|ino: int, l: int| 0 <= ino < FS_MAX_INODES ==> #[trigger] block_of(new.inodes, new.ptrs, ino, l)
        == block_of(old.inodes, old.ptrs, ino, l)
}

impl FileSystem {
    /// The data block at `loc`, allocated (zeroed) when empty and `allocate`
    /// is set. Returns the block, `level`, and whether it is new.
    pub fn resolve_data_slot(&mut self, loc: SlotLoc, allocate: bool, level: u8) -> (r: Result<(usize, u8, bool), isize>)
        requires
            blocks_wf(old(self).model()),
            loc_valid(old(self).model(), loc),
            loc_ctx(old(self).model(), loc).2 == 0,
        ensures
            blocks_wf(final(self).model()),
            grows(old(self).model(), final(self).model()),
            final(self).next_ptr_block == old(self).next_ptr_block,
            final(self).diagnostics == old(self).diagnostics,
            loc_valid(final(self).model(), loc),
            loc_ctx(final(self).model(), loc) == loc_ctx(old(self).model(), loc),
            ({
                let s0 = slot_at(old(self).model(), loc);
                match r {
                    Ok((b, lv, fresh)) => lv == level && slot_at(final(self).model(), loc) == b + 1
                        && b < final(self).next_data_block
                        && (s0 != 0 ==> !fresh && b == s0 - 1 && final(self).model() == old(self).model())
                        && (s0 == 0 ==> fresh && allocate && b == old(self).next_data_block
                            && (forall|i: int| 0 <= i < 512 ==> #[trigger] final(self).model().data[b as int][i] == 0u8)
                            && maps_gained(old(self).model(), final(self).model(), data_target(old(self).model(), loc), b as int)),
                    Err(e) => final(self).model() == old(self).model() && s0 == 0 && ((!allocate && e == super::ENOENT)
                        || (allocate && e == super::ENOSPC && old(self).next_data_block >= FS_MAX_DATA_BLOCKS)),
                }
            }),
    {
        proof {
            lemma_loc_slot_ok(self.model(), loc);
            lemma_grows_refl(self.model());
        }
        let slot = self.read_slot(loc);
        if slot == NULL_SLOT {
            if !allocate {
                return Err(super::ENOENT);
            }
            if self.next_data_block >= FS_MAX_DATA_BLOCKS {
                return Err(super::ENOSPC);
            }
            let b = self.next_data_block;
            let ghost old_v = self.model();
            let ghost target = data_target(old_v, loc);
            self.next_data_block = b + 1;
            let zero = [0u8; FS_BLOCK_SIZE];
            proof {
                broadcast use vstd::array::axiom_spec_array_fill_for_copy_type;
                assert(forall|i: int| 0 <= i < 512 ==> #[trigger] zero[i] == 0u8);
            }
            self.data_blocks.set(b, zero);
            self.data_owner = Ghost(self.data_owner@.push(target));
            let ghost mid = self.model();
            self.write_slot(loc, (b + 1) as u32);
            proof {
                let new_v = self.model();
                if loc is Entry {
                    assert(ptr_block_ok(old_v, loc->Entry_0 as int));
                    lemma_block_of_fresh_data_entry(old_v, new_v, b as int, loc->Entry_0 as int, loc->Entry_1 as int);
                    assert(new_v.ptr_owner[loc->Entry_0 as int] == old_v.ptr_owner[loc->Entry_0 as int]);
                } else {
                    assert(loc is Direct);
                    lemma_block_of_direct_set(old_v, new_v, loc->Direct_0 as int, loc->Direct_1 as int, b as int);
                }
                assert forall|ino: int| 0 <= ino < FS_MAX_INODES implies #[trigger] same_meta(old_v.inodes[ino], new_v.inodes[ino])
                    && roots_grow(old_v.inodes[ino], new_v.inodes[ino]) by {
                    assert(same_meta(mid.inodes[ino], new_v.inodes[ino]));
                    if !(loc is Entry) {
                        assert(slot_unchanged_but(mid.inodes[ino], new_v.inodes[ino], loc, ino));
                    }
                }
                assert forall|ino: int, j: int| 0 <= ino < FS_MAX_INODES && 0 <= j < 10 implies #[trigger] new_v.inodes[ino].direct[j]
                    == old_v.inodes[ino].direct[j] || old_v.inodes[ino].direct[j] == 0 by {
                    assert(mid.inodes[ino] == old_v.inodes[ino]);
                    if !(loc is Entry) {
                        assert(slot_unchanged_but(mid.inodes[ino], new_v.inodes[ino], loc, ino));
                    }
                }
                lemma_wf_fresh_data(old_v, new_v, b as int, loc);
                assert(new_v.ptr_owner.subrange(0, old_v.next_ptr) =~= old_v.ptr_owner);
                assert(new_v.data_owner.subrange(0, old_v.next_data) =~= old_v.data_owner);
                assert(new_v.data[b as int] == zero);
            }
            return Ok((b, level, true));
        }
        Ok(((slot - 1) as usize, level, false))
    }
}

/// `base^exp`.
pub open spec fn spec_pow(base: int, exp: nat) -> int
    decreases exp,
{
    if exp == 0 { 1 } else { base * spec_pow(base, (exp - 1) as nat) }
}

/// `base^exp` by repeated multiplication (the callers use base 128 and
/// exponents up to 2).
pub fn pow_usize(base: usize, exp: usize) -> (r: usize)
    requires
        base <= 128,
        exp <= 2,
    ensures
        r == spec_pow(base as int, exp as nat),
        base == 128 ==> r == pow128(exp as nat),
{
    let mut result: usize = 1;
    let mut i: usize = 0;
    while i < exp
        invariant
            i <= exp <= 2,
            base <= 128,
            result == spec_pow(base as int, i as nat),
            result <= spec_pow(128, i as nat),
            base == 128 ==> result == pow128(i as nat),
        decreases exp - i,
    {
        assert(spec_pow(128, (i + 1) as nat) == 128 * spec_pow(128, i as nat));
        assert(spec_pow(128, i as nat) <= 16384) by {
            assert(spec_pow(128, 0) == 1);
            assert(spec_pow(128, 1) == 128);
        }
        assert(result * base <= spec_pow(128, i as nat) * 128) by (nonlinear_arith)
            requires result <= spec_pow(128, i as nat), base <= 128, result >= 0;
        assert(spec_pow(base as int, (i + 1) as nat) == base * spec_pow(base as int, i as nat));
        assert(result * base == base * result) by (nonlinear_arith);
        result = result * base;
        i += 1;
    }
    result
}

impl FileSystem {
    /// The data block for index `idx` below the pointer at `loc`, through
    /// `depth` levels of pointer blocks (allocating missing ones when
    /// `allocate`). Counts the levels visited.
    pub fn resolve_indirect_chain(&mut self, loc: SlotLoc, depth: usize, idx: usize, allocate: bool, level: u8,
        recursion_depth: u64) -> (r: Result<(usize, u8, bool), isize>)
        requires
            blocks_wf(old(self).model()),
            loc_valid(old(self).model(), loc),
            1 <= depth <= 3,
            loc_ctx(old(self).model(), loc).2 == depth,
            idx < pow128(depth as nat),
            recursion_depth + depth <= 4,
        ensures
            blocks_wf(final(self).model()),
            grows(old(self).model(), final(self).model()),
            final(self).diagnostics.triple_resolution_calls == old(self).diagnostics.triple_resolution_calls,
            ({
                let c = loc_ctx(old(self).model(), loc);
                let target = (c.0, tree_start(c.1) + c.3 + idx);
                let w = walk(old(self).model().ptrs, slot_at(old(self).model(), loc), depth as nat, idx as int);
                &&& !allocate ==> final(self).model() == old(self).model() && r == (match w {
                    Some(b) => Ok::<(usize, u8, bool), isize>((b as usize, level, false)),
                    None => Err::<(usize, u8, bool), isize>(super::ENOENT),
                })
                &&& allocate ==> match r {
                    Ok((b, lv, fresh)) => lv == level && b < final(self).next_data_block
                        && walk(final(self).model().ptrs, slot_at(final(self).model(), loc), depth as nat, idx as int) == Some(b as int)
                        && fresh == (w is None)
                        && (fresh ==> maps_gained(old(self).model(), final(self).model(), target, b as int)
                            && b >= old(self).next_data_block
                            && forall|i: int| 0 <= i < 512 ==> #[trigger] final(self).model().data[b as int][i] == 0u8)
                        && (!fresh ==> w == Some(b as int) && maps_kept(old(self).model(), final(self).model())),
                    Err(e) => e == super::ENOSPC && w is None && maps_kept(old(self).model(), final(self).model()),
                }
            }),
        decreases depth,
    {
        self.diagnostics.recursive_calls = self.diagnostics.recursive_calls.wrapping_add(1);
        if recursion_depth > self.diagnostics.max_recursion_depth {
            self.diagnostics.max_recursion_depth = recursion_depth;
        }
        let ghost v0 = self.model();
        let ghost c = loc_ctx(v0, loc);
        let ghost s0 = slot_at(v0, loc);
        proof {
            lemma_grows_refl(v0);
            lemma_loc_slot_ok(v0, loc);
        }
        let p = match self.ensure_ptr_block(loc, allocate) {
            Ok(p) => p,
            Err(e) => {
                proof {
                    assert(walk(v0.ptrs, s0, depth as nat, idx as int) is None);
                }
                return Err(e);
            },
        };
        let ghost v1 = self.model();
        proof {
            assert(ptr_block_ok(v1, p as int));
            assert(v1.ptr_owner[p as int] == c);
        }
        if depth == 1 {
            let child = SlotLoc::Entry(p, idx);
            assert(loc_ctx(v1, child) == (c.0, c.1, 0nat, c.3 + idx));
            let r = self.resolve_data_slot(child, allocate, level);
            proof {
                let v2 = self.model();
                lemma_grows_trans(v0, v1, v2);
                assert(slot_at(v2, loc) == slot_at(v1, loc)) by {
                    match loc {
                        SlotLoc::Entry(x, e) => {
                            assert(v2.ptrs[x as int][e as int] == v1.ptrs[x as int][e as int] || v1.ptrs[x as int][e as int] == 0);
                        },
                        SlotLoc::Root(ino, t) => {
                            lemma_grows_inode(v1, v2, ino as int);
                        },
                        SlotLoc::Direct(ino, j) => {},
                    }
                }
                assert(walk(v2.ptrs, slot_at(v2, loc), 1, idx as int) == walk(v2.ptrs, v2.ptrs[p as int][idx as int], 0, 0));
                assert(walk(v1.ptrs, slot_at(v1, loc), 1, idx as int) == walk(v1.ptrs, v1.ptrs[p as int][idx as int], 0, 0));
                assert(data_target(v1, child) == (c.0, tree_start(c.1) + c.3 + idx));
            }
            return r;
        }
        let span = pow_usize(FS_POINTERS_PER_BLOCK, depth - 1);
        let outer = idx / span;
        let rem = idx % span;
        proof {
            assert(pow128(depth as nat) == span * 128);
            assert(0 <= outer < 128 && 0 <= rem < span && outer * span + rem == idx) by (nonlinear_arith)
                requires span > 0, 0 <= idx < span * 128, outer == idx / span, rem == idx % span;
        }
        let child = SlotLoc::Entry(p, outer);
        assert(loc_ctx(v1, child) == (c.0, c.1, (depth - 1) as nat, c.3 + outer * span));
        let r = self.resolve_indirect_chain(child, depth - 1, rem, allocate, level, recursion_depth + 1);
        proof {
            let v2 = self.model();
            lemma_grows_trans(v0, v1, v2);
            assert(slot_at(v2, loc) == slot_at(v1, loc)) by {
                match loc {
                    SlotLoc::Entry(x, e) => {
                        assert(v2.ptrs[x as int][e as int] == v1.ptrs[x as int][e as int] || v1.ptrs[x as int][e as int] == 0);
                    },
                    SlotLoc::Root(ino, t) => {
                        lemma_grows_inode(v1, v2, ino as int);
                    },
                    SlotLoc::Direct(ino, j) => {},
                }
            }
            assert(walk(v2.ptrs, slot_at(v2, loc), depth as nat, idx as int)
                == walk(v2.ptrs, v2.ptrs[p as int][outer as int], (depth - 1) as nat, rem as int));
            assert(walk(v1.ptrs, slot_at(v1, loc), depth as nat, idx as int)
                == walk(v1.ptrs, v1.ptrs[p as int][outer as int], (depth - 1) as nat, rem as int));
        }
        r
    }
}

/// The mapping level of logical block `l`: direct, single, double or
/// triple indirect.
pub open spec fn level_of(l: int) -> u8 {
    if l < 10 { 0 } else if l < 138 { 1 } else if l < 16522 { 2 } else { 3 }
}

/// What resolving logical block `l` of inode `ino` did: without
/// allocation, nothing, and the block or `ENOENT`; with it, the block (new
/// or not) mapped and nothing else remapped, or `ENOSPC`.
pub open spec fn resolved(old: FsView, new: FsView, ino: int, l: int, allocate: bool, r: Result<(usize, u8, bool), isize>) -> bool {
    let w = block_of(old.inodes, old.ptrs, ino, l);
    if l >= 2_113_674 {
        r == Err::<(usize, u8, bool), isize>(super::EFBIG) && new == old
    } else if !allocate {
        new == old && r == (match w {
            Some(b) => Ok::<(usize, u8, bool), isize>((b as usize, level_of(l), false)),
            None => Err::<(usize, u8, bool), isize>(super::ENOENT),
        })
    } else {
        match r {
            Ok((b, lv, fresh)) => lv == level_of(l) && b < new.next_data
                && block_of(new.inodes, new.ptrs, ino, l) == Some(b as int)
                && fresh == (w is None)
                && (fresh ==> maps_gained(old, new, (ino, l), b as int) && b >= old.next_data
                    && forall|i: int| 0 <= i < 512 ==> #[trigger] new.data[b as int][i] == 0u8)
                && (!fresh ==> w == Some(b as int) && maps_kept(old, new)),
            Err(e) => e == super::ENOSPC && w is None && maps_kept(old, new),
        }
    }
}

impl FileSystem {
    /// The data block of logical block `l` of inode `ino` (allocating the
    /// missing blocks on the way when `allocate`), with its mapping level and
    /// whether it is new; `EFBIG` beyond the triple-indirect range.
    pub fn resolve_data_block(&mut self, ino: usize, l: usize, allocate: bool) -> (r: Result<(usize, u8, bool), isize>)
        requires
            blocks_wf(old(self).model()),
            ino < FS_MAX_INODES,
        ensures
            blocks_wf(final(self).model()),
            grows(old(self).model(), final(self).model()),
            resolved(old(self).model(), final(self).model(), ino as int, l as int, allocate, r),
            final(self).diagnostics.triple_resolution_calls == (if 16522 <= l < 2_113_674 {
                old(self).diagnostics.triple_resolution_calls.wrapping_add(1) } else {
                old(self).diagnostics.triple_resolution_calls }),
    {
        proof { lemma_grows_refl(self.model()); }
        let ghost v0 = self.model();
        if l < FS_DIRECT_POINTERS {
            let r = self.resolve_data_slot(SlotLoc::Direct(ino, l), allocate, 0);
            proof {
                let v1 = self.model();
                assert(block_of(v1.inodes, v1.ptrs, ino as int, l as int) == walk(v1.ptrs, slot_at(v1, SlotLoc::Direct(ino, l)), 0, 0));
                assert(block_of(v0.inodes, v0.ptrs, ino as int, l as int) == walk(v0.ptrs, slot_at(v0, SlotLoc::Direct(ino, l)), 0, 0));
                if allocate && r is Ok && !r->Ok_0.2 {
                    assert(v1 == v0);
                    lemma_maps_kept_refl(v0);
                }
            }
            return r;
        }
        let single_limit = FS_DIRECT_POINTERS + FS_POINTERS_PER_BLOCK;
        if l < single_limit {
            let r = self.resolve_indirect_chain(SlotLoc::Root(ino, 1), 1, l - FS_DIRECT_POINTERS, allocate, 1, 1);
            proof { self.lemma_root_walk(v0, ino, l as int, 1); }
            return r;
        }
        let double_start = single_limit;
        let double_capacity = FS_POINTERS_PER_BLOCK * FS_POINTERS_PER_BLOCK;
        if l < double_start + double_capacity {
            let r = self.resolve_indirect_chain(SlotLoc::Root(ino, 2), 2, l - double_start, allocate, 2, 1);
            proof { self.lemma_root_walk(v0, ino, l as int, 2); }
            return r;
        }
        let triple_start = double_start + double_capacity;
        let triple_capacity = FS_POINTERS_PER_BLOCK * FS_POINTERS_PER_BLOCK * FS_POINTERS_PER_BLOCK;
        if l < triple_start + triple_capacity {
            self.diagnostics.triple_resolution_calls = self.diagnostics.triple_resolution_calls.wrapping_add(1);
            let ghost v0b = self.model();
            assert(v0b == v0);
            let r = self.resolve_indirect_chain(SlotLoc::Root(ino, 3), 3, l - triple_start, allocate, 3, 1);
            proof { self.lemma_root_walk(v0, ino, l as int, 3); }
            return r;
        }
        Err(super::EFBIG)
    }

    /// The walk from inode `ino`'s root of tree `t` is its block mapping.
    proof fn lemma_root_walk(&self, v0: FsView, ino: usize, l: int, t: int)
        requires
            1 <= t <= 3,
            tree_start(t) <= l < tree_start(t) + pow128(t as nat),
            ino < FS_MAX_INODES,
        ensures
            block_of(self.model().inodes, self.model().ptrs, ino as int, l) == walk(self.model().ptrs,
                slot_at(self.model(), SlotLoc::Root(ino, t as usize)), t as nat, l - tree_start(t)),
            block_of(v0.inodes, v0.ptrs, ino as int, l) == walk(v0.ptrs, slot_at(v0, SlotLoc::Root(ino, t as usize)), t as nat,
                l - tree_start(t)),
    {
    }
}

/// Every state keeps its own mapping.
pub proof fn lemma_maps_kept_refl(v: FsView)
    ensures
        maps_kept(v, v),
{
}

} // verus!
