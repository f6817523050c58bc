//! The directory tree of the file system: names, lookup by path, and the
//! shape every inode keeps.
use vstd::prelude::*;
use super::{FS_MAX_INODES, FS_MAX_DATA_BLOCKS, FS_MAX_PTR_BLOCKS, FS_NAME_MAX, FS_MAX_DIR_ENTRIES, FS_KIND_DIR,
    FS_LEVEL_DIRECT, ENOENT, ENOTDIR, EEXIST, ENOSPC, ENOTEMPTY, FS_KIND_FILE, FsStat, FsDiagnostics};
use super::fs::{DiskInode, FileSystem, FsView, InternalDiagnostics, ROOT_INODE, blocks_wf, block_of, inode_ok,
    ptr_block_ok, slot_ok, DISK_INODE_SIZE, DIRECT_OFFSET, SINGLE_OFFSET, DOUBLE_OFFSET, TRIPLE_OFFSET};
use crate::lab6::path::{SLASH, components, path_components, path_error, trimmed_end, skip_slashes, comp_end,
    lemma_trim_from, lemma_skip_slashes, lemma_components_step, trimmed_path_end, validate_path, split_error,
    parent_len, leaf_name, lemma_leaf_is_last, split_parent_and_name, split_point, lemma_parent_components};

verus! {

/// The largest file: every block of the triple-indirect range.
pub const MAX_FILE_BYTES: u64 = 1_082_201_088;

/// The name stored in an inode.
pub open spec fn name_of(n: DiskInode) -> Seq<u8> {
    n.name@.subrange(0, n.name_len as int)
}

/// The children of a directory, in order.
pub open spec fn child_list(n: DiskInode) -> Seq<u16> {
    n.children@.subrange(0, n.child_count as int)
}

/// The child of `parent` named `name`, searching its entries from slot `s`.
pub open spec fn find_from(inodes: Seq<DiskInode>, parent: usize, name: Seq<u8>, s: int) -> Option<usize>
    decreases inodes[parent as int].child_count - s,
{
    let n = inodes[parent as int];
    if s < 0 || s >= n.child_count {
        None
    } else if name_of(inodes[n.children[s] as int]) == name {
        Some(n.children[s] as usize)
    } else {
        find_from(inodes, parent, name, s + 1)
    }
}

/// The child of `parent` named `name`, if any.
pub open spec fn find_child_of(inodes: Seq<DiskInode>, parent: usize, name: Seq<u8>) -> Option<usize> {
    find_from(inodes, parent, name, 0)
}

/// Follows the components `cs` down from inode `cur`: `ENOENT` at a missing
/// name, `ENOTDIR` where a non-directory would have to be entered.
pub open spec fn walk_path(inodes: Seq<DiskInode>, cur: usize, cs: Seq<Seq<u8>>) -> Result<usize, isize>
    decreases cs.len(),
{
    if cs.len() == 0 {
        Ok(cur)
    } else {
        match find_child_of(inodes, cur, cs[0]) {
            None => Err(ENOENT),
            Some(ch) => if cs.len() > 1 && inodes[ch as int].kind != FS_KIND_DIR {
                Err(ENOTDIR)
            } else {
                walk_path(inodes, ch, cs.drop_first())
            },
        }
    }
}

/// The inode an absolute path names, or why there is none.
pub open spec fn lookup(inodes: Seq<DiskInode>, p: Seq<u8>) -> Result<usize, isize> {
    match path_error(p) {
        Some(e) => Err(e),
        None => walk_path(inodes, ROOT_INODE, path_components(p)),
    }
}

/// An inode's bounds: its entries, its name, its size, and children that
/// were allocated before `next_inode`.
pub open spec fn inode_shape(n: DiskInode, next_inode: int) -> bool {
    &&& n.child_count <= FS_MAX_DIR_ENTRIES
    &&& n.name_len <= FS_NAME_MAX
    &&& n.size_bytes <= MAX_FILE_BYTES
    &&& forall|s: int| 0 <= s < n.child_count ==> #[trigger] n.children[s] < next_inode
}

/// The namespace invariant.
pub open spec fn ns_wf(v: FsView) -> bool {
    &&& 1 <= v.next_inode <= FS_MAX_INODES
    &&& forall|i: int| 0 <= i < FS_MAX_INODES ==> #[trigger] inode_shape(v.inodes[i], v.next_inode)
    &&& forall|i: int| 0 <= i < FS_MAX_INODES ==> #[trigger] v.inodes[i].blocks_used <= v.next_data
}

/// An inode with every field zero.
pub open spec fn is_blank(n: DiskInode) -> bool {
    &&& !n.used && n.kind == 0 && n.highest_level == 0 && n.name_len == 0 && n.parent == 0
    &&& n.size_bytes == 0 && n.blocks_used == 0 && n.child_count == 0
    &&& forall|k: int| 0 <= k < FS_NAME_MAX ==> #[trigger] n.name[k] == 0u8
    &&& forall|k: int| 0 <= k < FS_MAX_DIR_ENTRIES ==> #[trigger] n.children[k] == 0u16
    &&& zero_ptrs(n)
}

/// An inode that maps no block.
pub open spec fn zero_ptrs(n: DiskInode) -> bool {
    &&& forall|j: int| 0 <= j < 10 ==> #[trigger] n.direct[j] == 0u32
    &&& n.single_indirect == 0 && n.double_indirect == 0 && n.triple_indirect == 0
}

/// `a` and `b` have the same block pointers.
pub open spec fn same_ptrs(a: DiskInode, b: DiskInode) -> bool {
    &&& a.direct == b.direct
    &&& a.single_indirect == b.single_indirect && a.double_indirect == b.double_indirect
    &&& a.triple_indirect == b.triple_indirect
}

impl DiskInode {
    /// An unused inode.
    pub fn empty() -> (r: Self)
        ensures
            is_blank(r),
    {
        let r = DiskInode {
            used: false,
            kind: 0,
            highest_level: 0,
            name_len: 0,
            parent: 0,
            name: [0u8; FS_NAME_MAX],
            size_bytes: 0,
            blocks_used: 0,
            child_count: 0,
            children: [0u16; FS_MAX_DIR_ENTRIES],
            direct: [0u32; 10],
            single_indirect: 0,
            double_indirect: 0,
            triple_indirect: 0,
        };
        proof {
            broadcast use vstd::array::axiom_spec_array_fill_for_copy_type;
            assert(forall|k: int| 0 <= k < FS_NAME_MAX ==> #[trigger] r.name[k] == 0u8);
            assert(forall|k: int| 0 <= k < FS_MAX_DIR_ENTRIES ==> #[trigger] r.children[k] == 0u16);
            assert(forall|j: int| 0 <= j < 10 ==> #[trigger] r.direct[j] == 0u32);
        }
        r
    }
}

/// Changing inode `ino0` without touching the block pointers, or by
/// clearing them all, keeps the pools well formed; every other inode keeps
/// its blocks, and a cleared inode has none.
pub proof fn lemma_inode_replaced(old: FsView, new: FsView, ino0: int)
    requires
        blocks_wf(old),
        0 <= ino0 < FS_MAX_INODES,
        new.inodes == old.inodes.update(ino0, new.inodes[ino0]),
        same_ptrs(old.inodes[ino0], new.inodes[ino0]) || zero_ptrs(new.inodes[ino0]),
        new.ptrs == old.ptrs,
        new.data == old.data,
        new.next_data == old.next_data,
        new.next_ptr == old.next_ptr,
        new.data_owner == old.data_owner,
        new.ptr_owner == old.ptr_owner,
    ensures
        blocks_wf(new),
        forall|ino: int, l: int| 0 <= ino < FS_MAX_INODES ==> #[trigger] block_of(new.inodes, new.ptrs, ino, l)
            == (if ino == ino0 && !same_ptrs(old.inodes[ino0], new.inodes[ino0]) { None } else {
                block_of(old.inodes, old.ptrs, ino, l) }),
{
    assert forall|p: int| 0 <= p < new.next_ptr implies #[trigger] ptr_block_ok(new, p) by {
        assert(ptr_block_ok(old, p));
    }
    assert forall|ino: int| 0 <= ino < FS_MAX_INODES implies #[trigger] inode_ok(new, ino) by {
        assert(inode_ok(old, ino));
        let o = old.inodes[ino];
        let n = new.inodes[ino];
        if ino == ino0 && !same_ptrs(old.inodes[ino0], new.inodes[ino0]) {
            assert forall|j: int| 0 <= j < 10 implies #[trigger] slot_ok(new, n.direct[j], ino, 0, 0, j) by {
                assert(n.direct[j] == 0u32);
            }
            assert(slot_ok(new, n.single_indirect, ino, 1, 1, 0));
            assert(slot_ok(new, n.double_indirect, ino, 2, 2, 0));
            assert(slot_ok(new, n.triple_indirect, ino, 3, 3, 0));
        } else {
            assert(same_ptrs(o, n)) by {
                if ino != ino0 {
                    assert(n == o);
                }
            }
            assert forall|j: int| 0 <= j < 10 implies #[trigger] slot_ok(new, n.direct[j], ino, 0, 0, j) by {
                assert(n.direct[j] == o.direct[j]);
                assert(slot_ok(old, o.direct[j], ino, 0, 0, j));
            }
            assert(slot_ok(old, o.single_indirect, ino, 1, 1, 0));
            assert(slot_ok(old, o.double_indirect, ino, 2, 2, 0));
            assert(slot_ok(old, o.triple_indirect, ino, 3, 3, 0));
            assert(slot_ok(new, n.single_indirect, ino, 1, 1, 0));
            assert(slot_ok(new, n.double_indirect, ino, 2, 2, 0));
            assert(slot_ok(new, n.triple_indirect, ino, 3, 3, 0));
        }
    }
    assert forall|ino: int, l: int| 0 <= ino < FS_MAX_INODES implies #[trigger] block_of(new.inodes, new.ptrs, ino, l)
        == (if ino == ino0 && !same_ptrs(old.inodes[ino0], new.inodes[ino0]) { None } else {
            block_of(old.inodes, old.ptrs, ino, l) }) by {
        if ino == ino0 && !same_ptrs(old.inodes[ino0], new.inodes[ino0]) {
            if 0 <= l < 10 {
                assert(new.inodes[ino].direct[l] == 0u32);
            }
        }
    }
}

impl FileSystem {
    /// The invariant of a file system: its pools and its namespace.
    pub open spec fn wf(&self) -> bool {
        &&& blocks_wf(self.model())
        &&& ns_wf(self.model())
    }

    /// Whether inode `ino` is named `name`.
    pub fn name_matches(&self, ino: usize, name: &[u8]) -> (r: bool)
        requires
            ino < self.inodes.len(),
            self.inodes@[ino as int].name_len <= FS_NAME_MAX,
        ensures
            r == (name_of(self.inodes@[ino as int]) == name@),
    {
        let n = self.inodes[ino];
        let len = n.name_len as usize;
        if len != name.len() {
            assert(name_of(n).len() != name@.len());
            return false;
        }
        let mut i: usize = 0;
        while i < len
            invariant
                i <= len == name.len() <= FS_NAME_MAX,
                len == n.name_len,
                n == self.inodes@[ino as int],
                forall|k: int| 0 <= k < i ==> #[trigger] n.name[k] == name@[k],
            decreases len - i,
        {
            if n.name[i] != name[i] {
                assert(name_of(n)[i as int] != name@[i as int]);
                return false;
            }
            i += 1;
        }
        assert(name_of(n) =~= name@);
        true
    }

    /// The child of directory `parent` named `name`.
    pub fn find_child(&self, parent: usize, name: &[u8]) -> (r: Option<usize>)
        requires
            self.wf(),
            parent < FS_MAX_INODES,
        ensures
            r == find_child_of(self.inodes@, parent, name@),
            r matches Some(c) ==> c < self.next_inode,
    {
        let count = self.inodes[parent].child_count as usize;
        proof {
            assert(inode_shape(self.inodes@[parent as int], self.next_inode as int));
        }
        let mut slot: usize = 0;
        while slot < count
            invariant
                self.wf(),
                parent < FS_MAX_INODES,
                count == self.inodes@[parent as int].child_count,
                count <= FS_MAX_DIR_ENTRIES,
                slot <= count,
                find_child_of(self.inodes@, parent, name@) == find_from(self.inodes@, parent, name@, slot as int),
            decreases count - slot,
        {
            let child = self.inodes[parent].children[slot] as usize;
            proof {
                assert(inode_shape(self.inodes@[parent as int], self.next_inode as int));
                assert(child < self.next_inode);
                assert(inode_shape(self.inodes@[child as int], self.next_inode as int));
            }
            if self.name_matches(child, name) {
                return Some(child);
            }
            slot += 1;
        }
        None
    }
}

/// A path walk ends at an allocated inode.
pub proof fn lemma_walk_path_bound(v: FsView, cur: usize, cs: Seq<Seq<u8>>)
    requires
        ns_wf(v),
        v.inodes.len() == FS_MAX_INODES,
        cur < v.next_inode,
    ensures
        walk_path(v.inodes, cur, cs) matches Ok(i) ==> i < v.next_inode,
    decreases cs.len(),
{
    if cs.len() > 0 {
        lemma_find_from_bound(v, cur, cs[0], 0);
        if let Some(ch) = find_child_of(v.inodes, cur, cs[0]) {
            lemma_walk_path_bound(v, ch, cs.drop_first());
        }
    }
}

/// A found child was allocated.
pub proof fn lemma_find_from_bound(v: FsView, parent: usize, name: Seq<u8>, s: int)
    requires
        ns_wf(v),
        parent < FS_MAX_INODES,
    ensures
        find_from(v.inodes, parent, name, s) matches Some(c) ==> c < v.next_inode,
    decreases v.inodes[parent as int].child_count - s,
{
    assert(inode_shape(v.inodes[parent as int], v.next_inode));
    if 0 <= s < v.inodes[parent as int].child_count {
        lemma_find_from_bound(v, parent, name, s + 1);
    }
}

/// A trimmed path still has components exactly when something is left
/// after `i`.
pub proof fn lemma_components_left(p: Seq<u8>, i: int, end: int)
    requires
        1 <= i <= end <= p.len(),
        end == trimmed_end(p),
    ensures
        (components(p, i, end).len() > 0) == (i < end),
{
    lemma_trim_from(p, p.len() as int);
    if i < end {
        lemma_skip_slashes(p, i, end);
        let s = skip_slashes(p, i, end);
        if s >= end {
            assert(p[end - 1] == SLASH);
        }
    }
}

impl FileSystem {
    /// The inode `path` names.
    pub fn lookup_path(&self, path: &[u8]) -> (r: Result<usize, isize>)
        requires
            self.wf(),
        ensures
            r == lookup(self.inodes@, path@),
            r matches Ok(i) ==> i < self.next_inode,
    {
        proof {
            lemma_walk_path_bound(self.model(), ROOT_INODE, path_components(path@));
        }
        match validate_path(path) {
            Ok(()) => {},
            Err(e) => return Err(e),
        }
        let end = trimmed_path_end(path);
        proof {
            lemma_trim_from(path@, path@.len() as int);
        }
        if end == 1 {
            return Ok(ROOT_INODE);
        }
        let mut current = ROOT_INODE;
        let mut index: usize = 1;
        while index < end
            invariant
                self.wf(),
                1 <= index <= end <= path.len(),
                end == trimmed_end(path@),
                current < self.next_inode,
                path_error(path@) is None,
                lookup(self.inodes@, path@) == walk_path(self.inodes@, current, components(path@, index as int, end as int)),
            decreases end - index,
        {
            let ghost i0 = index as int;
            while index < end && path[index] == SLASH
                invariant
                    i0 <= index <= end <= path.len(),
                    skip_slashes(path@, i0, end as int) == skip_slashes(path@, index as int, end as int),
                decreases end - index,
            {
                index += 1;
            }
            if index >= end {
                assert(components(path@, i0, end as int) == Seq::<Seq<u8>>::empty());
                return Ok(current);
            }
            let start = index;
            while index < end && path[index] != SLASH
                invariant
                    start <= index <= end <= path.len(),
                    comp_end(path@, start as int, end as int) == comp_end(path@, index as int, end as int),
                decreases end - index,
            {
                index += 1;
            }
            let comp = vstd::slice::slice_subrange(path, start, index);
            proof {
                lemma_components_step(path@, i0, start as int, index as int, end as int);
                let cs = components(path@, i0, end as int);
                assert(cs[0] == comp@);
                assert(cs.drop_first() == components(path@, index as int, end as int));
                lemma_components_left(path@, index as int, end as int);
            }
            let child = match self.find_child(current, comp) {
                Some(c) => c,
                None => return Err(ENOENT),
            };
            if index < end && self.inodes[child].kind != FS_KIND_DIR {
                return Err(ENOTDIR);
            }
            current = child;
        }
        assert(components(path@, index as int, end as int) == Seq::<Seq<u8>>::empty());
        Ok(current)
    }
}

/// Everything but the namespace is as it was: pools, owners and counters.
pub open spec fn pools_same(a: FileSystem, b: FileSystem) -> bool {
    &&& b.data_blocks@ == a.data_blocks@
    &&& b.ptr_blocks@ == a.ptr_blocks@
    &&& b.next_data_block == a.next_data_block
    &&& b.next_ptr_block == a.next_ptr_block
    &&& b.data_owner == a.data_owner
    &&& b.ptr_owner == a.ptr_owner
    &&& b.diagnostics == a.diagnostics
}

/// Nothing changed.
pub open spec fn fs_same(a: FileSystem, b: FileSystem) -> bool {
    &&& pools_same(a, b)
    &&& b.inodes@ == a.inodes@
    &&& b.next_inode == a.next_inode
}

/// A freshly allocated inode.
pub open spec fn fresh_inode(n: DiskInode, kind: u8, parent: usize, name: Seq<u8>) -> bool {
    &&& n.used && n.kind == kind && n.highest_level == 0 && name_of(n) == name && n.parent == parent
    &&& n.size_bytes == 0 && n.blocks_used == 0 && n.child_count == 0 && zero_ptrs(n)
}

/// `b` is directory `a` with `child` appended to its entries.
pub open spec fn linked(a: DiskInode, b: DiskInode, child: usize) -> bool {
    &&& b == (DiskInode { children: b.children, child_count: b.child_count, ..a })
    &&& b.child_count == a.child_count + 1
    &&& b.children@ == a.children@.update(a.child_count as int, child as u16)
}

/// The first slot from `s` of directory `a` that holds `child`.
pub open spec fn first_slot_from(a: DiskInode, child: usize, s: int) -> Option<int>
    decreases a.child_count - s,
{
    if s < 0 || s >= a.child_count {
        None
    } else if a.children[s] as usize == child {
        Some(s)
    } else {
        first_slot_from(a, child, s + 1)
    }
}

/// `b` is directory `a` with its first entry for `child` taken out, the
/// later entries moved up and the freed last slot cleared.
pub open spec fn unlinked(a: DiskInode, b: DiskInode, child: usize) -> bool {
    match first_slot_from(a, child, 0) {
        None => b == a,
        Some(k) => {
            &&& b == (DiskInode { children: b.children, child_count: b.child_count, ..a })
            &&& b.child_count == a.child_count - 1
            &&& forall|j: int| 0 <= j < FS_MAX_DIR_ENTRIES ==> #[trigger] b.children[j] == (if j < k {
                a.children[j] } else if j < a.child_count - 1 { a.children[j + 1] } else if j == a.child_count - 1 {
                0u16 } else { a.children[j] })
        },
    }
}

/// A slot found from `s` holds `child` and lies in range.
pub proof fn lemma_first_slot(a: DiskInode, child: usize, s: int)
    requires
        0 <= s,
    ensures
        first_slot_from(a, child, s) matches Some(k) ==> s <= k < a.child_count && a.children[k] as usize == child,
        first_slot_from(a, child, s) is None ==> forall|j: int| s <= j < a.child_count ==> a.children[j] as usize != child,
    decreases a.child_count - s,
{
    if s < a.child_count && a.children[s] as usize != child {
        lemma_first_slot(a, child, s + 1);
    }
}

/// Where creating `p` would link the new inode: its parent directory, or
/// why it cannot be created.
pub open spec fn create_target(inodes: Seq<DiskInode>, p: Seq<u8>) -> Result<usize, isize> {
    match split_error(p) {
        Some(e) => Err(e),
        None => match lookup(inodes, p.subrange(0, parent_len(p))) {
            Err(e) => Err(e),
            Ok(par) => if inodes[par as int].kind != FS_KIND_DIR {
                Err(ENOTDIR)
            } else if find_child_of(inodes, par, leaf_name(p)) is Some {
                Err(EEXIST)
            } else {
                Ok(par)
            },
        },
    }
}

/// What creating `p` as a `kind` node did, from `old` to `new`, returning
/// `r`: the error with nothing changed; `ENOSPC` with nothing changed when
/// the inode table is full; otherwise a fresh inode, linked into its parent
/// unless the parent is full (`ENOSPC`, the inode stays allocated).
pub open spec fn created(old: FileSystem, new: FileSystem, p: Seq<u8>, kind: u8, r: isize) -> bool {
    match create_target(old.inodes@, p) {
        Err(e) => r == e && fs_same(old, new),
        Ok(par) => if old.next_inode >= FS_MAX_INODES {
            r == ENOSPC && fs_same(old, new)
        } else {
            let ni = old.next_inode;
            &&& pools_same(old, new)
            &&& new.next_inode == ni + 1
            &&& fresh_inode(new.inodes@[ni as int], kind, par, leaf_name(p))
            &&& if old.inodes@[par as int].child_count >= FS_MAX_DIR_ENTRIES {
                r == ENOSPC && new.inodes@ == old.inodes@.update(ni as int, new.inodes@[ni as int])
            } else {
                &&& r == 0
                &&& new.inodes@ == old.inodes@.update(ni as int, new.inodes@[ni as int]).update(par as int,
                    new.inodes@[par as int])
                &&& linked(old.inodes@[par as int], new.inodes@[par as int], ni)
            }
        },
    }
}

impl FileSystem {
    /// A formatted file system: an empty root directory `/`.
    pub fn init() -> (fs: FileSystem)
        ensures
            fs.wf(),
            fs.next_inode == 1,
            fs.next_data_block == 0,
            fs.next_ptr_block == 0,
            fs.diagnostics == (InternalDiagnostics { recursive_calls: 0, max_recursion_depth: 0, triple_resolution_calls: 0 }),
            forall|i: int| 1 <= i < FS_MAX_INODES ==> #[trigger] is_blank(fs.inodes@[i]),
            fresh_inode(fs.inodes@[ROOT_INODE as int], FS_KIND_DIR, ROOT_INODE, seq![SLASH]),
    {
        let mut inodes: Vec<DiskInode> = Vec::new();
        let mut i: usize = 0;
        while i < FS_MAX_INODES
            invariant
                inodes.len() == i,
                i <= FS_MAX_INODES,
                forall|k: int| 0 <= k < i ==> #[trigger] is_blank(inodes@[k]),
            decreases FS_MAX_INODES - i,
        {
            inodes.push(DiskInode::empty());
            i += 1;
        }
        let mut root = DiskInode::empty();
        root.used = true;
        root.kind = FS_KIND_DIR;
        root.highest_level = FS_LEVEL_DIRECT;
        root.name_len = 1;
        root.parent = ROOT_INODE as u16;
        root.name[0] = SLASH;
        assert(zero_ptrs(root));
        let ghost before = inodes@;
        inodes.set(ROOT_INODE, root);
        let mut data_blocks: Vec<[u8; 512]> = Vec::new();
        let mut d: usize = 0;
        while d < FS_MAX_DATA_BLOCKS
            invariant
                data_blocks.len() == d,
                d <= FS_MAX_DATA_BLOCKS,
            decreases FS_MAX_DATA_BLOCKS - d,
        {
            data_blocks.push([0u8; 512]);
            d += 1;
        }
        let mut ptr_blocks: Vec<[u32; 128]> = Vec::new();
        let mut q: usize = 0;
        while q < FS_MAX_PTR_BLOCKS
            invariant
                ptr_blocks.len() == q,
                q <= FS_MAX_PTR_BLOCKS,
            decreases FS_MAX_PTR_BLOCKS - q,
        {
            ptr_blocks.push([0u32; 128]);
            q += 1;
        }
        let fs = FileSystem {
            inodes,
            data_blocks,
            ptr_blocks,
            next_inode: 1,
            next_data_block: 0,
            next_ptr_block: 0,
            diagnostics: InternalDiagnostics { recursive_calls: 0, max_recursion_depth: 0, triple_resolution_calls: 0 },
            data_owner: Ghost(Seq::empty()),
            ptr_owner: Ghost(Seq::empty()),
        };
        proof {
            let v = fs.model();
            assert(name_of(root) =~= seq![SLASH]);
            assert forall|ino: int| 0 <= ino < FS_MAX_INODES implies #[trigger] inode_ok(v, ino) by {
                let n = v.inodes[ino];
                if ino != 0 {
                    assert(n == before[ino]);
                    assert(is_blank(before[ino]));
                }
                assert(zero_ptrs(n));
                assert forall|j: int| 0 <= j < 10 implies #[trigger] slot_ok(v, n.direct[j], ino, 0, 0, j) by {
                    assert(n.direct[j] == 0u32);
                }
            }
            assert forall|k: int| 0 <= k < FS_MAX_INODES implies #[trigger] inode_shape(v.inodes[k], 1) by {
                if k != 0 {
                    assert(v.inodes[k] == before[k]);
                    assert(is_blank(before[k]));
                }
                assert(v.inodes[k].child_count == 0);
            }
            assert forall|k: int| 0 <= k < FS_MAX_INODES implies #[trigger] v.inodes[k].blocks_used <= v.next_data by {
                if k != 0 {
                    assert(v.inodes[k] == before[k]);
                    assert(is_blank(before[k]));
                }
            }
            assert(blocks_wf(v));
            assert(ns_wf(v));
        }
        fs
    }

    /// The inode layout and the block-mapping counters.
    pub fn diagnostics(&self) -> (r: FsDiagnostics)
        ensures
            r == (FsDiagnostics {
                disk_inode_size: DISK_INODE_SIZE,
                direct_offset: DIRECT_OFFSET,
                single_offset: SINGLE_OFFSET,
                double_offset: DOUBLE_OFFSET,
                triple_offset: TRIPLE_OFFSET,
                recursive_calls: self.diagnostics.recursive_calls,
                max_recursion_depth: self.diagnostics.max_recursion_depth,
                triple_resolution_calls: self.diagnostics.triple_resolution_calls,
                pointer_blocks_used: self.next_ptr_block as u64,
                data_blocks_used: self.next_data_block as u64,
            }),
    {
        FsDiagnostics {
            disk_inode_size: DISK_INODE_SIZE,
            direct_offset: DIRECT_OFFSET,
            single_offset: SINGLE_OFFSET,
            double_offset: DOUBLE_OFFSET,
            triple_offset: TRIPLE_OFFSET,
            recursive_calls: self.diagnostics.recursive_calls,
            max_recursion_depth: self.diagnostics.max_recursion_depth,
            triple_resolution_calls: self.diagnostics.triple_resolution_calls,
            pointer_blocks_used: self.next_ptr_block as u64,
            data_blocks_used: self.next_data_block as u64,
        }
    }

    /// Takes the next inode for a `kind` node named `name` under `parent`;
    /// `ENOSPC` when the table is full.
    pub(crate) fn allocate_inode(&mut self, kind: u8, parent: usize, name: &[u8]) -> (r: Result<usize, isize>)
        requires
            old(self).wf(),
            parent < old(self).next_inode,
            name.len() < FS_NAME_MAX,
        ensures
            final(self).wf(),
            pools_same(*old(self), *final(self)),
            match r {
                Ok(i) => i == old(self).next_inode && i < FS_MAX_INODES && final(self).next_inode == i + 1
                    && final(self).inodes@ == old(self).inodes@.update(i as int, final(self).inodes@[i as int])
                    && fresh_inode(final(self).inodes@[i as int], kind, parent, name@),
                Err(e) => e == ENOSPC && old(self).next_inode >= FS_MAX_INODES && fs_same(*old(self), *final(self)),
            },
    {
        if self.next_inode >= FS_MAX_INODES {
            return Err(ENOSPC);
        }
        let ghost old_v = self.model();
        let ino = self.next_inode;
        self.next_inode = ino + 1;
        let mut n = DiskInode::empty();
        n.used = true;
        n.kind = kind;
        n.name_len = name.len() as u8;
        n.parent = parent as u16;
        let mut k: usize = 0;
        while k < name.len()
            invariant
                k <= name.len() < FS_NAME_MAX,
                n.used && n.kind == kind && n.name_len == name.len() && n.parent == parent,
                n.highest_level == 0 && n.size_bytes == 0 && n.blocks_used == 0 && n.child_count == 0,
                zero_ptrs(n),
                forall|j: int| 0 <= j < k ==> #[trigger] n.name[j] == name@[j],
            decreases name.len() - k,
        {
            n.name[k] = name[k];
            k += 1;
        }
        self.inodes.set(ino, n);
        proof {
            let v = self.model();
            assert(name_of(n) =~= name@);
            lemma_inode_replaced(old_v, v, ino as int);
            assert forall|i: int| 0 <= i < FS_MAX_INODES implies #[trigger] inode_shape(v.inodes[i], v.next_inode) by {
                if i != ino {
                    assert(inode_shape(old_v.inodes[i], old_v.next_inode));
                }
            }
            assert forall|i: int| 0 <= i < FS_MAX_INODES implies #[trigger] v.inodes[i].blocks_used <= v.next_data by {
                if i != ino {
                    assert(old_v.inodes[i].blocks_used <= old_v.next_data);
                }
            }
        }
        Ok(ino)
    }

    /// Appends `child` to directory `parent`'s entries; `ENOSPC` when full.
    fn add_child(&mut self, parent: usize, child: usize) -> (r: isize)
        requires
            old(self).wf(),
            parent < FS_MAX_INODES,
            child < old(self).next_inode,
        ensures
            final(self).wf(),
            pools_same(*old(self), *final(self)),
            final(self).next_inode == old(self).next_inode,
            if old(self).inodes@[parent as int].child_count >= FS_MAX_DIR_ENTRIES {
                r == ENOSPC && final(self).inodes@ == old(self).inodes@
            } else {
                r == 0 && final(self).inodes@ == old(self).inodes@.update(parent as int, final(self).inodes@[parent as int])
                    && linked(old(self).inodes@[parent as int], final(self).inodes@[parent as int], child)
            },
    {
        let count = self.inodes[parent].child_count as usize;
        if count >= FS_MAX_DIR_ENTRIES {
            return ENOSPC;
        }
        let ghost old_v = self.model();
        let mut n = self.inodes[parent];
        n.children[count] = child as u16;
        n.child_count = n.child_count + 1;
        self.inodes.set(parent, n);
        proof {
            let v = self.model();
            lemma_inode_replaced(old_v, v, parent as int);
            assert(inode_shape(old_v.inodes[parent as int], old_v.next_inode));
            assert forall|i: int| 0 <= i < FS_MAX_INODES implies #[trigger] inode_shape(v.inodes[i], v.next_inode) by {
                assert(inode_shape(old_v.inodes[i], old_v.next_inode));
                if i == parent {
                    assert forall|s: int| 0 <= s < n.child_count implies #[trigger] n.children[s] < v.next_inode by {
                        if s < count {
                            assert(old_v.inodes[i].children[s] < old_v.next_inode);
                        }
                    }
                }
            }
            assert forall|i: int| 0 <= i < FS_MAX_INODES implies #[trigger] v.inodes[i].blocks_used <= v.next_data by {
                assert(old_v.inodes[i].blocks_used <= old_v.next_data);
            }
        }
        0
    }

    /// Takes `child` out of directory `parent`'s entries, keeping the order
    /// of the others.
    fn remove_child(&mut self, parent: usize, child: usize)
        requires
            old(self).wf(),
            parent < FS_MAX_INODES,
        ensures
            final(self).wf(),
            pools_same(*old(self), *final(self)),
            final(self).next_inode == old(self).next_inode,
            final(self).inodes@ == old(self).inodes@.update(parent as int, final(self).inodes@[parent as int]),
            unlinked(old(self).inodes@[parent as int], final(self).inodes@[parent as int], child),
    {
        let ghost a = self.inodes@[parent as int];
        let ghost old_v = self.model();
        let count = self.inodes[parent].child_count as usize;
        proof {
            assert(inode_shape(a, old_v.next_inode));
        }
        let mut slot: usize = 0;
        while slot < count
            invariant
                slot <= count == a.child_count <= FS_MAX_DIR_ENTRIES,
                self.model() == old_v,
                self.diagnostics == old(self).diagnostics,
                self.inodes@ == old_v.inodes,
                self.inodes.len() == FS_MAX_INODES,
                blocks_wf(old_v),
                ns_wf(old_v),
                old_v == old(self).model(),
                parent < FS_MAX_INODES,
                a == old_v.inodes[parent as int],
                first_slot_from(a, child, 0) == first_slot_from(a, child, slot as int),
            decreases count - slot,
        {
            if self.inodes[parent].children[slot] as usize == child {
                let mut n = self.inodes[parent];
                let mut shift = slot;
                while shift + 1 < count
                    invariant
                        slot <= shift < count <= FS_MAX_DIR_ENTRIES,
                        n == (DiskInode { children: n.children, ..a }),
                        forall|j: int| 0 <= j < FS_MAX_DIR_ENTRIES ==> #[trigger] n.children[j] == (if j < slot {
                            a.children[j] } else if j < shift { a.children[j + 1] } else { a.children[j] }),
                    decreases count - shift,
                {
                    n.children[shift] = n.children[shift + 1];
                    shift += 1;
                }
                n.children[count - 1] = 0;
                n.child_count = n.child_count - 1;
                self.inodes.set(parent, n);
                proof {
                    let v = self.model();
                    assert(first_slot_from(a, child, slot as int) == Some(slot as int));
                    lemma_inode_replaced(old_v, v, parent as int);
                    assert forall|i: int| 0 <= i < FS_MAX_INODES implies #[trigger] inode_shape(v.inodes[i], v.next_inode) by {
                        assert(inode_shape(old_v.inodes[i], old_v.next_inode));
                        if i == parent {
                            assert forall|s: int| 0 <= s < n.child_count implies #[trigger] n.children[s] < v.next_inode by {
                                assert(a.children[s] < old_v.next_inode);
                                assert(a.children[s + 1] < old_v.next_inode);
                            }
                        }
                    }
                    assert forall|i: int| 0 <= i < FS_MAX_INODES implies #[trigger] v.inodes[i].blocks_used <= v.next_data by {
                        assert(old_v.inodes[i].blocks_used <= old_v.next_data);
                    }
                }
                return;
            }
            slot += 1;
        }
        proof {
            assert(self.inodes@ == old_v.inodes.update(parent as int, self.inodes@[parent as int]));
        }
    }

    /// Creates a `kind` node at `path` under an existing directory.
    fn create_node(&mut self, path: &[u8], kind: u8) -> (r: isize)
        requires
            old(self).wf(),
        ensures
            final(self).wf(),
            created(*old(self), *final(self), path@, kind, r),
    {
        let (parent_path, name) = match split_parent_and_name(path) {
            Ok(pair) => pair,
            Err(e) => return e,
        };
        proof {
            lemma_leaf_is_last(path@);
        }
        let parent_index = match self.lookup_path(parent_path) {
            Ok(i) => i,
            Err(e) => return e,
        };
        if self.inodes[parent_index].kind != FS_KIND_DIR {
            return ENOTDIR;
        }
        if self.find_child(parent_index, name).is_some() {
            return EEXIST;
        }
        let ghost old_fs = *self;
        let new_inode = match self.allocate_inode(kind, parent_index, name) {
            Ok(i) => i,
            Err(e) => return e,
        };
        let ghost mid = *self;
        let r = self.add_child(parent_index, new_inode);
        proof {
            assert(parent_index != new_inode);
            assert(mid.inodes@[parent_index as int] == old_fs.inodes@[parent_index as int]);
            if r == 0 {
                assert(self.inodes@[new_inode as int] == mid.inodes@[new_inode as int]);
            }
        }
        r
    }

    /// Creates a directory at `path`.
    pub fn create_dir(&mut self, path: &[u8]) -> (r: isize)
        requires
            old(self).wf(),
        ensures
            final(self).wf(),
            created(*old(self), *final(self), path@, FS_KIND_DIR, r),
    {
        self.create_node(path, FS_KIND_DIR)
    }

    /// Creates an empty file at `path`.
    pub fn create_file(&mut self, path: &[u8]) -> (r: isize)
        requires
            old(self).wf(),
        ensures
            final(self).wf(),
            created(*old(self), *final(self), path@, FS_KIND_FILE, r),
    {
        self.create_node(path, FS_KIND_FILE)
    }
}

/// What removing `p` unlinks: its parent and itself, or why it cannot.
pub open spec fn remove_target(inodes: Seq<DiskInode>, p: Seq<u8>) -> Result<(usize, usize), isize> {
    match split_error(p) {
        Some(e) => Err(e),
        None => match lookup(inodes, p.subrange(0, parent_len(p))) {
            Err(e) => Err(e),
            Ok(par) => match find_child_of(inodes, par, leaf_name(p)) {
                None => Err(ENOENT),
                Some(c) => if inodes[c as int].kind == FS_KIND_DIR && inodes[c as int].child_count != 0 {
                    Err(ENOTEMPTY)
                } else {
                    Ok((par, c))
                },
            },
        },
    }
}

/// The listing of directory `dir`'s first `s` entries: each name and a
/// newline.
pub open spec fn listing_upto(inodes: Seq<DiskInode>, dir: usize, s: int) -> Seq<u8>
    decreases s,
{
    if s <= 0 {
        Seq::empty()
    } else {
        listing_upto(inodes, dir, s - 1) + name_of(inodes[inodes[dir as int].children[s - 1] as int]) + seq![10u8]
    }
}

/// The listing of directory `dir`.
pub open spec fn listing(inodes: Seq<DiskInode>, dir: usize) -> Seq<u8> {
    listing_upto(inodes, dir, inodes[dir as int].child_count as int)
}

/// Listings only grow, by at most a name and a newline per entry.
pub proof fn lemma_listing_len(v: FsView, dir: usize, s: int, t: int)
    requires
        ns_wf(v),
        v.inodes.len() == FS_MAX_INODES,
        dir < FS_MAX_INODES,
        0 <= s <= t <= v.inodes[dir as int].child_count,
    ensures
        listing_upto(v.inodes, dir, s).len() <= listing_upto(v.inodes, dir, t).len(),
        listing_upto(v.inodes, dir, t).len() <= 25 * t,
    decreases t,
{
    if t > 0 {
        assert(inode_shape(v.inodes[dir as int], v.next_inode));
        let c = v.inodes[dir as int].children[t - 1];
        assert(c < v.next_inode);
        assert(inode_shape(v.inodes[c as int], v.next_inode));
        if s < t {
            lemma_listing_len(v, dir, s, t - 1);
        } else {
            lemma_listing_len(v, dir, t - 1, t - 1);
        }
    }
}

impl FileSystem {
    /// The kind, level, size, blocks and entries of the inode at `path`.
    pub fn stat(&self, path: &[u8], stat: &mut FsStat) -> (r: isize)
        requires
            self.wf(),
        ensures
            match lookup(self.inodes@, path@) {
                Err(e) => r == e && *final(stat) == *old(stat),
                Ok(i) => {
                    let n = self.inodes@[i as int];
                    r == 0 && *final(stat) == (FsStat { kind: n.kind, highest_level: n.highest_level, size_bytes: n.size_bytes,
                        blocks_used: n.blocks_used, child_count: n.child_count as u64 })
                },
            },
    {
        let i = match self.lookup_path(path) {
            Ok(i) => i,
            Err(e) => return e,
        };
        stat.kind = self.inodes[i].kind;
        stat.highest_level = self.inodes[i].highest_level;
        stat.size_bytes = self.inodes[i].size_bytes;
        stat.blocks_used = self.inodes[i].blocks_used;
        stat.child_count = self.inodes[i].child_count as u64;
        0
    }

    /// Removes the file or empty directory at `path`; its inode is cleared
    /// and taken out of its parent (its blocks are not reclaimed).
    pub fn remove(&mut self, path: &[u8]) -> (r: isize)
        requires
            old(self).wf(),
        ensures
            final(self).wf(),
            pools_same(*old(self), *final(self)),
            final(self).next_inode == old(self).next_inode,
            match remove_target(old(self).inodes@, path@) {
                Err(e) => r == e && fs_same(*old(self), *final(self)),
                Ok((par, c)) => {
                    &&& r == 0
                    &&& c != par ==> is_blank(final(self).inodes@[c as int])
                        && final(self).inodes@ == old(self).inodes@.update(c as int, final(self).inodes@[c as int]).update(
                            par as int, final(self).inodes@[par as int])
                        && unlinked(old(self).inodes@[par as int], final(self).inodes@[par as int], c)
                    &&& c == par ==> is_blank(final(self).inodes@[c as int])
                        && final(self).inodes@ == old(self).inodes@.update(c as int, final(self).inodes@[c as int])
                },
            },
    {
        let (parent_path, name) = match split_parent_and_name(path) {
            Ok(pair) => pair,
            Err(e) => return e,
        };
        let parent_index = match self.lookup_path(parent_path) {
            Ok(i) => i,
            Err(e) => return e,
        };
        let child_index = match self.find_child(parent_index, name) {
            Some(c) => c,
            None => return ENOENT,
        };
        if self.inodes[child_index].kind == FS_KIND_DIR && self.inodes[child_index].child_count != 0 {
            return ENOTEMPTY;
        }
        let ghost old_v = self.model();
        self.inodes.set(child_index, DiskInode::empty());
        proof {
            let v = self.model();
            lemma_inode_replaced(old_v, v, child_index as int);
            assert forall|i: int| 0 <= i < FS_MAX_INODES implies #[trigger] inode_shape(v.inodes[i], v.next_inode) by {
                assert(inode_shape(old_v.inodes[i], old_v.next_inode));
            }
            assert forall|i: int| 0 <= i < FS_MAX_INODES implies #[trigger] v.inodes[i].blocks_used <= v.next_data by {
                assert(old_v.inodes[i].blocks_used <= old_v.next_data);
            }
        }
        let ghost mid = self.inodes@;
        self.remove_child(parent_index, child_index);
        proof {
            if child_index == parent_index {
                assert(first_slot_from(mid[parent_index as int], child_index, 0) is None);
            }
        }
        0
    }

    /// Writes the names of the entries of the directory at `path` into
    /// `dst`, one per line; `ENOSPC` when they do not fit (the entries that
    /// fit are written).
    pub fn list_dir(&self, path: &[u8], dst: &mut [u8]) -> (r: isize)
        requires
            self.wf(),
        ensures
            final(dst)@.len() == old(dst)@.len(),
            match lookup(self.inodes@, path@) {
                Err(e) => r == e && final(dst)@ == old(dst)@,
                Ok(i) => if self.inodes@[i as int].kind != FS_KIND_DIR {
                    r == ENOTDIR && final(dst)@ == old(dst)@
                } else {
                    let l = listing(self.inodes@, i);
                    if l.len() <= old(dst)@.len() {
                        r == l.len() && final(dst)@ == l + old(dst)@.subrange(l.len() as int, old(dst)@.len() as int)
                    } else {
                        r == ENOSPC && exists|s: int| 0 <= s <= self.inodes@[i as int].child_count
                            && #[trigger] listing_upto(self.inodes@, i, s).len() <= old(dst)@.len()
                            && final(dst)@ == listing_upto(self.inodes@, i, s) + old(dst)@.subrange(
                                listing_upto(self.inodes@, i, s).len() as int, old(dst)@.len() as int)
                    }
                },
            },
    {
        let dir = match self.lookup_path(path) {
            Ok(i) => i,
            Err(e) => return e,
        };
        if self.inodes[dir].kind != FS_KIND_DIR {
            return ENOTDIR;
        }
        let ghost d0 = dst@;
        let count = self.inodes[dir].child_count as usize;
        proof {
            assert(inode_shape(self.inodes@[dir as int], self.next_inode as int));
            lemma_listing_len(self.model(), dir, 0, count as int);
        }
        let mut written: usize = 0;
        let mut slot: usize = 0;
        while slot < count
            invariant
                self.wf(),
                dir < FS_MAX_INODES,
                count == self.inodes@[dir as int].child_count,
                count <= FS_MAX_DIR_ENTRIES,
                slot <= count,
                dst@.len() == d0.len(),
                d0 == old(dst)@,
                lookup(self.inodes@, path@) == Ok::<usize, isize>(dir),
                self.inodes@[dir as int].kind == FS_KIND_DIR,
                listing(self.inodes@, dir).len() <= 25 * count,
                written == listing_upto(self.inodes@, dir, slot as int).len(),
                written <= dst@.len(),
                dst@ == listing_upto(self.inodes@, dir, slot as int) + d0.subrange(written as int, d0.len() as int),
            decreases count - slot,
        {
            let child = self.inodes[dir].children[slot] as usize;
            proof {
                assert(inode_shape(self.inodes@[dir as int], self.next_inode as int));
                assert(child < self.next_inode);
                assert(inode_shape(self.inodes@[child as int], self.next_inode as int));
                lemma_listing_len(self.model(), dir, slot as int, count as int);
                lemma_listing_len(self.model(), dir, slot as int + 1, count as int);
            }
            let name_len = self.inodes[child].name_len as usize;
            let required = name_len + 1;
            if written + required > dst.len() {
                proof {
                    lemma_listing_len(self.model(), dir, slot as int + 1, count as int);
                    assert(listing_upto(self.inodes@, dir, slot as int).len() <= d0.len());
                    assert(name_of(self.inodes@[child as int]).len() == name_len);
                    assert(listing_upto(self.inodes@, dir, slot as int + 1).len() == written + required);
                    assert(listing(self.inodes@, dir).len() > d0.len());
                    assert(dst@ == listing_upto(self.inodes@, dir, slot as int) + d0.subrange(
                        listing_upto(self.inodes@, dir, slot as int).len() as int, d0.len() as int));
                    assert(exists|s: int| 0 <= s <= self.inodes@[dir as int].child_count
                            && #[trigger] listing_upto(self.inodes@, dir, s).len() <= d0.len()
                            && dst@ == listing_upto(self.inodes@, dir, s) + d0.subrange(
                                listing_upto(self.inodes@, dir, s).len() as int, d0.len() as int));
                }
                return ENOSPC;
            }
            let ghost before = dst@;
            let mut k: usize = 0;
            while k < name_len
                invariant
                    k <= name_len <= FS_NAME_MAX,
                    written + name_len + 1 <= dst.len(),
                    dst@.len() == before.len(),
                    name_len == self.inodes@[child as int].name_len,
                    child < FS_MAX_INODES,
                    self.inodes.len() == FS_MAX_INODES,
                    forall|j: int| 0 <= j < written || written + k <= j < dst@.len() ==> #[trigger] dst@[j] == before[j],
                    forall|j: int| 0 <= j < k ==> #[trigger] dst@[written + j] == self.inodes@[child as int].name[j],
                decreases name_len - k,
            {
                dst[written + k] = self.inodes[child].name[k];
                k += 1;
            }
            let ghost named = dst@;
            dst[written + name_len] = 10u8;
            proof {
                let nm = name_of(self.inodes@[child as int]);
                let prev = listing_upto(self.inodes@, dir, slot as int);
                let next = listing_upto(self.inodes@, dir, slot as int + 1);
                assert(nm.len() == name_len);
                assert(next == prev + nm + seq![10u8]);
                let want = next + d0.subrange(written + name_len + 1, d0.len() as int);
                assert forall|j: int| 0 <= j < dst@.len() implies dst@[j] == want[j] by {
                    if j < written {
                        assert(named[j] == before[j]);
                    } else if j < written + name_len {
                        let jj = j - written;
                        assert(named[written + jj] == self.inodes@[child as int].name[jj]);
                    } else if j > written + name_len {
                        assert(named[j] == before[j]);
                    }
                }
                assert(dst@ =~= want);
            }
            written = written + required;
            slot += 1;
        }
        written as isize
    }
}

/// A walk over `a + b` is the walk over `a`, then over `b` from where it
/// ended, when that is a directory.
pub proof fn lemma_walk_concat(inodes: Seq<DiskInode>, cur: usize, a: Seq<Seq<u8>>, b: Seq<Seq<u8>>, x: usize)
    requires
        walk_path(inodes, cur, a) == Ok::<usize, isize>(x),
        b.len() > 0,
        a.len() > 0 ==> inodes[x as int].kind == FS_KIND_DIR,
    ensures
        walk_path(inodes, cur, a + b) == walk_path(inodes, x, b),
    decreases a.len(),
{
    if a.len() == 0 {
        assert(a + b =~= b);
    } else {
        let ch = find_child_of(inodes, cur, a[0])->0;
        assert((a + b)[0] == a[0]);
        assert((a + b).drop_first() =~= a.drop_first() + b);
        lemma_walk_concat(inodes, ch, a.drop_first(), b, x);
    }
}

/// A lookup that succeeded never asked `par` for `leaf` when `par` has no
/// such child; so where only that answer changed, the walk is the same.
pub proof fn lemma_walk_unchanged(old: Seq<DiskInode>, new: Seq<DiskInode>, next: int, cur: usize, cs: Seq<Seq<u8>>,
    par: usize, leaf: Seq<u8>)
    requires
        cur < next,
        walk_path(old, cur, cs) is Ok,
        find_child_of(old, par, leaf) is None,
        forall|x: usize, name: Seq<u8>| x < next && (x != par || name != leaf) ==> #[trigger] find_child_of(new, x, name)
            == find_child_of(old, x, name),
        forall|x: usize, name: Seq<u8>| x < next ==> (#[trigger] find_child_of(old, x, name) matches Some(c) ==> c < next),
        forall|x: int| 0 <= x < next ==> #[trigger] new[x].kind == old[x].kind,
    ensures
        walk_path(new, cur, cs) == walk_path(old, cur, cs),
    decreases cs.len(),
{
    if cs.len() > 0 {
        assert(find_child_of(new, cur, cs[0]) == find_child_of(old, cur, cs[0]));
        let ch = find_child_of(old, cur, cs[0])->0;
        assert(ch < next);
        assert(new[ch as int].kind == old[ch as int].kind);
        if !(cs.len() > 1 && old[ch as int].kind != FS_KIND_DIR) {
            lemma_walk_unchanged(old, new, next, ch, cs.drop_first(), par, leaf);
        }
    }
}

/// Searching the entries of `x` from slot `s` finds the same child in
/// `new` as in `old` when the entries and their names agree there; a new
/// last entry is found only for its own name.
pub proof fn lemma_find_from_linked(old: Seq<DiskInode>, new: Seq<DiskInode>, x: usize, name: Seq<u8>, s: int, ni: usize)
    requires
        0 <= s,
        x < old.len(),
        old.len() == new.len(),
        ni < 65536,
        new[x as int].child_count == old[x as int].child_count || (new[x as int].child_count == old[x as int].child_count + 1
            && new[x as int].children[old[x as int].child_count as int] == ni as u16 && name_of(new[ni as int]) != name),
        forall|k: int| 0 <= k < old[x as int].child_count ==> #[trigger] new[x as int].children[k] == old[x as int].children[k]
            && name_of(new[old[x as int].children[k] as int]) == name_of(old[old[x as int].children[k] as int]),
    ensures
        find_from(new, x, name, s) == find_from(old, x, name, s),
    decreases new[x as int].child_count - s,
{
    if s < new[x as int].child_count {
        lemma_find_from_linked(old, new, x, name, s + 1, ni);
    }
}

/// Errors of a walk are `ENOENT` or `ENOTDIR`.
pub proof fn lemma_walk_path_err(inodes: Seq<DiskInode>, cur: usize, cs: Seq<Seq<u8>>)
    ensures
        walk_path(inodes, cur, cs) matches Err(e) ==> e == ENOENT || e == ENOTDIR,
    decreases cs.len(),
{
    if cs.len() > 0 {
        if let Some(ch) = find_child_of(inodes, cur, cs[0]) {
            lemma_walk_path_err(inodes, ch, cs.drop_first());
        }
    }
}

/// Creating a node makes its path name it: once `create_dir` or
/// `create_file` has returned 0, looking up the same path gives the new
/// inode.
pub proof fn law_create_then_lookup(old: FileSystem, new: FileSystem, p: Seq<u8>, kind: u8)
    requires
        old.wf(),
        created(old, new, p, kind, 0),
    ensures
        lookup(new.inodes@, p) == Ok::<usize, isize>(old.next_inode),
{
    let oi = old.inodes@;
    let ni_ = new.inodes@;
    let next = old.next_inode as int;
    lemma_path_errors_nonzero(p);
    let pp = p.subrange(0, parent_len(p));
    match lookup(oi, pp) {
        Err(e) => {
            lemma_path_errors_nonzero(pp);
            lemma_walk_path_err(oi, ROOT_INODE, path_components(pp));
        },
        Ok(par) => {},
    }
    let par = create_target(oi, p)->Ok_0;
    let ni = old.next_inode;
    let leaf = leaf_name(p);
    assert(ni < FS_MAX_INODES);
    lemma_walk_path_bound(old.model(), ROOT_INODE, path_components(pp));
    assert(par < ni);
    assert(find_child_of(oi, par, leaf) is None);
    // Every old search below `next` is answered the same, but `par`'s for `leaf`.
    assert forall|x: usize, name: Seq<u8>| x < next && (x != par || name != leaf) implies #[trigger] find_child_of(ni_, x,
        name) == find_child_of(oi, x, name) by {
        assert(inode_shape(oi[x as int], next));
        assert forall|k: int| 0 <= k < oi[x as int].child_count implies #[trigger] ni_[x as int].children[k]
            == oi[x as int].children[k] && name_of(ni_[oi[x as int].children[k] as int]) == name_of(oi[oi[x as int].children[k]
            as int]) by {
            assert(oi[x as int].children[k] < next);
        }
        lemma_find_from_linked(oi, ni_, x, name, 0, ni);
    }
    assert forall|x: usize, name: Seq<u8>| x < next implies (#[trigger] find_child_of(oi, x, name) matches Some(c) ==> c < next) by {
        lemma_find_from_bound(old.model(), x, name, 0);
    }
    assert forall|x: int| 0 <= x < next implies #[trigger] ni_[x].kind == oi[x].kind by {}
    lemma_walk_unchanged(oi, ni_, next, ROOT_INODE, path_components(pp), par, leaf);
    lemma_leaf_is_last(p);
    lemma_parent_components(p);
    let a = components(p, 1, split_point(p));
    lemma_walk_concat(ni_, ROOT_INODE, a, seq![leaf], par);
    // The new entry is found under its own name.
    assert(inode_shape(oi[par as int], next));
    assert forall|k: int| 0 <= k < oi[par as int].child_count implies #[trigger] ni_[par as int].children[k]
        == oi[par as int].children[k] && name_of(ni_[oi[par as int].children[k] as int]) == name_of(oi[oi[par as int].children[k]
        as int]) by {
        assert(oi[par as int].children[k] < next);
    }
    lemma_find_last(oi, ni_, par, leaf, 0, ni);
    assert(seq![leaf].drop_first() =~= Seq::<Seq<u8>>::empty());
    assert(find_child_of(ni_, par, leaf) == Some(ni));
    assert(seq![leaf][0] == leaf);
    assert(walk_path(ni_, ni, Seq::<Seq<u8>>::empty()) == Ok::<usize, isize>(ni));
    assert(walk_path(ni_, par, seq![leaf]) == Ok::<usize, isize>(ni));
    assert(walk_path(ni_, ROOT_INODE, a) == Ok::<usize, isize>(par));
    assert(path_error(p) is None);
    assert(path_components(p) == a + seq![leaf]);
}

/// In a directory that gained entry `ni` named `name` at its end, and had
/// no entry of that name, the search finds `ni`.
pub proof fn lemma_find_last(old: Seq<DiskInode>, new: Seq<DiskInode>, x: usize, name: Seq<u8>, s: int, ni: usize)
    requires
        0 <= s <= old[x as int].child_count,
        x < old.len(),
        old.len() == new.len(),
        new[x as int].child_count == old[x as int].child_count + 1,
        new[x as int].children[old[x as int].child_count as int] == ni as u16,
        ni < 65536,
        name_of(new[ni as int]) == name,
        find_from(old, x, name, s) is None,
        forall|k: int| 0 <= k < old[x as int].child_count ==> #[trigger] new[x as int].children[k] == old[x as int].children[k]
            && name_of(new[old[x as int].children[k] as int]) == name_of(old[old[x as int].children[k] as int]),
    ensures
        find_from(new, x, name, s) == Some(ni),
    decreases old[x as int].child_count - s,
{
    if s < old[x as int].child_count {
        lemma_find_last(old, new, x, name, s + 1, ni);
    }
}

/// Path errors are negative.
pub proof fn lemma_path_errors_nonzero(p: Seq<u8>)
    ensures
        path_error(p) matches Some(e) ==> e < 0,
        split_error(p) matches Some(e) ==> e < 0,
{
    lemma_first_error_nonzero(path_components(p));
}

/// Component errors are negative.
pub proof fn lemma_first_error_nonzero(cs: Seq<Seq<u8>>)
    ensures
        crate::lab6::path::first_error(cs) matches Some(e) ==> e < 0,
    decreases cs.len(),
{
    if cs.len() > 0 {
        lemma_first_error_nonzero(cs.drop_first());
    }
}

/// Lookup errors are negative.
pub proof fn lemma_lookup_err_negative(inodes: Seq<DiskInode>, p: Seq<u8>)
    ensures
        lookup(inodes, p) matches Err(e) ==> e < 0,
{
    lemma_path_errors_nonzero(p);
    lemma_walk_path_err(inodes, ROOT_INODE, path_components(p));
}

impl FileSystem {
    /// Sets the size recorded in inode `ino` (a directory's entries).
    pub(crate) fn set_size_bytes(&mut self, ino: usize, size: u64)
        requires
            old(self).wf(),
            ino < FS_MAX_INODES,
            size <= MAX_FILE_BYTES,
        ensures
            final(self).wf(),
            pools_same(*old(self), *final(self)),
            final(self).next_inode == old(self).next_inode,
            final(self).inodes@ == old(self).inodes@.update(ino as int, DiskInode { size_bytes: size, ..old(self).inodes@[ino as int] }),
    {
        let ghost old_v = self.model();
        let mut n = self.inodes[ino];
        n.size_bytes = size;
        self.inodes.set(ino, n);
        proof {
            let v = self.model();
            lemma_inode_replaced(old_v, v, ino as int);
            assert forall|i: int| 0 <= i < FS_MAX_INODES implies #[trigger] inode_shape(v.inodes[i], v.next_inode) by {
                assert(inode_shape(old_v.inodes[i], old_v.next_inode));
            }
            assert forall|i: int| 0 <= i < FS_MAX_INODES implies #[trigger] v.inodes[i].blocks_used <= v.next_data by {
                assert(old_v.inodes[i].blocks_used <= old_v.next_data);
            }
        }
    }

    /// Clears inode `ino` (its blocks are not reclaimed).
    pub(crate) fn reset_inode(&mut self, ino: usize)
        requires
            old(self).wf(),
            ino < FS_MAX_INODES,
        ensures
            final(self).wf(),
            pools_same(*old(self), *final(self)),
            final(self).next_inode == old(self).next_inode,
            final(self).inodes@ == old(self).inodes@.update(ino as int, final(self).inodes@[ino as int]),
            is_blank(final(self).inodes@[ino as int]),
    {
        let ghost old_v = self.model();
        self.inodes.set(ino, DiskInode::empty());
        proof {
            let v = self.model();
            lemma_inode_replaced(old_v, v, ino as int);
            assert forall|i: int| 0 <= i < FS_MAX_INODES implies #[trigger] inode_shape(v.inodes[i], v.next_inode) by {
                assert(inode_shape(old_v.inodes[i], old_v.next_inode));
            }
            assert forall|i: int| 0 <= i < FS_MAX_INODES implies #[trigger] v.inodes[i].blocks_used <= v.next_data by {
                assert(old_v.inodes[i].blocks_used <= old_v.next_data);
            }
        }
    }
}

} // verus!
