//! Directories as tables of entries over the block-mapped inode store: each
//! directory has up to `FS_MAX_DIR_ENTRIES` entries, each with its own copy
//! of the name and the inode number; a directory's size is its entry count
//! times the size of an entry.
use vstd::prelude::*;
use super::{DirDiagnostics, FsStat, EEXIST, EFBIG, EISDIR, ENOENT, ENOSPC, ENOTDIR, ENOTEMPTY, FS_BLOCK_SIZE,
    FS_KIND_DIR, FS_KIND_FILE, FS_MAX_DIR_ENTRIES, FS_NAME_MAX};
use crate::lab6::kernel_task1::{FS_MAX_INODES, FS_TRIPLE_LIMIT_BLOCKS};
use crate::lab6::kernel_task1::fs::{DiskInode, FileSystem, ROOT_INODE, file_byte, block_of, same_meta};
use crate::lab6::kernel_task1::namespace::{MAX_FILE_BYTES, fresh_inode, is_blank, lemma_path_errors_nonzero, pools_same, fs_same};
use crate::lab6::kernel_task1::file_io::{wrote, read_len, end_block};
use crate::lab6::path::{SLASH, components, path_components, path_error, trimmed_end, skip_slashes, comp_end,
    lemma_trim_from, lemma_skip_slashes, lemma_components_step, trimmed_path_end, validate_path, split_error,
    parent_len, leaf_name, lemma_leaf_is_last, split_parent_and_name, split_point, lemma_parent_components};

verus! {

/// Size of the `#[repr(C)]` layout of a [`Dirent`].
pub const DIRENT_BYTES: u64 = 32;

/// A directory entry.
#[derive(Clone, Copy)]
pub struct Dirent {
    pub valid: bool,
    pub name_len: u8,
    pub inode_index: u16,
    pub name: [u8; FS_NAME_MAX],
}

/// A directory's entries and how many of them are in use.
#[derive(Clone, Copy)]
pub struct DirTable {
    pub entries: [Dirent; FS_MAX_DIR_ENTRIES],
    pub child_count: u16,
}

/// The file system: the inode store and one entry table per inode.
pub struct DirFileSystem {
    pub blocks: FileSystem,
    pub dirs: Vec<DirTable>,
    pub diagnostics: DirDiagnostics,
}

/// The name an entry holds.
pub open spec fn dirent_name(d: Dirent) -> Seq<u8> {
    d.name@.subrange(0, d.name_len as int)
}

/// How many of the first `k` entries are in use.
pub open spec fn valid_upto(t: DirTable, k: int) -> nat
    decreases k,
{
    if k <= 0 { 0 } else { valid_upto(t, k - 1) + (if t.entries[k - 1].valid { 1nat } else { 0nat }) }
}

/// A table's count matches its entries in use, which name allocated inodes.
pub open spec fn table_ok(t: DirTable, next_inode: int) -> bool {
    &&& t.child_count == valid_upto(t, FS_MAX_DIR_ENTRIES as int)
    &&& forall|e: int| 0 <= e < FS_MAX_DIR_ENTRIES ==> (#[trigger] t.entries[e]).valid ==> t.entries[e].inode_index
        < next_inode && t.entries[e].name_len <= FS_NAME_MAX
}

/// The entries form a tree: each entry names an inode allocated after its
/// directory, no inode has two entries, and no directory has two entries of
/// one name.
pub open spec fn tree_ok(dirs: Seq<DirTable>) -> bool {
    &&& forall|i: int, e: int| 0 <= i < dirs.len() && 0 <= e < FS_MAX_DIR_ENTRIES && (#[trigger] dirs[i].entries[e]).valid
        ==> dirs[i].entries[e].inode_index > i
    &&& forall|i1: int, e1: int, i2: int, e2: int|
        0 <= i1 < dirs.len() && 0 <= e1 < FS_MAX_DIR_ENTRIES && 0 <= i2 < dirs.len() && 0 <= e2 < FS_MAX_DIR_ENTRIES
        && (#[trigger] dirs[i1].entries[e1]).valid && (#[trigger] dirs[i2].entries[e2]).valid
        && dirs[i1].entries[e1].inode_index == dirs[i2].entries[e2].inode_index ==> i1 == i2 && e1 == e2
    &&& forall|i: int, e1: int, e2: int| 0 <= i < dirs.len() && 0 <= e1 < FS_MAX_DIR_ENTRIES && 0 <= e2 < FS_MAX_DIR_ENTRIES
        && (#[trigger] dirs[i].entries[e1]).valid && (#[trigger] dirs[i].entries[e2]).valid
        && dirent_name(dirs[i].entries[e1]) == dirent_name(dirs[i].entries[e2]) ==> e1 == e2
}

/// No entry in use names inode `child`.
pub open spec fn no_entry_for(dirs: Seq<DirTable>, child: usize) -> bool {
    forall|i: int, e: int| 0 <= i < dirs.len() && 0 <= e < FS_MAX_DIR_ENTRIES && (#[trigger] dirs[i].entries[e]).valid
        ==> dirs[i].entries[e].inode_index != child
}

/// A search from `e` that finds nothing passes no entry of that name.
pub proof fn lemma_dfind_none(t: DirTable, name: Seq<u8>, e: int)
    requires
        0 <= e,
        dfind_from(t, name, e) is None,
    ensures
        forall|j: int| e <= j < FS_MAX_DIR_ENTRIES && (#[trigger] t.entries[j]).valid ==> dirent_name(t.entries[j]) != name,
    decreases FS_MAX_DIR_ENTRIES - e,
{
    if e < FS_MAX_DIR_ENTRIES {
        lemma_dfind_none(t, name, e + 1);
    }
}

/// Adding an entry for a new, later inode under a new name keeps the tree.
pub proof fn lemma_tree_add(od: Seq<DirTable>, nd: Seq<DirTable>, parent: int, k: int, child: usize, name: Seq<u8>)
    requires
        tree_ok(od),
        0 <= parent < od.len(),
        nd == od.update(parent, nd[parent]),
        entry_added(od[parent], nd[parent], k, child, name),
        parent < child < 65536,
        no_entry_for(od, child),
        forall|j: int| 0 <= j < FS_MAX_DIR_ENTRIES && (#[trigger] od[parent].entries[j]).valid
            ==> dirent_name(od[parent].entries[j]) != name,
    ensures
        tree_ok(nd),
{
    assert forall|i: int, e: int| 0 <= i < nd.len() && 0 <= e < FS_MAX_DIR_ENTRIES && (#[trigger] nd[i].entries[e]).valid
        implies nd[i].entries[e].inode_index > i by {
        if i != parent || e != k {
            assert(nd[i].entries[e] == od[i].entries[e]);
        }
    }
    assert forall|i1: int, e1: int, i2: int, e2: int|
        0 <= i1 < nd.len() && 0 <= e1 < FS_MAX_DIR_ENTRIES && 0 <= i2 < nd.len() && 0 <= e2 < FS_MAX_DIR_ENTRIES
        && (#[trigger] nd[i1].entries[e1]).valid && (#[trigger] nd[i2].entries[e2]).valid
        && nd[i1].entries[e1].inode_index == nd[i2].entries[e2].inode_index implies i1 == i2 && e1 == e2 by {
        let new1 = i1 == parent && e1 == k;
        let new2 = i2 == parent && e2 == k;
        if !new1 {
            assert(nd[i1].entries[e1] == od[i1].entries[e1]);
        }
        if !new2 {
            assert(nd[i2].entries[e2] == od[i2].entries[e2]);
        }
        if new1 && !new2 {
            assert(od[i2].entries[e2].valid);
        } else if new2 && !new1 {
            assert(od[i1].entries[e1].valid);
        }
    }
    assert forall|i: int, e1: int, e2: int| 0 <= i < nd.len() && 0 <= e1 < FS_MAX_DIR_ENTRIES && 0 <= e2 < FS_MAX_DIR_ENTRIES
        && (#[trigger] nd[i].entries[e1]).valid && (#[trigger] nd[i].entries[e2]).valid
        && dirent_name(nd[i].entries[e1]) == dirent_name(nd[i].entries[e2]) implies e1 == e2 by {
        if i != parent {
            assert(nd[i] == od[i]);
        } else {
            if e1 != k {
                assert(nd[i].entries[e1] == od[i].entries[e1]);
            }
            if e2 != k {
                assert(nd[i].entries[e2] == od[i].entries[e2]);
            }
        }
    }
}

/// A table with no entry in use.
pub open spec fn table_empty(t: DirTable) -> bool {
    &&& t.child_count == 0
    &&& forall|e: int| 0 <= e < FS_MAX_DIR_ENTRIES ==> !(#[trigger] t.entries[e]).valid
}

/// The entry in use, from slot `e` on, named `name`.
pub open spec fn dfind_from(t: DirTable, name: Seq<u8>, e: int) -> Option<usize>
    decreases FS_MAX_DIR_ENTRIES - e,
{
    if e < 0 || e >= FS_MAX_DIR_ENTRIES {
        None
    } else if t.entries[e].valid && dirent_name(t.entries[e]) == name {
        Some(t.entries[e].inode_index as usize)
    } else {
        dfind_from(t, name, e + 1)
    }
}

/// Follows the components `cs` from inode `cur` through the entry tables.
pub open spec fn dwalk(dirs: Seq<DirTable>, inodes: Seq<DiskInode>, cur: usize, cs: Seq<Seq<u8>>) -> Result<usize, isize>
    decreases cs.len(),
{
    if cs.len() == 0 {
        Ok(cur)
    } else {
        match dfind_from(dirs[cur as int], cs[0], 0) {
            None => Err(ENOENT),
            Some(ch) => if cs.len() > 1 && inodes[ch as int].kind != FS_KIND_DIR {
                Err(ENOTDIR)
            } else {
                dwalk(dirs, inodes, ch, cs.drop_first())
            },
        }
    }
}

/// The inode an absolute path names.
pub open spec fn dlookup(dirs: Seq<DirTable>, inodes: Seq<DiskInode>, p: Seq<u8>) -> Result<usize, isize> {
    match path_error(p) {
        Some(e) => Err(e),
        None => dwalk(dirs, inodes, ROOT_INODE, path_components(p)),
    }
}

/// The first free slot from `e` on.
pub open spec fn first_free(t: DirTable, e: int) -> Option<int>
    decreases FS_MAX_DIR_ENTRIES - e,
{
    if e < 0 || e >= FS_MAX_DIR_ENTRIES {
        None
    } else if !t.entries[e].valid {
        Some(e)
    } else {
        first_free(t, e + 1)
    }
}

/// The first slot in use from `e` on that names inode `child`.
pub open spec fn slot_of(t: DirTable, child: usize, e: int) -> Option<int>
    decreases FS_MAX_DIR_ENTRIES - e,
{
    if e < 0 || e >= FS_MAX_DIR_ENTRIES {
        None
    } else if t.entries[e].valid && t.entries[e].inode_index as usize == child {
        Some(e)
    } else {
        slot_of(t, child, e + 1)
    }
}

/// Counting entries in use after one slot changed.
pub proof fn lemma_valid_update(t: DirTable, u: DirTable, k: int, slot: int)
    requires
        0 <= slot < FS_MAX_DIR_ENTRIES,
        0 <= k <= FS_MAX_DIR_ENTRIES,
        forall|e: int| 0 <= e < FS_MAX_DIR_ENTRIES && e != slot ==> #[trigger] u.entries[e] == t.entries[e],
    ensures
        valid_upto(u, k) + (if slot < k && t.entries[slot].valid { 1int } else { 0int }) == valid_upto(t, k) + (if slot
            < k && u.entries[slot].valid { 1int } else { 0int }),
    decreases k,
{
    if k > 0 {
        lemma_valid_update(t, u, k - 1, slot);
    }
}

/// At most `k` of the first `k` entries are in use, fewer when one is free.
pub proof fn lemma_valid_bound(t: DirTable, k: int, free: int)
    requires
        0 <= k <= FS_MAX_DIR_ENTRIES,
    ensures
        valid_upto(t, k) <= k,
        0 <= free < k && !t.entries[free].valid ==> valid_upto(t, k) < k,
    decreases k,
{
    if k > 0 {
        lemma_valid_bound(t, k - 1, free);
    }
}

/// A free slot found from `e` on is free; none found means all are in use.
pub proof fn lemma_first_free(t: DirTable, e: int)
    requires
        0 <= e,
    ensures
        first_free(t, e) matches Some(k) ==> e <= k < FS_MAX_DIR_ENTRIES && !t.entries[k].valid
            && forall|j: int| e <= j < k ==> t.entries[j].valid,
        first_free(t, e) is None ==> forall|j: int| e <= j < FS_MAX_DIR_ENTRIES ==> t.entries[j].valid,
    decreases FS_MAX_DIR_ENTRIES - e,
{
    if e < FS_MAX_DIR_ENTRIES && t.entries[e].valid {
        lemma_first_free(t, e + 1);
    }
}

/// A slot found for `child` from `e` on names it.
pub proof fn lemma_slot_of(t: DirTable, child: usize, e: int)
    requires
        0 <= e,
    ensures
        slot_of(t, child, e) matches Some(k) ==> e <= k < FS_MAX_DIR_ENTRIES && t.entries[k].valid
            && t.entries[k].inode_index as usize == child,
    decreases FS_MAX_DIR_ENTRIES - e,
{
    if e < FS_MAX_DIR_ENTRIES && !(t.entries[e].valid && t.entries[e].inode_index as usize == child) {
        lemma_slot_of(t, child, e + 1);
    }
}

/// A found entry names an allocated inode.
pub proof fn lemma_dfind_bound(t: DirTable, next: int, name: Seq<u8>, e: int)
    requires
        table_ok(t, next),
        0 <= e,
    ensures
        dfind_from(t, name, e) matches Some(c) ==> c < next,
    decreases FS_MAX_DIR_ENTRIES - e,
{
    if e < FS_MAX_DIR_ENTRIES {
        lemma_dfind_bound(t, next, name, e + 1);
    }
}

/// A walk ends at an allocated inode.
pub proof fn lemma_dwalk_bound(dirs: Seq<DirTable>, inodes: Seq<DiskInode>, next: int, cur: usize, cs: Seq<Seq<u8>>)
    requires
        dirs.len() == FS_MAX_INODES,
        next <= FS_MAX_INODES,
        forall|i: int| 0 <= i < FS_MAX_INODES ==> #[trigger] table_ok(dirs[i], next),
        cur < next,
    ensures
        dwalk(dirs, inodes, cur, cs) matches Ok(i) ==> i < next,
    decreases cs.len(),
{
    if cs.len() > 0 {
        assert(table_ok(dirs[cur as int], next));
        lemma_dfind_bound(dirs[cur as int], next, cs[0], 0);
        if let Some(ch) = dfind_from(dirs[cur as int], cs[0], 0) {
            lemma_dwalk_bound(dirs, inodes, next, ch, cs.drop_first());
        }
    }
}

/// Walk errors are `ENOENT` or `ENOTDIR`.
pub proof fn lemma_dwalk_err(dirs: Seq<DirTable>, inodes: Seq<DiskInode>, cur: usize, cs: Seq<Seq<u8>>)
    ensures
        dwalk(dirs, inodes, cur, cs) matches Err(e) ==> e == ENOENT || e == ENOTDIR,
    decreases cs.len(),
{
    if cs.len() > 0 {
        if let Some(ch) = dfind_from(dirs[cur as int], cs[0], 0) {
            lemma_dwalk_err(dirs, inodes, ch, cs.drop_first());
        }
    }
}

/// An entry with no name and no inode.
pub fn empty_dirent() -> (r: Dirent)
    ensures
        !r.valid && r.name_len == 0 && r.inode_index == 0,
        forall|k: int| 0 <= k < FS_NAME_MAX ==> #[trigger] r.name[k] == 0u8,
{
    let r = Dirent { valid: false, name_len: 0, inode_index: 0, name: [0u8; FS_NAME_MAX] };
    proof {
        broadcast use vstd::array::axiom_spec_array_fill_for_copy_type;
    }
    r
}

/// A table with every entry free.
pub fn empty_table() -> (r: DirTable)
    ensures
        table_empty(r),
        forall|next: int| #[trigger] table_ok(r, next),
{
    let d = empty_dirent();
    let r = DirTable { entries: [d; FS_MAX_DIR_ENTRIES], child_count: 0 };
    proof {
        broadcast use vstd::array::axiom_spec_array_fill_for_copy_type;
        assert(forall|e: int| 0 <= e < FS_MAX_DIR_ENTRIES ==> #[trigger] r.entries[e] == d);
        assert forall|k: int| 0 <= k <= FS_MAX_DIR_ENTRIES implies valid_upto(r, k) == 0 by {
            lemma_valid_zero(r, k);
        }
    }
    r
}

proof fn lemma_valid_zero(t: DirTable, k: int)
    requires
        0 <= k <= FS_MAX_DIR_ENTRIES,
        forall|e: int| 0 <= e < FS_MAX_DIR_ENTRIES ==> !(#[trigger] t.entries[e]).valid,
    ensures
        valid_upto(t, k) == 0,
    decreases k,
{
    if k > 0 {
        lemma_valid_zero(t, k - 1);
    }
}

impl DirFileSystem {
    /// The invariant: the inode store's, and every table's.
    pub open spec fn wf(&self) -> bool {
        &&& self.blocks.wf()
        &&& self.dirs.len() == FS_MAX_INODES
        &&& forall|i: int| 0 <= i < FS_MAX_INODES ==> #[trigger] table_ok(self.dirs@[i], self.blocks.next_inode as int)
        &&& self.diagnostics.dir_inode_count <= self.blocks.next_inode
        &&& tree_ok(self.dirs@)
        &&& forall|i: int, e: int| 0 <= i < FS_MAX_INODES && 0 <= e < FS_MAX_DIR_ENTRIES
            && (#[trigger] self.dirs@[i].entries[e]).valid ==> self.blocks.inodes@[i].kind == FS_KIND_DIR
    }

    /// The inode `path` names.
    pub open spec fn lookup_spec(&self, p: Seq<u8>) -> Result<usize, isize> {
        dlookup(self.dirs@, self.blocks.inodes@, p)
    }

    /// A formatted file system: the root directory `/` with no entries.
    pub fn init() -> (fs: DirFileSystem)
        ensures
            fs.wf(),
            fs.blocks.next_inode == 1,
            forall|i: int| 0 <= i < FS_MAX_INODES ==> #[trigger] table_empty(fs.dirs@[i]),
            fresh_inode(fs.blocks.inodes@[ROOT_INODE as int], FS_KIND_DIR, ROOT_INODE, seq![SLASH]),
            fs.diagnostics == (DirDiagnostics { dir_inode_count: 1, dirent_bytes_per_inode: DIRENT_BYTES, resolve_calls: 0,
                path_components_split: 0, max_resolve_depth: 0, dirent_reads: 0, dirent_writes: 0 }),
    {
        let blocks = FileSystem::init();
        let mut dirs: Vec<DirTable> = Vec::new();
        let mut i: usize = 0;
        while i < FS_MAX_INODES
            invariant
                i <= FS_MAX_INODES,
                dirs.len() == i,
                forall|k: int| 0 <= k < i ==> #[trigger] table_empty(dirs@[k]),
                forall|k: int| 0 <= k < i ==> #[trigger] table_ok(dirs@[k], 1),
            decreases FS_MAX_INODES - i,
        {
            dirs.push(empty_table());
            i += 1;
        }
        proof {
            assert forall|i: int, e: int| 0 <= i < FS_MAX_INODES && 0 <= e < FS_MAX_DIR_ENTRIES implies
                !(#[trigger] dirs@[i].entries[e]).valid by {
                assert(table_empty(dirs@[i]));
            }
        }
        let mut diagnostics = DirDiagnostics::empty();
        diagnostics.dir_inode_count = 1;
        diagnostics.dirent_bytes_per_inode = DIRENT_BYTES;
        DirFileSystem { blocks, dirs, diagnostics }
    }

    /// The directory-layer counters.
    pub fn diagnostics(&self) -> (r: DirDiagnostics)
        ensures
            r == self.diagnostics,
    {
        self.diagnostics
    }

    /// Whether entry `d` is named `name`.
    fn dirent_matches(d: &Dirent, name: &[u8]) -> (r: bool)
        requires
            d.name_len <= FS_NAME_MAX,
        ensures
            r == (dirent_name(*d) == name@),
    {
        let len = d.name_len as usize;
        if len != name.len() {
            assert(dirent_name(*d).len() != name@.len());
            return false;
        }
        let mut i: usize = 0;
        while i < len
            invariant
                i <= len == name.len() <= FS_NAME_MAX,
                len == d.name_len,
                forall|k: int| 0 <= k < i ==> #[trigger] d.name[k] == name@[k],
            decreases len - i,
        {
            if d.name[i] != name[i] {
                assert(dirent_name(*d)[i as int] != name@[i as int]);
                return false;
            }
            i += 1;
        }
        assert(dirent_name(*d) =~= name@);
        true
    }

    /// The entry of directory `parent` named `name`; counts the entries read.
    pub fn find_child(&mut self, parent: usize, name: &[u8]) -> (r: Option<usize>)
        requires
            old(self).wf(),
            parent < FS_MAX_INODES,
        ensures
            final(self).wf(),
            final(self).blocks == old(self).blocks,
            final(self).dirs@ == old(self).dirs@,
            final(self).diagnostics == (DirDiagnostics { dirent_reads: final(self).diagnostics.dirent_reads,
                ..old(self).diagnostics }),
            r == dfind_from(old(self).dirs@[parent as int], name@, 0),
            r matches Some(c) ==> c < old(self).blocks.next_inode,
    {
        let ghost t = self.dirs@[parent as int];
        proof {
            assert(table_ok(t, self.blocks.next_inode as int));
        }
        let mut e: usize = 0;
        while e < FS_MAX_DIR_ENTRIES
            invariant
                e <= FS_MAX_DIR_ENTRIES,
                self.wf(),
                parent < FS_MAX_INODES,
                t == self.dirs@[parent as int],
                self.blocks == old(self).blocks,
                self.dirs@ == old(self).dirs@,
                self.diagnostics == (DirDiagnostics { dirent_reads: self.diagnostics.dirent_reads, ..old(self).diagnostics }),
                table_ok(t, self.blocks.next_inode as int),
                dfind_from(t, name@, 0) == dfind_from(t, name@, e as int),
            decreases FS_MAX_DIR_ENTRIES - e,
        {
            let d = self.dirs[parent].entries[e];
            if d.valid {
                self.diagnostics.dirent_reads = self.diagnostics.dirent_reads.wrapping_add(1);
                if Self::dirent_matches(&d, name) {
                    return Some(d.inode_index as usize);
                }
            }
            e += 1;
        }
        None
    }

    /// Resolves the components of `path[index..end]` from inode `current`,
    /// one call per component; counts calls, components and depth.
    pub fn resolve_components(&mut self, current: usize, path: &[u8], index: usize, end: usize, depth: u64)
        -> (r: Result<usize, isize>)
        requires
            old(self).wf(),
            current < old(self).blocks.next_inode,
            1 <= index <= end <= path@.len(),
            end == trimmed_end(path@),
            depth < index,
        ensures
            final(self).wf(),
            final(self).blocks == old(self).blocks,
            final(self).dirs@ == old(self).dirs@,
            final(self).diagnostics.dir_inode_count == old(self).diagnostics.dir_inode_count,
            final(self).diagnostics.dirent_bytes_per_inode == old(self).diagnostics.dirent_bytes_per_inode,
            final(self).diagnostics.dirent_writes == old(self).diagnostics.dirent_writes,
            r == dwalk(old(self).dirs@, old(self).blocks.inodes@, current, components(path@, index as int, end as int)),
            r matches Ok(i) ==> i < old(self).blocks.next_inode,
        decreases end - index,
    {
        self.diagnostics.resolve_calls = self.diagnostics.resolve_calls.wrapping_add(1);
        if depth > self.diagnostics.max_resolve_depth {
            self.diagnostics.max_resolve_depth = depth;
        }
        let ghost i0 = index as int;
        let mut index = index;
        while index < end && path[index] == SLASH
            invariant
                i0 <= index <= end <= path.len(),
                skip_slashes(path@, i0, end as int) == skip_slashes(path@, index as int, end as int),
            decreases end - index,
        {
            index += 1;
        }
        if index >= end {
            assert(components(path@, i0, end as int) == Seq::<Seq<u8>>::empty());
            return Ok(current);
        }
        let start = index;
        while index < end && path[index] != SLASH
            invariant
                start <= index <= end <= path.len(),
                comp_end(path@, start as int, end as int) == comp_end(path@, index as int, end as int),
            decreases end - index,
        {
            index += 1;
        }
        let comp = vstd::slice::slice_subrange(path, start, index);
        proof {
            lemma_components_step(path@, i0, start as int, index as int, end as int);
            let cs = components(path@, i0, end as int);
            assert(cs[0] == comp@);
            assert(cs.drop_first() == components(path@, index as int, end as int));
            crate::lab6::kernel_task1::namespace::lemma_components_left(path@, index as int, end as int);
        }
        self.diagnostics.path_components_split = self.diagnostics.path_components_split.wrapping_add(1);
        let child = match self.find_child(current, comp) {
            Some(c) => c,
            None => return Err(ENOENT),
        };
        if index < end && self.blocks.inodes[child].kind != FS_KIND_DIR {
            return Err(ENOTDIR);
        }
        self.resolve_components(child, path, index, end, depth + 1)
    }

    /// The inode `path` names.
    pub fn lookup_path(&mut self, path: &[u8]) -> (r: Result<usize, isize>)
        requires
            old(self).wf(),
        ensures
            final(self).wf(),
            final(self).blocks == old(self).blocks,
            final(self).dirs@ == old(self).dirs@,
            final(self).diagnostics.dir_inode_count == old(self).diagnostics.dir_inode_count,
            final(self).diagnostics.dirent_bytes_per_inode == old(self).diagnostics.dirent_bytes_per_inode,
            final(self).diagnostics.dirent_writes == old(self).diagnostics.dirent_writes,
            r == old(self).lookup_spec(path@),
            r matches Ok(i) ==> i < old(self).blocks.next_inode,
    {
        match validate_path(path) {
            Ok(()) => {},
            Err(e) => return Err(e),
        }
        let end = trimmed_path_end(path);
        proof {
            lemma_trim_from(path@, path@.len() as int);
        }
        if end == 1 {
            assert(components(path@, 1, 1) == Seq::<Seq<u8>>::empty());
            return Ok(ROOT_INODE);
        }
        self.resolve_components(ROOT_INODE, path, 1, end, 0)
    }
}

/// `u` is table `t` with slot `k` holding an entry for `child` named `name`.
pub open spec fn entry_added(t: DirTable, u: DirTable, k: int, child: usize, name: Seq<u8>) -> bool {
    &&& 0 <= k < FS_MAX_DIR_ENTRIES && !t.entries[k].valid
    &&& u.child_count == t.child_count + 1
    &&& u.entries[k].valid && u.entries[k].inode_index == child as u16 && dirent_name(u.entries[k]) == name
    &&& forall|e: int| 0 <= e < FS_MAX_DIR_ENTRIES && e != k ==> #[trigger] u.entries[e] == t.entries[e]
}

/// `u` is table `t` with the entry in slot `k` cleared.
pub open spec fn entry_removed(t: DirTable, u: DirTable, k: int) -> bool {
    &&& u.child_count == t.child_count - 1
    &&& !u.entries[k].valid && u.entries[k].name_len == 0 && u.entries[k].inode_index == 0
    &&& forall|e: int| 0 <= e < FS_MAX_DIR_ENTRIES && e != k ==> #[trigger] u.entries[e] == t.entries[e]
}

/// Where creating `p` would put the new entry: its parent, or the error.
pub open spec fn create_target(fs: DirFileSystem, p: Seq<u8>) -> Result<usize, isize> {
    match split_error(p) {
        Some(e) => Err(e),
        None => match fs.lookup_spec(p.subrange(0, parent_len(p))) {
            Err(e) => Err(e),
            Ok(par) => if fs.blocks.inodes@[par as int].kind != FS_KIND_DIR {
                Err(ENOTDIR)
            } else if dfind_from(fs.dirs@[par as int], leaf_name(p), 0) is Some {
                Err(EEXIST)
            } else {
                Ok(par)
            },
        },
    }
}

/// What removing `p` takes out: its parent and itself, or the error.
pub open spec fn remove_target(fs: DirFileSystem, p: Seq<u8>) -> Result<(usize, usize), isize> {
    match split_error(p) {
        Some(e) => Err(e),
        None => match fs.lookup_spec(p.subrange(0, parent_len(p))) {
            Err(e) => Err(e),
            Ok(par) => match dfind_from(fs.dirs@[par as int], leaf_name(p), 0) {
                None => Err(ENOENT),
                Some(c) => if fs.blocks.inodes@[c as int].kind == FS_KIND_DIR && fs.dirs@[c as int].child_count != 0 {
                    Err(ENOTEMPTY)
                } else {
                    Ok((par, c))
                },
            },
        },
    }
}

/// The listing of a table's first `e` slots: each entry in use, its name
/// and a newline.
pub open spec fn dlisting_upto(t: DirTable, e: int) -> Seq<u8>
    decreases e,
{
    if e <= 0 {
        Seq::empty()
    } else if t.entries[e - 1].valid {
        dlisting_upto(t, e - 1) + dirent_name(t.entries[e - 1]) + seq![10u8]
    } else {
        dlisting_upto(t, e - 1)
    }
}

/// Listings only grow, by at most a name and a newline per slot.
pub proof fn lemma_dlisting_len(t: DirTable, next: int, s: int, e: int)
    requires
        table_ok(t, next),
        0 <= s <= e <= FS_MAX_DIR_ENTRIES,
    ensures
        dlisting_upto(t, s).len() <= dlisting_upto(t, e).len(),
        dlisting_upto(t, e).len() <= 25 * e,
    decreases e,
{
    if e > 0 {
        assert(t.entries[e - 1].valid ==> t.entries[e - 1].name_len <= FS_NAME_MAX);
        if s < e {
            lemma_dlisting_len(t, next, s, e - 1);
        } else {
            lemma_dlisting_len(t, next, e - 1, e - 1);
        }
    }
}

impl DirFileSystem {
    /// Puts an entry for `child` named `name` into the first free slot of
    /// directory `parent`, and updates the directory's size; `ENOSPC` when
    /// every slot is in use.
    fn add_dirent(&mut self, parent: usize, child: usize, name: &[u8]) -> (r: isize)
        requires
            old(self).wf(),
            parent < FS_MAX_INODES,
            child < old(self).blocks.next_inode,
            name.len() < FS_NAME_MAX,
            parent < child,
            no_entry_for(old(self).dirs@, child),
            dfind_from(old(self).dirs@[parent as int], name@, 0) is None,
            old(self).blocks.inodes@[parent as int].kind == FS_KIND_DIR,
        ensures
            final(self).wf(),
            final(self).blocks.next_inode == old(self).blocks.next_inode,
            pools_same(old(self).blocks, final(self).blocks),
            match first_free(old(self).dirs@[parent as int], 0) {
                None => r == ENOSPC && final(self).blocks == old(self).blocks && final(self).dirs@ == old(self).dirs@
                    && final(self).diagnostics == old(self).diagnostics,
                Some(k) => {
                    &&& r == 0
                    &&& final(self).dirs@ == old(self).dirs@.update(parent as int, final(self).dirs@[parent as int])
                    &&& entry_added(old(self).dirs@[parent as int], final(self).dirs@[parent as int], k, child, name@)
                    &&& final(self).blocks.inodes@ == old(self).blocks.inodes@.update(parent as int, DiskInode {
                        size_bytes: ((old(self).dirs@[parent as int].child_count + 1) * DIRENT_BYTES) as u64,
                        ..old(self).blocks.inodes@[parent as int] })
                    &&& final(self).diagnostics == (DirDiagnostics { dirent_writes: old(self).diagnostics.dirent_writes.wrapping_add(1),
                        ..old(self).diagnostics })
                },
            },
    {
        let ghost t = self.dirs@[parent as int];
        proof {
            assert(table_ok(t, self.blocks.next_inode as int));
            lemma_first_free(t, 0);
        }
        let mut e: usize = 0;
        while e < FS_MAX_DIR_ENTRIES
            invariant
                e <= FS_MAX_DIR_ENTRIES,
                t == self.dirs@[parent as int],
                self.dirs@ == old(self).dirs@,
                self.blocks == old(self).blocks,
                self.diagnostics == old(self).diagnostics,
                parent < FS_MAX_INODES,
                self.dirs.len() == FS_MAX_INODES,
                first_free(t, 0) == first_free(t, e as int),
                old(self).wf(),
                name.len() < FS_NAME_MAX,
                child < old(self).blocks.next_inode,
                parent < child,
                no_entry_for(old(self).dirs@, child),
                dfind_from(old(self).dirs@[parent as int], name@, 0) is None,
                old(self).blocks.inodes@[parent as int].kind == FS_KIND_DIR,
            decreases FS_MAX_DIR_ENTRIES - e,
        {
            if !self.dirs[parent].entries[e].valid {
                assert(table_ok(t, old(self).blocks.next_inode as int));
                let mut d = empty_dirent();
                d.valid = true;
                d.name_len = name.len() as u8;
                d.inode_index = child as u16;
                let mut k: usize = 0;
                while k < name.len()
                    invariant
                        k <= name.len() < FS_NAME_MAX,
                        d.valid && d.name_len == name.len() && d.inode_index == child,
                        forall|j: int| 0 <= j < k ==> #[trigger] d.name[j] == name@[j],
                    decreases name.len() - k,
                {
                    d.name[k] = name[k];
                    k += 1;
                }
                assert(dirent_name(d) =~= name@);
                let mut u = self.dirs[parent];
                proof {
                    lemma_valid_bound(t, FS_MAX_DIR_ENTRIES as int, e as int);
                }
                u.entries[e] = d;
                u.child_count = u.child_count + 1;
                proof {
                    lemma_valid_update(t, u, FS_MAX_DIR_ENTRIES as int, e as int);
                    assert forall|j: int| 0 <= j < FS_MAX_DIR_ENTRIES && (#[trigger] u.entries[j]).valid implies
                        u.entries[j].inode_index < self.blocks.next_inode && u.entries[j].name_len <= FS_NAME_MAX by {
                        if j != e {
                            assert(u.entries[j] == t.entries[j]);
                        }
                    }
                }
                self.dirs.set(parent, u);
                let size = (u.child_count as u64) * DIRENT_BYTES;
                self.blocks.set_size_bytes(parent, size);
                self.diagnostics.dirent_writes = self.diagnostics.dirent_writes.wrapping_add(1);
                proof {
                    assert forall|i: int| 0 <= i < FS_MAX_INODES implies #[trigger] table_ok(self.dirs@[i],
                        self.blocks.next_inode as int) by {
                        if i != parent {
                            assert(self.dirs@[i] == old(self).dirs@[i]);
                        }
                    }
                    lemma_dfind_none(t, name@, 0);
                    lemma_tree_add(old(self).dirs@, self.dirs@, parent as int, e as int, child, name@);
                    assert forall|i: int, j: int| 0 <= i < FS_MAX_INODES && 0 <= j < FS_MAX_DIR_ENTRIES
                        && (#[trigger] self.dirs@[i].entries[j]).valid implies self.blocks.inodes@[i].kind == FS_KIND_DIR by {
                        if i != parent {
                            assert(self.dirs@[i] == old(self).dirs@[i]);
                            assert(old(self).dirs@[i].entries[j].valid);
                        }
                    }
                }
                return 0;
            }
            e += 1;
        }
        ENOSPC
    }

    /// Clears the first entry of directory `parent` for `child`, and updates
    /// the directory's size.
    fn remove_dirent(&mut self, parent: usize, child: usize)
        requires
            old(self).wf(),
            parent < FS_MAX_INODES,
        ensures
            final(self).wf(),
            final(self).blocks.next_inode == old(self).blocks.next_inode,
            pools_same(old(self).blocks, final(self).blocks),
            match slot_of(old(self).dirs@[parent as int], child, 0) {
                None => final(self).blocks == old(self).blocks && final(self).dirs@ == old(self).dirs@
                    && final(self).diagnostics == old(self).diagnostics,
                Some(k) => {
                    &&& final(self).dirs@ == old(self).dirs@.update(parent as int, final(self).dirs@[parent as int])
                    &&& entry_removed(old(self).dirs@[parent as int], final(self).dirs@[parent as int], k)
                    &&& final(self).blocks.inodes@ == old(self).blocks.inodes@.update(parent as int, DiskInode {
                        size_bytes: ((old(self).dirs@[parent as int].child_count - 1) * DIRENT_BYTES) as u64,
                        ..old(self).blocks.inodes@[parent as int] })
                    &&& final(self).diagnostics == (DirDiagnostics { dirent_writes: old(self).diagnostics.dirent_writes.wrapping_add(1),
                        ..old(self).diagnostics })
                },
            },
    {
        let ghost t = self.dirs@[parent as int];
        proof {
            assert(table_ok(t, self.blocks.next_inode as int));
            lemma_slot_of(t, child, 0);
        }
        let mut e: usize = 0;
        while e < FS_MAX_DIR_ENTRIES
            invariant
                e <= FS_MAX_DIR_ENTRIES,
                t == self.dirs@[parent as int],
                self.dirs@ == old(self).dirs@,
                self.blocks == old(self).blocks,
                self.diagnostics == old(self).diagnostics,
                parent < FS_MAX_INODES,
                self.dirs.len() == FS_MAX_INODES,
                slot_of(t, child, 0) == slot_of(t, child, e as int),
                old(self).wf(),
            decreases FS_MAX_DIR_ENTRIES - e,
        {
            let d = self.dirs[parent].entries[e];
            if d.valid && d.inode_index as usize == child {
                assert(table_ok(t, old(self).blocks.next_inode as int));
                let mut u = self.dirs[parent];
                u.entries[e] = empty_dirent();
                if u.child_count > 0 {
                    u.child_count = u.child_count - 1;
                }
                proof {
                    lemma_valid_update(t, u, FS_MAX_DIR_ENTRIES as int, e as int);
                    assert forall|j: int| 0 <= j < FS_MAX_DIR_ENTRIES && (#[trigger] u.entries[j]).valid implies
                        u.entries[j].inode_index < self.blocks.next_inode && u.entries[j].name_len <= FS_NAME_MAX by {
                        if j != e {
                            assert(u.entries[j] == t.entries[j]);
                        }
                    }
                }
                self.dirs.set(parent, u);
                let size = (u.child_count as u64) * DIRENT_BYTES;
                self.blocks.set_size_bytes(parent, size);
                self.diagnostics.dirent_writes = self.diagnostics.dirent_writes.wrapping_add(1);
                proof {
                    assert forall|i: int| 0 <= i < FS_MAX_INODES implies #[trigger] table_ok(self.dirs@[i],
                        self.blocks.next_inode as int) by {
                        if i != parent {
                            assert(self.dirs@[i] == old(self).dirs@[i]);
                        }
                    }
                }
                return;
            }
            e += 1;
        }
    }
}

/// The directory-layer counters that only creation and removal change are
/// as they were.
pub open spec fn counts_kept(a: DirDiagnostics, b: DirDiagnostics) -> bool {
    &&& b.dir_inode_count == a.dir_inode_count
    &&& b.dirent_bytes_per_inode == a.dirent_bytes_per_inode
    &&& b.dirent_writes == a.dirent_writes
}

/// Nothing but the lookup counters changed.
pub open spec fn dfs_same(a: DirFileSystem, b: DirFileSystem) -> bool {
    &&& fs_same(a.blocks, b.blocks)
    &&& b.dirs@ == a.dirs@
    &&& counts_kept(a.diagnostics, b.diagnostics)
}

/// What creating `p` as a `kind` node did, from `old` to `new`, returning
/// `r`: the error with nothing changed; `ENOSPC` with nothing changed when
/// the inode table is full; otherwise a fresh inode with an empty table,
/// entered into its parent's first free slot, unless every slot is in use
/// (`ENOSPC`, the inode stays allocated).
pub open spec fn dcreated(old: DirFileSystem, new: DirFileSystem, p: Seq<u8>, kind: u8, r: isize) -> bool {
    match create_target(old, p) {
        Err(e) => r == e && dfs_same(old, new),
        Ok(par) => if old.blocks.next_inode >= FS_MAX_INODES {
            r == ENOSPC && dfs_same(old, new)
        } else {
            let ni = old.blocks.next_inode;
            let t = old.dirs@[par as int];
            &&& pools_same(old.blocks, new.blocks)
            &&& new.blocks.next_inode == ni + 1
            &&& fresh_inode(new.blocks.inodes@[ni as int], kind, par, leaf_name(p))
            &&& table_empty(new.dirs@[ni as int])
            &&& new.diagnostics.dir_inode_count == old.diagnostics.dir_inode_count + (if kind == FS_KIND_DIR { 1int } else { 0int })
            &&& new.diagnostics.dirent_bytes_per_inode == old.diagnostics.dirent_bytes_per_inode
            &&& match first_free(t, 0) {
                None => {
                    &&& r == ENOSPC
                    &&& new.blocks.inodes@ == old.blocks.inodes@.update(ni as int, new.blocks.inodes@[ni as int])
                    &&& new.dirs@ == old.dirs@.update(ni as int, new.dirs@[ni as int])
                    &&& new.diagnostics.dirent_writes == old.diagnostics.dirent_writes
                },
                Some(k) => {
                    &&& r == 0
                    &&& new.blocks.inodes@ == old.blocks.inodes@.update(ni as int, new.blocks.inodes@[ni as int]).update(
                        par as int, DiskInode { size_bytes: ((t.child_count + 1) * DIRENT_BYTES) as u64,
                        ..old.blocks.inodes@[par as int] })
                    &&& new.dirs@ == old.dirs@.update(ni as int, new.dirs@[ni as int]).update(par as int, new.dirs@[par as int])
                    &&& entry_added(t, new.dirs@[par as int], k, ni as usize, leaf_name(p))
                    &&& new.diagnostics.dirent_writes == old.diagnostics.dirent_writes.wrapping_add(1)
                },
            }
        },
    }
}

/// An entry found by name is an entry for its inode.
pub proof fn lemma_dfind_slot(t: DirTable, name: Seq<u8>, e: int)
    requires
        0 <= e,
    ensures
        dfind_from(t, name, e) matches Some(c) ==> slot_of(t, c, e) is Some,
    decreases FS_MAX_DIR_ENTRIES - e,
{
    if e < FS_MAX_DIR_ENTRIES {
        lemma_dfind_slot(t, name, e + 1);
        if let Some(c) = dfind_from(t, name, e + 1) {
            if !(t.entries[e].valid && dirent_name(t.entries[e]) == name) {
                if t.entries[e].valid && t.entries[e].inode_index as usize == c {
                } else {
                    assert(slot_of(t, c, e) == slot_of(t, c, e + 1));
                }
            }
        }
    }
}

impl DirFileSystem {
    /// Takes the next inode for a `kind` node named `name` under `parent`,
    /// with an empty entry table; `ENOSPC` when every inode is taken.
    fn allocate(&mut self, kind: u8, parent: usize, name: &[u8]) -> (r: Result<usize, isize>)
        requires
            old(self).wf(),
            parent < old(self).blocks.next_inode,
            name.len() < FS_NAME_MAX,
        ensures
            final(self).wf(),
            pools_same(old(self).blocks, final(self).blocks),
            match r {
                Ok(i) => {
                    &&& i == old(self).blocks.next_inode && final(self).blocks.next_inode == i + 1
                    &&& final(self).blocks.inodes@ == old(self).blocks.inodes@.update(i as int, final(self).blocks.inodes@[i as int])
                    &&& fresh_inode(final(self).blocks.inodes@[i as int], kind, parent, name@)
                    &&& final(self).dirs@ == old(self).dirs@.update(i as int, final(self).dirs@[i as int])
                    &&& table_empty(final(self).dirs@[i as int])
                    &&& final(self).diagnostics == (DirDiagnostics { dir_inode_count: (old(self).diagnostics.dir_inode_count
                        + (if kind == FS_KIND_DIR { 1int } else { 0int })) as u64, ..old(self).diagnostics })
                },
                Err(e) => e == ENOSPC && old(self).blocks.next_inode >= FS_MAX_INODES && fs_same(old(self).blocks, final(self).blocks)
                    && final(self).dirs@ == old(self).dirs@ && final(self).diagnostics == old(self).diagnostics,
            },
    {
        let ghost old_fs = *self;
        let i = match self.blocks.allocate_inode(kind, parent, name) {
            Ok(i) => i,
            Err(e) => return Err(e),
        };
        self.dirs.set(i, empty_table());
        if kind == FS_KIND_DIR {
            self.diagnostics.dir_inode_count = self.diagnostics.dir_inode_count + 1;
        }
        proof {
            assert forall|k: int| 0 <= k < FS_MAX_INODES implies #[trigger] table_ok(self.dirs@[k],
                self.blocks.next_inode as int) by {
                if k != i {
                    assert(table_ok(old_fs.dirs@[k], old_fs.blocks.next_inode as int));
                    assert(self.dirs@[k] == old_fs.dirs@[k]);
                }
            }
        }
        Ok(i)
    }
}

impl DirFileSystem {
    /// Creates a `kind` node at `path` under an existing directory.
    fn create_node(&mut self, path: &[u8], kind: u8) -> (r: isize)
        requires
            old(self).wf(),
        ensures
            final(self).wf(),
            dcreated(*old(self), *final(self), path@, kind, r),
    {
        let (parent_path, name) = match split_parent_and_name(path) {
            Ok(pair) => pair,
            Err(e) => return e,
        };
        proof {
            lemma_leaf_is_last(path@);
        }
        let parent = match self.lookup_path(parent_path) {
            Ok(i) => i,
            Err(e) => return e,
        };
        if self.blocks.inodes[parent].kind != FS_KIND_DIR {
            return ENOTDIR;
        }
        if self.find_child(parent, name).is_some() {
            return EEXIST;
        }
        let ghost before = *self;
        let ni = match self.allocate(kind, parent, name) {
            Ok(i) => i,
            Err(e) => return e,
        };
        let ghost mid = *self;
        proof {
            assert forall|i: int, e: int| 0 <= i < mid.dirs@.len() && 0 <= e < FS_MAX_DIR_ENTRIES
                && (#[trigger] mid.dirs@[i].entries[e]).valid implies mid.dirs@[i].entries[e].inode_index != ni by {
                if i == ni {
                    assert(table_empty(mid.dirs@[i]));
                } else {
                    assert(mid.dirs@[i] == before.dirs@[i]);
                    assert(table_ok(before.dirs@[i], before.blocks.next_inode as int));
                }
            }
        }
        let r = self.add_dirent(parent, ni, name);
        proof {
            assert(parent != ni);
            assert(mid.dirs@[parent as int] == before.dirs@[parent as int]);
            assert(mid.blocks.inodes@[parent as int] == before.blocks.inodes@[parent as int]);
            if r == 0 {
                assert(self.blocks.inodes@[ni as int] == mid.blocks.inodes@[ni as int]);
                assert(self.dirs@[ni as int] == mid.dirs@[ni as int]);
            }
        }
        r
    }

    /// Creates a directory at `path`.
    pub fn create_dir(&mut self, path: &[u8]) -> (r: isize)
        requires
            old(self).wf(),
        ensures
            final(self).wf(),
            dcreated(*old(self), *final(self), path@, FS_KIND_DIR, r),
    {
        self.create_node(path, FS_KIND_DIR)
    }

    /// Creates an empty file at `path`.
    pub fn create_file(&mut self, path: &[u8]) -> (r: isize)
        requires
            old(self).wf(),
        ensures
            final(self).wf(),
            dcreated(*old(self), *final(self), path@, FS_KIND_FILE, r),
    {
        self.create_node(path, FS_KIND_FILE)
    }
}

/// What removing `p` did, from `old` to `new`, returning `r`: the error with
/// nothing changed; otherwise the first entry for the node cleared in its
/// parent, the node's inode and table cleared (its blocks are not
/// reclaimed) and, for a directory, one directory fewer counted.
pub open spec fn dremoved(old: DirFileSystem, new: DirFileSystem, p: Seq<u8>, r: isize) -> bool {
    match remove_target(old, p) {
        Err(e) => r == e && dfs_same(old, new),
        Ok((par, c)) => {
            let t = old.dirs@[par as int];
            let od = old.diagnostics;
            &&& r == 0
            &&& pools_same(old.blocks, new.blocks)
            &&& new.blocks.next_inode == old.blocks.next_inode
            &&& is_blank(new.blocks.inodes@[c as int])
            &&& table_empty(new.dirs@[c as int])
            &&& c != par ==> {
                &&& new.blocks.inodes@ == old.blocks.inodes@.update(par as int, DiskInode {
                    size_bytes: ((t.child_count - 1) * DIRENT_BYTES) as u64, ..old.blocks.inodes@[par as int] }).update(
                    c as int, new.blocks.inodes@[c as int])
                &&& new.dirs@ == old.dirs@.update(par as int, new.dirs@[par as int]).update(c as int, new.dirs@[c as int])
                &&& slot_of(t, c, 0) matches Some(k) && entry_removed(t, new.dirs@[par as int], k)
            }
            &&& c == par ==> new.blocks.inodes@ == old.blocks.inodes@.update(c as int, new.blocks.inodes@[c as int])
                && new.dirs@ == old.dirs@.update(c as int, new.dirs@[c as int])
            &&& new.diagnostics.dir_inode_count == (if old.blocks.inodes@[c as int].kind == FS_KIND_DIR
                && od.dir_inode_count > 0 { od.dir_inode_count - 1 } else { od.dir_inode_count as int })
            &&& new.diagnostics.dirent_bytes_per_inode == od.dirent_bytes_per_inode
            &&& new.diagnostics.dirent_writes == od.dirent_writes.wrapping_add(1)
        },
    }
}

impl DirFileSystem {
    /// Removes the file or empty directory at `path`.
    pub fn remove(&mut self, path: &[u8]) -> (r: isize)
        requires
            old(self).wf(),
        ensures
            final(self).wf(),
            dremoved(*old(self), *final(self), path@, r),
    {
        let (parent_path, name) = match split_parent_and_name(path) {
            Ok(pair) => pair,
            Err(e) => return e,
        };
        proof {
            lemma_leaf_is_last(path@);
        }
        let parent = match self.lookup_path(parent_path) {
            Ok(i) => i,
            Err(e) => return e,
        };
        let child = match self.find_child(parent, name) {
            Some(c) => c,
            None => return ENOENT,
        };
        if self.blocks.inodes[child].kind == FS_KIND_DIR && self.dirs[child].child_count != 0 {
            return ENOTEMPTY;
        }
        let ghost before = *self;
        proof {
            lemma_dfind_slot(before.dirs@[parent as int], name@, 0);
        }
        self.remove_dirent(parent, child);
        let ghost mid = *self;
        if self.blocks.inodes[child].kind == FS_KIND_DIR && self.diagnostics.dir_inode_count > 0 {
            self.diagnostics.dir_inode_count = self.diagnostics.dir_inode_count - 1;
        }
        self.blocks.reset_inode(child);
        self.dirs.set(child, empty_table());
        proof {
            assert forall|k: int| 0 <= k < FS_MAX_INODES implies #[trigger] table_ok(self.dirs@[k],
                self.blocks.next_inode as int) by {
                if k != child {
                    assert(table_ok(mid.dirs@[k], mid.blocks.next_inode as int));
                    assert(self.dirs@[k] == mid.dirs@[k]);
                }
            }
            let t = before.dirs@[parent as int];
            assert(remove_target(*old(self), path@) == Ok::<(usize, usize), isize>((parent, child)));
            if child != parent {
                assert(self.blocks.inodes@ == old(self).blocks.inodes@.update(parent as int, DiskInode {
                    size_bytes: ((t.child_count - 1) * DIRENT_BYTES) as u64, ..old(self).blocks.inodes@[parent as int] }).update(
                    child as int, self.blocks.inodes@[child as int]));
                assert(self.dirs@ == old(self).dirs@.update(parent as int, self.dirs@[parent as int]).update(child as int,
                    self.dirs@[child as int]));
                assert(self.dirs@[parent as int] == mid.dirs@[parent as int]);
                assert(slot_of(t, child, 0) matches Some(k) && entry_removed(t, self.dirs@[parent as int], k));
            } else {
                assert(self.blocks.inodes@ == old(self).blocks.inodes@.update(child as int, self.blocks.inodes@[child as int]));
                assert(self.dirs@ == old(self).dirs@.update(child as int, self.dirs@[child as int]));
            }
        }
        0
    }

    /// The kind, level, size, blocks and entry count of the node at `path`.
    pub fn stat(&mut self, path: &[u8], stat: &mut FsStat) -> (r: isize)
        requires
            old(self).wf(),
        ensures
            final(self).wf(),
            final(self).blocks == old(self).blocks,
            final(self).dirs@ == old(self).dirs@,
            counts_kept(old(self).diagnostics, final(self).diagnostics),
            match old(self).lookup_spec(path@) {
                Err(e) => r == e && *final(stat) == *old(stat),
                Ok(i) => {
                    let n = old(self).blocks.inodes@[i as int];
                    r == 0 && *final(stat) == (FsStat { kind: n.kind, highest_level: n.highest_level,
                        size_bytes: n.size_bytes, blocks_used: n.blocks_used,
                        child_count: old(self).dirs@[i as int].child_count as u64 })
                },
            },
    {
        let i = match self.lookup_path(path) {
            Ok(i) => i,
            Err(e) => return e,
        };
        stat.kind = self.blocks.inodes[i].kind;
        stat.highest_level = self.blocks.inodes[i].highest_level;
        stat.size_bytes = self.blocks.inodes[i].size_bytes;
        stat.blocks_used = self.blocks.inodes[i].blocks_used;
        stat.child_count = self.dirs[i].child_count as u64;
        0
    }

    /// Writes `src` into the file at `path` from byte `offset`; `EISDIR` for
    /// a directory, `EFBIG` past the largest file.
    pub fn write_at(&mut self, path: &[u8], offset: usize, src: &[u8]) -> (r: isize)
        requires
            old(self).wf(),
        ensures
            final(self).wf(),
            final(self).dirs@ == old(self).dirs@,
            final(self).blocks.next_inode == old(self).blocks.next_inode,
            counts_kept(old(self).diagnostics, final(self).diagnostics),
            match old(self).lookup_spec(path@) {
                Err(e) => r == e && fs_same(old(self).blocks, final(self).blocks),
                Ok(ino) => if old(self).blocks.inodes@[ino as int].kind != FS_KIND_FILE {
                    r == EISDIR && fs_same(old(self).blocks, final(self).blocks)
                } else if offset + src.len() > MAX_FILE_BYTES {
                    r == EFBIG && fs_same(old(self).blocks, final(self).blocks)
                } else {
                    &&& wrote(old(self).blocks, final(self).blocks, ino, offset as int, src@, r)
                    &&& (forall|l: int| offset / 512 <= l < end_block(offset as int, src.len() as int) ==>
                        #[trigger] block_of(old(self).blocks.inodes@, old(self).blocks.ptr_blocks@, ino as int, l) is Some)
                        ==> r == src.len()
                },
            },
    {
        let ino = match self.lookup_path(path) {
            Ok(i) => i,
            Err(e) => return e,
        };
        if self.blocks.inodes[ino].kind != FS_KIND_FILE {
            return EISDIR;
        }
        let end_offset = match offset.checked_add(src.len()) {
            Some(v) => v,
            None => return EFBIG,
        };
        if end_offset as u64 > MAX_FILE_BYTES {
            return EFBIG;
        }
        let ghost before = *self;
        let r = self.blocks.write_blocks(ino, offset, src);
        proof {
            assert forall|k: int| 0 <= k < FS_MAX_INODES implies #[trigger] table_ok(self.dirs@[k],
                self.blocks.next_inode as int) by {
                assert(table_ok(before.dirs@[k], before.blocks.next_inode as int));
            }
            assert forall|i: int, e: int| 0 <= i < FS_MAX_INODES && 0 <= e < FS_MAX_DIR_ENTRIES
                && (#[trigger] self.dirs@[i].entries[e]).valid implies self.blocks.inodes@[i].kind == FS_KIND_DIR by {
                assert(before.dirs@[i].entries[e].valid);
                if i != ino {
                    assert(same_meta(before.blocks.inodes@[i], self.blocks.inodes@[i]));
                }
            }
        }
        r
    }

    /// Reads the file at `path` from byte `offset` into `dst`, up to the end
    /// of the file; blocks never written read as zeros. `EISDIR` for a
    /// directory.
    pub fn read_at(&mut self, path: &[u8], offset: usize, dst: &mut [u8]) -> (r: isize)
        requires
            old(self).wf(),
        ensures
            final(self).wf(),
            final(self).blocks.model() == old(self).blocks.model(),
            final(self).dirs@ == old(self).dirs@,
            counts_kept(old(self).diagnostics, final(self).diagnostics),
            final(dst)@.len() == old(dst)@.len(),
            match old(self).lookup_spec(path@) {
                Err(e) => r == e && final(dst)@ == old(dst)@,
                Ok(ino) => if old(self).blocks.inodes@[ino as int].kind != FS_KIND_FILE {
                    r == EISDIR && final(dst)@ == old(dst)@
                } else {
                    let n = read_len(old(self).blocks.inodes@[ino as int].size_bytes as int, offset as int,
                        old(dst)@.len() as int);
                    &&& r == n
                    &&& forall|j: int| 0 <= j < old(dst)@.len() ==> #[trigger] final(dst)@[j] == (if j < n {
                        file_byte(old(self).blocks.model(), ino as int, offset + j) } else { old(dst)@[j] })
                },
            },
    {
        let ino = match self.lookup_path(path) {
            Ok(i) => i,
            Err(e) => return e,
        };
        if self.blocks.inodes[ino].kind != FS_KIND_FILE {
            return EISDIR;
        }
        let ghost before = *self;
        let r = self.blocks.read_blocks(ino, offset, dst);
        proof {
            assert forall|k: int| 0 <= k < FS_MAX_INODES implies #[trigger] table_ok(self.dirs@[k],
                self.blocks.next_inode as int) by {
                assert(table_ok(before.dirs@[k], before.blocks.next_inode as int));
            }
        }
        r
    }
}

impl DirFileSystem {
    /// Writes the names of the entries of the directory at `path` into
    /// `dst`, one per line, in slot order; `ENOSPC` when they do not fit
    /// (the entries that fit are written).
    pub fn list_dir(&mut self, path: &[u8], dst: &mut [u8]) -> (r: isize)
        requires
            old(self).wf(),
        ensures
            final(self).wf(),
            final(self).blocks == old(self).blocks,
            final(self).dirs@ == old(self).dirs@,
            counts_kept(old(self).diagnostics, final(self).diagnostics),
            final(dst)@.len() == old(dst)@.len(),
            match old(self).lookup_spec(path@) {
                Err(e) => r == e && final(dst)@ == old(dst)@,
                Ok(i) => if old(self).blocks.inodes@[i as int].kind != FS_KIND_DIR {
                    r == ENOTDIR && final(dst)@ == old(dst)@
                } else {
                    let t = old(self).dirs@[i as int];
                    let l = dlisting_upto(t, FS_MAX_DIR_ENTRIES as int);
                    if l.len() <= old(dst)@.len() {
                        r == l.len() && final(dst)@ == l + old(dst)@.subrange(l.len() as int, old(dst)@.len() as int)
                    } else {
                        r == ENOSPC && exists|e: int| 0 <= e <= FS_MAX_DIR_ENTRIES
                            && #[trigger] dlisting_upto(t, e).len() <= old(dst)@.len()
                            && final(dst)@ == dlisting_upto(t, e) + old(dst)@.subrange(dlisting_upto(t, e).len() as int,
                                old(dst)@.len() as int)
                    }
                },
            },
    {
        let dir = match self.lookup_path(path) {
            Ok(i) => i,
            Err(e) => return e,
        };
        if self.blocks.inodes[dir].kind != FS_KIND_DIR {
            return ENOTDIR;
        }
        let ghost d0 = dst@;
        let ghost t = self.dirs@[dir as int];
        let ghost next = self.blocks.next_inode as int;
        proof {
            assert(table_ok(t, next));
            lemma_dlisting_len(t, next, 0, FS_MAX_DIR_ENTRIES as int);
        }
        let mut written: usize = 0;
        let mut e: usize = 0;
        while e < FS_MAX_DIR_ENTRIES
            invariant
                self.wf(),
                self.blocks == old(self).blocks,
                self.dirs@ == old(self).dirs@,
                counts_kept(old(self).diagnostics, self.diagnostics),
                dir < FS_MAX_INODES,
                t == self.dirs@[dir as int],
                next == self.blocks.next_inode,
                table_ok(t, next),
                e <= FS_MAX_DIR_ENTRIES,
                dst@.len() == d0.len(),
                d0 == old(dst)@,
                old(self).lookup_spec(path@) == Ok::<usize, isize>(dir),
                old(self).blocks.inodes@[dir as int].kind == FS_KIND_DIR,
                written == dlisting_upto(t, e as int).len(),
                written <= dst@.len(),
                dst@ == dlisting_upto(t, e as int) + d0.subrange(written as int, d0.len() as int),
            decreases FS_MAX_DIR_ENTRIES - e,
        {
            let d = self.dirs[dir].entries[e];
            proof {
                lemma_dlisting_len(t, next, e as int, FS_MAX_DIR_ENTRIES as int);
                lemma_dlisting_len(t, next, e as int + 1, FS_MAX_DIR_ENTRIES as int);
            }
            if d.valid {
                self.diagnostics.dirent_reads = self.diagnostics.dirent_reads.wrapping_add(1);
                let name_len = d.name_len as usize;
                let required = name_len + 1;
                if written + required > dst.len() {
                    proof {
                        assert(dirent_name(d).len() == name_len);
                        assert(dlisting_upto(t, e as int + 1).len() == written + required);
                        assert(exists|s: int| 0 <= s <= FS_MAX_DIR_ENTRIES
                            && #[trigger] dlisting_upto(t, s).len() <= d0.len()
                            && dst@ == dlisting_upto(t, s) + d0.subrange(dlisting_upto(t, s).len() as int, d0.len() as int));
                    }
                    return ENOSPC;
                }
                let ghost before = dst@;
                let mut k: usize = 0;
                while k < name_len
                    invariant
                        k <= name_len <= FS_NAME_MAX,
                        name_len == d.name_len,
                        written + name_len + 1 <= dst.len(),
                        dst@.len() == before.len(),
                        forall|j: int| 0 <= j < written || written + k <= j < dst@.len() ==> #[trigger] dst@[j] == before[j],
                        forall|j: int| 0 <= j < k ==> #[trigger] dst@[written + j] == d.name[j],
                    decreases name_len - k,
                {
                    dst[written + k] = d.name[k];
                    k += 1;
                }
                let ghost named = dst@;
                dst[written + name_len] = 10u8;
                proof {
                    let nm = dirent_name(d);
                    let prev = dlisting_upto(t, e as int);
                    let nxt = dlisting_upto(t, e as int + 1);
                    assert(nm.len() == name_len);
                    assert(nxt == prev + nm + seq![10u8]);
                    let want = nxt + d0.subrange(written + name_len + 1, d0.len() as int);
                    assert forall|j: int| 0 <= j < dst@.len() implies dst@[j] == want[j] by {
                        if j < written {
                            assert(named[j] == before[j]);
                        } else if j < written + name_len {
                            let jj = j - written;
                            assert(named[written + jj] == d.name[jj]);
                        } else if j > written + name_len {
                            assert(named[j] == before[j]);
                        }
                    }
                    assert(dst@ =~= want);
                }
                written = written + required;
            }
            e += 1;
        }
        written as isize
    }
}

/// Searching a table that gained an entry named `leaf` in a free slot `k`
/// finds the same as before for every other name, and the new entry for
/// `leaf` when there was none.
pub proof fn lemma_dfind_added(t: DirTable, u: DirTable, k: int, ni: usize, leaf: Seq<u8>, name: Seq<u8>, e: int)
    requires
        0 <= e,
        ni < 65536,
        entry_added(t, u, k, ni, leaf),
    ensures
        name != leaf ==> dfind_from(u, name, e) == dfind_from(t, name, e),
        dfind_from(t, leaf, e) is None ==> dfind_from(u, leaf, e) == (if e <= k { Some(ni) } else { None::<usize> }),
    decreases FS_MAX_DIR_ENTRIES - e,
{
    if e < FS_MAX_DIR_ENTRIES {
        lemma_dfind_added(t, u, k, ni, leaf, name, e + 1);
        if e != k {
            assert(u.entries[e] == t.entries[e]);
        }
    }
}

/// A walk over `a + b` is the walk over `a`, then over `b` from where it
/// ended, when that is a directory.
pub proof fn lemma_dwalk_concat(dirs: Seq<DirTable>, inodes: Seq<DiskInode>, cur: usize, a: Seq<Seq<u8>>, b: Seq<Seq<u8>>,
    x: usize)
    requires
        dwalk(dirs, inodes, cur, a) == Ok::<usize, isize>(x),
        b.len() > 0,
        a.len() > 0 ==> inodes[x as int].kind == FS_KIND_DIR,
    ensures
        dwalk(dirs, inodes, cur, a + b) == dwalk(dirs, inodes, x, b),
    decreases a.len(),
{
    if a.len() == 0 {
        assert(a + b =~= b);
    } else {
        let ch = dfind_from(dirs[cur as int], a[0], 0)->0;
        assert((a + b)[0] == a[0]);
        assert((a + b).drop_first() =~= a.drop_first() + b);
        lemma_dwalk_concat(dirs, inodes, ch, a.drop_first(), b, x);
    }
}

/// A walk that succeeded never asked `par` for `leaf` when `par` had no
/// such entry; so where only that answer changed, the walk is the same.
pub proof fn lemma_dwalk_unchanged(od: Seq<DirTable>, nd: Seq<DirTable>, oi: Seq<DiskInode>, ni_: Seq<DiskInode>, next: int,
    cur: usize, cs: Seq<Seq<u8>>, par: usize, leaf: Seq<u8>)
    requires
        cur < next,
        dwalk(od, oi, cur, cs) is Ok,
        dfind_from(od[par as int], leaf, 0) is None,
        forall|x: usize, name: Seq<u8>| x < next && (x != par || name != leaf) ==> #[trigger] dfind_from(nd[x as int], name, 0)
            == dfind_from(od[x as int], name, 0),
        forall|x: usize, name: Seq<u8>| x < next ==> (#[trigger] dfind_from(od[x as int], name, 0) matches Some(c) ==> c < next),
        forall|x: int| 0 <= x < next ==> #[trigger] ni_[x].kind == oi[x].kind,
    ensures
        dwalk(nd, ni_, cur, cs) == dwalk(od, oi, cur, cs),
    decreases cs.len(),
{
    if cs.len() > 0 {
        assert(dfind_from(nd[cur as int], cs[0], 0) == dfind_from(od[cur as int], cs[0], 0));
        let ch = dfind_from(od[cur as int], cs[0], 0)->0;
        assert(ch < next);
        assert(ni_[ch as int].kind == oi[ch as int].kind);
        if !(cs.len() > 1 && oi[ch as int].kind != FS_KIND_DIR) {
            lemma_dwalk_unchanged(od, nd, oi, ni_, next, ch, cs.drop_first(), par, leaf);
        }
    }
}

/// Creating a node makes its path name it: once `create_dir` or
/// `create_file` has returned 0, looking up the same path gives the new
/// inode.
pub proof fn law_dcreate_then_lookup(old: DirFileSystem, new: DirFileSystem, p: Seq<u8>, kind: u8)
    requires
        old.wf(),
        dcreated(old, new, p, kind, 0),
    ensures
        new.lookup_spec(p) == Ok::<usize, isize>(old.blocks.next_inode),
{
    let od = old.dirs@;
    let nd = new.dirs@;
    let oi = old.blocks.inodes@;
    let ni_ = new.blocks.inodes@;
    let next = old.blocks.next_inode as int;
    lemma_path_errors_nonzero(p);
    let pp = p.subrange(0, parent_len(p));
    match dlookup(od, oi, pp) {
        Err(e) => {
            lemma_path_errors_nonzero(pp);
            lemma_dwalk_err(od, oi, ROOT_INODE, path_components(pp));
        },
        Ok(par) => {},
    }
    let par = create_target(old, p)->Ok_0;
    let ni = old.blocks.next_inode;
    let leaf = leaf_name(p);
    let t = od[par as int];
    let k = first_free(t, 0)->Some_0;
    assert(ni < FS_MAX_INODES);
    assert forall|i: int| 0 <= i < FS_MAX_INODES implies #[trigger] table_ok(od[i], next) by {}
    lemma_dwalk_bound(od, oi, next, ROOT_INODE, path_components(pp));
    assert(par < ni);
    assert(dfind_from(t, leaf, 0) is None);
    assert forall|x: usize, name: Seq<u8>| x < next && (x != par || name != leaf) implies #[trigger] dfind_from(
        nd[x as int], name, 0) == dfind_from(od[x as int], name, 0) by {
        if x == par {
            lemma_dfind_added(t, nd[par as int], k, ni, leaf, name, 0);
        } else {
            assert(nd[x as int] == od[x as int]);
        }
    }
    assert forall|x: usize, name: Seq<u8>| x < next implies (#[trigger] dfind_from(od[x as int], name, 0) matches Some(c)
        ==> c < next) by {
        assert(table_ok(od[x as int], next));
        lemma_dfind_bound(od[x as int], next, name, 0);
    }
    assert forall|x: int| 0 <= x < next implies #[trigger] ni_[x].kind == oi[x].kind by {
        if x == par {
        } else {
            assert(ni_[x] == oi[x]);
        }
    }
    lemma_dwalk_unchanged(od, nd, oi, ni_, next, ROOT_INODE, path_components(pp), par, leaf);
    lemma_leaf_is_last(p);
    lemma_parent_components(p);
    let a = components(p, 1, split_point(p));
    lemma_dwalk_concat(nd, ni_, ROOT_INODE, a, seq![leaf], par);
    lemma_dfind_added(t, nd[par as int], k, ni, leaf, leaf, 0);
    assert(dfind_from(nd[par as int], leaf, 0) == Some(ni));
    assert(seq![leaf].drop_first() =~= Seq::<Seq<u8>>::empty());
    assert(seq![leaf][0] == leaf);
    assert(dwalk(nd, ni_, ni, Seq::<Seq<u8>>::empty()) == Ok::<usize, isize>(ni));
    assert(dwalk(nd, ni_, par, seq![leaf]) == Ok::<usize, isize>(ni));
    assert(dwalk(nd, ni_, ROOT_INODE, a) == Ok::<usize, isize>(par));
    assert(path_error(p) is None);
    assert(path_components(p) == a + seq![leaf]);
}

/// Where a search that found `c` stopped: a slot in use named `name` for
/// `c`, with no such slot before it.
pub proof fn lemma_dfind_some(t: DirTable, name: Seq<u8>, e: int) -> (s: int)
    requires
        0 <= e,
        dfind_from(t, name, e) is Some,
    ensures
        e <= s < FS_MAX_DIR_ENTRIES,
        t.entries[s].valid,
        dirent_name(t.entries[s]) == name,
        t.entries[s].inode_index as usize == dfind_from(t, name, e)->0,
    decreases FS_MAX_DIR_ENTRIES - e,
{
    if t.entries[e].valid && dirent_name(t.entries[e]) == name {
        e
    } else {
        lemma_dfind_some(t, name, e + 1)
    }
}

/// A search from `e` past no slot in use named `name` finds nothing.
pub proof fn lemma_dfind_absent(t: DirTable, name: Seq<u8>, e: int)
    requires
        0 <= e,
        forall|j: int| e <= j < FS_MAX_DIR_ENTRIES && (#[trigger] t.entries[j]).valid ==> dirent_name(t.entries[j]) != name,
    ensures
        dfind_from(t, name, e) is None,
    decreases FS_MAX_DIR_ENTRIES - e,
{
    if e < FS_MAX_DIR_ENTRIES {
        lemma_dfind_absent(t, name, e + 1);
    }
}

/// In a tree, a walk only goes to later inodes.
pub proof fn lemma_dwalk_up(dirs: Seq<DirTable>, inodes: Seq<DiskInode>, next: int, cur: usize, cs: Seq<Seq<u8>>)
    requires
        tree_ok(dirs),
        dirs.len() == FS_MAX_INODES,
        next <= FS_MAX_INODES,
        forall|i: int| 0 <= i < FS_MAX_INODES ==> #[trigger] table_ok(dirs[i], next),
        cur < next,
    ensures
        dwalk(dirs, inodes, cur, cs) matches Ok(x) ==> cur <= x,
    decreases cs.len(),
{
    if cs.len() > 0 {
        if let Some(ch) = dfind_from(dirs[cur as int], cs[0], 0) {
            let s = lemma_dfind_some(dirs[cur as int], cs[0], 0);
            assert(dirs[cur as int].entries[s].valid);
            assert(table_ok(dirs[cur as int], next));
            lemma_dfind_bound(dirs[cur as int], next, cs[0], 0);
            lemma_dwalk_up(dirs, inodes, next, ch, cs.drop_first());
        }
    }
}

/// A walk that ends at or before `bound` reads only the tables before
/// `bound` and the kinds up to it; where those are unchanged, it is the same.
pub proof fn lemma_dwalk_same_below(od: Seq<DirTable>, nd: Seq<DirTable>, oi: Seq<DiskInode>, ni_: Seq<DiskInode>, next: int,
    cur: usize, cs: Seq<Seq<u8>>, bound: int)
    requires
        tree_ok(od),
        od.len() == FS_MAX_INODES,
        next <= FS_MAX_INODES,
        forall|i: int| 0 <= i < FS_MAX_INODES ==> #[trigger] table_ok(od[i], next),
        cur < next,
        dwalk(od, oi, cur, cs) matches Ok(x) && x <= bound,
        forall|y: int| 0 <= y < bound ==> #[trigger] nd[y] == od[y],
        forall|y: int| 0 <= y <= bound ==> #[trigger] ni_[y].kind == oi[y].kind,
    ensures
        dwalk(nd, ni_, cur, cs) == dwalk(od, oi, cur, cs),
    decreases cs.len(),
{
    if cs.len() > 0 {
        let x = dwalk(od, oi, cur, cs)->Ok_0;
        let ch = dfind_from(od[cur as int], cs[0], 0)->0;
        let s = lemma_dfind_some(od[cur as int], cs[0], 0);
        assert(od[cur as int].entries[s].valid);
        assert(table_ok(od[cur as int], next));
        lemma_dfind_bound(od[cur as int], next, cs[0], 0);
        lemma_dwalk_up(od, oi, next, ch, cs.drop_first());
        assert(cur < ch <= x);
        assert(nd[cur as int] == od[cur as int]);
        assert(ni_[ch as int].kind == oi[ch as int].kind);
        lemma_dwalk_same_below(od, nd, oi, ni_, next, ch, cs.drop_first(), bound);
    }
}

/// Removing a node makes its path name nothing: once `remove` has returned
/// 0, looking the same path up gives `ENOENT`.
pub proof fn law_dremove_then_lookup(old: DirFileSystem, new: DirFileSystem, p: Seq<u8>)
    requires
        old.wf(),
        dremoved(old, new, p, 0),
    ensures
        new.lookup_spec(p) == Err::<usize, isize>(ENOENT),
{
    let od = old.dirs@;
    let nd = new.dirs@;
    let oi = old.blocks.inodes@;
    let ni_ = new.blocks.inodes@;
    let next = old.blocks.next_inode as int;
    lemma_path_errors_nonzero(p);
    let pp = p.subrange(0, parent_len(p));
    match dlookup(od, oi, pp) {
        Err(e) => {
            lemma_path_errors_nonzero(pp);
            lemma_dwalk_err(od, oi, ROOT_INODE, path_components(pp));
        },
        Ok(par) => {},
    }
    let (par, c) = remove_target(old, p)->Ok_0;
    let leaf = leaf_name(p);
    let t = od[par as int];
    assert forall|i: int| 0 <= i < FS_MAX_INODES implies #[trigger] table_ok(od[i], next) by {}
    lemma_dwalk_bound(od, oi, next, ROOT_INODE, path_components(pp));
    let s = lemma_dfind_some(t, leaf, 0);
    assert(t.entries[s].valid);
    assert(c > par);
    let k = slot_of(t, c, 0)->Some_0;
    lemma_slot_of(t, c, 0);
    assert(t.entries[k].valid);
    assert(k == s);
    assert(entry_removed(t, nd[par as int], k));
    assert forall|j: int| 0 <= j < FS_MAX_DIR_ENTRIES && (#[trigger] nd[par as int].entries[j]).valid
        implies dirent_name(nd[par as int].entries[j]) != leaf by {
        assert(j != k);
        assert(nd[par as int].entries[j] == t.entries[j]);
        assert(t.entries[j].valid);
    }
    lemma_dfind_absent(nd[par as int], leaf, 0);
    assert(oi[par as int].kind == FS_KIND_DIR);
    assert(table_ok(t, next));
    lemma_dfind_bound(t, next, leaf, 0);
    assert(par < next && c < next);
    let nd2 = od.update(par as int, nd[par as int]).update(c as int, nd[c as int]);
    let ni2 = oi.update(par as int, DiskInode { size_bytes: ((t.child_count - 1) * DIRENT_BYTES) as u64,
        ..oi[par as int] }).update(c as int, ni_[c as int]);
    assert(nd == nd2);
    assert(ni_ == ni2);
    assert forall|y: int| 0 <= y < par implies #[trigger] nd[y] == od[y] by {
        assert(nd2[y] == od[y]);
    }
    assert forall|y: int| 0 <= y <= par implies #[trigger] ni_[y].kind == oi[y].kind by {
        assert(ni2[y].kind == oi[y].kind);
    }
    lemma_dwalk_same_below(od, nd, oi, ni_, next, ROOT_INODE, path_components(pp), par as int);
    lemma_leaf_is_last(p);
    lemma_parent_components(p);
    let a = components(p, 1, split_point(p));
    lemma_dwalk_concat(nd, ni_, ROOT_INODE, a, seq![leaf], par);
    assert(seq![leaf][0] == leaf);
    assert(dwalk(nd, ni_, par, seq![leaf]) == Err::<usize, isize>(ENOENT));
    assert(path_error(p) is None);
    assert(path_components(p) == a + seq![leaf]);
}

} // verus!
