//! Reading and writing file contents at a byte offset.
use vstd::prelude::*;
use super::{FS_MAX_INODES, FS_BLOCK_SIZE, FS_KIND_FILE, FS_TRIPLE_LIMIT_BLOCKS, EISDIR, EFBIG, ENOENT, ENOSPC};
use super::fs::{DiskInode, FileSystem, FsView, blocks_wf, block_of, file_byte, grows, inode_ok, slot_ok, root_of,
    tree_start, lemma_walk_owner, resolved, level_of, same_meta, lemma_grows_inode};
use super::namespace::{ns_wf, inode_shape, lookup, same_ptrs, lemma_inode_replaced, fs_same, MAX_FILE_BYTES};

verus! {

/// A mapped block belongs to the position that maps it.
pub proof fn lemma_block_of_owner(v: FsView, ino: int, l: int)
    requires
        blocks_wf(v),
        0 <= ino < FS_MAX_INODES,
        block_of(v.inodes, v.ptrs, ino, l) is Some,
    ensures
        ({
            let b = block_of(v.inodes, v.ptrs, ino, l)->0;
            0 <= b < v.next_data && v.data_owner[b] == (ino, l)
        }),
{
    assert(inode_ok(v, ino));
    let n = v.inodes[ino];
    if l < 10 {
        assert(slot_ok(v, n.direct[l], ino, 0, 0, l));
        lemma_walk_owner(v, n.direct[l], ino, 0, 0, l, 0);
    } else {
        let t: int = if l < 138 { 1 } else if l < 16522 { 2 } else { 3 };
        assert(slot_ok(v, root_of(n, t), ino, t, t as nat, 0));
        lemma_walk_owner(v, root_of(n, t), ino, t, t as nat, 0, l - tree_start(t));
    }
}

/// Two positions mapped to one block are the same position.
pub proof fn lemma_block_of_unique(v: FsView, i: int, l: int, j: int, m: int)
    requires
        blocks_wf(v),
        0 <= i < FS_MAX_INODES,
        0 <= j < FS_MAX_INODES,
        block_of(v.inodes, v.ptrs, i, l) is Some,
        block_of(v.inodes, v.ptrs, i, l) == block_of(v.inodes, v.ptrs, j, m),
    ensures
        i == j && l == m,
{
    lemma_block_of_owner(v, i, l);
    lemma_block_of_owner(v, j, m);
}

/// Every file reads the same in `new` as in `old`.
pub open spec fn files_same(old: FsView, new: FsView) -> bool {
    forall|i: int, off: int| 0 <= i < FS_MAX_INODES ==> #[trigger] file_byte(new, i, off) == file_byte(old, i, off)
}

/// Resolving a block changes no file's contents: a new block is zeroed and
/// stands where zeros were read before, and every old block keeps its data.
pub proof fn lemma_resolve_keeps_files(old: FsView, new: FsView, ino: int, l: int, allocate: bool,
    r: Result<(usize, u8, bool), isize>)
    requires
        blocks_wf(old),
        blocks_wf(new),
        grows(old, new),
        0 <= ino < FS_MAX_INODES,
        resolved(old, new, ino, l, allocate, r),
    ensures
        files_same(old, new),
{
    assert forall|i: int, off: int| 0 <= i < FS_MAX_INODES implies #[trigger] file_byte(new, i, off)
        == file_byte(old, i, off) by {
        let bl = off / 512;
        let ob = block_of(old.inodes, old.ptrs, i, bl);
        let nb = block_of(new.inodes, new.ptrs, i, bl);
        if ob is Some {
            lemma_block_of_owner(old, i, bl);
        }
        if ob != nb {
            // Only a fresh, zeroed block can have appeared.
            assert(ob is None);
            assert(r is Ok && r->Ok_0.2);
            assert(nb == Some(r->Ok_0.0 as int));
        }
    }
}

/// The data block `b` written with `blk`: only the bytes of the one
/// position that maps `b` change.
pub proof fn lemma_block_write(old: FsView, new: FsView, ino: int, lb: int, b: int, blk: [u8; 512])
    requires
        blocks_wf(old),
        0 <= ino < FS_MAX_INODES,
        block_of(old.inodes, old.ptrs, ino, lb) == Some(b),
        new == (FsView { data: old.data.update(b, blk), ..old }),
    ensures
        blocks_wf(new),
        forall|i: int, off: int| 0 <= i < FS_MAX_INODES ==> #[trigger] file_byte(new, i, off) == (if i == ino && off
            / 512 == lb { blk[off % 512] } else { file_byte(old, i, off) }),
{
    lemma_block_of_owner(old, ino, lb);
    assert forall|i: int, off: int| 0 <= i < FS_MAX_INODES implies #[trigger] file_byte(new, i, off) == (if i == ino
        && off / 512 == lb { blk[off % 512] } else { file_byte(old, i, off) }) by {
        let bl = off / 512;
        let ob = block_of(old.inodes, old.ptrs, i, bl);
        assert(block_of(new.inodes, new.ptrs, i, bl) == ob);
        if ob == Some(b) {
            lemma_block_of_unique(old, ino, lb, i, bl);
            assert(new.data[b] == blk);
        } else if ob is Some {
            lemma_block_of_owner(old, i, bl);
            assert(new.data[ob->0] == old.data[ob->0]);
        }
    }
    lemma_wf_data_only(old, new);
}

/// Changing only the contents of data blocks keeps the pools well formed.
pub proof fn lemma_wf_data_only(old: FsView, new: FsView)
    requires
        blocks_wf(old),
        new.inodes == old.inodes,
        new.ptrs == old.ptrs,
        new.data.len() == old.data.len(),
        new.next_data == old.next_data,
        new.next_ptr == old.next_ptr,
        new.data_owner == old.data_owner,
        new.ptr_owner == old.ptr_owner,
    ensures
        blocks_wf(new),
{
    assert forall|p: int| 0 <= p < new.next_ptr implies #[trigger] super::fs::ptr_block_ok(new, p) by {
        assert(super::fs::ptr_block_ok(old, p));
    }
    assert forall|x: int| 0 <= x < FS_MAX_INODES implies #[trigger] inode_ok(new, x) by {
        assert(inode_ok(old, x));
        let n = new.inodes[x];
        assert forall|j: int| 0 <= j < 10 implies #[trigger] slot_ok(new, n.direct[j], x, 0, 0, j) by {
            assert(slot_ok(old, n.direct[j], x, 0, 0, j));
        }
        assert(slot_ok(old, n.single_indirect, x, 1, 1, 0));
        assert(slot_ok(old, n.double_indirect, x, 2, 2, 0));
        assert(slot_ok(old, n.triple_indirect, x, 3, 3, 0));
    }
}

/// A byte `k` places after `fo` stays in `fo`'s block while it fits.
pub proof fn lemma_in_block(fo: int, k: int)
    requires
        0 <= fo,
        0 <= k,
        fo % 512 + k < 512,
    ensures
        (fo + k) / 512 == fo / 512,
        (fo + k) % 512 == fo % 512 + k,
{
    assert((fo + k) / 512 == fo / 512 && (fo + k) % 512 == fo % 512 + k) by (nonlinear_arith)
        requires 0 <= fo, 0 <= k, fo % 512 + k < 512;
}

/// How many logical blocks of inode `ino` in `[lo, hi)` map no block.
pub open spec fn unmapped_count(v: FsView, ino: int, lo: int, hi: int) -> int
    decreases hi - lo,
{
    if hi <= lo {
        0
    } else {
        unmapped_count(v, ino, lo, hi - 1) + (if block_of(v.inodes, v.ptrs, ino, hi - 1) is None { 1int } else { 0int })
    }
}

/// Inode `ino`'s bytes in `[offset, offset + k)` read as the first `k`
/// bytes of `src`; every other byte of every file reads as in `old`.
pub open spec fn written_prefix(old: FsView, new: FsView, ino: int, offset: int, src: Seq<u8>, k: int) -> bool {
    forall|i: int, off: int| 0 <= i < FS_MAX_INODES ==> #[trigger] file_byte(new, i, off) == (if i == ino && offset <= off
        < offset + k { src[off - offset] } else { file_byte(old, i, off) })
}

/// The logical block after the last one that `len` bytes at `offset`
/// touch (the first block itself when nothing is touched).
pub open spec fn end_block(offset: int, len: int) -> int {
    if len <= 0 { offset / 512 } else { (offset + len - 1) / 512 + 1 }
}

/// `b` is `a` but for its size, block count, level and block pointers.
pub open spec fn meta_kept(a: DiskInode, b: DiskInode) -> bool {
    b == (DiskInode { size_bytes: b.size_bytes, blocks_used: b.blocks_used, highest_level: b.highest_level,
        direct: b.direct, single_indirect: b.single_indirect, double_indirect: b.double_indirect,
        triple_indirect: b.triple_indirect, ..a })
}

/// The deepest mapping level after touching the blocks before `end` from
/// `start` on, starting from level `hl`.
pub open spec fn level_after(hl: u8, start: int, end: int) -> u8 {
    if end <= start || hl >= level_of(end - 1) { hl } else { level_of(end - 1) }
}

/// What a write of `src` at `offset` into file `ino` did: all of it, with
/// the size grown to cover it and the new blocks and level counted; or
/// `ENOSPC` after a prefix (the size unchanged).
pub open spec fn wrote(old: FileSystem, new: FileSystem, ino: usize, offset: int, src: Seq<u8>, r: isize) -> bool {
    let o = old.inodes@[ino as int];
    let n = new.inodes@[ino as int];
    let end = offset + src.len();
    &&& forall|i: int| 0 <= i < FS_MAX_INODES && i != ino ==> #[trigger] same_meta(old.inodes@[i], new.inodes@[i])
    &&& meta_kept(o, n)
    &&& if r == ENOSPC {
        &&& n.size_bytes == o.size_bytes
        &&& exists|k: int| 0 <= k < src.len() && #[trigger] written_prefix(old.model(), new.model(), ino as int, offset, src, k)
    } else {
        &&& r == src.len()
        &&& written_prefix(old.model(), new.model(), ino as int, offset, src, src.len() as int)
        &&& n.size_bytes == (if end > o.size_bytes { end } else { o.size_bytes as int })
        &&& n.blocks_used == o.blocks_used + unmapped_count(old.model(), ino as int, offset / 512, end_block(offset,
            src.len() as int))
        &&& n.highest_level == level_after(o.highest_level, offset / 512, end_block(offset, src.len() as int))
    }
}

/// Growing the pools keeps the namespace invariant.
pub proof fn lemma_ns_wf_grows(a: FsView, b: FsView)
    requires
        ns_wf(a),
        grows(a, b),
        a.inodes.len() == FS_MAX_INODES,
    ensures
        ns_wf(b),
        forall|i: int| 0 <= i < FS_MAX_INODES ==> #[trigger] same_meta(a.inodes[i], b.inodes[i]),
{
    assert forall|i: int| 0 <= i < FS_MAX_INODES implies #[trigger] same_meta(a.inodes[i], b.inodes[i]) by {
        lemma_grows_inode(a, b, i);
    }
    assert forall|i: int| 0 <= i < FS_MAX_INODES implies #[trigger] inode_shape(b.inodes[i], b.next_inode) by {
        assert(same_meta(a.inodes[i], b.inodes[i]));
        assert(inode_shape(a.inodes[i], a.next_inode));
    }
    assert forall|i: int| 0 <= i < FS_MAX_INODES implies #[trigger] b.inodes[i].blocks_used <= b.next_data by {
        assert(same_meta(a.inodes[i], b.inodes[i]));
        assert(a.inodes[i].blocks_used <= a.next_data);
    }
}

impl FileSystem {
    /// Writes `src` into the file at `path` from byte `offset`, allocating
    /// the blocks it needs; the file grows to cover the write. `EISDIR` for
    /// a directory, `EFBIG` past the triple-indirect range, `ENOSPC` when
    /// the pools run out (what was written so far stays).
    pub fn write_at(&mut self, path: &[u8], offset: usize, src: &[u8]) -> (r: isize)
        requires
            old(self).wf(),
        ensures
            final(self).wf(),
            final(self).next_inode == old(self).next_inode,
            match lookup(old(self).inodes@, path@) {
                Err(e) => r == e && fs_same(*old(self), *final(self)),
                Ok(ino) => if old(self).inodes@[ino as int].kind != FS_KIND_FILE {
                    r == EISDIR && fs_same(*old(self), *final(self))
                } else if offset + src.len() > MAX_FILE_BYTES {
                    r == EFBIG && fs_same(*old(self), *final(self))
                } else {
                    &&& wrote(*old(self), *final(self), ino, offset as int, src@, r)
                    &&& (forall|l: int| offset / 512 <= l < end_block(offset as int, src.len() as int) ==>
                        #[trigger] block_of(old(self).inodes@, old(self).ptr_blocks@, ino as int, l) is Some) ==> r == src.len()
                },
            },
    {
        let ino = match self.lookup_path(path) {
            Ok(i) => i,
            Err(e) => return e,
        };
        if self.inodes[ino].kind != FS_KIND_FILE {
            return EISDIR;
        }
        let end_offset = match offset.checked_add(src.len()) {
            Some(v) => v,
            None => return EFBIG,
        };
        if end_offset as u64 > FS_TRIPLE_LIMIT_BLOCKS * (FS_BLOCK_SIZE as u64) {
            return EFBIG;
        }
        self.write_blocks(ino, offset, src)
    }

    /// Writes `src` into file `ino` from byte `offset`, allocating the
    /// blocks it needs; the file grows to cover the write. `ENOSPC` when the
    /// pools run out (what was written so far stays).
    pub fn write_blocks(&mut self, ino: usize, offset: usize, src: &[u8]) -> (r: isize)
        requires
            old(self).wf(),
            ino < FS_MAX_INODES,
            old(self).inodes@[ino as int].kind == FS_KIND_FILE,
            offset + src.len() <= MAX_FILE_BYTES,
        ensures
            final(self).wf(),
            final(self).next_inode == old(self).next_inode,
            wrote(*old(self), *final(self), ino, offset as int, src@, r),
            (forall|l: int| offset / 512 <= l < end_block(offset as int, src.len() as int) ==>
                #[trigger] block_of(old(self).inodes@, old(self).ptr_blocks@, ino as int, l) is Some) ==> r == src.len(),
    {
        let end_offset = offset + src.len();
        let ghost v0 = self.model();
        let ghost o = self.inodes@[ino as int];
        let ghost first: int = offset as int / 512;
        let ghost all_mapped = forall|l: int| offset / 512 <= l < end_block(offset as int, src.len() as int) ==>
            #[trigger] block_of(v0.inodes, v0.ptrs, ino as int, l) is Some;
        let mut copied: usize = 0;
        let ghost mut nlb: int = first as int;
        while copied < src.len()
            invariant
                self.wf(),
                ino < FS_MAX_INODES,
                v0 == old(self).model(),
                blocks_wf(v0),
                o == v0.inodes[ino as int],
                o.kind == FS_KIND_FILE,
                all_mapped == (forall|l: int| offset / 512 <= l < end_block(offset as int, src.len() as int) ==>
                    #[trigger] block_of(v0.inodes, v0.ptrs, ino as int, l) is Some),
                copied <= src.len(),
                end_offset == offset + src.len(),
                end_offset <= MAX_FILE_BYTES,
                first == offset / 512,
                self.next_inode == v0.next_inode,
                forall|i: int| 0 <= i < FS_MAX_INODES && i != ino ==> #[trigger] same_meta(v0.inodes[i], self.inodes@[i]),
                meta_kept(o, self.inodes@[ino as int]),
                self.inodes@[ino as int].size_bytes == o.size_bytes,
                written_prefix(v0, self.model(), ino as int, offset as int, src@, copied as int),
                nlb == end_block(offset as int, copied as int),
                0 < copied < src.len() ==> (offset + copied) % 512 == 0,
                forall|l: int| l >= nlb ==> #[trigger] block_of(self.inodes@, self.ptr_blocks@, ino as int, l)
                    == block_of(v0.inodes, v0.ptrs, ino as int, l),
                self.inodes@[ino as int].blocks_used == o.blocks_used + unmapped_count(v0, ino as int, first, nlb),
                self.inodes@[ino as int].highest_level == level_after(o.highest_level, first, nlb),
            decreases src.len() - copied,
        {
            let file_offset = offset + copied;
            let logical_block = file_offset / FS_BLOCK_SIZE;
            let block_offset = file_offset % FS_BLOCK_SIZE;
            let room = FS_BLOCK_SIZE - block_offset;
            let left = src.len() - copied;
            let copy_len = if room < left { room } else { left };
            proof {
                assert(logical_block == nlb) by {
                    if copied > 0 {
                        assert((offset + copied - 1) / 512 + 1 == (offset + copied) / 512) by (nonlinear_arith)
                            requires (offset + copied) % 512 == 0, offset + copied >= 1;
                    }
                }
                assert(logical_block < end_block(offset as int, src.len() as int)) by (nonlinear_arith)
                    requires logical_block == (offset + copied) / 512, copied < src.len(),
                        end_block(offset as int, src.len() as int) == (offset + src.len() - 1) / 512 + 1;
                assert(logical_block >= first) by (nonlinear_arith)
                    requires logical_block == (offset + copied) / 512, first == offset / 512;
            }
            let ghost before = self.model();
            let res = self.resolve_data_block(ino, logical_block, true);
            let ghost mid = self.model();
            proof {
                lemma_resolve_keeps_files(before, mid, ino as int, logical_block as int, true, res);
                lemma_ns_wf_grows(before, mid);
            }
            let (b, level, fresh) = match res {
                Ok(t) => t,
                Err(e) => {
                    proof {
                        assert(all_mapped ==> block_of(v0.inodes, v0.ptrs, ino as int, logical_block as int) is Some);
                        assert(written_prefix(v0, mid, ino as int, offset as int, src@, copied as int)) by {
                            assert forall|i: int, off: int| 0 <= i < FS_MAX_INODES implies #[trigger] file_byte(mid, i, off)
                                == (if i == ino && offset <= off < offset + copied { src@[off - offset] } else {
                                file_byte(v0, i, off) }) by {
                                assert(file_byte(mid, i, off) == file_byte(before, i, off));
                            }
                        }
                        assert forall|i: int| 0 <= i < FS_MAX_INODES && i != ino implies #[trigger] same_meta(
                            v0.inodes[i], self.inodes@[i]) by {
                            assert(same_meta(before.inodes[i], mid.inodes[i]));
                            assert(same_meta(v0.inodes[i], before.inodes[i]));
                        }
                        assert(same_meta(before.inodes[ino as int], mid.inodes[ino as int]));
                        assert(meta_kept(o, mid.inodes[ino as int]));
                        assert(e == ENOSPC);
                        assert(block_of(before.inodes, before.ptrs, ino as int, logical_block as int) is None);
                        assert(!all_mapped);
                        assert(written_prefix(old(self).model(), mid, ino as int, offset as int, src@, copied as int));
                    }
                    return e;
                },
            };
            // Copy this block's share of `src` into data block `b`.
            let mut blk = self.data_blocks[b];
            let ghost blk0 = blk;
            let mut k: usize = 0;
            while k < copy_len
                invariant
                    k <= copy_len,
                    block_offset + copy_len <= 512,
                    copied + copy_len <= src.len(),
                    forall|j: int| 0 <= j < 512 ==> #[trigger] blk[j] == (if block_offset <= j < block_offset + k {
                        src@[copied + j - block_offset] } else { blk0[j] }),
                decreases copy_len - k,
            {
                blk[block_offset + k] = src[copied + k];
                k += 1;
            }
            self.data_blocks.set(b, blk);
            let ghost after_data = self.model();
            proof {
                assert(after_data == (FsView { data: mid.data.update(b as int, blk), ..mid }));
                lemma_block_write(mid, after_data, ino as int, logical_block as int, b as int, blk);
            }
            let mut n = self.inodes[ino];
            if fresh {
                n.blocks_used = n.blocks_used + 1;
            }
            if level > n.highest_level {
                n.highest_level = level;
            }
            self.inodes.set(ino, n);
            proof {
                let v3 = self.model();
                lemma_inode_replaced(after_data, v3, ino as int);
                assert(same_ptrs(after_data.inodes[ino as int], v3.inodes[ino as int]));
                // Namespace bounds.
                assert forall|i: int| 0 <= i < FS_MAX_INODES implies #[trigger] inode_shape(v3.inodes[i], v3.next_inode) by {
                    assert(inode_shape(mid.inodes[i], mid.next_inode));
                }
                assert forall|i: int| 0 <= i < FS_MAX_INODES implies #[trigger] v3.inodes[i].blocks_used <= v3.next_data by {
                    assert(mid.inodes[i].blocks_used <= mid.next_data);
                    if i == ino && fresh {
                        assert(before.inodes[i].blocks_used <= before.next_data);
                        assert(same_meta(before.inodes[i], mid.inodes[i]));
                        assert(b >= before.next_data && b < mid.next_data);
                    }
                }
                // Other inodes keep their metadata.
                assert forall|i: int| 0 <= i < FS_MAX_INODES && i != ino implies #[trigger] same_meta(v0.inodes[i],
                    v3.inodes[i]) by {
                    assert(same_meta(before.inodes[i], mid.inodes[i]));
                    assert(same_meta(v0.inodes[i], before.inodes[i]));
                }
                assert(same_meta(before.inodes[ino as int], mid.inodes[ino as int]));
                // The contents: this block's share is written, nothing else moves.
                let nc = copied + copy_len;
                assert forall|i: int, off: int| 0 <= i < FS_MAX_INODES implies #[trigger] file_byte(v3, i, off)
                    == (if i == ino && offset <= off < offset + nc { src@[off - offset] } else { file_byte(v0, i, off) }) by {
                    assert(file_byte(v3, i, off) == file_byte(after_data, i, off));
                    assert(file_byte(mid, i, off) == file_byte(before, i, off));
                    if i == ino && off / 512 == logical_block {
                        assert(off - off / 512 * 512 == off % 512) by (nonlinear_arith);
                        if block_offset <= off % 512 < block_offset + copy_len {
                            assert(offset + copied <= off < offset + nc) by (nonlinear_arith)
                                requires off / 512 == logical_block, logical_block == (offset + copied) / 512,
                                    block_offset == (offset + copied) % 512, block_offset <= off % 512 < block_offset + copy_len,
                                    nc == copied + copy_len;
                            assert(off - offset == copied + off % 512 - block_offset) by (nonlinear_arith)
                                requires off / 512 == logical_block, logical_block == (offset + copied) / 512,
                                    block_offset == (offset + copied) % 512;
                        } else {
                            assert(!(offset + copied <= off < offset + nc)) by (nonlinear_arith)
                                requires off / 512 == logical_block, logical_block == (offset + copied) / 512,
                                    block_offset == (offset + copied) % 512, !(block_offset <= off % 512 < block_offset + copy_len),
                                    nc == copied + copy_len, block_offset + copy_len <= 512;
                            assert(blk0 == mid.data[b as int]);
                            assert(block_of(mid.inodes, mid.ptrs, ino as int, logical_block as int) == Some(b as int));
                        }
                    } else if i == ino {
                        assert(!(offset + copied <= off < offset + nc)) by (nonlinear_arith)
                            requires off / 512 != logical_block, logical_block == (offset + copied) / 512,
                                (offset + copied) % 512 + copy_len <= 512, nc == copied + copy_len, copy_len > 0;
                    }
                }
                // The next block and what is left of the old mapping.
                assert(end_block(offset as int, nc as int) == logical_block + 1) by (nonlinear_arith)
                    requires logical_block == (offset + copied) / 512, (offset + copied) % 512 + copy_len <= 512,
                        copy_len > 0, nc == copied + copy_len;
                assert(nc < src.len() ==> (offset + nc) % 512 == 0) by (nonlinear_arith)
                    requires nc == copied + copy_len, copy_len == (if 512 - (offset + copied) % 512 < src.len() - copied {
                        512 - (offset + copied) % 512 } else { src.len() - copied });
                assert forall|l: int| l >= logical_block + 1 implies #[trigger] block_of(v3.inodes, v3.ptrs, ino as int, l)
                    == block_of(v0.inodes, v0.ptrs, ino as int, l) by {
                    assert(block_of(v3.inodes, v3.ptrs, ino as int, l) == block_of(mid.inodes, mid.ptrs, ino as int, l));
                    assert(block_of(before.inodes, before.ptrs, ino as int, l) == block_of(v0.inodes, v0.ptrs, ino as int, l));
                }
                assert(fresh == (block_of(v0.inodes, v0.ptrs, ino as int, logical_block as int) is None));
                assert(unmapped_count(v0, ino as int, first, logical_block + 1) == unmapped_count(v0, ino as int, first,
                    logical_block as int) + (if fresh { 1int } else { 0int }));
                assert(level == level_of(logical_block as int));
            }
            copied = copied + copy_len;
            proof {
                nlb = logical_block + 1;
            }
        }
        if end_offset as u64 > self.inodes[ino].size_bytes {
            let ghost before = self.model();
            let mut n = self.inodes[ino];
            n.size_bytes = end_offset as u64;
            self.inodes.set(ino, n);
            proof {
                let v = self.model();
                lemma_inode_replaced(before, v, ino as int);
                assert forall|i: int| 0 <= i < FS_MAX_INODES implies #[trigger] inode_shape(v.inodes[i], v.next_inode) by {
                    assert(inode_shape(before.inodes[i], before.next_inode));
                }
                assert forall|i: int| 0 <= i < FS_MAX_INODES implies #[trigger] v.inodes[i].blocks_used <= v.next_data by {
                    assert(before.inodes[i].blocks_used <= before.next_data);
                }
                assert forall|i: int, off: int| 0 <= i < FS_MAX_INODES implies #[trigger] file_byte(v, i, off)
                    == file_byte(before, i, off) by {
                }
                assert forall|i: int| 0 <= i < FS_MAX_INODES && i != ino implies #[trigger] same_meta(v0.inodes[i],
                    v.inodes[i]) by {
                    assert(same_meta(v0.inodes[i], before.inodes[i]));
                }
            }
        }
        copied as isize
    }
}

/// What a read of `len` bytes at `offset` from file `ino` returns: the
/// bytes up to the end of the file, and none from the end on.
pub open spec fn read_len(size: int, offset: int, len: int) -> int {
    if offset >= size { 0 } else if len < size - offset { len } else { size - offset }
}

impl FileSystem {
    /// Reads the file at `path` from byte `offset` into `dst`, up to the end
    /// of the file; blocks never written read as zeros. `EISDIR` for a
    /// directory. Only the block-mapping counters change.
    pub fn read_at(&mut self, path: &[u8], offset: usize, dst: &mut [u8]) -> (r: isize)
        requires
            old(self).wf(),
        ensures
            final(self).wf(),
            final(self).model() == old(self).model(),
            final(dst)@.len() == old(dst)@.len(),
            match lookup(old(self).inodes@, path@) {
                Err(e) => r == e && final(dst)@ == old(dst)@,
                Ok(ino) => if old(self).inodes@[ino as int].kind != FS_KIND_FILE {
                    r == EISDIR && final(dst)@ == old(dst)@
                } else {
                    let n = read_len(old(self).inodes@[ino as int].size_bytes as int, offset as int, old(dst)@.len() as int);
                    &&& r == n
                    &&& forall|j: int| 0 <= j < old(dst)@.len() ==> #[trigger] final(dst)@[j] == (if j < n {
                        file_byte(old(self).model(), ino as int, offset + j) } else { old(dst)@[j] })
                },
            },
    {
        let ino = match self.lookup_path(path) {
            Ok(i) => i,
            Err(e) => return e,
        };
        if self.inodes[ino].kind != FS_KIND_FILE {
            return EISDIR;
        }
        self.read_blocks(ino, offset, dst)
    }

    /// Reads file `ino` from byte `offset` into `dst`, up to the end of the
    /// file; blocks never written read as zeros.
    pub fn read_blocks(&mut self, ino: usize, offset: usize, dst: &mut [u8]) -> (r: isize)
        requires
            old(self).wf(),
            ino < FS_MAX_INODES,
            old(self).inodes@[ino as int].kind == FS_KIND_FILE,
        ensures
            final(self).wf(),
            final(self).model() == old(self).model(),
            final(dst)@.len() == old(dst)@.len(),
            ({
                let n = read_len(old(self).inodes@[ino as int].size_bytes as int, offset as int, old(dst)@.len() as int);
                &&& r == n
                &&& forall|j: int| 0 <= j < old(dst)@.len() ==> #[trigger] final(dst)@[j] == (if j < n {
                    file_byte(old(self).model(), ino as int, offset + j) } else { old(dst)@[j] })
            }),
    {
        proof {
            assert(inode_shape(self.inodes@[ino as int], self.next_inode as int));
        }
        let file_size = self.inodes[ino].size_bytes as usize;
        if offset >= file_size {
            return 0;
        }
        let ghost v0 = self.model();
        let ghost d0 = dst@;
        let available = if dst.len() < file_size - offset { dst.len() } else { file_size - offset };
        let mut copied: usize = 0;
        while copied < available
            invariant
                self.wf(),
                self.model() == v0,
                v0 == old(self).model(),
                d0 == old(dst)@,
                ino < FS_MAX_INODES,
                v0.inodes[ino as int].kind == FS_KIND_FILE,
                file_size == v0.inodes[ino as int].size_bytes,
                file_size <= MAX_FILE_BYTES,
                offset < file_size,
                available == read_len(file_size as int, offset as int, d0.len() as int),
                available <= dst.len(),
                copied <= available,
                dst@.len() == d0.len(),
                forall|j: int| 0 <= j < dst@.len() ==> #[trigger] dst@[j] == (if j < copied {
                    file_byte(v0, ino as int, offset + j) } else { d0[j] }),
            decreases available - copied,
        {
            let file_offset = offset + copied;
            let logical_block = file_offset / FS_BLOCK_SIZE;
            let block_offset = file_offset % FS_BLOCK_SIZE;
            let room = FS_BLOCK_SIZE - block_offset;
            let left = available - copied;
            let copy_len = if room < left { room } else { left };
            proof {
                assert(logical_block < 2_113_674) by (nonlinear_arith)
                    requires logical_block == (offset + copied) / 512, offset + copied < MAX_FILE_BYTES;
            }
            let res = self.resolve_data_block(ino, logical_block, false);
            let ghost before = dst@;
            match res {
                Ok((b, _, _)) => {
                    proof {
                        lemma_block_of_owner(v0, ino as int, logical_block as int);
                        assert(block_of(v0.inodes, v0.ptrs, ino as int, logical_block as int) == Some(b as int));
                    }
                    let mut k: usize = 0;
                    while k < copy_len
                        invariant
                            self.wf(),
                            self.model() == v0,
                            k <= copy_len,
                            block_offset + copy_len <= 512,
                            copied + copy_len <= dst.len(),
                            b < v0.data.len(),
                            dst@.len() == before.len(),
                            forall|j: int| 0 <= j < dst@.len() ==> #[trigger] dst@[j] == (if copied <= j < copied + k {
                                v0.data[b as int][block_offset + j - copied] } else { before[j] }),
                        decreases copy_len - k,
                    {
                        dst[copied + k] = self.data_blocks[b][block_offset + k];
                        k += 1;
                    }
                    proof {
                        assert forall|j: int| copied <= j < copied + copy_len implies #[trigger] dst@[j]
                            == file_byte(v0, ino as int, offset + j) by {
                            lemma_in_block(offset + copied, j - copied);
                            assert((offset + j) / 512 == logical_block);
                            assert((offset + j) % 512 == block_offset + j - copied);
                        }
                    }
                },
                Err(_) => {
                    let mut k: usize = 0;
                    while k < copy_len
                        invariant
                            k <= copy_len,
                            copied + copy_len <= dst.len(),
                            dst@.len() == before.len(),
                            forall|j: int| 0 <= j < dst@.len() ==> #[trigger] dst@[j] == (if copied <= j < copied + k {
                                0u8 } else { before[j] }),
                        decreases copy_len - k,
                    {
                        dst[copied + k] = 0;
                        k += 1;
                    }
                    proof {
                        assert forall|j: int| copied <= j < copied + copy_len implies #[trigger] dst@[j]
                            == file_byte(v0, ino as int, offset + j) by {
                            lemma_in_block(offset + copied, j - copied);
                        }
                    }
                },
            }
            copied = copied + copy_len;
        }
        copied as isize
    }
}

/// A read after a completed write gives back what was written: once
/// `write_at` has returned the full length, the file reaches at least to
/// the end of the write and its bytes there are the written bytes, so a
/// `read_at` of as many bytes at the same offset returns exactly them.
pub proof fn law_read_after_write(old: FileSystem, new: FileSystem, ino: usize, offset: int, src: Seq<u8>)
    requires
        ino < FS_MAX_INODES,
        0 <= offset,
        src.len() <= MAX_FILE_BYTES,
        wrote(old, new, ino, offset, src, src.len() as isize),
    ensures
        read_len(new.inodes@[ino as int].size_bytes as int, offset, src.len() as int) == src.len(),
        forall|j: int| 0 <= j < src.len() ==> #[trigger] file_byte(new.model(), ino as int, offset + j) == src[j],
{
    assert forall|j: int| 0 <= j < src.len() implies #[trigger] file_byte(new.model(), ino as int, offset + j) == src[j] by {
        assert(written_prefix(old.model(), new.model(), ino as int, offset, src, src.len() as int));
        assert(offset + j - offset == j);
    }
}

/// A write changes no other file: whether it completed or stopped at
/// `ENOSPC`, every byte of every other file reads as before.
pub proof fn law_write_isolated(old: FileSystem, new: FileSystem, ino: usize, offset: int, src: Seq<u8>, r: isize)
    requires
        wrote(old, new, ino, offset, src, r),
    ensures
        forall|i: int, off: int| 0 <= i < FS_MAX_INODES && i != ino ==> #[trigger] file_byte(new.model(), i, off)
            == file_byte(old.model(), i, off),
{
    if r == ENOSPC {
        let k = choose|k: int| 0 <= k < src.len() && #[trigger] written_prefix(old.model(), new.model(), ino as int, offset, src, k);
        assert forall|i: int, off: int| 0 <= i < FS_MAX_INODES && i != ino implies #[trigger] file_byte(new.model(), i, off)
            == file_byte(old.model(), i, off) by {
            assert(written_prefix(old.model(), new.model(), ino as int, offset, src, k));
        }
    } else {
        assert forall|i: int, off: int| 0 <= i < FS_MAX_INODES && i != ino implies #[trigger] file_byte(new.model(), i, off)
            == file_byte(old.model(), i, off) by {
            assert(written_prefix(old.model(), new.model(), ino as int, offset, src, src.len() as int));
        }
    }
}

} // verus!
