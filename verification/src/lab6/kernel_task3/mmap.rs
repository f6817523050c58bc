//! One memory-mapped file: a page-sized window that is filled from the
//! file on the first access (the page fault), and written back when it
//! differs from the copy taken at load time (on `msync` and `munmap`).
use vstd::prelude::*;
use super::abi::{MmapDiagnostics, EBUSY, EFAULT, EINVAL, MMAP_PAGE_SIZE};
use crate::lab6::kernel_task1::fs::{FileSystem, file_byte};
use crate::lab6::kernel_task1::namespace::{lookup, fs_same, lemma_lookup_err_negative};
use crate::lab6::kernel_task1::file_io::{read_len, wrote};
use crate::lab6::kernel_task1::{FsStat, FS_KIND_FILE, EISDIR, ENOSPC};

verus! {

/// The mapping: whether there is one, whether its page was loaded, and
/// which file and how many of its bytes it covers.
pub struct MappingState {
    pub active: bool,
    pub loaded: bool,
    pub writable: bool,
    pub path: Vec<u8>,
    pub file_size: usize,
}

impl MappingState {
    /// No mapping.
    pub fn empty() -> (r: Self)
        ensures
            !r.active && !r.loaded && !r.writable,
            r.path@ == Seq::<u8>::empty(),
            r.file_size == 0,
    {
        MappingState { active: false, loaded: false, writable: false, path: Vec::new(), file_size: 0 }
    }
}

/// The mapped-file kernel: the file system, the mapping, the window and
/// the copy of the window taken when it was loaded.
pub struct MmapKernel {
    pub fs: FileSystem,
    pub mapping: MappingState,
    pub page: Vec<u8>,
    pub shadow: Vec<u8>,
    pub diagnostics: MmapDiagnostics,
    pub window_start: usize,
}

/// Why mapping `length` bytes of `path` fails, if it does: the argument's
/// error, a length of 0 or above a page, the lookup's error, a path that
/// is not a file, or an existing mapping.
pub open spec fn mmap_error(k: MmapKernel, path: Result<&[u8], isize>, length: usize) -> Option<isize> {
    match path {
        Err(e) => Some(e),
        Ok(p) => if length == 0 || length > MMAP_PAGE_SIZE {
            Some(EINVAL)
        } else {
            match lookup(k.fs.inodes@, p@) {
                Err(e) => Some(e),
                Ok(ino) => if k.fs.inodes@[ino as int].kind != FS_KIND_FILE {
                    Some(EINVAL)
                } else if k.mapping.active {
                    Some(EBUSY)
                } else {
                    None
                },
            }
        },
    }
}

/// Whether the first `n` bytes of two buffers differ.
pub open spec fn differs(a: Seq<u8>, b: Seq<u8>, n: int) -> bool {
    exists|j: int| 0 <= j < n && a[j] != b[j]
}

/// What reading `len` bytes of the file at `path` from its start gives:
/// the inode and how many bytes, or the error.
pub open spec fn read_outcome(fs: FileSystem, path: Seq<u8>, len: int) -> Result<(usize, int), isize> {
    match lookup(fs.inodes@, path) {
        Err(e) => Err(e),
        Ok(ino) => if fs.inodes@[ino as int].kind != FS_KIND_FILE {
            Err(EISDIR)
        } else {
            Ok((ino, read_len(fs.inodes@[ino as int].size_bytes as int, 0, len)))
        },
    }
}

/// What flushing the window of `o` leaves as `n` with result `r` (`is_msync`
/// for `msync`, else `munmap`): `EINVAL` without a mapping; nothing to do
/// when the page was never loaded or is unchanged; otherwise the window's
/// bytes are written to the mapped file (an error, or `ENOSPC`, keeps the
/// copy and is recorded), the copy refreshed and the write-back counted.
pub open spec fn flush_result(o: MmapKernel, n: MmapKernel, is_msync: bool, r: isize) -> bool {
    let size = o.mapping.file_size as int;
    if !o.mapping.active {
        r == EINVAL && fs_same(o.fs, n.fs) && n.shadow@ == o.shadow@
            && n.diagnostics == (MmapDiagnostics { last_error: EINVAL as i64, ..o.diagnostics })
    } else if !o.mapping.loaded || !differs(o.page@, o.shadow@, size) {
        r == 0 && fs_same(o.fs, n.fs) && n.shadow@ == o.shadow@
            && n.diagnostics == (MmapDiagnostics { last_writeback_bytes: 0, last_error: 0, ..o.diagnostics })
    } else {
        match lookup(o.fs.inodes@, o.mapping.path@) {
            Err(e) => r == e && fs_same(o.fs, n.fs) && n.shadow@ == o.shadow@
                && n.diagnostics == (MmapDiagnostics { last_error: e as i64, ..o.diagnostics }),
            Ok(ino) => if o.fs.inodes@[ino as int].kind != FS_KIND_FILE {
                r == EISDIR && fs_same(o.fs, n.fs) && n.shadow@ == o.shadow@
                    && n.diagnostics == (MmapDiagnostics { last_error: EISDIR as i64, ..o.diagnostics })
            } else {
                &&& (r == 0 || r == ENOSPC)
                &&& wrote(o.fs, n.fs, ino, 0, o.page@.subrange(0, size), if r == 0 { size as isize } else { r })
                &&& r == 0 ==> {
                    &&& forall|j: int| 0 <= j < size ==> #[trigger] file_byte(n.fs.model(), ino as int, j)
                        == o.page@[j]
                    &&& forall|j: int| 0 <= j < MMAP_PAGE_SIZE ==> #[trigger] n.shadow@[j] == (if j < size {
                        o.page@[j] } else { o.shadow@[j] })
                    &&& n.diagnostics == (MmapDiagnostics {
                        dirty_detections: o.diagnostics.dirty_detections.wrapping_add(1),
                        last_writeback_bytes: size as u64,
                        last_error: 0,
                        msync_writebacks: if is_msync { o.diagnostics.msync_writebacks.wrapping_add(1) } else {
                            o.diagnostics.msync_writebacks },
                        munmap_writebacks: if is_msync { o.diagnostics.munmap_writebacks } else {
                            o.diagnostics.munmap_writebacks.wrapping_add(1) },
                        ..o.diagnostics })
                }
                &&& r != 0 ==> n.shadow@ == o.shadow@
                    && n.diagnostics == (MmapDiagnostics { last_error: r as i64, ..o.diagnostics })
            },
        }
    }
}

impl MmapKernel {
    /// The kernel's invariant.
    pub open spec fn wf(&self) -> bool {
        &&& self.fs.wf()
        &&& self.page.len() == MMAP_PAGE_SIZE
        &&& self.shadow.len() == MMAP_PAGE_SIZE
        &&& self.window_start + MMAP_PAGE_SIZE <= isize::MAX
        &&& self.mapping.file_size <= MMAP_PAGE_SIZE
    }

    /// A kernel with a formatted file system, no mapping and the window at
    /// `window_start`.
    pub fn new(window_start: usize) -> (k: Self)
        requires
            window_start + MMAP_PAGE_SIZE <= isize::MAX,
        ensures
            k.wf(),
            k.window_start == window_start,
            !k.mapping.active && !k.mapping.loaded,
            forall|j: int| 0 <= j < MMAP_PAGE_SIZE ==> #[trigger] k.page@[j] == 0 && k.shadow@[j] == 0,
            k.diagnostics == MmapDiagnostics::zeroed(),
    {
        let mut page: Vec<u8> = Vec::new();
        let mut shadow: Vec<u8> = Vec::new();
        let mut i: usize = 0;
        while i < MMAP_PAGE_SIZE
            invariant
                i <= MMAP_PAGE_SIZE,
                page.len() == i,
                shadow.len() == i,
                forall|j: int| 0 <= j < i ==> #[trigger] page@[j] == 0 && shadow@[j] == 0,
            decreases MMAP_PAGE_SIZE - i,
        {
            page.push(0);
            shadow.push(0);
            i += 1;
        }
        MmapKernel {
            fs: FileSystem::init(),
            mapping: MappingState::empty(),
            page,
            shadow,
            diagnostics: MmapDiagnostics::empty(),
            window_start,
        }
    }

    /// A request names the mapping exactly: its window and one page.
    pub fn mapping_request_valid(&self, addr: usize, length: usize) -> (r: bool)
        ensures
            r == (addr == self.window_start && length == MMAP_PAGE_SIZE),
    {
        addr == self.window_start && length == MMAP_PAGE_SIZE
    }

    /// Clears the window and its copy.
    pub fn zero_mmap_buffers(&mut self)
        requires
            old(self).wf(),
        ensures
            final(self).wf(),
            final(self).fs == old(self).fs,
            final(self).mapping == old(self).mapping,
            final(self).diagnostics == old(self).diagnostics,
            final(self).window_start == old(self).window_start,
            forall|j: int| 0 <= j < MMAP_PAGE_SIZE ==> #[trigger] final(self).page@[j] == 0,
            forall|j: int| 0 <= j < MMAP_PAGE_SIZE ==> #[trigger] final(self).shadow@[j] == 0,
    {
        let mut i: usize = 0;
        while i < MMAP_PAGE_SIZE
            invariant
                i <= MMAP_PAGE_SIZE,
                self.wf(),
                self.fs == old(self).fs,
                self.mapping == old(self).mapping,
                self.diagnostics == old(self).diagnostics,
                self.window_start == old(self).window_start,
                forall|j: int| 0 <= j < i ==> #[trigger] self.page@[j] == 0,
                forall|j: int| 0 <= j < i ==> #[trigger] self.shadow@[j] == 0,
            decreases MMAP_PAGE_SIZE - i,
        {
            self.page.set(i, 0);
            self.shadow.set(i, 0);
            i += 1;
        }
    }

    /// Copies the first `n` bytes of the window into the shadow copy.
    fn copy_page_to_shadow(&mut self, n: usize)
        requires
            old(self).wf(),
            n <= MMAP_PAGE_SIZE,
        ensures
            final(self).wf(),
            final(self).fs == old(self).fs,
            final(self).mapping == old(self).mapping,
            final(self).diagnostics == old(self).diagnostics,
            final(self).window_start == old(self).window_start,
            final(self).page@ == old(self).page@,
            forall|j: int| 0 <= j < MMAP_PAGE_SIZE ==> #[trigger] final(self).shadow@[j] == (if j < n {
                old(self).page@[j] } else { old(self).shadow@[j] }),
    {
        let mut i: usize = 0;
        while i < n
            invariant
                i <= n <= MMAP_PAGE_SIZE,
                self.wf(),
                self.fs == old(self).fs,
                self.mapping == old(self).mapping,
                self.diagnostics == old(self).diagnostics,
                self.window_start == old(self).window_start,
                self.page@ == old(self).page@,
                forall|j: int| 0 <= j < MMAP_PAGE_SIZE ==> #[trigger] self.shadow@[j] == (if j < i {
                    old(self).page@[j] } else { old(self).shadow@[j] }),
            decreases n - i,
        {
            let b = self.page[i];
            self.shadow.set(i, b);
            i += 1;
        }
    }

    /// Whether the window differs from its copy in the first `n` bytes.
    fn page_dirty(&self, n: usize) -> (r: bool)
        requires
            self.wf(),
            n <= MMAP_PAGE_SIZE,
        ensures
            r == differs(self.page@, self.shadow@, n as int),
    {
        let mut i: usize = 0;
        while i < n
            invariant
                i <= n <= MMAP_PAGE_SIZE,
                self.wf(),
                forall|j: int| 0 <= j < i ==> self.page@[j] == self.shadow@[j],
            decreases n - i,
        {
            if self.page[i] != self.shadow[i] {
                return true;
            }
            i += 1;
        }
        false
    }

    /// Maps the first `length` bytes of the file at `path` (already checked
    /// as a user argument, or the error of that check) into the window; the
    /// page itself is loaded on the first access. `EINVAL` for a length
    /// that is 0 or above a page or for a path that is not a file, `EBUSY`
    /// when a mapping exists; every error is recorded.
    #[verifier::spinoff_prover]
    pub fn sys_mmap(&mut self, path: Result<&[u8], isize>, length: usize) -> (r: isize)
        requires
            old(self).wf(),
        ensures
            final(self).wf(),
            final(self).fs == old(self).fs,
            final(self).window_start == old(self).window_start,
            mmap_error(*old(self), path, length) matches Some(e) ==> r == e && final(self).mapping == old(self).mapping
                && final(self).page == old(self).page && final(self).shadow == old(self).shadow
                && final(self).diagnostics == (MmapDiagnostics { last_error: e as i64, ..old(self).diagnostics }),
            mmap_error(*old(self), path, length) is None ==> r == old(self).window_start as isize,
            mmap_error(*old(self), path, length) is None ==> final(self).mapping.active && !final(self).mapping.loaded
                && final(self).mapping.writable && final(self).mapping.file_size == length,
            mmap_error(*old(self), path, length) is None ==> final(self).mapping.path@ == path->Ok_0@,
            mmap_error(*old(self), path, length) is None ==> final(self).diagnostics == (MmapDiagnostics {
                mmap_calls: old(self).diagnostics.mmap_calls.wrapping_add(1), mapping_addr: old(self).window_start as u64,
                mapping_length: length as u64, last_error: 0, ..old(self).diagnostics }),
            mmap_error(*old(self), path, length) is None ==> forall|j: int| 0 <= j < MMAP_PAGE_SIZE ==>
                #[trigger] final(self).page@[j] == 0,
            mmap_error(*old(self), path, length) is None ==> forall|j: int| 0 <= j < MMAP_PAGE_SIZE ==>
                #[trigger] final(self).shadow@[j] == 0,
    {
        let ghost o = *self;
        let p = match path {
            Ok(p) => p,
            Err(e) => {
                self.diagnostics.last_error = e as i64;
                return e;
            },
        };
        if length == 0 || length > MMAP_PAGE_SIZE {
            self.diagnostics.last_error = EINVAL as i64;
            return EINVAL;
        }
        let mut stat = FsStat::empty();
        proof {
            lemma_lookup_err_negative(self.fs.inodes@, p@);
        }
        let stat_result = self.fs.stat(p, &mut stat);
        if stat_result != 0 {
            self.diagnostics.last_error = stat_result as i64;
            return stat_result;
        }
        if stat.kind != FS_KIND_FILE {
            self.diagnostics.last_error = EINVAL as i64;
            return EINVAL;
        }
        if self.mapping.active {
            self.diagnostics.last_error = EBUSY as i64;
            return EBUSY;
        }
        let mut owned: Vec<u8> = Vec::new();
        let mut i: usize = 0;
        while i < p.len()
            invariant
                i <= p.len(),
                owned@ == p@.subrange(0, i as int),
            decreases p.len() - i,
        {
            owned.push(p[i]);
            i += 1;
        }
        assert(owned@ =~= p@);
        self.mapping = MappingState { active: true, loaded: false, writable: true, path: owned, file_size: length };
        self.diagnostics.mmap_calls = self.diagnostics.mmap_calls.wrapping_add(1);
        self.diagnostics.mapping_addr = self.window_start as u64;
        self.diagnostics.mapping_length = length as u64;
        self.diagnostics.last_error = 0;
        let ghost before_zero = *self;
        self.zero_mmap_buffers();
        proof {
            assert(path == Ok::<&[u8], isize>(p));
            assert(mmap_error(o, path, length) is None);
            assert(self.mapping.active && !self.mapping.loaded && self.mapping.writable);
            assert(self.mapping.path@ == p@);
            assert(self.mapping.file_size == length);
            assert(self.diagnostics == (MmapDiagnostics { mmap_calls: o.diagnostics.mmap_calls.wrapping_add(1),
                mapping_addr: o.window_start as u64, mapping_length: length as u64, last_error: 0, ..o.diagnostics }));
            assert(self.window_start == o.window_start);
        }
        self.window_start as isize
    }

    /// Loads the mapped bytes of the file into the window and takes the
    /// shadow copy, once; returns the number of bytes, `EINVAL` without a
    /// mapping, the read's error, or `EFAULT` when the file is shorter than
    /// the mapping.
    pub fn load_mapped_page(&mut self) -> (r: isize)
        requires
            old(self).wf(),
        ensures
            final(self).wf(),
            final(self).fs.model() == old(self).fs.model(),
            final(self).window_start == old(self).window_start,
            final(self).mapping == (MappingState { loaded: final(self).mapping.loaded, ..old(self).mapping }),
            ({
                let o = *old(self);
                let n = *final(self);
                let size = o.mapping.file_size as int;
                if !o.mapping.active {
                    r == EINVAL && n.mapping == o.mapping && n.page@ == o.page@ && n.shadow@ == o.shadow@
                        && n.diagnostics == o.diagnostics
                } else if o.mapping.loaded {
                    r == size && n.mapping == o.mapping && n.page@ == o.page@ && n.shadow@ == o.shadow@
                        && n.diagnostics == o.diagnostics
                } else {
                    match read_outcome(o.fs, o.mapping.path@, size) {
                        Err(e) => r == e && n.mapping == o.mapping && n.page@ == o.page@ && n.shadow@ == o.shadow@
                            && n.diagnostics == o.diagnostics,
                        Ok((ino, got)) => {
                            &&& forall|j: int| 0 <= j < MMAP_PAGE_SIZE ==> #[trigger] n.page@[j] == (if j < got {
                                file_byte(o.fs.model(), ino as int, j) } else { o.page@[j] })
                            &&& if got == size {
                                &&& r == size && n.mapping.loaded
                                &&& forall|j: int| 0 <= j < MMAP_PAGE_SIZE ==> #[trigger] n.shadow@[j] == (if j < size {
                                    n.page@[j] } else { o.shadow@[j] })
                                &&& n.diagnostics == (MmapDiagnostics { pages_loaded: o.diagnostics.pages_loaded.wrapping_add(1),
                                    last_loaded_bytes: size as u64, last_error: 0, ..o.diagnostics })
                            } else {
                                r == EFAULT && !n.mapping.loaded && n.shadow@ == o.shadow@ && n.diagnostics == o.diagnostics
                            }
                        },
                    }
                }
            }),
    {
        if !self.mapping.active {
            return EINVAL;
        }
        if self.mapping.loaded {
            return self.mapping.file_size as isize;
        }
        let file_size = self.mapping.file_size;
        proof {
            lemma_lookup_err_negative(self.fs.inodes@, self.mapping.path@);
        }
        let mut buf: Vec<u8> = Vec::new();
        let mut i: usize = 0;
        while i < file_size
            invariant
                i <= file_size <= MMAP_PAGE_SIZE,
                self.page.len() == MMAP_PAGE_SIZE,
                buf@ == self.page@.subrange(0, i as int),
            decreases file_size - i,
        {
            buf.push(self.page[i]);
            i += 1;
        }
        let read_result = self.fs.read_at(self.mapping.path.as_slice(), 0, buf.as_mut_slice());
        let mut k: usize = 0;
        while k < file_size
            invariant
                k <= file_size <= MMAP_PAGE_SIZE,
                buf.len() == file_size,
                self.wf(),
                self.fs.model() == old(self).fs.model(),
                self.mapping == old(self).mapping,
                self.shadow@ == old(self).shadow@,
                self.diagnostics == old(self).diagnostics,
                self.window_start == old(self).window_start,
                forall|j: int| 0 <= j < MMAP_PAGE_SIZE ==> #[trigger] self.page@[j] == (if j < k { buf@[j] } else {
                    old(self).page@[j] }),
            decreases file_size - k,
        {
            let b = buf[k];
            self.page.set(k, b);
            k += 1;
        }
        if read_result < 0 {
            proof {
                assert(self.page@ =~= old(self).page@);
            }
            return read_result;
        }
        if read_result as usize != file_size {
            return EFAULT;
        }
        self.copy_page_to_shadow(file_size);
        self.mapping.loaded = true;
        self.diagnostics.pages_loaded = self.diagnostics.pages_loaded.wrapping_add(1);
        self.diagnostics.last_loaded_bytes = file_size as u64;
        self.diagnostics.last_error = 0;
        file_size as isize
    }

    /// Writes the window back to the file when it differs from its copy;
    /// `EINVAL` without a mapping. On success the file's mapped bytes are
    /// the window's and the copy is refreshed.
    pub fn flush_mapping(&mut self, is_msync: bool) -> (r: isize)
        requires
            old(self).wf(),
        ensures
            final(self).wf(),
            final(self).mapping == old(self).mapping,
            final(self).window_start == old(self).window_start,
            final(self).page@ == old(self).page@,
            flush_result(*old(self), *final(self), is_msync, r),
    {
        if !self.mapping.active {
            self.diagnostics.last_error = EINVAL as i64;
            return EINVAL;
        }
        let file_size = self.mapping.file_size;
        if !self.mapping.loaded {
            self.diagnostics.last_writeback_bytes = 0;
            self.diagnostics.last_error = 0;
            return 0;
        }
        let dirty = self.page_dirty(file_size);
        if !dirty {
            self.diagnostics.last_writeback_bytes = 0;
            self.diagnostics.last_error = 0;
            return 0;
        }
        let ghost o = *self;
        proof {
            lemma_lookup_err_negative(self.fs.inodes@, self.mapping.path@);
            crate::lab6::kernel_task1::namespace::lemma_walk_path_bound(self.fs.model(),
                crate::lab6::kernel_task1::fs::ROOT_INODE, crate::lab6::path::path_components(self.mapping.path@));
        }
        let bytes = vstd::slice::slice_subrange(self.page.as_slice(), 0, file_size);
        let write_result = self.fs.write_at(self.mapping.path.as_slice(), 0, bytes);
        if write_result != file_size as isize {
            self.diagnostics.last_error = write_result as i64;
            return if write_result >= 0 { EFAULT } else { write_result };
        }
        proof {
            crate::lab6::kernel_task1::file_io::law_read_after_write(o.fs, self.fs, lookup(o.fs.inodes@,
                o.mapping.path@)->Ok_0, 0, o.page@.subrange(0, file_size as int));
        }
        self.copy_page_to_shadow(file_size);
        self.diagnostics.dirty_detections = self.diagnostics.dirty_detections.wrapping_add(1);
        self.diagnostics.last_writeback_bytes = file_size as u64;
        self.diagnostics.last_error = 0;
        if is_msync {
            self.diagnostics.msync_writebacks = self.diagnostics.msync_writebacks.wrapping_add(1);
        } else {
            self.diagnostics.munmap_writebacks = self.diagnostics.munmap_writebacks.wrapping_add(1);
        }
        0
    }

    /// `msync`: writes the mapping back if it changed.
    pub fn sys_msync(&mut self, addr: usize, length: usize) -> (r: isize)
        requires
            old(self).wf(),
        ensures
            final(self).wf(),
            !(addr == old(self).window_start && length == MMAP_PAGE_SIZE) ==> r == EINVAL && final(self).fs == old(self).fs
                && final(self).mapping == old(self).mapping && final(self).shadow == old(self).shadow
                && final(self).page == old(self).page
                && final(self).diagnostics == (MmapDiagnostics { last_error: EINVAL as i64, ..old(self).diagnostics }),
            addr == old(self).window_start && length == MMAP_PAGE_SIZE ==> final(self).mapping == old(self).mapping
                && final(self).page@ == old(self).page@ && flush_result(*old(self), *final(self), true, r),
    {
        if !self.mapping_request_valid(addr, length) {
            self.diagnostics.last_error = EINVAL as i64;
            return EINVAL;
        }
        self.flush_mapping(true)
    }

    /// `munmap`: writes the mapping back if it changed, then drops it and
    /// clears the window; a failed write-back keeps the mapping.
    pub fn sys_munmap(&mut self, addr: usize, length: usize) -> (r: isize)
        requires
            old(self).wf(),
        ensures
            final(self).wf(),
            !(addr == old(self).window_start && length == MMAP_PAGE_SIZE) ==> r == EINVAL && final(self).fs == old(self).fs
                && final(self).mapping == old(self).mapping && final(self).shadow == old(self).shadow
                && final(self).page == old(self).page
                && final(self).diagnostics == (MmapDiagnostics { last_error: EINVAL as i64, ..old(self).diagnostics }),
            r == 0 ==> !final(self).mapping.active && !final(self).mapping.loaded,
            r == 0 ==> forall|j: int| 0 <= j < MMAP_PAGE_SIZE ==> #[trigger] final(self).page@[j] == 0,
            r == 0 ==> forall|j: int| 0 <= j < MMAP_PAGE_SIZE ==> #[trigger] final(self).shadow@[j] == 0,
            r != 0 ==> final(self).mapping == old(self).mapping,
            addr == old(self).window_start && length == MMAP_PAGE_SIZE ==> exists|flushed: MmapKernel| {
                &&& flush_result(*old(self), flushed, false, r)
                &&& fs_same(flushed.fs, final(self).fs) && final(self).diagnostics == flushed.diagnostics
                &&& r != 0 ==> final(self).shadow@ == flushed.shadow@ && final(self).page@ == flushed.page@
            },
    {
        if !self.mapping_request_valid(addr, length) {
            self.diagnostics.last_error = EINVAL as i64;
            return EINVAL;
        }
        let result = self.flush_mapping(false);
        let ghost flushed = *self;
        if result != 0 {
            return result;
        }
        self.mapping = MappingState::empty();
        self.zero_mmap_buffers();
        proof {
            assert(fs_same(flushed.fs, self.fs));
        }
        0
    }

    /// A fault in the window loads the mapped page: `true` when it was
    /// loaded (the caller then opens the window to the user), `false` for a
    /// fault elsewhere, without a mapping, or when loading failed (the
    /// error is recorded).
    pub fn handle_page_fault(&mut self, mcause: usize, mtval: usize) -> (r: bool)
        requires
            old(self).wf(),
        ensures
            final(self).wf(),
            final(self).window_start == old(self).window_start,
            !(old(self).window_start <= mtval < old(self).window_start + MMAP_PAGE_SIZE) ==> !r
                && final(self).fs == old(self).fs && final(self).mapping == old(self).mapping
                && final(self).diagnostics == old(self).diagnostics,
            old(self).window_start <= mtval < old(self).window_start + MMAP_PAGE_SIZE && !old(self).mapping.active ==> !r
                && final(self).mapping == old(self).mapping
                && final(self).diagnostics == (MmapDiagnostics { last_error: EINVAL as i64, ..old(self).diagnostics }),
            r ==> final(self).mapping.loaded && final(self).diagnostics.last_fault_addr == mtval
                && final(self).diagnostics.page_faults == old(self).diagnostics.page_faults.wrapping_add(1),
    {
        let start = self.window_start;
        let end = start + MMAP_PAGE_SIZE;
        if mtval < start || mtval >= end {
            return false;
        }
        if !self.mapping.active {
            self.diagnostics.last_error = EINVAL as i64;
            return false;
        }
        self.diagnostics.page_faults = self.diagnostics.page_faults.wrapping_add(1);
        self.diagnostics.last_fault_addr = mtval as u64;
        proof {
            lemma_lookup_err_negative(self.fs.inodes@, self.mapping.path@);
        }
        let loaded_bytes = self.load_mapped_page();
        if loaded_bytes < 0 {
            self.diagnostics.last_error = loaded_bytes as i64;
            return false;
        }
        true
    }

    /// The mapping's counters.
    pub fn sys_mmap_diag(&self) -> (r: MmapDiagnostics)
        ensures
            r == self.diagnostics,
    {
        self.diagnostics
    }
}

/// The name of a fault cause for the kernel's log.
pub fn fault_cause_name(mcause: usize) -> (r: &'static str)
    ensures
        mcause == 5 ==> r@ == "load-access"@,
        mcause == 7 ==> r@ == "store-access"@,
        mcause == 13 ==> r@ == "load"@,
        mcause == 15 ==> r@ == "store"@,
        mcause != 5 && mcause != 7 && mcause != 13 && mcause != 15 ==> r@ == "unknown"@,
{
    match mcause {
        5 => "load-access",
        7 => "store-access",
        13 => "load",
        15 => "store",
        _ => "unknown",
    }
}

/// The test pattern's byte at position `i`.
pub open spec fn mmap_pattern_byte(i: int) -> u8 {
    ((((i * 37) as u32) ^ 0x5a) & 0xff) as u8
}

/// Fills `buffer` with the test pattern.
pub fn fill_pattern(buffer: &mut [u8])
    requires
        old(buffer)@.len() * 37 <= u32::MAX,
    ensures
        final(buffer)@.len() == old(buffer)@.len(),
        forall|i: int| 0 <= i < final(buffer)@.len() ==> #[trigger] final(buffer)@[i] == mmap_pattern_byte(i),
{
    let len = buffer.len();
    let mut i: usize = 0;
    while i < len
        invariant
            len == buffer@.len(),
            len * 37 <= u32::MAX,
            i <= len,
            forall|j: int| 0 <= j < i ==> #[trigger] buffer@[j] == mmap_pattern_byte(j),
        decreases len - i,
    {
        buffer[i] = (((i as u32 * 37) ^ 0x5a) & 0xff) as u8;
        i += 1;
    }
}

} // verus!
