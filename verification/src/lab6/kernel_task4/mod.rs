//! The directory-entry variant of the inode file system: directories hold
//! fixed-size entries (name and inode number), and path resolution walks
//! them component by component, counting its work.
use vstd::prelude::*;

pub mod fs;
pub mod user_test;

pub use super::kernel_task1::{
    FsStat, EEXIST, EFAULT, EFBIG, EINVAL, EISDIR, ENAMETOOLONG, ENOENT, ENOSPC, ENOSYS, ENOTDIR, ENOTEMPTY,
    FS_BLOCK_SIZE, FS_DIRECT_POINTERS, FS_KIND_DIR, FS_KIND_FILE, FS_KIND_NONE, FS_LEVEL_DIRECT, FS_LEVEL_DOUBLE,
    FS_LEVEL_SINGLE, FS_LEVEL_TRIPLE, FS_MAX_DIR_ENTRIES, FS_NAME_MAX, FS_PATH_MAX, FS_POINTERS_PER_BLOCK,
};

verus! {

pub const SYS_WRITE: usize = 0;
pub const SYS_TIME_US: usize = 1;
pub const SYS_CREATE_DIR: usize = 2;
pub const SYS_CREATE_FILE: usize = 3;
pub const SYS_WRITE_AT: usize = 4;
pub const SYS_READ_AT: usize = 5;
pub const SYS_STAT: usize = 6;
pub const SYS_REMOVE: usize = 7;
pub const SYS_LIST_DIR: usize = 8;
pub const SYS_SHUTDOWN: usize = 9;
pub const SYS_DIR_DIAG: usize = 10;

/// Counters of the directory layer.
#[derive(Clone, Copy, PartialEq, Eq, Structural)]
pub struct DirDiagnostics {
    pub dir_inode_count: u64,
    pub dirent_bytes_per_inode: u64,
    pub resolve_calls: u64,
    pub path_components_split: u64,
    pub max_resolve_depth: u64,
    pub dirent_reads: u64,
    pub dirent_writes: u64,
}

impl DirDiagnostics {
    /// Every counter zero.
    pub fn empty() -> (r: Self)
        ensures
            r == (DirDiagnostics { dir_inode_count: 0, dirent_bytes_per_inode: 0, resolve_calls: 0,
                path_components_split: 0, max_resolve_depth: 0, dirent_reads: 0, dirent_writes: 0 }),
    {
        DirDiagnostics { dir_inode_count: 0, dirent_bytes_per_inode: 0, resolve_calls: 0, path_components_split: 0,
            max_resolve_depth: 0, dirent_reads: 0, dirent_writes: 0 }
    }
}

} // verus!
