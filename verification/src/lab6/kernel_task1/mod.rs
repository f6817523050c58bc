//! An inode file system with direct, single-, double- and triple-indirect
//! block pointers, and the numbers and records its system calls use.
use vstd::prelude::*;

pub mod fs;
pub mod namespace;
pub mod file_io;

verus! {

pub const FS_MAX_INODES: usize = 48;
pub const FS_MAX_DATA_BLOCKS: usize = 256;
pub const FS_MAX_PTR_BLOCKS: usize = 64;

pub const EFAULT: isize = -14;
pub const EINVAL: isize = -22;
pub const ENOENT: isize = -2;
pub const EEXIST: isize = -17;
pub const ENOTDIR: isize = -20;
pub const EISDIR: isize = -21;
pub const ENOSPC: isize = -28;
pub const ENAMETOOLONG: isize = -36;
pub const ENOTEMPTY: isize = -39;
pub const EFBIG: isize = -27;
pub const ENOSYS: isize = -38;

pub const FS_KIND_NONE: u8 = 0;
pub const FS_KIND_FILE: u8 = 1;
pub const FS_KIND_DIR: u8 = 2;

pub const FS_LEVEL_DIRECT: u8 = 0;
pub const FS_LEVEL_SINGLE: u8 = 1;
pub const FS_LEVEL_DOUBLE: u8 = 2;
pub const FS_LEVEL_TRIPLE: u8 = 3;

pub const FS_BLOCK_SIZE: usize = 512;
pub const FS_DIRECT_POINTERS: usize = 10;
/// Block pointers per pointer block: a block of `u32`s.
pub const FS_POINTERS_PER_BLOCK: usize = 128;
pub const FS_NAME_MAX: usize = 24;
pub const FS_PATH_MAX: usize = 256;
pub const FS_MAX_DIR_ENTRIES: usize = 32;
/// Blocks a file can address: direct, single, double and triple indirect.
pub const FS_TRIPLE_LIMIT_BLOCKS: u64 = 2_113_674;

/// What `stat` reports.
#[derive(Clone, Copy, PartialEq, Eq, Structural)]
pub struct FsStat {
    pub kind: u8,
    pub highest_level: u8,
    pub size_bytes: u64,
    pub blocks_used: u64,
    pub child_count: u64,
}

impl FsStat {
    pub fn empty() -> (r: Self)
        ensures
            r == (FsStat { kind: FS_KIND_NONE, highest_level: FS_LEVEL_DIRECT, size_bytes: 0, blocks_used: 0, child_count: 0 }),
    {
        FsStat { kind: FS_KIND_NONE, highest_level: FS_LEVEL_DIRECT, size_bytes: 0, blocks_used: 0, child_count: 0 }
    }
}

/// The on-disk inode layout and the block-mapping counters.
#[derive(Clone, Copy, PartialEq, Eq, Structural)]
pub struct FsDiagnostics {
    pub disk_inode_size: u32,
    pub direct_offset: u32,
    pub single_offset: u32,
    pub double_offset: u32,
    pub triple_offset: u32,
    pub recursive_calls: u64,
    pub max_recursion_depth: u64,
    pub triple_resolution_calls: u64,
    pub pointer_blocks_used: u64,
    pub data_blocks_used: u64,
}

} // verus!
