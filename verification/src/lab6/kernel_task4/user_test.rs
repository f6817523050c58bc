//! The verdict of the directory-tree test program, from what its calls
//! returned.
use vstd::prelude::*;
use super::{DirDiagnostics, FsStat, FS_KIND_DIR, FS_KIND_FILE};

verus! {

/// The test's checks after building a chain of `depth` directories with a
/// leaf file at the bottom and removing it again.
#[derive(Clone, Copy, PartialEq, Eq, Structural)]
pub struct DirTreeVerdict {
    /// The deepest directory is a directory holding one entry of the entry
    /// size, at least `depth` directory inodes exist, and at least
    /// `depth + 1` entries were written.
    pub dirent_model_pass: bool,
    /// Every level was found by listing its parent, and the resolver walked
    /// at least `depth` levels and split at least `2 * depth` components.
    pub resolver_pass: bool,
    /// The leaf is a file of the payload's size that reads back the payload,
    /// and every directory was removed.
    pub file_ops_pass: bool,
}

impl DirTreeVerdict {
    /// Every check passed.
    pub open spec fn passed(self) -> bool {
        self.dirent_model_pass && self.resolver_pass && self.file_ops_pass
    }

    /// Whether every check passed.
    pub fn all_pass(&self) -> (r: bool)
        ensures
            r == self.passed(),
    {
        self.dirent_model_pass && self.resolver_pass && self.file_ops_pass
    }
}

/// The checks, from the tree depth, the levels traversed and removed, the
/// `stat` of the deepest directory and of the leaf, the payload's length,
/// whether the leaf read back the payload, and the directory counters.
pub fn dir_tree_verdict(
    depth: u64,
    traversed: u64,
    removed: u64,
    dir_stat: &FsStat,
    leaf_stat: &FsStat,
    payload_len: u64,
    readback_match: bool,
    diag: &DirDiagnostics,
) -> (r: DirTreeVerdict)
    requires
        depth <= u64::MAX / 2,
    ensures
        r.dirent_model_pass == (dir_stat.kind == FS_KIND_DIR && dir_stat.child_count == 1
            && dir_stat.size_bytes == diag.dirent_bytes_per_inode && diag.dir_inode_count >= depth
            && diag.dirent_writes >= depth + 1),
        r.resolver_pass == (traversed == depth && diag.max_resolve_depth >= depth
            && diag.path_components_split >= depth * 2),
        r.file_ops_pass == (leaf_stat.kind == FS_KIND_FILE && leaf_stat.size_bytes == payload_len
            && readback_match && removed == depth),
{
    let dirent_model_pass = dir_stat.kind == FS_KIND_DIR && dir_stat.child_count == 1
        && dir_stat.size_bytes == diag.dirent_bytes_per_inode && diag.dir_inode_count >= depth
        && diag.dirent_writes >= depth + 1;
    let resolver_pass = traversed == depth && diag.max_resolve_depth >= depth
        && diag.path_components_split >= depth * 2;
    let file_ops_pass = leaf_stat.kind == FS_KIND_FILE && leaf_stat.size_bytes == payload_len
        && readback_match && removed == depth;
    DirTreeVerdict { dirent_model_pass, resolver_pass, file_ops_pass }
}

} // verus!
