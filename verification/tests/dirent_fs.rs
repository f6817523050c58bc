use lib::lab6::kernel_task4::fs::{DirFileSystem, DIRENT_BYTES};
use lib::lab6::kernel_task4::{
    DirDiagnostics, FsStat, EEXIST, EFBIG, EINVAL, EISDIR, ENAMETOOLONG, ENOENT, ENOSPC, ENOTDIR, ENOTEMPTY,
    FS_KIND_DIR, FS_KIND_FILE, FS_LEVEL_DIRECT, FS_LEVEL_SINGLE, FS_MAX_DIR_ENTRIES, FS_PATH_MAX,
};
use lib::lab6::task2::{append_component, copy_path, init_root_path, listing_contains, pop_last_component};

const COMPONENTS: [&str; 8] = ["a", "b", "c", "d", "e", "f", "g", "h"];
const LEAF_PAYLOAD: &[u8] = b"kernel dir hierarchy validation payload\n";

fn stat_of(fs: &mut DirFileSystem, path: &[u8]) -> (isize, FsStat) {
    let mut st = FsStat::empty();
    let r = fs.stat(path, &mut st);
    (r, st)
}

#[test]
fn fresh_root_has_no_entries() {
    let mut fs = DirFileSystem::init();
    let (r, st) = stat_of(&mut fs, b"/");
    assert_eq!(r, 0);
    assert_eq!(st.kind, FS_KIND_DIR);
    assert_eq!(st.child_count, 0);
    assert_eq!(st.size_bytes, 0);
    let d = fs.diagnostics();
    assert_eq!(d.dir_inode_count, 1);
    assert_eq!(d.dirent_bytes_per_inode, DIRENT_BYTES);
    assert_eq!(d.dirent_writes, 0);
    let mut buf = [0u8; 8];
    assert_eq!(fs.list_dir(b"/", &mut buf), 0);
}

#[test]
fn empty_diagnostics_are_zero() {
    let d = DirDiagnostics::empty();
    assert_eq!(d.dir_inode_count, 0);
    assert_eq!(d.resolve_calls, 0);
    assert_eq!(d.dirent_reads, 0);
}

#[test]
fn deep_tree_create_traverse_and_remove() {
    let mut fs = DirFileSystem::init();
    let mut current = [0u8; FS_PATH_MAX];
    let mut current_len = init_root_path(&mut current);
    for c in COMPONENTS {
        append_component(&mut current, &mut current_len, c);
        assert_eq!(fs.create_dir(&current[..current_len]), 0);
    }
    assert_eq!(&current[..current_len], b"/a/b/c/d/e/f/g/h");
    assert_eq!(fs.create_dir(b"/a"), EEXIST);

    let mut listing = [0u8; 256];
    let mut parent = [0u8; FS_PATH_MAX];
    let mut parent_len = init_root_path(&mut parent);
    for c in COMPONENTS {
        let r = fs.list_dir(&parent[..parent_len], &mut listing);
        assert!(r >= 0);
        assert!(listing_contains(&listing[..r as usize], c.as_bytes()));
        append_component(&mut parent, &mut parent_len, c);
    }

    let mut leaf = [0u8; FS_PATH_MAX];
    let mut leaf_len = 0usize;
    copy_path(&mut leaf, &mut leaf_len, &current, current_len);
    append_component(&mut leaf, &mut leaf_len, "leaf_payload.txt");
    assert_eq!(fs.create_file(&leaf[..leaf_len]), 0);
    assert_eq!(fs.write_at(&leaf[..leaf_len], 0, LEAF_PAYLOAD), LEAF_PAYLOAD.len() as isize);

    let (r, dir_stat) = stat_of(&mut fs, &current[..current_len]);
    assert_eq!(r, 0);
    let (r, leaf_stat) = stat_of(&mut fs, &leaf[..leaf_len]);
    assert_eq!(r, 0);
    let mut readback = [0u8; 40];
    assert_eq!(fs.read_at(&leaf[..leaf_len], 0, &mut readback), LEAF_PAYLOAD.len() as isize);
    assert_eq!(&readback[..], LEAF_PAYLOAD);

    assert_eq!(fs.create_file(b"/ghost/branch/leaf.txt"), ENOENT);
    let mut long = vec![b'/'];
    while long.len() + 2 < FS_PATH_MAX + 64 {
        long.push(b'x');
        long.push(b'/');
    }
    assert_eq!(fs.create_dir(&long), ENAMETOOLONG);

    let diag = fs.diagnostics();
    assert_eq!(dir_stat.kind, FS_KIND_DIR);
    assert_eq!(dir_stat.child_count, 1);
    assert_eq!(dir_stat.size_bytes, diag.dirent_bytes_per_inode);
    assert_eq!(diag.dir_inode_count, 9);
    assert_eq!(diag.dirent_writes, 9);
    assert!(diag.max_resolve_depth >= 8);
    assert!(diag.path_components_split >= 16);
    assert_eq!(leaf_stat.kind, FS_KIND_FILE);
    assert_eq!(leaf_stat.size_bytes, LEAF_PAYLOAD.len() as u64);
    assert_eq!(leaf_stat.highest_level, FS_LEVEL_DIRECT);

    assert_eq!(fs.remove(&leaf[..leaf_len]), 0);
    for _ in 0..COMPONENTS.len() {
        assert_eq!(fs.remove(&current[..current_len]), 0);
        pop_last_component(&mut current_len, &current);
    }
    assert_eq!(current_len, 1);
    let d = fs.diagnostics();
    assert_eq!(d.dir_inode_count, 1);
    assert_eq!(d.dirent_writes, 18);
    let (r, root) = stat_of(&mut fs, b"/");
    assert_eq!(r, 0);
    assert_eq!(root.child_count, 0);
    assert_eq!(fs.list_dir(b"/", &mut listing), 0);
}

#[test]
fn created_path_is_found_again() {
    let mut fs = DirFileSystem::init();
    assert_eq!(fs.create_dir(b"/docs"), 0);
    assert_eq!(fs.create_file(b"/docs/readme"), 0);
    let (r, st) = stat_of(&mut fs, b"/docs/readme");
    assert_eq!(r, 0);
    assert_eq!(st.kind, FS_KIND_FILE);
    assert_eq!(st.size_bytes, 0);
    let (r, st) = stat_of(&mut fs, b"/docs/");
    assert_eq!(r, 0);
    assert_eq!(st.child_count, 1);
    assert_eq!(st.size_bytes, DIRENT_BYTES);
}

#[test]
fn errors_of_each_operation() {
    let mut fs = DirFileSystem::init();
    assert_eq!(fs.create_dir(b"/d"), 0);
    assert_eq!(fs.create_file(b"/d/f"), 0);
    assert_eq!(fs.create_file(b"/d/f/x"), ENOTDIR);
    assert_eq!(fs.create_dir(b"relative"), EINVAL);
    assert_eq!(fs.create_dir(b"/"), EINVAL);
    assert_eq!(fs.create_dir(b"/d/."), EINVAL);
    assert_eq!(fs.remove(b"/d"), ENOTEMPTY);
    assert_eq!(fs.remove(b"/nothing"), ENOENT);
    assert_eq!(fs.write_at(b"/d", 0, b"x"), EISDIR);
    let mut buf = [0u8; 4];
    assert_eq!(fs.read_at(b"/d", 0, &mut buf), EISDIR);
    assert_eq!(fs.list_dir(b"/d/f", &mut buf), ENOTDIR);
    assert_eq!(fs.write_at(b"/d/f", usize::MAX, b"xy"), EFBIG);
    assert_eq!(fs.write_at(b"/d/f", 1_082_201_088, b"x"), EFBIG);
    let mut st = FsStat::empty();
    assert_eq!(fs.stat(b"/missing", &mut st), ENOENT);
    assert_eq!(st.kind, FsStat::empty().kind);
}

#[test]
fn listing_that_does_not_fit() {
    let mut fs = DirFileSystem::init();
    assert_eq!(fs.create_file(b"/alpha"), 0);
    assert_eq!(fs.create_file(b"/beta"), 0);
    let mut small = [0xAAu8; 8];
    assert_eq!(fs.list_dir(b"/", &mut small), ENOSPC);
    assert_eq!(&small[..6], b"alpha\n");
    assert_eq!(small[6], 0xAA);
    let mut big = [0u8; 16];
    assert_eq!(fs.list_dir(b"/", &mut big), 11);
    assert_eq!(&big[..11], b"alpha\nbeta\n");
}

#[test]
fn removed_slot_is_reused_in_place() {
    let mut fs = DirFileSystem::init();
    assert_eq!(fs.create_file(b"/one"), 0);
    assert_eq!(fs.create_file(b"/two"), 0);
    assert_eq!(fs.remove(b"/one"), 0);
    assert_eq!(fs.create_file(b"/three"), 0);
    let mut buf = [0u8; 32];
    let n = fs.list_dir(b"/", &mut buf);
    assert_eq!(&buf[..n as usize], b"three\ntwo\n");
    let (_, st) = stat_of(&mut fs, b"/");
    assert_eq!(st.child_count, 2);
    assert_eq!(st.size_bytes, 2 * DIRENT_BYTES);
}

#[test]
fn full_directory_refuses_another_entry() {
    let mut fs = DirFileSystem::init();
    for i in 0..FS_MAX_DIR_ENTRIES {
        let name = format!("/f{}", i);
        assert_eq!(fs.create_file(name.as_bytes()), 0);
    }
    assert_eq!(fs.create_file(b"/extra"), ENOSPC);
    let (_, st) = stat_of(&mut fs, b"/");
    assert_eq!(st.child_count, FS_MAX_DIR_ENTRIES as u64);
    assert_eq!(fs.stat(b"/extra", &mut FsStat::empty()), ENOENT);
}

#[test]
fn inode_table_runs_out() {
    let mut fs = DirFileSystem::init();
    assert_eq!(fs.create_dir(b"/x"), 0);
    assert_eq!(fs.create_dir(b"/y"), 0);
    let mut made = 2;
    let mut i = 0;
    loop {
        let name = format!("/{}/n{}", if i % 2 == 0 { "x" } else { "y" }, i);
        let r = fs.create_file(name.as_bytes());
        if r != 0 {
            assert_eq!(r, ENOSPC);
            break;
        }
        made += 1;
        i += 1;
    }
    assert_eq!(made, 47);
}

#[test]
fn write_past_direct_blocks_and_read_back() {
    let mut fs = DirFileSystem::init();
    assert_eq!(fs.create_file(b"/big"), 0);
    let data: Vec<u8> = (0..600u32).map(|i| (i % 251) as u8).collect();
    assert_eq!(fs.write_at(b"/big", 10 * 512 - 100, &data), 600);
    let (_, st) = stat_of(&mut fs, b"/big");
    assert_eq!(st.size_bytes, 10 * 512 + 500);
    assert_eq!(st.highest_level, FS_LEVEL_SINGLE);
    assert_eq!(st.blocks_used, 2);
    let mut back = vec![0u8; 600];
    assert_eq!(fs.read_at(b"/big", 10 * 512 - 100, &mut back), 600);
    assert_eq!(back, data);
    let mut head = [7u8; 4];
    assert_eq!(fs.read_at(b"/big", 0, &mut head), 4);
    assert_eq!(head, [0u8; 4]);
    let mut tail = [7u8; 4];
    assert_eq!(fs.read_at(b"/big", 10 * 512 + 500, &mut tail), 0);
    assert_eq!(tail, [7u8; 4]);
}

#[test]
fn removed_path_is_not_found() {
    let mut fs = DirFileSystem::init();
    assert_eq!(fs.create_dir(b"/d"), 0);
    assert_eq!(fs.create_file(b"/d/f"), 0);
    assert_eq!(fs.remove(b"/d/f"), 0);
    assert_eq!(fs.stat(b"/d/f", &mut FsStat::empty()), ENOENT);
    assert_eq!(fs.remove(b"/d"), 0);
    assert_eq!(fs.stat(b"/d", &mut FsStat::empty()), ENOENT);
    assert_eq!(fs.remove(b"/d"), ENOENT);
}

use lib::lab6::kernel_task4::user_test::dir_tree_verdict;


#[test]
fn dir_tree_verdict_checks_each_figure() {
    let mut dir = FsStat::empty();
    dir.kind = FS_KIND_DIR;
    dir.child_count = 1;
    dir.size_bytes = 24;
    let mut leaf = FsStat::empty();
    leaf.kind = FS_KIND_FILE;
    leaf.size_bytes = 40;
    let diag = DirDiagnostics {
        dir_inode_count: 9,
        dirent_bytes_per_inode: 24,
        resolve_calls: 50,
        path_components_split: 16,
        max_resolve_depth: 8,
        dirent_reads: 10,
        dirent_writes: 9,
    };
    let v = dir_tree_verdict(8, 8, 8, &dir, &leaf, 40, true, &diag);
    assert!(v.dirent_model_pass && v.resolver_pass && v.file_ops_pass && v.all_pass());
    let v = dir_tree_verdict(8, 7, 8, &dir, &leaf, 40, true, &diag);
    assert!(!v.resolver_pass && !v.all_pass());
    let short = DirDiagnostics { path_components_split: 15, dirent_writes: 8, ..diag };
    let v = dir_tree_verdict(8, 8, 7, &dir, &leaf, 40, true, &short);
    assert!(!v.dirent_model_pass && !v.resolver_pass && !v.file_ops_pass);
}
