use lib::lab6::kernel_task1::fs::FileSystem;
use lib::lab6::kernel_task1::{
    FsStat, EEXIST, EFBIG, EINVAL, EISDIR, ENAMETOOLONG, ENOENT, ENOSPC, ENOTDIR, ENOTEMPTY, FS_KIND_DIR,
    FS_KIND_FILE, FS_LEVEL_DIRECT, FS_LEVEL_DOUBLE, FS_LEVEL_SINGLE, FS_LEVEL_TRIPLE,
};
use lib::lab6::path::{split_parent_and_name, trimmed_path_end, validate_path};

fn stat_of(fs: &FileSystem, path: &[u8]) -> (isize, FsStat) {
    let mut st = FsStat::empty();
    let r = fs.stat(path, &mut st);
    (r, st)
}

#[test]
fn fresh_root_is_an_empty_directory() {
    let fs = FileSystem::init();
    let (r, st) = stat_of(&fs, b"/");
    assert_eq!(r, 0);
    assert_eq!(st.kind, FS_KIND_DIR);
    assert_eq!(st.child_count, 0);
    assert_eq!(st.size_bytes, 0);
    let mut buf = [0u8; 8];
    assert_eq!(fs.list_dir(b"/", &mut buf), 0);
}

#[test]
fn path_validation_errors() {
    assert_eq!(validate_path(b""), Err(EINVAL));
    assert_eq!(validate_path(b"relative/path"), Err(EINVAL));
    assert_eq!(validate_path(b"/a/./b"), Err(EINVAL));
    assert_eq!(validate_path(b"/a/.."), Err(EINVAL));
    assert_eq!(validate_path(b"/abcdefghijklmnopqrstuvwxyz"), Err(ENAMETOOLONG));
    let long = vec![b'/'; 256];
    assert_eq!(validate_path(&long), Err(ENAMETOOLONG));
    assert_eq!(validate_path(b"//a///b//"), Ok(()));
    assert_eq!(validate_path(b"/"), Ok(()));
}

#[test]
fn trailing_slashes_are_trimmed() {
    assert_eq!(trimmed_path_end(b"/a/b//"), 4);
    assert_eq!(trimmed_path_end(b"///"), 1);
    assert_eq!(trimmed_path_end(b"/"), 1);
}

#[test]
fn split_into_parent_and_leaf() {
    let (parent, name) = split_parent_and_name(b"/meta/sample.txt").unwrap();
    assert_eq!(parent, b"/meta");
    assert_eq!(name, b"sample.txt");
    let (parent, name) = split_parent_and_name(b"/top//").unwrap();
    assert_eq!(parent, b"/");
    assert_eq!(name, b"top");
    assert_eq!(split_parent_and_name(b"/"), Err(EINVAL));
}

#[test]
fn create_then_stat_and_list() {
    let mut fs = FileSystem::init();
    assert_eq!(fs.create_dir(b"/meta"), 0);
    assert_eq!(fs.create_file(b"/meta/sample.txt"), 0);
    let (r, st) = stat_of(&fs, b"/meta");
    assert_eq!(r, 0);
    assert_eq!(st.kind, FS_KIND_DIR);
    assert_eq!(st.child_count, 1);
    let (r, st) = stat_of(&fs, b"/meta/sample.txt");
    assert_eq!(r, 0);
    assert_eq!(st.kind, FS_KIND_FILE);
    assert_eq!(st.size_bytes, 0);
    assert_eq!(st.highest_level, FS_LEVEL_DIRECT);
    let mut buf = [0u8; 32];
    let n = fs.list_dir(b"/meta", &mut buf);
    assert_eq!(n, 11);
    assert_eq!(&buf[..11], b"sample.txt\n");
}

#[test]
fn create_errors() {
    let mut fs = FileSystem::init();
    assert_eq!(fs.create_dir(b"/d"), 0);
    assert_eq!(fs.create_dir(b"/d"), EEXIST);
    assert_eq!(fs.create_file(b"/missing/x"), ENOENT);
    assert_eq!(fs.create_file(b"/f"), 0);
    assert_eq!(fs.create_file(b"/f/x"), ENOTDIR);
    assert_eq!(fs.create_dir(b"/"), EINVAL);
    assert_eq!(fs.create_dir(b"relative"), EINVAL);
}

#[test]
fn stat_errors() {
    let fs = FileSystem::init();
    let (r, st) = stat_of(&fs, b"/missing/stat.txt");
    assert_eq!(r, ENOENT);
    assert_eq!(st.kind, 0);
    let (r, _) = stat_of(&fs, b"relative/path");
    assert_eq!(r, EINVAL);
}

#[test]
fn write_then_read_back() {
    let mut fs = FileSystem::init();
    assert_eq!(fs.create_file(b"/data"), 0);
    let payload = b"kernel stat syscall sample\n";
    assert_eq!(fs.write_at(b"/data", 0, payload), payload.len() as isize);
    let mut out = [0u8; 64];
    let n = fs.read_at(b"/data", 0, &mut out);
    assert_eq!(n, payload.len() as isize);
    assert_eq!(&out[..payload.len()], payload);
    let (_, st) = stat_of(&fs, b"/data");
    assert_eq!(st.size_bytes, payload.len() as u64);
    assert_eq!(st.blocks_used, 1);
}

#[test]
fn holes_read_as_zero_and_size_grows() {
    let mut fs = FileSystem::init();
    assert_eq!(fs.create_file(b"/sparse"), 0);
    assert_eq!(fs.write_at(b"/sparse", 2000, b"xy"), 2);
    let (_, st) = stat_of(&fs, b"/sparse");
    assert_eq!(st.size_bytes, 2002);
    assert_eq!(st.blocks_used, 1);
    let mut out = [7u8; 4];
    assert_eq!(fs.read_at(b"/sparse", 1998, &mut out), 4);
    assert_eq!(out, [0, 0, b'x', b'y']);
    let mut tail = [9u8; 4];
    assert_eq!(fs.read_at(b"/sparse", 2001, &mut tail), 1);
    assert_eq!(tail, [b'y', 9, 9, 9]);
    assert_eq!(fs.read_at(b"/sparse", 5000, &mut tail), 0);
}

#[test]
fn write_across_a_block_boundary() {
    let mut fs = FileSystem::init();
    assert_eq!(fs.create_file(b"/f"), 0);
    let src: Vec<u8> = (0..600u32).map(|i| (i % 251) as u8).collect();
    assert_eq!(fs.write_at(b"/f", 300, &src), 600);
    let (_, st) = stat_of(&fs, b"/f");
    assert_eq!(st.blocks_used, 2);
    let mut out = vec![0u8; 600];
    assert_eq!(fs.read_at(b"/f", 300, &mut out), 600);
    assert_eq!(out, src);
}

#[test]
fn indirect_levels_are_reached() {
    let mut fs = FileSystem::init();
    assert_eq!(fs.create_file(b"/big"), 0);
    // Block 10 is the first single-indirect block.
    assert_eq!(fs.write_at(b"/big", 10 * 512, b"s"), 1);
    let (_, st) = stat_of(&fs, b"/big");
    assert_eq!(st.highest_level, FS_LEVEL_SINGLE);
    // Block 138 is the first double-indirect block.
    assert_eq!(fs.write_at(b"/big", 138 * 512, b"d"), 1);
    let (_, st) = stat_of(&fs, b"/big");
    assert_eq!(st.highest_level, FS_LEVEL_DOUBLE);
    // Block 16522 is the first triple-indirect block.
    assert_eq!(fs.write_at(b"/big", 16522 * 512, b"t"), 1);
    let (_, st) = stat_of(&fs, b"/big");
    assert_eq!(st.highest_level, FS_LEVEL_TRIPLE);
    assert_eq!(st.blocks_used, 3);
    let d = fs.diagnostics();
    assert_eq!(d.data_blocks_used, 3);
    // One single, two for the double tree, three for the triple tree.
    assert_eq!(d.pointer_blocks_used, 6);
    assert!(d.triple_resolution_calls >= 1);
    assert_eq!(d.max_recursion_depth, 3);
    let mut one = [0u8; 1];
    assert_eq!(fs.read_at(b"/big", 16522 * 512, &mut one), 1);
    assert_eq!(one[0], b't');
}

#[test]
fn write_errors() {
    let mut fs = FileSystem::init();
    assert_eq!(fs.create_dir(b"/d"), 0);
    assert_eq!(fs.create_file(b"/f"), 0);
    assert_eq!(fs.write_at(b"/d", 0, b"x"), EISDIR);
    assert_eq!(fs.write_at(b"/nope", 0, b"x"), ENOENT);
    assert_eq!(fs.write_at(b"/f", 1_082_201_088, b"x"), EFBIG);
    assert_eq!(fs.write_at(b"/f", usize::MAX, b"x"), EFBIG);
    let mut out = [0u8; 1];
    assert_eq!(fs.read_at(b"/d", 0, &mut out), EISDIR);
}

#[test]
fn data_pool_runs_out() {
    let mut fs = FileSystem::init();
    assert_eq!(fs.create_file(b"/f"), 0);
    // 256 data blocks in the pool: 257 blocks of data cannot fit.
    let src = vec![1u8; 257 * 512];
    assert_eq!(fs.write_at(b"/f", 0, &src), ENOSPC);
    let (_, st) = stat_of(&fs, b"/f");
    assert_eq!(st.size_bytes, 0);
    assert_eq!(st.blocks_used, 256);
}

#[test]
fn remove_files_and_directories() {
    let mut fs = FileSystem::init();
    assert_eq!(fs.create_dir(b"/d"), 0);
    assert_eq!(fs.create_file(b"/d/a"), 0);
    assert_eq!(fs.create_file(b"/d/b"), 0);
    assert_eq!(fs.remove(b"/d"), ENOTEMPTY);
    assert_eq!(fs.remove(b"/d/a"), 0);
    assert_eq!(fs.remove(b"/d/a"), ENOENT);
    let mut buf = [0u8; 16];
    assert_eq!(fs.list_dir(b"/d", &mut buf), 2);
    assert_eq!(&buf[..2], b"b\n");
    assert_eq!(fs.remove(b"/d/b"), 0);
    assert_eq!(fs.remove(b"/d"), 0);
    let (r, _) = stat_of(&fs, b"/d");
    assert_eq!(r, ENOENT);
}

#[test]
fn list_dir_errors() {
    let mut fs = FileSystem::init();
    assert_eq!(fs.create_file(b"/f"), 0);
    assert_eq!(fs.create_file(b"/longer_name"), 0);
    let mut small = [0u8; 4];
    assert_eq!(fs.list_dir(b"/", &mut small), ENOSPC);
    assert_eq!(&small[..2], b"f\n");
    assert_eq!(fs.list_dir(b"/f", &mut small), ENOTDIR);
}

#[test]
fn deep_directories_resolve() {
    let mut fs = FileSystem::init();
    let mut path = Vec::new();
    for c in ["a", "b", "c", "d", "e", "f", "g", "h"] {
        path.push(b'/');
        path.extend_from_slice(c.as_bytes());
        assert_eq!(fs.create_dir(&path), 0);
    }
    path.extend_from_slice(b"/leaf_payload.txt");
    assert_eq!(fs.create_file(&path), 0);
    let payload = b"qemu deep directory validation payload\n";
    assert_eq!(fs.write_at(&path, 0, payload), payload.len() as isize);
    let mut out = vec![0u8; payload.len()];
    assert_eq!(fs.read_at(b"/a/b/c/d/e/f/g/h/leaf_payload.txt", 0, &mut out), payload.len() as isize);
    assert_eq!(&out, payload);
}

#[test]
fn inode_table_fills_up() {
    let mut fs = FileSystem::init();
    // 48 inodes, the root is one of them.
    for i in 0..47u32 {
        let dir = format!("/d{}", i / 30);
        if i % 30 == 0 {
            assert_eq!(fs.create_dir(dir.as_bytes()), 0);
            continue;
        }
        let name = format!("{}/n{}", dir, i);
        assert_eq!(fs.create_file(name.as_bytes()), 0);
    }
    assert_eq!(fs.create_file(b"/last"), ENOSPC);
}
