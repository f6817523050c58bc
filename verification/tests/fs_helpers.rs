use lib::lab6::task1::{fill_pattern, fnv1a_update, kib_per_second, splitmix64, FNV_OFFSET_BASIS, FNV_PRIME, PATTERN_SEED};
use lib::lab6::task2::{
    append_component, build_long_path, copy_path, init_root_path, listing_contains, pop_last_component,
    LONG_PATH_BUFFER_BYTES,
};
use lib::lab6::user_args::{validated_user_bytes, validated_user_path, validated_user_record};

fn reference_splitmix(value: u64) -> u64 {
    let mut z = value.wrapping_add(0x9e37_79b9_7f4a_7c15);
    z = (z ^ (z >> 30)).wrapping_mul(0xbf58_476d_1ce4_e5b9);
    z = (z ^ (z >> 27)).wrapping_mul(0x94d0_49bb_1331_11eb);
    z ^ (z >> 31)
}

#[test]
fn splitmix_known_values() {
    // SplitMix64's first output for seed 0.
    assert_eq!(splitmix64(0), 0xe220_a839_7b1d_cdaf);
    assert_eq!(splitmix64(12345), reference_splitmix(12345));
}

#[test]
fn fnv1a_known_values() {
    assert_eq!(fnv1a_update(FNV_OFFSET_BASIS, b""), FNV_OFFSET_BASIS);
    // The multiplier is 0x1_0000_01b3.
    assert_eq!(FNV_PRIME, 0x1_0000_01b3);
    assert_eq!(fnv1a_update(FNV_OFFSET_BASIS, b"a"), 0x1162_bb90_8601_ec8c);
    let whole = fnv1a_update(FNV_OFFSET_BASIS, b"foobar");
    let split = fnv1a_update(fnv1a_update(FNV_OFFSET_BASIS, b"foo"), b"bar");
    assert_eq!(whole, split);
    assert_eq!(whole, 0x3fef_ab5e_f739_67e8);
}

#[test]
fn pattern_is_word_aligned_little_endian() {
    let mut buf = [0u8; 20];
    fill_pattern(&mut buf, 4096);
    let w0 = splitmix64(PATTERN_SEED ^ 512).to_le_bytes();
    let w1 = splitmix64(PATTERN_SEED ^ 513).to_le_bytes();
    let w2 = splitmix64(PATTERN_SEED ^ 514).to_le_bytes();
    assert_eq!(&buf[..8], &w0);
    assert_eq!(&buf[8..16], &w1);
    assert_eq!(&buf[16..], &w2[..4]);
}

#[test]
fn throughput() {
    assert_eq!(kib_per_second(16 * 1024 * 1024, 0), 0);
    assert_eq!(kib_per_second(1024 * 1024, 1_000_000), 1024);
}

#[test]
fn building_paths() {
    let mut buf = [0u8; 64];
    let mut len = init_root_path(&mut buf);
    assert_eq!(len, 1);
    append_component(&mut buf, &mut len, "a");
    append_component(&mut buf, &mut len, "bc");
    assert_eq!(&buf[..len], b"/a/bc");
    pop_last_component(&mut len, &buf);
    assert_eq!(&buf[..len], b"/a");
    pop_last_component(&mut len, &buf);
    assert_eq!(len, 1);
    pop_last_component(&mut len, &buf);
    assert_eq!(len, 1);
    let mut copy = [9u8; 8];
    let mut copy_len = 0usize;
    copy_path(&mut copy, &mut copy_len, &buf, 5);
    assert_eq!(copy_len, 5);
    assert_eq!(&copy[..5], b"/a/bc");
    assert_eq!(copy[5], 9);
}

#[test]
fn listing_lookup() {
    assert!(listing_contains(b"a\nleaf_payload.txt\n", b"leaf_payload.txt"));
    assert!(listing_contains(b"x\ny", b"y"));
    assert!(!listing_contains(b"abc\n", b"ab"));
    assert!(!listing_contains(b"", b"a"));
}

#[test]
fn long_path_overshoots_the_limit() {
    let mut buf = [0u8; LONG_PATH_BUFFER_BYTES];
    let len = build_long_path(&mut buf);
    assert_eq!(len, 275);
    assert!(buf[..len].starts_with(b"/segmentalpha/segmentbeta/segmentalpha"));
    assert_eq!(buf[len], 0);
}

#[test]
fn user_argument_checks() {
    let (lo, hi) = (0x8000_0000usize, 0x8010_0000usize);
    assert_eq!(validated_user_path(lo, 0, lo, hi), Err(-22));
    assert_eq!(validated_user_path(lo, 256, lo, hi), Err(-36));
    assert_eq!(validated_user_path(hi - 4, 8, lo, hi), Err(-14));
    assert_eq!(validated_user_path(lo, 8, lo, hi), Ok(()));
    assert_eq!(validated_user_bytes(0, 0, lo, hi), Ok(()));
    assert_eq!(validated_user_bytes(0, 1, lo, hi), Err(-14));
    assert_eq!(validated_user_bytes(usize::MAX, 2, lo, hi), Err(-14));
    assert_eq!(validated_user_record(lo + 4, 16, 8, lo, hi), Err(-22));
    assert_eq!(validated_user_record(0, 16, 8, lo, hi), Err(-14));
    assert_eq!(validated_user_record(lo + 8, 16, 8, lo, hi), Ok(()));
}
