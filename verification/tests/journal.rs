use lib::lab6::kernel_task5::abi::{BOOT_MODE_RECOVER, BOOT_MODE_RESET_AND_CRASH, BOOT_MODE_VERIFY, EINVAL, ENOENT};
use lib::lab6::kernel_task5::image_codec::{decode, encode, DISK_IMAGE_BYTES};
use lib::lab6::kernel_task5::journal::{
    detect_boot_mode, expected_updated_bytes, file_path_as_bytes, initial_bytes, trim_ascii, DiskImage, Journal,
};

#[test]
fn boot_mode_from_mode_text() {
    assert_eq!(detect_boot_mode(b"reset_then_crash_after_commit\n"), BOOT_MODE_RESET_AND_CRASH);
    assert_eq!(detect_boot_mode(b"recover_after_crash\0\0"), BOOT_MODE_RECOVER);
    assert_eq!(detect_boot_mode(b"verify"), BOOT_MODE_VERIFY);
    assert_eq!(detect_boot_mode(b""), BOOT_MODE_VERIFY);
    assert_eq!(trim_ascii(b"abc\r\nrest"), b"abc");
}

#[test]
fn image_codec_roundtrip() {
    let img = DiskImage::empty();
    let bytes = encode(&img);
    assert_eq!(bytes.len(), DISK_IMAGE_BYTES);
    let back = decode(&bytes).expect("a fresh image decodes");
    assert_eq!(encode(&back), bytes);
    assert!(decode(&bytes[..DISK_IMAGE_BYTES - 1]).is_none());
    // Decoding only parses: a damaged image still decodes, to the same bytes.
    let mut corrupt = bytes.clone();
    corrupt[0] ^= 0xff;
    assert_eq!(encode(&decode(&corrupt).unwrap()), corrupt);
}

#[test]
fn fresh_disk_reads_the_seed() {
    let (journal, fsck_ok) = Journal::init(b"verify", Ok(None));
    assert!(fsck_ok);
    let mut out = vec![0u8; 128];
    let n = journal.read_file(file_path_as_bytes(), &mut out);
    assert_eq!(n as usize, initial_bytes().len());
    assert_eq!(&out[..n as usize], initial_bytes());
    assert_eq!(journal.read_file(b"/other", &mut out), ENOENT);
    let mut tiny = vec![0u8; 2];
    assert_eq!(journal.read_file(file_path_as_bytes(), &mut tiny), EINVAL);
}

#[test]
fn committed_write_is_read_back() {
    let (mut journal, _) = Journal::init(b"verify", Ok(None));
    let update = expected_updated_bytes();
    let r = journal.transactional_write(file_path_as_bytes(), update);
    assert!(r >= 0);
    let mut out = vec![0u8; 128];
    let n = journal.read_file(file_path_as_bytes(), &mut out);
    assert_eq!(&out[..n as usize], update);
    assert!(journal.fsck());
    assert_eq!(journal.transactional_write(b"/nope", update), ENOENT);
    assert_eq!(journal.transactional_write(file_path_as_bytes(), &[0u8; 129]), EINVAL);
}

#[test]
fn crash_after_commit_then_recover() {
    // The crashing boot stops after the commit record; the image it left
    // behind, loaded on the next boot, is replayed.
    let (mut crashing, _) = Journal::init(b"reset_then_crash_after_commit", Ok(None));
    assert_eq!(crashing.boot_mode(), BOOT_MODE_RESET_AND_CRASH);
    let update = expected_updated_bytes();
    let r = crashing.transactional_write(file_path_as_bytes(), update);
    assert_eq!(r, 1);
    let left = decode(&encode(&crashing.image)).expect("the crash image decodes");
    let (recovered, fsck_ok) = Journal::init(b"recover_after_crash", Ok(Some(left)));
    assert!(fsck_ok);
    let mut out = vec![0u8; 128];
    let n = recovered.read_file(file_path_as_bytes(), &mut out);
    assert_eq!(&out[..n as usize], update);
}

use lib::lab6::kernel_task5::abi::{FsStat as JStat, EIO, FILE_PAYLOAD_BYTES, FS_KIND_FILE as J_FILE, SYS_TXN_WRITE};
use lib::lab6::kernel_task5::hostio::{
    disk_path, file_payload_bytes, first_successful_open, load_mode, mode_path, read_disk_image, transferred_bytes,
    write_disk_image, write_open_modes,
};
use lib::lab6::kernel_task5::journal::{
    bytes_equal, checksum, file_name, file_path, padded_data, padded_name, FNV_OFFSET, FNV_PRIME,
};
use lib::lab6::kernel_task5::syscall as jsys;

#[test]
fn host_io_decisions() {
    assert_eq!(write_open_modes(), [5, 4, 7, 6, 9, 8]);
    assert_eq!(first_successful_open(&[-1, -1, 3, 4]), Some(2));
    assert_eq!(first_successful_open(&[-1, -1]), None);
    assert_eq!(first_successful_open(&[]), None);
    assert_eq!(transferred_bytes(368, 0), 368);
    assert_eq!(transferred_bytes(368, 8), 360);
    assert_eq!(transferred_bytes(368, -1), EIO);
    let mut back = [0u8; 64];
    back[..6].copy_from_slice(b"verify");
    assert_eq!(load_mode(3, &back), back);
    assert_eq!(load_mode(-1, &back), [0u8; 64]);
    assert_eq!(read_disk_image(-1, 0, 0, 0), Ok(false));
    assert_eq!(read_disk_image(3, -1, 0, 0), Err(-111));
    assert_eq!(read_disk_image(3, 0, 0, 0), Ok(false));
    assert_eq!(read_disk_image(3, 368, 1, 0), Err(-112));
    assert_eq!(read_disk_image(3, 368, 0, -1), Err(-113));
    assert_eq!(read_disk_image(3, 368, 0, 0), Ok(true));
    assert_eq!(write_disk_image(368, -1, 0, 368), Err(-121));
    assert_eq!(write_disk_image(368, 3, -1, 368), Err(-122));
    assert_eq!(write_disk_image(368, 3, 0, 100), Err(-123));
    assert_eq!(write_disk_image(368, 3, 0, 368), Ok(()));
    assert!(!disk_path().is_empty() && !mode_path().is_empty());
    assert_eq!(file_payload_bytes(), FILE_PAYLOAD_BYTES);
}

#[test]
fn checksums_and_names() {
    assert_eq!(checksum(b""), FNV_OFFSET);
    assert_eq!(checksum(b"a"), (FNV_OFFSET ^ 0x61).wrapping_mul(FNV_PRIME));
    let ab = ((FNV_OFFSET ^ 0x61).wrapping_mul(FNV_PRIME) ^ 0x62).wrapping_mul(FNV_PRIME);
    assert_eq!(checksum(b"ab"), ab);
    assert!(bytes_equal(b"abc", b"abc"));
    assert!(!bytes_equal(b"abc", b"abd"));
    assert!(!bytes_equal(b"abc", b"ab"));
    let d = padded_data(b"xyz");
    assert_eq!(&d[..3], b"xyz");
    assert!(d[3..].iter().all(|b| *b == 0));
    let n = padded_name(b"note.txt");
    assert_eq!(&n[..8], b"note.txt");
    assert_eq!(n[8], 0);
    assert_eq!(file_path().as_bytes(), file_path_as_bytes());
    assert_eq!(&file_path_as_bytes()[1..], file_name());
    let r = jsys::txn_write(1, 2, 3, 4);
    assert_eq!((r.nr, r.a0, r.a1, r.a2, r.a3), (SYS_TXN_WRITE, 1, 2, 3, 4));
}

#[test]
fn journal_bookkeeping() {
    let (mut j, _) = Journal::init(b"verify", Ok(None));
    assert!(j.valid_disk());
    let before = j.flushes.len();
    j.flush_disk("manual");
    assert_eq!(j.flushes.len(), before + 1);
    assert_eq!(j.flushes[before].stage, "manual");
    j.record_error(-7);
    assert_eq!(j.journal_diagnostics().last_error, -7);
    let mut st = JStat::empty();
    assert_eq!(j.stat(file_path_as_bytes(), &mut st), 0);
    assert_eq!(st.kind, J_FILE);
    assert_eq!(st.size_bytes as usize, initial_bytes().len());
    assert_eq!(j.stat(b"/missing", &mut st), ENOENT);
    let writes = j.journal_diagnostics().home_writes;
    assert!(j.transactional_write(file_path_as_bytes(), b"hello") >= 0);
    let d = j.journal_diagnostics();
    assert_eq!(d.home_writes, writes + 1);
    assert_eq!(d.last_home_checksum, checksum(b"hello"));
}

use lib::lab6::kernel_task5::abi::{EFAULT, ENAMETOOLONG};
use lib::lab6::kernel_task5::kernel::{sys_txn_write, SyscallOutcome, CRASH_EXIT_STATUS};
use lib::lab6::kernel_task5::user_test::journal_verdict;

/// User memory at 0x1000 holding `path` followed by `bytes`.
fn txn_memory(path: &[u8], bytes: &[u8]) -> Vec<u8> {
    let mut m = path.to_vec();
    m.extend_from_slice(bytes);
    m
}

#[test]
fn txn_write_syscall_checks_its_arguments() {
    let (mut j, _) = Journal::init(b"verify", Ok(None));
    let path = file_path_as_bytes();
    let bytes = expected_updated_bytes();
    let mem = txn_memory(path, bytes);
    let base = 0x1000usize;
    let data = base + path.len();
    assert!(sys_txn_write(&mut j, &mem, base, base, 0, data, bytes.len()) == SyscallOutcome::Return(EINVAL));
    assert!(sys_txn_write(&mut j, &mem, base, base, 64, data, bytes.len()) == SyscallOutcome::Return(ENAMETOOLONG));
    assert!(sys_txn_write(&mut j, &mem, base, base, 63, data, bytes.len()) == SyscallOutcome::Return(EFAULT));
    assert!(sys_txn_write(&mut j, &mem, base, 0, path.len(), data, bytes.len()) == SyscallOutcome::Return(EFAULT));
    assert!(sys_txn_write(&mut j, &mem, base, base, path.len(), data, bytes.len() + 1) == SyscallOutcome::Return(EFAULT));
    assert!(sys_txn_write(&mut j, &mem, base, base, path.len() - 1, data, bytes.len()) == SyscallOutcome::Return(ENOENT));
    assert_eq!(j.journal_diagnostics().tx_begins, 0);
    assert!(sys_txn_write(&mut j, &mem, base, base, path.len(), data, bytes.len()) == SyscallOutcome::Return(0));
    let mut out = vec![0u8; 128];
    let n = j.read_file(path, &mut out);
    assert_eq!(&out[..n as usize], bytes);
    let big = txn_memory(path, &[7u8; 129]);
    assert!(sys_txn_write(&mut j, &big, base, base, path.len(), data, 129) == SyscallOutcome::Return(EINVAL));
}

#[test]
fn txn_write_syscall_crash_stops_with_status_two() {
    let (mut j, _) = Journal::init(b"reset_then_crash_after_commit", Ok(None));
    let path = file_path_as_bytes();
    let bytes = expected_updated_bytes();
    let mem = txn_memory(path, bytes);
    let base = 0x8000_0000usize;
    let r = sys_txn_write(&mut j, &mem, base, base, path.len(), base + path.len(), bytes.len());
    assert!(r == SyscallOutcome::Exit(CRASH_EXIT_STATUS));
    assert_eq!(CRASH_EXIT_STATUS, 2);
    assert_eq!(j.image.log_header.committed, 1);
    assert_eq!(j.journal_diagnostics().crash_injections, 1);
}

#[test]
fn transaction_counts_each_step() {
    let (mut j, _) = Journal::init(b"verify", Ok(None));
    let before = j.journal_diagnostics();
    assert_eq!(before.fsck_passes, 1);
    assert_eq!(before.tx_begins, 0);
    let bytes = expected_updated_bytes();
    assert_eq!(j.transactional_write(file_path_as_bytes(), bytes), 0);
    let d = j.journal_diagnostics();
    assert_eq!(
        (d.tx_begins, d.log_writes, d.tx_commits, d.commit_writes, d.home_writes, d.crash_injections),
        (1, 1, 1, 1, 1, 0)
    );
    assert_eq!(d.last_tx_seq, 1);
    assert_eq!(d.last_home_checksum, checksum(bytes));
    assert_eq!(j.flushes.len(), 1 + 4);
}

#[test]
fn recovery_boot_counts_the_replay() {
    let (mut crashing, _) = Journal::init(b"reset_then_crash_after_commit", Ok(None));
    assert_eq!(crashing.transactional_write(file_path_as_bytes(), expected_updated_bytes()), 1);
    let (j, ok) = Journal::init(b"recover_after_crash\n", Ok(Some(crashing.image)));
    assert!(ok);
    assert_eq!(j.boot_mode(), BOOT_MODE_RECOVER);
    let d = j.journal_diagnostics();
    assert_eq!((d.committed_logs_seen, d.recovery_replays, d.home_writes, d.fsck_passes), (1, 1, 1, 1));
    assert_eq!(d.last_tx_seq, 1);
    assert_eq!(d.last_error, 0);
    assert_eq!(d.last_home_checksum, checksum(expected_updated_bytes()));
    // A host read error is recorded, then cleared by the passing fsck.
    let (k, ok) = Journal::init(b"verify", Err(-5));
    assert!(ok);
    assert_eq!(k.journal_diagnostics().last_error, 0);
    assert_eq!(k.journal_diagnostics().fsck_passes, 1);
}

#[test]
fn journal_verdict_after_recovery() {
    let (mut crashing, _) = Journal::init(b"reset_then_crash_after_commit", Ok(None));
    crashing.transactional_write(file_path_as_bytes(), expected_updated_bytes());
    let (j, _) = Journal::init(b"recover_after_crash", Ok(Some(crashing.image)));
    let mut stat = JStat::empty();
    assert_eq!(j.stat(file_path_as_bytes(), &mut stat), 0);
    let mut root = JStat::empty();
    let root_result = j.stat(b"/", &mut root);
    let mut out = vec![0u8; 128];
    let n = j.read_file(file_path_as_bytes(), &mut out) as usize;
    let v = journal_verdict(j.boot_mode(), &j.journal_diagnostics(), &stat, root_result, &root, &out[..n]);
    assert!(v.data_match && v.tx_pass && v.order_pass && v.replay_pass && v.fsck_pass);
    assert!(v.all_pass());
    // The seed contents do not match the update; a verify boot with no
    // transaction fails the transaction check.
    let (fresh, _) = Journal::init(b"verify", Ok(None));
    let v = journal_verdict(fresh.boot_mode(), &fresh.journal_diagnostics(), &stat, root_result, &root, initial_bytes());
    assert!(!v.data_match && !v.tx_pass && v.replay_pass);
    assert!(!v.all_pass());
}

use lib::common::abi::TrapFrame as JFrame;
use lib::lab6::kernel_task5::abi::{
    ENOSYS, SYS_BOOT_MODE, SYS_JOURNAL_DIAG, SYS_READ_FILE, SYS_SHUTDOWN, SYS_STAT, SYS_TIME_US, SYS_WRITE as J_WRITE,
};
use lib::lab6::kernel_task5::kernel::{handle_syscall, JournalEffect};

#[test]
fn journal_kernel_answers_each_call() {
    let (mut j, _) = Journal::init(b"verify", Ok(None));
    let base = 0x8000_0000usize;
    let path = file_path_as_bytes();
    // Memory: the path at `base`, then a 256-byte area at `base + 64`.
    let mut mem = vec![0u8; 64 + 256];
    mem[..path.len()].copy_from_slice(path);
    mem[32] = b'/';
    let area = base + 64;
    let call = |j: &mut Journal, nr: usize, a: [usize; 4]| {
        let mut f = JFrame::zeroed();
        f.a7 = nr;
        f.a0 = a[0];
        f.a1 = a[1];
        f.a2 = a[2];
        f.a3 = a[3];
        let r = handle_syscall(j, &mut f, &mem, base, 777);
        (r, f.a0 as isize)
    };
    let (r, a0) = call(&mut j, SYS_READ_FILE, [base, path.len(), area, 128]);
    match r {
        JournalEffect::CopyBytes { addr, bytes } => {
            assert_eq!(addr, area);
            assert_eq!(bytes, initial_bytes());
        },
        _ => panic!("read_file should copy"),
    }
    assert_eq!(a0, initial_bytes().len() as isize);
    let (r, a0) = call(&mut j, SYS_READ_FILE, [base, path.len(), area, 4]);
    assert!(matches!(r, JournalEffect::Resume) && a0 == EINVAL);
    let (_, a0) = call(&mut j, SYS_READ_FILE, [base, 64, area, 4]);
    assert_eq!(a0, ENAMETOOLONG);
    let (_, a0) = call(&mut j, SYS_READ_FILE, [base, path.len(), area, 1000]);
    assert_eq!(a0, EFAULT);
    match call(&mut j, SYS_STAT, [base + 32, 1, area, 0]).0 {
        JournalEffect::CopyStat { addr, stat } => {
            assert_eq!(addr, area);
            assert_eq!((stat.kind, stat.child_count, stat.size_bytes), (2, 1, 24));
        },
        _ => panic!("stat of the root should copy"),
    }
    let (_, a0) = call(&mut j, SYS_STAT, [base + 32, 1, area + 4, 0]);
    assert_eq!(a0, EINVAL);
    let (_, a0) = call(&mut j, SYS_STAT, [base + 1, 3, area, 0]);
    assert_eq!(a0, ENOENT);
    match call(&mut j, SYS_JOURNAL_DIAG, [area, 0, 0, 0]).0 {
        JournalEffect::CopyDiagnostics { addr, diag } => assert!(addr == area && diag.fsck_passes == 1),
        _ => panic!("diag should copy"),
    }
    let (r, a0) = call(&mut j, J_WRITE, [base, 5, 0, 0]);
    assert!(matches!(r, JournalEffect::ConsoleWrite { addr, len: 5 } if addr == base) && a0 == 5);
    assert_eq!(call(&mut j, SYS_TIME_US, [0; 4]).1, 777);
    assert_eq!(call(&mut j, SYS_BOOT_MODE, [0; 4]).1, BOOT_MODE_VERIFY as isize);
    assert!(matches!(call(&mut j, SYS_SHUTDOWN, [3, 0, 0, 0]).0, JournalEffect::Exit(3)));
    assert_eq!(call(&mut j, 99, [0; 4]).1, ENOSYS);
    // txn_write through the call table: the area's first bytes become the file.
    let (r, a0) = call(&mut j, SYS_TXN_WRITE, [base, path.len(), area, 3]);
    assert!(matches!(r, JournalEffect::Resume) && a0 == 0);
    let mut out = vec![0u8; 128];
    assert_eq!(j.read_file(path, &mut out), 3);
    assert_eq!(&out[..3], &[0u8, 0, 0]);
}
