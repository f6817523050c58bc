//! A one-file disk with a write-ahead journal. A transaction writes the new
//! inode and data to the log, sets the commit flag, installs the logged copy
//! over the home copy, then clears the log; every step is flushed to the
//! host image. At boot a committed log is replayed and an uncommitted one
//! discarded, so the file always holds either the old or the new contents.
use vstd::prelude::*;
use vstd::string::StringSliceAdditionalSpecFns;
use super::abi::{
    FsStat, JournalDiagnostics, BOOT_MODE_RECOVER, BOOT_MODE_RESET_AND_CRASH, BOOT_MODE_VERIFY, EINVAL,
    EIO, ENOENT, FILE_NAME_MAX, FILE_PAYLOAD_BYTES, FS_KIND_DIR, FS_KIND_FILE,
};

verus! {

pub const DISK_MAGIC: u32 = 0x4a36_4c35;
pub const DISK_VERSION: u32 = 1;
pub const FNV_OFFSET: u64 = 0xcbf2_9ce4_8422_2325;
pub const FNV_PRIME: u64 = 0x0000_0001_0000_01b3;
/// Size of a directory entry on disk.
pub const DIRENT_DISK_BYTES: u32 = 24;

#[derive(Clone, Copy)]
pub struct RootInode {
    pub valid: u8,
    pub kind: u8,
    pub padding: [u8; 2],
    pub child_count: u32,
    pub size_bytes: u32,
}

#[derive(Clone, Copy)]
pub struct DirentDisk {
    pub valid: u8,
    pub name_len: u8,
    pub padding: [u8; 2],
    pub inode_index: u32,
    pub name: [u8; FILE_NAME_MAX],
}

#[derive(Clone, Copy)]
pub struct FileInode {
    pub valid: u8,
    pub kind: u8,
    pub padding: [u8; 2],
    pub size_bytes: u32,
    pub checksum: u64,
}

#[derive(Clone, Copy)]
pub struct JournalHeader {
    pub active: u8,
    pub committed: u8,
    pub padding: [u8; 2],
    pub target_inode: u32,
    pub tx_seq: u64,
    pub logged_size: u32,
    pub reserved: u32,
    pub logged_checksum: u64,
}

/// The whole disk: the root directory with one entry, the file's home inode
/// and data, and the journal's header, logged inode and logged data.
#[derive(Clone, Copy)]
pub struct DiskImage {
    pub magic: u32,
    pub version: u32,
    pub root_inode: RootInode,
    pub root_dirent: DirentDisk,
    pub home_inode: FileInode,
    pub home_data: [u8; FILE_PAYLOAD_BYTES],
    pub log_header: JournalHeader,
    pub log_inode: FileInode,
    pub log_data: [u8; FILE_PAYLOAD_BYTES],
}

/// Two zero bytes.
pub open spec fn zero_pad() -> [u8; 2] {
    vstd::array::spec_array_fill_for_copy_type(0u8)
}

/// An all-zero payload.
pub open spec fn zero_payload() -> [u8; FILE_PAYLOAD_BYTES] {
    vstd::array::spec_array_fill_for_copy_type(0u8)
}

/// 64-bit FNV-1a of `bytes`.
pub open spec fn fnv1a(bytes: Seq<u8>) -> u64
    decreases bytes.len(),
{
    if bytes.len() == 0 {
        FNV_OFFSET
    } else {
        (fnv1a(bytes.drop_last()) ^ (bytes.last() as u64)).wrapping_mul(FNV_PRIME)
    }
}

/// The 64-bit FNV-1a checksum of `bytes`.
pub fn checksum(bytes: &[u8]) -> (r: u64)
    ensures
        r == fnv1a(bytes@),
{
    let mut hash = FNV_OFFSET;
    let mut i: usize = 0;
    while i < bytes.len()
        invariant
            i <= bytes@.len(),
            hash == fnv1a(bytes@.subrange(0, i as int)),
        decreases bytes@.len() - i,
    {
        proof {
            assert(bytes@.subrange(0, i + 1).drop_last() =~= bytes@.subrange(0, i as int));
        }
        hash = (hash ^ (bytes[i] as u64)).wrapping_mul(FNV_PRIME);
        i += 1;
    }
    proof {
        assert(bytes@.subrange(0, bytes@.len() as int) =~= bytes@);
    }
    hash
}

/// `/journaled.txt`
pub open spec fn file_path_bytes() -> Seq<u8> {
    seq![0x2fu8, 0x6a, 0x6f, 0x75, 0x72, 0x6e, 0x61, 0x6c, 0x65, 0x64, 0x2e, 0x74, 0x78, 0x74]
}

/// The file's bytes, as `home_inode.size_bytes` bytes of the home data.
pub open spec fn home_contents(img: DiskImage) -> Seq<u8> {
    img.home_data@.subrange(0, img.home_inode.size_bytes as int)
}

/// The on-disk structure `fsck` accepts: the root holds exactly the file's
/// entry, the file's checksum matches its bytes, and no committed transaction
/// waits in the log.
pub open spec fn fsck_ok(img: DiskImage) -> bool {
    &&& img.magic == DISK_MAGIC && img.version == DISK_VERSION
    &&& img.root_inode.valid == 1 && img.root_inode.kind == FS_KIND_DIR
    &&& img.root_inode.child_count == 1 && img.root_inode.size_bytes == DIRENT_DISK_BYTES
    &&& img.root_dirent.valid == 1 && img.root_dirent.inode_index == 1
    &&& img.root_dirent.name_len == 13
    &&& img.root_dirent.name@.subrange(0, 13) == file_name_bytes()
    &&& img.home_inode.valid == 1 && img.home_inode.kind == FS_KIND_FILE
    &&& img.home_inode.size_bytes <= FILE_PAYLOAD_BYTES
    &&& fnv1a(home_contents(img)) == img.home_inode.checksum
    &&& !(img.log_header.active == 1 && img.log_header.committed == 1)
}

/// `journaled.txt`
pub open spec fn file_name_bytes() -> Seq<u8> {
    seq![0x6au8, 0x6f, 0x75, 0x72, 0x6e, 0x61, 0x6c, 0x65, 0x64, 0x2e, 0x74, 0x78, 0x74]
}

/// `bytes` followed by zeros up to the payload size.
pub open spec fn payload_of(bytes: Seq<u8>) -> Seq<u8> {
    bytes + Seq::new((FILE_PAYLOAD_BYTES - bytes.len()) as nat, |i: int| 0u8)
}

/// `after` is `before` with `bytes` written to the log as transaction `seq`,
/// not yet committed.
pub open spec fn is_logged(before: DiskImage, after: DiskImage, bytes: Seq<u8>, seq: u64) -> bool {
    &&& after == DiskImage {
        log_inode: FileInode { valid: 1, kind: FS_KIND_FILE, padding: zero_pad(), size_bytes: bytes.len() as u32, checksum: fnv1a(bytes) },
        log_data: after.log_data,
        log_header: JournalHeader {
            active: 1,
            committed: 0,
            target_inode: 1,
            tx_seq: seq,
            logged_size: bytes.len() as u32,
            logged_checksum: fnv1a(bytes),
            ..before.log_header
        },
        ..before
    }
    &&& after.log_data@ == payload_of(bytes)
}

/// The image with the log's commit flag set.
pub open spec fn committed(img: DiskImage) -> DiskImage {
    DiskImage { log_header: JournalHeader { committed: 1, ..img.log_header }, ..img }
}

/// The image with the logged inode and data copied over the home copy.
pub open spec fn home_installed(img: DiskImage) -> DiskImage {
    DiskImage { home_inode: img.log_inode, home_data: img.log_data, ..img }
}

/// The image with the log cleared.
pub open spec fn log_cleared(img: DiskImage) -> DiskImage {
    DiskImage {
        log_header: JournalHeader { active: 0, committed: 0, logged_size: 0, logged_checksum: 0, ..img.log_header },
        log_inode: FileInode { valid: 0, kind: FS_KIND_FILE, padding: zero_pad(), size_bytes: 0, checksum: 0 },
        log_data: zero_payload(),
        ..img
    }
}

/// What boot-time recovery makes of an image: a committed log is replayed,
/// an uncommitted one discarded, anything else left alone.
pub open spec fn recovered(img: DiskImage) -> DiskImage {
    if img.log_header.active == 1 && img.log_header.committed == 1 {
        log_cleared(home_installed(img))
    } else if img.log_header.active == 1 && img.log_header.committed == 0 {
        DiskImage { log_header: JournalHeader { active: 0, committed: 0, ..img.log_header }, ..img }
    } else {
        img
    }
}

/// Atomicity of a transaction: whichever of the images a transaction writes
/// is the last one on disk when the machine stops, recovery leaves a disk
/// that passes `fsck` and holds the old contents (only the uncommitted log
/// was written) or the new ones (the commit record was written).
pub proof fn lemma_transaction_atomic(before: DiskImage, s1: DiskImage, bytes: Seq<u8>, seq: u64)
    requires
        fsck_ok(before),
        bytes.len() <= FILE_PAYLOAD_BYTES,
        is_logged(before, s1, bytes, seq),
    ensures
        fsck_ok(recovered(s1)) && home_contents(recovered(s1)) == home_contents(before),
        fsck_ok(recovered(committed(s1))) && home_contents(recovered(committed(s1))) == bytes,
        fsck_ok(recovered(home_installed(committed(s1)))) && home_contents(recovered(home_installed(committed(s1)))) == bytes,
        fsck_ok(recovered(log_cleared(home_installed(committed(s1)))))
            && home_contents(recovered(log_cleared(home_installed(committed(s1))))) == bytes,
{
    lemma_payload_prefix(bytes);
    assert(home_contents(recovered(committed(s1))) =~= bytes);
}

proof fn lemma_payload_prefix(bytes: Seq<u8>)
    requires
        bytes.len() <= FILE_PAYLOAD_BYTES,
    ensures
        payload_of(bytes).len() == FILE_PAYLOAD_BYTES,
        payload_of(bytes).subrange(0, bytes.len() as int) == bytes,
{
    assert(payload_of(bytes).subrange(0, bytes.len() as int) =~= bytes);
}


/// One image written to the host disk, with the step that wrote it.
#[derive(Clone, Copy)]
pub struct Flush {
    pub stage: &'static str,
    pub image: DiskImage,
}

/// The journaled disk and its counters. Each change is recorded as a
/// [`Flush`] that the caller writes to the host image in order.
pub struct Journal {
    pub image: DiskImage,
    pub diagnostics: JournalDiagnostics,
    pub boot_mode: u64,
    pub flushes: Vec<Flush>,
}

/// `a` and `b` hold the same bytes.
pub fn bytes_equal(a: &[u8], b: &[u8]) -> (r: bool)
    ensures
        r == (a@ == b@),
{
    if a.len() != b.len() {
        return false;
    }
    let mut i: usize = 0;
    while i < a.len()
        invariant
            a@.len() == b@.len(),
            i <= a@.len(),
            forall|k: int| 0 <= k < i ==> a@[k] == b@[k],
        decreases a@.len() - i,
    {
        if a[i] != b[i] {
            return false;
        }
        i += 1;
    }
    assert(a@ =~= b@);
    true
}

/// `bytes` zero padded to the payload size.
pub fn padded_data(bytes: &[u8]) -> (r: [u8; FILE_PAYLOAD_BYTES])
    requires
        bytes@.len() <= FILE_PAYLOAD_BYTES,
    ensures
        r@ == payload_of(bytes@),
{
    let mut out = [0u8; FILE_PAYLOAD_BYTES];
    let mut i: usize = 0;
    while i < bytes.len()
        invariant
            i <= bytes@.len() <= FILE_PAYLOAD_BYTES,
            forall|k: int| 0 <= k < i ==> out@[k] == bytes@[k],
            forall|k: int| i <= k < FILE_PAYLOAD_BYTES ==> out@[k] == 0u8,
        decreases bytes@.len() - i,
    {
        out[i] = bytes[i];
        i += 1;
    }
    assert(out@ =~= payload_of(bytes@));
    out
}

/// `name` zero padded to the directory-entry name size.
pub fn padded_name(name: &[u8]) -> (r: [u8; FILE_NAME_MAX])
    requires
        name@.len() <= FILE_NAME_MAX,
    ensures
        r@ == name@ + Seq::new((FILE_NAME_MAX - name@.len()) as nat, |i: int| 0u8),
{
    let mut out = [0u8; FILE_NAME_MAX];
    let mut i: usize = 0;
    while i < name.len()
        invariant
            i <= name@.len() <= FILE_NAME_MAX,
            forall|k: int| 0 <= k < i ==> out@[k] == name@[k],
            forall|k: int| i <= k < FILE_NAME_MAX ==> out@[k] == 0u8,
        decreases name@.len() - i,
    {
        out[i] = name[i];
        i += 1;
    }
    assert(out@ =~= name@ + Seq::new((FILE_NAME_MAX - name@.len()) as nat, |i: int| 0u8));
    out
}

/// The bytes of the journaled file's name.
pub fn file_name() -> (r: &'static [u8])
    ensures
        r@ == file_name_bytes(),
{
    let s = "journaled.txt";
    proof {
        reveal_strlit("journaled.txt");
        vstd::string::is_ascii_spec_bytes(s);
        assert(s.spec_bytes() =~= file_name_bytes());
    }
    s.as_bytes()
}

/// The bytes of the journaled file's path.
pub fn file_path_as_bytes() -> (r: &'static [u8])
    ensures
        r@ == file_path_bytes(),
{
    let s = "/journaled.txt";
    proof {
        reveal_strlit("/journaled.txt");
        vstd::string::is_ascii_spec_bytes(s);
        assert(s.spec_bytes() =~= file_path_bytes());
    }
    s.as_bytes()
}

/// `/journaled.txt`
pub fn file_path() -> (r: &'static str)
    ensures
        r@ == "/journaled.txt"@,
{
    "/journaled.txt"
}

/// The contents a transaction is expected to leave.
pub fn expected_updated_bytes() -> (r: &'static [u8])
    ensures
        r@ == "after-crash-journal-replay\n".spec_bytes(),
{
    "after-crash-journal-replay\n".as_bytes()
}

/// The contents a fresh image starts with.
pub fn initial_bytes() -> (r: &'static [u8])
    ensures
        r@ == "seed-before-crash\n".spec_bytes(),
        r@.len() == 18,
{
    let s = "seed-before-crash\n";
    proof {
        reveal_strlit("seed-before-crash\n");
        vstd::string::is_ascii_spec_bytes(s);
    }
    s.as_bytes()
}

impl DiskImage {
    /// A fresh image: the root with the file's entry, the file holding the
    /// initial contents, and an empty log.
    pub fn empty() -> (r: Self)
        ensures
            fsck_ok(r),
            home_contents(r) == "seed-before-crash\n".spec_bytes(),
            r.log_header.active == 0 && r.log_header.committed == 0 && r.log_header.tx_seq == 0,
    {
        let initial = initial_bytes();
        let name = file_name();
        let home_data = padded_data(initial);
        let r = DiskImage {
            magic: DISK_MAGIC,
            version: DISK_VERSION,
            root_inode: RootInode { valid: 1, kind: FS_KIND_DIR, padding: [0u8; 2], child_count: 1, size_bytes: DIRENT_DISK_BYTES },
            root_dirent: DirentDisk { valid: 1, name_len: name.len() as u8, padding: [0u8; 2], inode_index: 1, name: padded_name(name) },
            home_inode: FileInode { valid: 1, kind: FS_KIND_FILE, padding: [0u8; 2], size_bytes: initial.len() as u32, checksum: checksum(initial) },
            home_data,
            log_header: JournalHeader { active: 0, committed: 0, padding: [0u8; 2], target_inode: 1, tx_seq: 0, logged_size: 0, reserved: 0, logged_checksum: 0 },
            log_inode: FileInode { valid: 0, kind: FS_KIND_FILE, padding: [0u8; 2], size_bytes: 0, checksum: 0 },
            log_data: [0u8; FILE_PAYLOAD_BYTES],
        };
        proof {
            lemma_payload_prefix(initial@);
            assert(home_contents(r) =~= initial@);
            assert(r.root_dirent.name@.subrange(0, 13) =~= file_name_bytes());
        }
        r
    }
}

/// The mode text up to its first NUL, newline or carriage return.
pub fn trim_ascii(bytes: &[u8]) -> (r: &[u8])
    ensures
        r@.len() <= bytes@.len(),
        r@ == bytes@.subrange(0, r@.len() as int),
        forall|k: int| 0 <= k < r@.len() ==> bytes@[k] != 0 && bytes@[k] != 10 && bytes@[k] != 13,
        r@.len() < bytes@.len() ==> (bytes@[r@.len() as int] == 0 || bytes@[r@.len() as int] == 10 || bytes@[r@.len() as int] == 13),
{
    let mut end: usize = 0;
    while end < bytes.len() && bytes[end] != 0 && bytes[end] != 10 && bytes[end] != 13
        invariant
            end <= bytes@.len(),
            forall|k: int| 0 <= k < end ==> bytes@[k] != 0 && bytes@[k] != 10 && bytes@[k] != 13,
        decreases bytes@.len() - end,
    {
        end += 1;
    }
    vstd::slice::slice_subrange(bytes, 0, end)
}

/// The boot mode a mode text names: the text up to its first NUL, newline
/// or carriage return is compared with the two mode names; anything else
/// means verify.
pub open spec fn boot_mode_of(mode: Seq<u8>) -> u64 {
    let t = trim_prefix(mode);
    if t == "reset_then_crash_after_commit".spec_bytes() {
        BOOT_MODE_RESET_AND_CRASH
    } else if t == "recover_after_crash".spec_bytes() {
        BOOT_MODE_RECOVER
    } else {
        BOOT_MODE_VERIFY
    }
}

/// The boot mode named in the mode text.
pub fn detect_boot_mode(mode: &[u8]) -> (r: u64)
    ensures
        r == boot_mode_of(mode@),
{
    let trimmed = trim_ascii(mode);
    proof { lemma_trim_prefix(mode@, trimmed@); }
    if bytes_equal(trimmed, "reset_then_crash_after_commit".as_bytes()) {
        BOOT_MODE_RESET_AND_CRASH
    } else if bytes_equal(trimmed, "recover_after_crash".as_bytes()) {
        BOOT_MODE_RECOVER
    } else {
        BOOT_MODE_VERIFY
    }
}

/// The prefix of `b` before its first NUL, newline or carriage return.
pub open spec fn trim_prefix(b: Seq<u8>) -> Seq<u8>
    decreases b.len(),
{
    if b.len() == 0 || b[0] == 0 || b[0] == 10 || b[0] == 13 {
        Seq::empty()
    } else {
        seq![b[0]] + trim_prefix(b.subrange(1, b.len() as int))
    }
}

proof fn lemma_trim_prefix(b: Seq<u8>, t: Seq<u8>)
    requires
        t.len() <= b.len(),
        t == b.subrange(0, t.len() as int),
        forall|k: int| 0 <= k < t.len() ==> b[k] != 0 && b[k] != 10 && b[k] != 13,
        t.len() < b.len() ==> (b[t.len() as int] == 0 || b[t.len() as int] == 10 || b[t.len() as int] == 13),
    ensures
        trim_prefix(b) == t,
    decreases t.len(),
{
    if t.len() > 0 {
        let b1 = b.subrange(1, b.len() as int);
        let t1 = t.subrange(1, t.len() as int);
        assert(t1 == b1.subrange(0, t1.len() as int));
        lemma_trim_prefix(b1, t1);
        assert(t =~= seq![b[0]] + t1);
    } else {
        assert(t =~= Seq::<u8>::empty());
    }
}


/// Counters a boot or a transaction may increment have room.
pub open spec fn diag_room(d: JournalDiagnostics) -> bool {
    &&& d.tx_begins < u64::MAX && d.tx_commits < u64::MAX && d.log_writes < u64::MAX
    &&& d.commit_writes < u64::MAX && d.home_writes < u64::MAX - 1 && d.recovery_replays < u64::MAX
    &&& d.crash_injections < u64::MAX && d.fsck_passes < u64::MAX && d.committed_logs_seen < u64::MAX
}

/// The counters after boot-time recovery of `img`: a replay counts the
/// committed log seen, the home write and the replay, and records the
/// transaction's sequence number and the installed checksum.
pub open spec fn recovery_diagnostics(img: DiskImage, d: JournalDiagnostics) -> JournalDiagnostics {
    if img.log_header.active == 1 && img.log_header.committed == 1 {
        JournalDiagnostics {
            committed_logs_seen: (d.committed_logs_seen + 1) as u64,
            last_tx_seq: img.log_header.tx_seq,
            home_writes: (d.home_writes + 1) as u64,
            last_home_checksum: img.log_inode.checksum,
            recovery_replays: (d.recovery_replays + 1) as u64,
            ..d
        }
    } else {
        d
    }
}

/// The images recovery of `img` appends to `flushed`: the installed home
/// copy and the cleared log after a replay, the image with the log discarded
/// for an uncommitted log, none otherwise.
pub open spec fn recovery_flushes(flushed: Seq<DiskImage>, img: DiskImage) -> Seq<DiskImage> {
    if img.log_header.active == 1 && img.log_header.committed == 1 {
        flushed.push(home_installed(img)).push(recovered(img))
    } else if img.log_header.active == 1 && img.log_header.committed == 0 {
        flushed.push(recovered(img))
    } else {
        flushed
    }
}

/// The counters after `fsck` of `img`: a pass is counted with the home
/// checksum and clears the last error; a failure records `EIO`.
pub open spec fn fsck_diagnostics(img: DiskImage, d: JournalDiagnostics) -> JournalDiagnostics {
    if fsck_ok(img) {
        JournalDiagnostics {
            fsck_passes: (d.fsck_passes + 1) as u64,
            last_home_checksum: img.home_inode.checksum,
            last_error: 0,
            ..d
        }
    } else {
        JournalDiagnostics { last_error: EIO as i64, ..d }
    }
}

/// The counters after a transaction numbered `seq` whose data has checksum
/// `sum`: one begin, log write, commit and commit write; then either the
/// injected crash, or the home write with its checksum.
pub open spec fn transaction_diagnostics(d: JournalDiagnostics, seq: u64, crash: bool, sum: u64) -> JournalDiagnostics {
    let logged = JournalDiagnostics {
        tx_begins: (d.tx_begins + 1) as u64,
        last_tx_seq: seq,
        log_writes: (d.log_writes + 1) as u64,
        tx_commits: (d.tx_commits + 1) as u64,
        commit_writes: (d.commit_writes + 1) as u64,
        ..d
    };
    if crash {
        JournalDiagnostics { crash_injections: (d.crash_injections + 1) as u64, ..logged }
    } else {
        JournalDiagnostics { home_writes: (d.home_writes + 1) as u64, last_home_checksum: sum, ..logged }
    }
}

/// What a transaction writing `bytes` to `path` on `before` returns.
pub open spec fn transaction_return(before: Journal, path: Seq<u8>, bytes: Seq<u8>) -> isize {
    if path != file_path_bytes() {
        ENOENT
    } else if bytes.len() > FILE_PAYLOAD_BYTES {
        EINVAL
    } else if before.boot_mode == BOOT_MODE_RESET_AND_CRASH {
        1
    } else {
        0
    }
}

/// `after` is the journal `before` becomes by a transaction writing `bytes`
/// to `path` that returned `r`: another path is `ENOENT` and too many bytes
/// `EINVAL`, both changing nothing; otherwise the log, the commit and (unless
/// the boot mode injects a crash, which returns 1) the installed home copy
/// and the cleared log are flushed in that order, and 0 is returned.
pub open spec fn transaction_result(before: Journal, after: Journal, path: Seq<u8>, bytes: Seq<u8>, r: isize) -> bool {
    &&& path != file_path_bytes() ==> r == ENOENT && after == before
    &&& path == file_path_bytes() && bytes.len() > FILE_PAYLOAD_BYTES ==> r == EINVAL && after == before
    &&& path == file_path_bytes() && bytes.len() <= FILE_PAYLOAD_BYTES ==> {
        let seq = (before.image.log_header.tx_seq + 1) as u64;
        let crash = before.boot_mode == BOOT_MODE_RESET_AND_CRASH;
        let f = after.flushed();
        let n = before.flushed().len() as int;
        &&& f.subrange(0, n) == before.flushed()
        &&& is_logged(before.image, f[n], bytes, seq)
        &&& f[n + 1] == committed(f[n])
        &&& (crash ==> r == 1 && f.len() == n + 2 && after.image == f[n + 1])
        &&& (!crash ==> r == 0 && f.len() == n + 4
                && f[n + 2] == home_installed(f[n + 1])
                && f[n + 3] == log_cleared(f[n + 2])
                && after.image == f[n + 3])
        &&& after.boot_mode == before.boot_mode
        &&& after.diagnostics == transaction_diagnostics(before.diagnostics, seq, crash, fnv1a(bytes))
    }
}

/// Both copies of the file fit the payload area.
pub open spec fn sizes_ok(img: DiskImage) -> bool {
    img.home_inode.size_bytes <= FILE_PAYLOAD_BYTES && img.log_inode.size_bytes <= FILE_PAYLOAD_BYTES
}

impl Journal {
    /// The flushes recorded so far.
    pub open spec fn flushed(&self) -> Seq<DiskImage> {
        self.flushes@.map_values(|f: Flush| f.image)
    }

    /// Records `self.image` as written to the host by step `stage`.
    pub fn flush_disk(&mut self, stage: &'static str)
        ensures
            final(self).image == old(self).image && final(self).diagnostics == old(self).diagnostics,
            final(self).boot_mode == old(self).boot_mode,
            final(self).flushed() == old(self).flushed().push(old(self).image),
    {
        self.flushes.push(Flush { stage, image: self.image });
        proof {
            assert(self.flushed() =~= old(self).flushed().push(old(self).image));
        }
    }

    /// Keeps a host I/O error as the last error.
    pub fn record_error(&mut self, err: isize)
        ensures
            final(self).diagnostics == (JournalDiagnostics { last_error: err as i64, ..old(self).diagnostics }),
            final(self).image == old(self).image && final(self).boot_mode == old(self).boot_mode,
            final(self).flushes@ == old(self).flushes@,
    {
        self.diagnostics.last_error = err as i64;
    }

    /// The image carries the expected magic and version.
    pub fn valid_disk(&self) -> (r: bool)
        ensures
            r == (self.image.magic == DISK_MAGIC && self.image.version == DISK_VERSION),
    {
        self.image.magic == DISK_MAGIC && self.image.version == DISK_VERSION
    }

    /// Copies the logged inode and data over the home copy, then clears the
    /// log; both steps are flushed.
    pub fn install_logged_transaction(&mut self, stage: &'static str)
        requires
            old(self).diagnostics.home_writes < u64::MAX,
        ensures
            final(self).image == log_cleared(home_installed(old(self).image)),
            final(self).flushed() == old(self).flushed().push(home_installed(old(self).image)).push(final(self).image),
            final(self).diagnostics == (JournalDiagnostics {
                home_writes: (old(self).diagnostics.home_writes + 1) as u64,
                last_home_checksum: old(self).image.log_inode.checksum,
                ..old(self).diagnostics
            }),
            final(self).boot_mode == old(self).boot_mode,
    {
        self.image.home_inode = self.image.log_inode;
        self.image.home_data = self.image.log_data;
        self.diagnostics.home_writes = self.diagnostics.home_writes + 1;
        self.diagnostics.last_home_checksum = self.image.home_inode.checksum;
        self.flush_disk(stage);
        self.image.log_header.active = 0;
        self.image.log_header.committed = 0;
        self.image.log_header.logged_size = 0;
        self.image.log_header.logged_checksum = 0;
        self.image.log_inode = FileInode { valid: 0, kind: FS_KIND_FILE, padding: [0u8; 2], size_bytes: 0, checksum: 0 };
        self.image.log_data = [0u8; FILE_PAYLOAD_BYTES];
        self.flush_disk("clear-log");
        proof {
            assert(self.image.log_data@ =~= zero_payload()@);
            assert(self.image.log_inode.padding@ =~= zero_pad()@);
        }
    }

    /// Boot-time recovery: replays a committed log, discards an uncommitted one.
    pub fn recover_if_needed(&mut self)
        requires
            diag_room(old(self).diagnostics),
        ensures
            final(self).image == recovered(old(self).image),
            final(self).boot_mode == old(self).boot_mode,
            final(self).diagnostics == recovery_diagnostics(old(self).image, old(self).diagnostics),
            final(self).flushed() == recovery_flushes(old(self).flushed(), old(self).image),
    {
        if self.image.log_header.active == 1 && self.image.log_header.committed == 1 {
            self.diagnostics.committed_logs_seen = self.diagnostics.committed_logs_seen + 1;
            self.diagnostics.last_tx_seq = self.image.log_header.tx_seq;
            self.install_logged_transaction("replay-log");
            self.diagnostics.recovery_replays = self.diagnostics.recovery_replays + 1;
        } else if self.image.log_header.active == 1 && self.image.log_header.committed == 0 {
            self.image.log_header.active = 0;
            self.image.log_header.committed = 0;
            self.flush_disk("discard-uncommitted-log");
        }
    }

    /// Checks the on-disk structure; a pass is counted, a failure recorded as
    /// `EIO`.
    pub fn fsck(&mut self) -> (r: bool)
        requires
            old(self).image.home_inode.size_bytes <= FILE_PAYLOAD_BYTES,
            old(self).diagnostics.fsck_passes < u64::MAX,
        ensures
            r == fsck_ok(old(self).image),
            final(self).image == old(self).image && final(self).flushes@ == old(self).flushes@,
            final(self).boot_mode == old(self).boot_mode,
            r ==> final(self).diagnostics == (JournalDiagnostics {
                fsck_passes: (old(self).diagnostics.fsck_passes + 1) as u64,
                last_home_checksum: old(self).image.home_inode.checksum,
                last_error: 0,
                ..old(self).diagnostics
            }),
            !r ==> final(self).diagnostics == (JournalDiagnostics { last_error: EIO as i64, ..old(self).diagnostics }),
    {
        let img = self.image;
        let name = file_name();
        let name_prefix = vstd::slice::slice_subrange(img.root_dirent.name.as_slice(), 0, 13);
        let size = img.home_inode.size_bytes as usize;
        let home = vstd::slice::slice_subrange(img.home_data.as_slice(), 0, size);
        let pass = img.magic == DISK_MAGIC && img.version == DISK_VERSION
            && img.root_inode.valid == 1 && img.root_inode.kind == FS_KIND_DIR
            && img.root_inode.child_count == 1 && img.root_inode.size_bytes == DIRENT_DISK_BYTES
            && img.root_dirent.valid == 1 && img.root_dirent.inode_index == 1
            && img.root_dirent.name_len == 13 && bytes_equal(name_prefix, name)
            && img.home_inode.valid == 1 && img.home_inode.kind == FS_KIND_FILE
            && img.home_inode.size_bytes as usize <= FILE_PAYLOAD_BYTES
            && checksum(home) == img.home_inode.checksum
            && !(img.log_header.active == 1 && img.log_header.committed == 1);
        if pass {
            self.diagnostics.fsck_passes = self.diagnostics.fsck_passes + 1;
            self.diagnostics.last_home_checksum = img.home_inode.checksum;
            self.diagnostics.last_error = 0;
        } else {
            self.diagnostics.last_error = EIO as i64;
        }
        pass
    }

    /// A transaction replacing the file with `bytes`: log, commit, then (unless
    /// the boot mode injects a crash right after the commit) install and clear.
    /// Returns 0, or 1 when the crash was injected.
    pub fn transactional_write(&mut self, path: &[u8], bytes: &[u8]) -> (r: isize)
        requires
            diag_room(old(self).diagnostics),
            old(self).image.log_header.tx_seq < u64::MAX,
        ensures
            transaction_result(*old(self), *final(self), path@, bytes@, r),
    {
        let file = file_path_as_bytes();
        if !bytes_equal(path, file) {
            return ENOENT;
        }
        if bytes.len() > FILE_PAYLOAD_BYTES {
            return EINVAL;
        }
        let ghost n = self.flushed().len();
        let ghost before = self.image;
        self.diagnostics.tx_begins = self.diagnostics.tx_begins + 1;
        self.diagnostics.last_tx_seq = self.image.log_header.tx_seq + 1;
        let new_inode = FileInode { valid: 1, kind: FS_KIND_FILE, padding: [0u8; 2], size_bytes: bytes.len() as u32, checksum: checksum(bytes) };
        let new_data = padded_data(bytes);
        self.image.log_inode = new_inode;
        self.image.log_data = new_data;
        self.image.log_header.active = 1;
        self.image.log_header.committed = 0;
        self.image.log_header.target_inode = 1;
        self.image.log_header.tx_seq = self.diagnostics.last_tx_seq;
        self.image.log_header.logged_size = bytes.len() as u32;
        self.image.log_header.logged_checksum = new_inode.checksum;
        self.flush_disk("write-log-blocks");
        self.diagnostics.log_writes = self.diagnostics.log_writes + 1;
        proof {
            assert(new_inode.padding@ =~= zero_pad()@);
            assert(is_logged(before, self.image, bytes@, (before.log_header.tx_seq + 1) as u64));
        }
        self.image.log_header.committed = 1;
        self.diagnostics.tx_commits = self.diagnostics.tx_commits + 1;
        self.diagnostics.commit_writes = self.diagnostics.commit_writes + 1;
        self.flush_disk("write-commit");
        if self.boot_mode == BOOT_MODE_RESET_AND_CRASH {
            self.diagnostics.crash_injections = self.diagnostics.crash_injections + 1;
            proof {
                assert(self.flushed().subrange(0, n as int) =~= old(self).flushed());
            }
            return 1;
        }
        self.install_logged_transaction("install-home");
        proof {
            assert(self.flushed().subrange(0, n as int) =~= old(self).flushed());
        }
        0
    }

    /// Copies the file into `dst`; fails for another path or a short buffer.
    pub fn read_file(&self, path: &[u8], dst: &mut Vec<u8>) -> (r: isize)
        requires
            self.image.home_inode.size_bytes <= FILE_PAYLOAD_BYTES,
        ensures
            final(dst)@.len() == old(dst)@.len(),
            path@ != file_path_bytes() ==> r == ENOENT && final(dst)@ == old(dst)@,
            path@ == file_path_bytes() && old(dst)@.len() < self.image.home_inode.size_bytes ==> r == EINVAL && final(dst)@ == old(dst)@,
            path@ == file_path_bytes() && old(dst)@.len() >= self.image.home_inode.size_bytes ==> {
                &&& r == self.image.home_inode.size_bytes
                &&& final(dst)@.subrange(0, r as int) == home_contents(self.image)
                &&& final(dst)@.subrange(r as int, final(dst)@.len() as int) == old(dst)@.subrange(r as int, old(dst)@.len() as int)
            },
    {
        let file = file_path_as_bytes();
        if !bytes_equal(path, file) {
            return ENOENT;
        }
        let size = self.image.home_inode.size_bytes as usize;
        if dst.len() < size {
            return EINVAL;
        }
        let mut i: usize = 0;
        while i < size
            invariant
                i <= size <= FILE_PAYLOAD_BYTES,
                size <= dst@.len() == old(dst)@.len(),
                size == self.image.home_inode.size_bytes,
                forall|k: int| 0 <= k < i ==> dst@[k] == self.image.home_data@[k],
                forall|k: int| size <= k < dst@.len() ==> dst@[k] == old(dst)@[k],
            decreases size - i,
        {
            dst.set(i, self.image.home_data[i]);
            i += 1;
        }
        proof {
            assert(dst@.subrange(0, size as int) =~= home_contents(self.image));
            assert(dst@.subrange(size as int, dst@.len() as int) =~= old(dst)@.subrange(size as int, old(dst)@.len() as int));
        }
        size as isize
    }

    /// `stat` of `/` or of the file.
    pub fn stat(&self, path: &[u8], out: &mut FsStat) -> (r: isize)
        ensures
            path@ == seq![0x2fu8] ==> r == 0 && final(out).kind == FS_KIND_DIR
                && final(out).size_bytes == self.image.root_inode.size_bytes
                && final(out).child_count == self.image.root_inode.child_count
                && final(out).checksum == 0
                && final(out).journal_active == self.image.log_header.active
                && final(out).journal_committed == self.image.log_header.committed,
            path@ == file_path_bytes() ==> r == 0 && final(out).kind == FS_KIND_FILE
                && final(out).size_bytes == self.image.home_inode.size_bytes
                && final(out).checksum == self.image.home_inode.checksum
                && final(out).child_count == 0
                && final(out).journal_active == self.image.log_header.active
                && final(out).journal_committed == self.image.log_header.committed,
            path@ != seq![0x2fu8] && path@ != file_path_bytes() ==> r == ENOENT && *final(out) == *old(out),
    {
        if path.len() == 1 && path[0] == 0x2f {
            proof { assert(path@ =~= seq![0x2fu8]); }
            out.kind = FS_KIND_DIR;
            out.size_bytes = self.image.root_inode.size_bytes as u64;
            out.checksum = 0;
            out.child_count = self.image.root_inode.child_count as u64;
            out.journal_active = self.image.log_header.active as u64;
            out.journal_committed = self.image.log_header.committed as u64;
            return 0;
        }
        let file = file_path_as_bytes();
        if bytes_equal(path, file) {
            out.kind = FS_KIND_FILE;
            out.size_bytes = self.image.home_inode.size_bytes as u64;
            out.checksum = self.image.home_inode.checksum;
            out.child_count = 0;
            out.journal_active = self.image.log_header.active as u64;
            out.journal_committed = self.image.log_header.committed as u64;
            return 0;
        }
        proof {
            if path@ == seq![0x2fu8] {
                assert(path@.len() == 1 && path@[0] == 0x2f);
            }
        }
        ENOENT
    }

    /// The boot mode detected at `init`.
    pub fn boot_mode(&self) -> (r: u64)
        ensures
            r == self.boot_mode,
    {
        self.boot_mode
    }

    /// A copy of the counters.
    pub fn journal_diagnostics(&self) -> (r: JournalDiagnostics)
        ensures
            r == self.diagnostics,
    {
        self.diagnostics
    }
}


/// The image a boot starts from before recovery: a fresh one when the mode
/// asks for a reset, when none was found, or when the one found is not a
/// journal disk; otherwise the one found.
pub open spec fn boot_image(reset: bool, loaded: Option<DiskImage>, fresh: DiskImage) -> DiskImage {
    if reset {
        fresh
    } else {
        match loaded {
            Some(img) => if img.magic == DISK_MAGIC && img.version == DISK_VERSION { img } else { fresh },
            None => fresh,
        }
    }
}

/// Crash recovery across a reboot: a transaction that crashed right after its
/// commit record leaves an image which the next boot, in any mode but the
/// resetting one, repairs into one that passes `fsck` and holds the new
/// bytes; had it crashed before the commit, the old bytes stay.
pub proof fn law_reboot_after_crash(before: DiskImage, s1: DiskImage, bytes: Seq<u8>, seq: u64, mode: Seq<u8>, fresh: DiskImage)
    requires
        fsck_ok(before),
        bytes.len() <= FILE_PAYLOAD_BYTES,
        is_logged(before, s1, bytes, seq),
        boot_mode_of(mode) != BOOT_MODE_RESET_AND_CRASH,
    ensures
        ({
            let after = recovered(boot_image(boot_mode_of(mode) == BOOT_MODE_RESET_AND_CRASH, Some(committed(s1)), fresh));
            fsck_ok(after) && home_contents(after) == bytes
        }),
        ({
            let after = recovered(boot_image(boot_mode_of(mode) == BOOT_MODE_RESET_AND_CRASH, Some(s1), fresh));
            fsck_ok(after) && home_contents(after) == home_contents(before)
        }),
{
    lemma_transaction_atomic(before, s1, bytes, seq);
}

impl Journal {
    /// Boots the journal: detects the mode from the mode text, takes the
    /// image read from the host (`Ok(None)` when there was none, `Err` when
    /// reading failed), resets or repairs it as needed, recovers, and runs
    /// `fsck`.
    pub fn init(mode: &[u8], loaded: Result<Option<DiskImage>, isize>) -> (r: (Journal, bool))
        requires
            loaded matches Ok(Some(img)) ==> sizes_ok(img),
        ensures
            r.0.boot_mode == boot_mode_of(mode@),
            ({
                let reset = r.0.boot_mode == BOOT_MODE_RESET_AND_CRASH;
                let found = match loaded { Ok(Some(img)) => Some(img), _ => None };
                let loaded_diag = match loaded {
                    Err(err) => if reset { JournalDiagnostics::zeroed_spec() } else {
                        JournalDiagnostics { last_error: err as i64, ..JournalDiagnostics::zeroed_spec() }
                    },
                    _ => JournalDiagnostics::zeroed_spec(),
                };
                exists|fresh: DiskImage| fsck_ok(fresh) && home_contents(fresh) == "seed-before-crash\n".spec_bytes()
                    && fresh.log_header.active == 0
                    && r.0.image == recovered(boot_image(reset, found, fresh))
                    && r.0.diagnostics == fsck_diagnostics(r.0.image,
                        recovery_diagnostics(boot_image(reset, found, fresh), loaded_diag))
            }),
            r.1 == fsck_ok(r.0.image),
    {
        let boot_mode = detect_boot_mode(mode);
        let fresh = DiskImage::empty();
        let mut j = Journal { image: fresh, diagnostics: JournalDiagnostics::empty(), boot_mode, flushes: Vec::new() };
        let ghost found = match loaded { Ok(Some(img)) => Some(img), _ => None };
        if boot_mode == BOOT_MODE_RESET_AND_CRASH {
            j.image = fresh;
            j.flush_disk("reset-image");
        } else {
            match loaded {
                Ok(Some(img)) => {
                    j.image = img;
                },
                Ok(None) => {
                    j.image = fresh;
                    j.flush_disk("create-image");
                },
                Err(err) => {
                    j.record_error(err);
                    j.image = fresh;
                    j.flush_disk("create-image");
                },
            }
        }
        if !j.valid_disk() {
            j.image = fresh;
            j.flush_disk("repair-invalid-image");
        }
        proof {
            assert(j.image == boot_image(boot_mode == BOOT_MODE_RESET_AND_CRASH, found, fresh));
        }
        j.recover_if_needed();
        let pass = j.fsck();
        (j, pass)
    }
}

} // verus!
