//! The kernel side of the journaling kernel's system calls: pointers and
//! lengths are checked against user memory, arguments read out of it, and
//! the journal called; what must be copied back to the program, printed, or
//! the machine stopped with is handed to the caller. A crash injected after
//! a transaction's commit stops the machine.
use vstd::prelude::*;
use crate::common::abi::TrapFrame;
use crate::lab6::user_args::{bytes_error, record_error, validated_user_bytes, validated_user_record};
use super::abi::{
    FsStat, JournalDiagnostics, EINVAL, ENAMETOOLONG, ENOENT, ENOSYS, FILE_PAYLOAD_BYTES, FS_KIND_DIR, FS_KIND_FILE,
    PATH_MAX, SYS_BOOT_MODE, SYS_JOURNAL_DIAG, SYS_READ_FILE, SYS_SHUTDOWN, SYS_STAT, SYS_TIME_US, SYS_TXN_WRITE,
    SYS_WRITE,
};
use super::journal::{
    diag_room, file_path_bytes, home_contents, transaction_result, transaction_return, DiskImage, Journal,
};

verus! {

/// The exit status of the machine after the injected crash.
pub const CRASH_EXIT_STATUS: u32 = 2;

/// What a system call leads to: a value in `a0`, or the machine stopping
/// with an exit status.
#[derive(Clone, Copy, PartialEq, Eq, Structural)]
pub enum SyscallOutcome {
    Return(isize),
    Exit(u32),
}

/// Why a path argument `[addr, addr + len)` cannot be used: empty
/// (`EINVAL`), `PATH_MAX` bytes or more (`ENAMETOOLONG`), or not in user
/// memory `[lo, hi)` (`EFAULT`).
pub open spec fn journal_path_error(addr: int, len: int, lo: int, hi: int) -> Option<isize> {
    if len == 0 {
        Some(EINVAL)
    } else if len >= PATH_MAX {
        Some(ENAMETOOLONG)
    } else {
        bytes_error(addr, len, lo, hi)
    }
}

/// Checks a path argument of the journaling kernel.
pub fn validated_journal_path(addr: usize, len: usize, lo: usize, hi: usize) -> (r: Result<(), isize>)
    ensures
        r == (match journal_path_error(addr as int, len as int, lo as int, hi as int) {
            Some(e) => Err::<(), isize>(e),
            None => Ok(()),
        }),
{
    if len == 0 {
        return Err(EINVAL);
    }
    if len >= PATH_MAX {
        return Err(ENAMETOOLONG);
    }
    validated_user_bytes(addr, len, lo, hi)
}

/// The `len` bytes at address `addr` of user memory `mem`, which starts at
/// address `base`; nothing when `len` is 0.
pub open spec fn user_bytes(mem: Seq<u8>, base: int, addr: int, len: int) -> Seq<u8> {
    if len == 0 {
        Seq::empty()
    } else {
        mem.subrange(addr - base, addr - base + len)
    }
}

/// Reads `[addr, addr + len)` out of user memory `mem` starting at `base`.
fn read_user(mem: &[u8], base: usize, addr: usize, len: usize) -> (r: &[u8])
    requires
        len == 0 || (base <= addr && addr + len <= base + mem@.len()),
    ensures
        r@ == user_bytes(mem@, base as int, addr as int, len as int),
{
    if len == 0 {
        return &[];
    }
    let start = addr - base;
    let n = mem.len();
    assert(start + len <= n);
    vstd::slice::slice_subrange(mem, start, start + len)
}

/// `txn_write(path, bytes)` from a user program whose memory `mem` starts at
/// address `base`: a bad path or buffer returns its error and changes
/// nothing; otherwise the journal runs the transaction, whose result is
/// returned, except that the crash injected after the commit stops the
/// machine with `CRASH_EXIT_STATUS`.
pub fn sys_txn_write(
    journal: &mut Journal,
    mem: &[u8],
    base: usize,
    path_addr: usize,
    path_len: usize,
    buf_addr: usize,
    buf_len: usize,
) -> (r: SyscallOutcome)
    requires
        base + mem@.len() <= usize::MAX,
        diag_room(old(journal).diagnostics),
        old(journal).image.log_header.tx_seq < u64::MAX,
    ensures
        ({
            let hi = base + mem@.len();
            match journal_path_error(path_addr as int, path_len as int, base as int, hi) {
                Some(e) => r == SyscallOutcome::Return(e) && *final(journal) == *old(journal),
                None => match bytes_error(buf_addr as int, buf_len as int, base as int, hi) {
                    Some(e) => r == SyscallOutcome::Return(e) && *final(journal) == *old(journal),
                    None => {
                        let path = user_bytes(mem@, base as int, path_addr as int, path_len as int);
                        let bytes = user_bytes(mem@, base as int, buf_addr as int, buf_len as int);
                        let res = transaction_return(*old(journal), path, bytes);
                        &&& transaction_result(*old(journal), *final(journal), path, bytes, res)
                        &&& r == if res == 1 { SyscallOutcome::Exit(CRASH_EXIT_STATUS) } else { SyscallOutcome::Return(res) }
                    },
                },
            }
        }),
{
    let hi = base + mem.len();
    if let Err(e) = validated_journal_path(path_addr, path_len, base, hi) {
        return SyscallOutcome::Return(e);
    }
    if let Err(e) = validated_user_bytes(buf_addr, buf_len, base, hi) {
        return SyscallOutcome::Return(e);
    }
    let path = read_user(mem, base, path_addr, path_len);
    let bytes = read_user(mem, base, buf_addr, buf_len);
    let result = journal.transactional_write(path, bytes);
    if result == 1 {
        SyscallOutcome::Exit(CRASH_EXIT_STATUS)
    } else {
        SyscallOutcome::Return(result)
    }
}

/// Size and alignment of the `#[repr(C)]` layouts of [`FsStat`] (a kind
/// byte, seven reserved bytes, five `u64`) and [`JournalDiagnostics`]
/// (twelve 64-bit counters).
pub const FS_STAT_SIZE: usize = 48;
pub const JOURNAL_DIAG_SIZE: usize = 96;
pub const RECORD_ALIGN: usize = 8;

/// What the caller does after a system call of the journaling kernel.
pub enum JournalEffect {
    /// Return to the program; `a0` holds the result.
    Resume,
    /// Print the `len` bytes at `addr`, then return; `a0` holds `len`.
    ConsoleWrite { addr: usize, len: usize },
    /// Copy `bytes` to user address `addr`, then return; `a0` holds their count.
    CopyBytes { addr: usize, bytes: Vec<u8> },
    /// Store `stat` at user address `addr`, then return; `a0` holds 0.
    CopyStat { addr: usize, stat: FsStat },
    /// Store `diag` at user address `addr`, then return; `a0` holds 0.
    CopyDiagnostics { addr: usize, diag: JournalDiagnostics },
    /// Stop the machine with this exit status.
    Exit(u32),
}

/// `stat` describes the root (`root`) or the journaled file of `img`.
pub open spec fn stat_of(stat: FsStat, img: DiskImage, root: bool) -> bool {
    &&& stat.journal_active == img.log_header.active && stat.journal_committed == img.log_header.committed
    &&& root ==> stat.kind == FS_KIND_DIR && stat.size_bytes == img.root_inode.size_bytes
        && stat.child_count == img.root_inode.child_count && stat.checksum == 0
    &&& !root ==> stat.kind == FS_KIND_FILE && stat.size_bytes == img.home_inode.size_bytes
        && stat.checksum == img.home_inode.checksum && stat.child_count == 0
}

/// `frame` after a call answered with `value` in `a0`.
pub open spec fn answered(frame: TrapFrame, value: isize) -> TrapFrame {
    TrapFrame { a0: value as usize, ..frame }
}

/// `write`: a bad buffer answers its error; otherwise the bytes are printed
/// and their count answered.
pub open spec fn write_done(f: TrapFrame, f2: TrapFrame, r: JournalEffect, lo: int, hi: int) -> bool {
    match bytes_error(f.a0 as int, f.a1 as int, lo, hi) {
        Some(e) => r is Resume && f2 == answered(f, e),
        None => r == (JournalEffect::ConsoleWrite { addr: f.a0, len: f.a1 }) && f2 == answered(f, f.a1 as isize),
    }
}

/// `txn_write`, as [`sys_txn_write`] does it.
pub open spec fn txn_done(j: Journal, j2: Journal, f: TrapFrame, f2: TrapFrame, r: JournalEffect, mem: Seq<u8>, base: int) -> bool {
    let hi = base + mem.len();
    match journal_path_error(f.a0 as int, f.a1 as int, base, hi) {
        Some(e) => r is Resume && f2 == answered(f, e) && j2 == j,
        None => match bytes_error(f.a2 as int, f.a3 as int, base, hi) {
            Some(e) => r is Resume && f2 == answered(f, e) && j2 == j,
            None => {
                let path = user_bytes(mem, base, f.a0 as int, f.a1 as int);
                let bytes = user_bytes(mem, base, f.a2 as int, f.a3 as int);
                let res = transaction_return(j, path, bytes);
                &&& transaction_result(j, j2, path, bytes, res)
                &&& res == 1 ==> r == JournalEffect::Exit(CRASH_EXIT_STATUS) && f2 == f
                &&& res != 1 ==> r is Resume && f2 == answered(f, res)
            },
        },
    }
}

/// `read_file(path, buffer)`: a bad path or buffer answers its error,
/// another path `ENOENT`, a buffer shorter than the file `EINVAL`; otherwise
/// the file's bytes are copied into the buffer and their count answered.
pub open spec fn read_done(j: Journal, f: TrapFrame, f2: TrapFrame, r: JournalEffect, mem: Seq<u8>, base: int) -> bool {
    let hi = base + mem.len();
    match journal_path_error(f.a0 as int, f.a1 as int, base, hi) {
        Some(e) => r is Resume && f2 == answered(f, e),
        None => match bytes_error(f.a2 as int, f.a3 as int, base, hi) {
            Some(e) => r is Resume && f2 == answered(f, e),
            None => if user_bytes(mem, base, f.a0 as int, f.a1 as int) != file_path_bytes() {
                r is Resume && f2 == answered(f, ENOENT)
            } else if f.a3 < j.image.home_inode.size_bytes {
                r is Resume && f2 == answered(f, EINVAL)
            } else {
                f2 == answered(f, j.image.home_inode.size_bytes as isize) && copies(r, f.a2, home_contents(j.image))
            },
        },
    }
}

/// `stat(path, out)`: a bad path or record address answers its error, a path
/// other than `/` and the file `ENOENT`; otherwise its `stat` is stored and
/// 0 answered.
pub open spec fn stat_done(j: Journal, f: TrapFrame, f2: TrapFrame, r: JournalEffect, mem: Seq<u8>, base: int) -> bool {
    let hi = base + mem.len();
    let path = user_bytes(mem, base, f.a0 as int, f.a1 as int);
    match journal_path_error(f.a0 as int, f.a1 as int, base, hi) {
        Some(e) => r is Resume && f2 == answered(f, e),
        None => match record_error(f.a2 as int, FS_STAT_SIZE as int, RECORD_ALIGN as int, base, hi) {
            Some(e) => r is Resume && f2 == answered(f, e),
            None => if path == seq![0x2fu8] || path == file_path_bytes() {
                f2 == answered(f, 0) && stats(r, f.a2, j.image, path == seq![0x2fu8])
            } else {
                r is Resume && f2 == answered(f, ENOENT)
            },
        },
    }
}

/// `journal_diag(out)`: a bad record address answers its error; otherwise
/// the counters are stored and 0 answered.
pub open spec fn diag_done(j: Journal, f: TrapFrame, f2: TrapFrame, r: JournalEffect, lo: int, hi: int) -> bool {
    match record_error(f.a0 as int, JOURNAL_DIAG_SIZE as int, RECORD_ALIGN as int, lo, hi) {
        Some(e) => r is Resume && f2 == answered(f, e),
        None => r == (JournalEffect::CopyDiagnostics { addr: f.a0, diag: j.diagnostics }) && f2 == answered(f, 0),
    }
}

fn syscall_write(frame: &mut TrapFrame, base: usize, hi: usize) -> (r: JournalEffect)
    ensures
        write_done(*old(frame), *final(frame), r, base as int, hi as int),
{
    match validated_user_bytes(frame.a0, frame.a1, base, hi) {
        Err(e) => {
            frame.a0 = e as usize;
            JournalEffect::Resume
        },
        Ok(()) => {
            let addr = frame.a0;
            let len = frame.a1;
            frame.a0 = len as isize as usize;
            JournalEffect::ConsoleWrite { addr, len }
        },
    }
}

fn syscall_txn_write(journal: &mut Journal, frame: &mut TrapFrame, mem: &[u8], base: usize) -> (r: JournalEffect)
    requires
        base + mem@.len() <= usize::MAX,
        diag_room(old(journal).diagnostics),
        old(journal).image.log_header.tx_seq < u64::MAX,
    ensures
        txn_done(*old(journal), *final(journal), *old(frame), *final(frame), r, mem@, base as int),
{
    match sys_txn_write(journal, mem, base, frame.a0, frame.a1, frame.a2, frame.a3) {
        SyscallOutcome::Exit(status) => JournalEffect::Exit(status),
        SyscallOutcome::Return(v) => {
            frame.a0 = v as usize;
            JournalEffect::Resume
        },
    }
}

fn syscall_read_file(journal: &Journal, frame: &mut TrapFrame, mem: &[u8], base: usize) -> (r: JournalEffect)
    requires
        base + mem@.len() <= usize::MAX,
        journal.image.home_inode.size_bytes <= FILE_PAYLOAD_BYTES,
    ensures
        read_done(*journal, *old(frame), *final(frame), r, mem@, base as int),
{
    let hi = base + mem.len();
    if let Err(e) = validated_journal_path(frame.a0, frame.a1, base, hi) {
        frame.a0 = e as usize;
        return JournalEffect::Resume;
    }
    if let Err(e) = validated_user_bytes(frame.a2, frame.a3, base, hi) {
        frame.a0 = e as usize;
        return JournalEffect::Resume;
    }
    let path = read_user(mem, base, frame.a0, frame.a1);
    let mut buffer = vstd::slice::slice_to_vec(read_user(mem, base, frame.a2, frame.a3));
    let result = journal.read_file(path, &mut buffer);
    frame.a0 = result as usize;
    if result < 0 {
        return JournalEffect::Resume;
    }
    buffer.truncate(result as usize);
    JournalEffect::CopyBytes { addr: frame.a2, bytes: buffer }
}

fn syscall_stat(journal: &Journal, frame: &mut TrapFrame, mem: &[u8], base: usize) -> (r: JournalEffect)
    requires
        base + mem@.len() <= usize::MAX,
    ensures
        stat_done(*journal, *old(frame), *final(frame), r, mem@, base as int),
{
    let hi = base + mem.len();
    if let Err(e) = validated_journal_path(frame.a0, frame.a1, base, hi) {
        frame.a0 = e as usize;
        return JournalEffect::Resume;
    }
    if let Err(e) = validated_user_record(frame.a2, FS_STAT_SIZE, RECORD_ALIGN, base, hi) {
        frame.a0 = e as usize;
        return JournalEffect::Resume;
    }
    let path = read_user(mem, base, frame.a0, frame.a1);
    let mut stat = FsStat::empty();
    let result = journal.stat(path, &mut stat);
    frame.a0 = result as usize;
    if result != 0 {
        return JournalEffect::Resume;
    }
    JournalEffect::CopyStat { addr: frame.a2, stat }
}

fn syscall_journal_diag(journal: &Journal, frame: &mut TrapFrame, base: usize, hi: usize) -> (r: JournalEffect)
    ensures
        diag_done(*journal, *old(frame), *final(frame), r, base as int, hi as int),
{
    if let Err(e) = validated_user_record(frame.a0, JOURNAL_DIAG_SIZE, RECORD_ALIGN, base, hi) {
        frame.a0 = e as usize;
        return JournalEffect::Resume;
    }
    let addr = frame.a0;
    frame.a0 = 0;
    JournalEffect::CopyDiagnostics { addr, diag: journal.journal_diagnostics() }
}

/// The system call in `frame` of a program whose memory `mem` starts at
/// address `base`, at `now_us` microseconds: the call numbered `a7` is
/// performed as described for each, `time_us` and `boot_mode` answer the
/// time and the boot mode, `shutdown` stops the machine with the code in
/// `a0`, and an unknown number answers `ENOSYS`. Only `txn_write` changes the
/// journal.
pub fn handle_syscall(journal: &mut Journal, frame: &mut TrapFrame, mem: &[u8], base: usize, now_us: u64) -> (r: JournalEffect)
    requires
        base + mem@.len() <= usize::MAX,
        diag_room(old(journal).diagnostics),
        old(journal).image.log_header.tx_seq < u64::MAX,
        old(journal).image.home_inode.size_bytes <= FILE_PAYLOAD_BYTES,
    ensures
        ({
            let f = *old(frame);
            let f2 = *final(frame);
            let j = *old(journal);
            let hi = base + mem@.len();
            let nr = f.a7;
            &&& nr != SYS_TXN_WRITE ==> *final(journal) == j
            &&& nr == SYS_WRITE ==> write_done(f, f2, r, base as int, hi)
            &&& nr == SYS_TIME_US ==> r is Resume && f2 == answered(f, now_us as isize)
            &&& nr == SYS_BOOT_MODE ==> r is Resume && f2 == answered(f, j.boot_mode as isize)
            &&& nr == SYS_TXN_WRITE ==> txn_done(j, *final(journal), f, f2, r, mem@, base as int)
            &&& nr == SYS_READ_FILE ==> read_done(j, f, f2, r, mem@, base as int)
            &&& nr == SYS_STAT ==> stat_done(j, f, f2, r, mem@, base as int)
            &&& nr == SYS_JOURNAL_DIAG ==> diag_done(j, f, f2, r, base as int, hi)
            &&& nr == SYS_SHUTDOWN ==> r == JournalEffect::Exit(f.a0 as u32) && f2 == f
            &&& nr > SYS_SHUTDOWN ==> r is Resume && f2 == answered(f, ENOSYS)
        }),
{
    let hi = base + mem.len();
    let nr = frame.a7;
    if nr == SYS_WRITE {
        syscall_write(frame, base, hi)
    } else if nr == SYS_TIME_US {
        frame.a0 = now_us as isize as usize;
        JournalEffect::Resume
    } else if nr == SYS_BOOT_MODE {
        frame.a0 = journal.boot_mode() as isize as usize;
        JournalEffect::Resume
    } else if nr == SYS_TXN_WRITE {
        syscall_txn_write(journal, frame, mem, base)
    } else if nr == SYS_READ_FILE {
        syscall_read_file(journal, frame, mem, base)
    } else if nr == SYS_STAT {
        syscall_stat(journal, frame, mem, base)
    } else if nr == SYS_JOURNAL_DIAG {
        syscall_journal_diag(journal, frame, base, hi)
    } else if nr == SYS_SHUTDOWN {
        JournalEffect::Exit(frame.a0 as u32)
    } else {
        frame.a0 = ENOSYS as usize;
        JournalEffect::Resume
    }
}

/// `r` copies exactly `bytes` to `addr`.
pub open spec fn copies(r: JournalEffect, addr: usize, bytes: Seq<u8>) -> bool {
    match r {
        JournalEffect::CopyBytes { addr: a, bytes: b } => a == addr && b@ == bytes,
        _ => false,
    }
}

/// `r` stores, at `addr`, the `stat` of the root (`root`) or of the file of `img`.
pub open spec fn stats(r: JournalEffect, addr: usize, img: DiskImage, root: bool) -> bool {
    match r {
        JournalEffect::CopyStat { addr: a, stat } => a == addr && stat_of(stat, img, root),
        _ => false,
    }
}

} // verus!
