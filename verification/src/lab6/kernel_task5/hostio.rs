//! The host disk image through semihosting: where it lives and how the
//! results of the host calls combine. The calls themselves are made by the
//! caller, which hands their results to these functions.
use vstd::prelude::*;
use super::abi::{EIO, FILE_PAYLOAD_BYTES};

verus! {

pub const SEMIHOST_OPEN: usize = 0x01;
pub const SEMIHOST_CLOSE: usize = 0x02;
pub const SEMIHOST_WRITE: usize = 0x05;
pub const SEMIHOST_READ: usize = 0x06;
pub const SEMIHOST_SEEK: usize = 0x0a;
pub const SEMIHOST_FLEN: usize = 0x0c;

/// `rb`
pub const MODE_RB: usize = 1;
pub const MODE_BUFFER_BYTES: usize = 64;

/// The open modes tried in turn when opening the image for writing
/// (`wb`, `w`, `ab`... in the semihosting numbering).
pub fn write_open_modes() -> (r: [usize; 6])
    ensures
        r@ == seq![5usize, 4, 7, 6, 9, 8],
{
    let r = [5usize, 4, 7, 6, 9, 8];
    assert(r@ =~= seq![5usize, 4, 7, 6, 9, 8]);
    r
}

/// The index of the first open mode whose attempt returned a descriptor, or
/// `None` when every attempt failed (the caller's `-1`).
pub fn first_successful_open(results: &[isize]) -> (r: Option<usize>)
    ensures
        match r {
            Some(i) => i < results@.len() && results@[i as int] >= 0 && forall|j: int| 0 <= j < i ==> results@[j] < 0,
            None => forall|j: int| 0 <= j < results@.len() ==> results@[j] < 0,
        },
{
    let mut i: usize = 0;
    while i < results.len()
        invariant
            i <= results@.len(),
            forall|j: int| 0 <= j < i ==> results@[j] < 0,
        decreases results@.len() - i,
    {
        if results[i] >= 0 {
            return Some(i);
        }
        i += 1;
    }
    None
}

/// Bytes transferred by a host read or write of `len` bytes that left
/// `remaining` untransferred; a negative `remaining` is an I/O error.
pub fn transferred_bytes(len: usize, remaining: isize) -> (r: isize)
    requires
        len <= isize::MAX,
        remaining >= 0 ==> remaining <= len,
    ensures
        remaining < 0 ==> r == EIO,
        remaining >= 0 ==> r == len - remaining,
{
    if remaining < 0 {
        return EIO;
    }
    (len - remaining as usize) as isize
}

/// The mode file's contents: what was read, or all zero when it could not
/// be opened.
pub fn load_mode(open_fd: isize, read_back: &[u8; MODE_BUFFER_BYTES]) -> (r: [u8; MODE_BUFFER_BYTES])
    ensures
        open_fd < 0 ==> forall|i: int| 0 <= i < 64 ==> r[i] == 0,
        open_fd >= 0 ==> r == *read_back,
{
    if open_fd < 0 {
        return [0u8; MODE_BUFFER_BYTES];
    }
    *read_back
}

/// Whether an image was found, from the results of `open`, `flen`, `seek`
/// and `read` in turn. Each result is looked at only when every earlier call
/// succeeded: no image (`Ok(false)`) when it cannot be opened or is empty,
/// `-111`/`-112`/`-113` when its length, the seek or the read fail.
pub fn read_disk_image(open_fd: isize, length: isize, seek_result: isize, read_result: isize) -> (r: Result<bool, isize>)
    ensures
        open_fd < 0 ==> r == Ok::<bool, isize>(false),
        open_fd >= 0 && length < 0 ==> r == Err::<bool, isize>(-111isize),
        open_fd >= 0 && length == 0 ==> r == Ok::<bool, isize>(false),
        open_fd >= 0 && length > 0 && seek_result != 0 ==> r == Err::<bool, isize>(-112isize),
        open_fd >= 0 && length > 0 && seek_result == 0 && read_result < 0 ==> r == Err::<bool, isize>(-113isize),
        open_fd >= 0 && length > 0 && seek_result == 0 && read_result >= 0 ==> r == Ok::<bool, isize>(true),
{
    if open_fd < 0 {
        return Ok(false);
    }
    if length < 0 || length == 0 {
        return if length < 0 { Err(-111) } else { Ok(false) };
    }
    if seek_result != 0 {
        return Err(-112);
    }
    if read_result < 0 {
        return Err(-113);
    }
    Ok(true)
}

/// The result of writing the whole `len`-byte image, from the results of
/// opening it for writing, the seek and the write in turn: `-121`, `-122`
/// or `-123` for the first that failed or wrote short.
pub fn write_disk_image(len: usize, open_fd: isize, seek_result: isize, wrote: isize) -> (r: Result<(), isize>)
    ensures
        open_fd < 0 ==> r == Err::<(), isize>(-121isize),
        open_fd >= 0 && seek_result != 0 ==> r == Err::<(), isize>(-122isize),
        open_fd >= 0 && seek_result == 0 && wrote != len ==> r == Err::<(), isize>(-123isize),
        open_fd >= 0 && seek_result == 0 && wrote == len ==> r == Ok::<(), isize>(()),
{
    if open_fd < 0 {
        return Err(-121);
    }
    if seek_result != 0 {
        return Err(-122);
    }
    if wrote < 0 || wrote as usize != len {
        return Err(-123);
    }
    Ok(())
}

/// Where the disk image lives on the host.
pub fn disk_path() -> (r: &'static str)
    ensures
        r@ == "/root/os_experiments/lab6/kernel_task5/artifacts/journal_disk.bin"@,
{
    "/root/os_experiments/lab6/kernel_task5/artifacts/journal_disk.bin"
}

/// Where the boot mode is read from on the host.
pub fn mode_path() -> (r: &'static str)
    ensures
        r@ == "/root/os_experiments/lab6/kernel_task5/artifacts/mode.txt"@,
{
    "/root/os_experiments/lab6/kernel_task5/artifacts/mode.txt"
}

/// Capacity of the journaled file.
pub fn file_payload_bytes() -> (r: usize)
    ensures
        r == FILE_PAYLOAD_BYTES,
{
    FILE_PAYLOAD_BYTES
}

} // verus!
