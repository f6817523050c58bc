//! A user-mode stack trace by frame-pointer walking: each frame record (the
//! caller's frame pointer and the return address) sits just below the frame
//! pointer; the walk stops at the first record that leaves the stack, points
//! outside the image, or does not move up the stack.
use vstd::prelude::*;
use crate::common::abi::{SyscallRequest, UserCall, request, make_request};
use crate::common::user_mem::range_within;

verus! {

pub const DRAM_START: usize = 0x8000_0000;
pub const MAX_FRAMES: usize = 8;
pub const WORD_BYTES: usize = 8;
pub const SYS_WRITE: usize = 0;
pub const SYS_EXIT: usize = 1;
pub const EFAULT: isize = -14;
pub const ENOSYS: isize = -38;

/// A saved frame record.
#[derive(Clone, Copy, PartialEq, Eq, Structural)]
pub struct FrameRecord {
    pub previous_fp: usize,
    pub return_address: usize,
}

/// One line of the trace: a frame pointer and its record.
#[derive(Clone, Copy, PartialEq, Eq, Structural)]
pub struct TraceFrame {
    pub fp: usize,
    pub previous_fp: usize,
    pub return_address: usize,
}

/// The user stack `[bottom, top)` as words, and the end of the image.
pub struct UserStack {
    pub bottom: usize,
    pub top: usize,
    pub image_end: usize,
    pub words: Vec<usize>,
}

impl UserStack {
    pub open spec fn wf(&self) -> bool {
        &&& self.bottom % 8 == 0
        &&& self.top == self.bottom + self.words.len() * 8
    }

    /// A frame pointer whose record lies on the stack.
    pub open spec fn fp_in_range(&self, fp: usize) -> bool {
        fp >= self.bottom + 2 * 8 && fp <= self.top && fp % 8 == 0
    }

    /// The record below `fp`.
    pub open spec fn record_at(&self, fp: usize) -> FrameRecord {
        let i = (fp - 16 - self.bottom) / 8;
        FrameRecord { previous_fp: self.words@[i], return_address: self.words@[i + 1] }
    }

    /// The trace from `fp` at depth `depth`.
    pub open spec fn walk(&self, fp: usize, depth: nat) -> Seq<TraceFrame>
        decreases MAX_FRAMES - depth,
    {
        if depth >= MAX_FRAMES || !self.fp_in_range(fp) {
            Seq::empty()
        } else {
            let rec = self.record_at(fp);
            if rec.return_address < DRAM_START || rec.return_address >= self.image_end {
                Seq::empty()
            } else {
                let line = TraceFrame { fp, previous_fp: rec.previous_fp, return_address: rec.return_address };
                if !next_frame_pointer_ok(fp, rec.previous_fp, self.top) {
                    seq![line]
                } else {
                    seq![line] + self.walk(rec.previous_fp, depth + 1)
                }
            }
        }
    }

    /// Whether `fp` has a record on the stack.
    pub fn frame_pointer_in_range(&self, fp: usize) -> (r: bool)
        requires
            self.wf(),
        ensures
            r == self.fp_in_range(fp),
    {
        fp >= self.bottom && fp - self.bottom >= 2 * WORD_BYTES && fp <= self.top && fp % WORD_BYTES == 0
    }

    /// Reads the record below `fp`.
    pub fn read_frame_record(&self, fp: usize) -> (r: FrameRecord)
        requires
            self.wf(),
            self.fp_in_range(fp),
        ensures
            r == self.record_at(fp),
    {
        let i = (fp - 2 * WORD_BYTES - self.bottom) / WORD_BYTES;
        assert(fp - 16 - self.bottom + 16 <= self.words.len() * 8);
        assert((fp - 16 - self.bottom) % 8 == 0);
        FrameRecord { previous_fp: self.words[i], return_address: self.words[i + 1] }
    }

    /// The stack trace from `fp`: at most `MAX_FRAMES` lines.
    pub fn print_stack_trace(&self, fp: usize) -> (r: Vec<TraceFrame>)
        requires
            self.wf(),
        ensures
            r@ == self.walk(fp, 0),
    {
        let mut out: Vec<TraceFrame> = Vec::new();
        let mut fp = fp;
        let mut depth: usize = 0;
        let ghost start = fp;
        while depth < MAX_FRAMES
            invariant_except_break
                self.wf(),
                depth <= MAX_FRAMES,
                out@ + self.walk(fp, depth as nat) == self.walk(start, 0),
            ensures
                out@ == self.walk(start, 0),
            decreases MAX_FRAMES - depth,
        {
            if !self.frame_pointer_in_range(fp) {
                assert(self.walk(fp, depth as nat) == Seq::<TraceFrame>::empty());
                assert(out@ =~= out@ + Seq::<TraceFrame>::empty());
                break;
            }
            let record = self.read_frame_record(fp);
            if record.return_address < DRAM_START || record.return_address >= self.image_end {
                assert(out@ =~= out@ + Seq::<TraceFrame>::empty());
                break;
            }
            let line = TraceFrame { fp, previous_fp: record.previous_fp, return_address: record.return_address };
            let ghost before = out@;
            out.push(line);
            if !next_frame_pointer_valid(fp, record.previous_fp, self.top) {
                assert(self.walk(fp, depth as nat) == seq![line]);
                assert(out@ =~= before + seq![line]);
                break;
            }
            assert(self.walk(fp, depth as nat) == seq![line] + self.walk(record.previous_fp, (depth + 1) as nat));
            assert(out@ + self.walk(record.previous_fp, (depth + 1) as nat)
                =~= before + (seq![line] + self.walk(record.previous_fp, (depth + 1) as nat)));
            fp = record.previous_fp;
            depth += 1;
        }
        out
    }
}

/// The next frame pointer is further up the stack and aligned.
pub open spec fn next_frame_pointer_ok(current_fp: usize, next_fp: usize, stack_top: usize) -> bool {
    next_fp > current_fp && next_fp <= stack_top && next_fp % 8 == 0
}

pub fn next_frame_pointer_valid(current_fp: usize, next_fp: usize, stack_top: usize) -> (r: bool)
    ensures
        r == next_frame_pointer_ok(current_fp, next_fp, stack_top),
{
    next_fp > current_fp && next_fp <= stack_top && next_fp % WORD_BYTES == 0
}

/// The kernel's `write` check: a non-empty buffer must be non-null and lie
/// in `[DRAM_START, image_end)`. `Ok(len)` means the bytes are printed.
pub fn sys_write(addr: usize, len: usize, image_end: usize) -> (r: Result<isize, isize>)
    ensures
        len == 0 ==> r == Ok::<isize, isize>(0),
        len != 0 ==> (r is Ok <==> addr != 0 && range_within(addr as int, len as int, DRAM_START as int, image_end as int)),
        r matches Ok(n) ==> n == len as isize,
        r is Err ==> r == Err::<isize, isize>(EFAULT),
{
    if len == 0 {
        return Ok(0);
    }
    let end = match addr.checked_add(len) {
        Some(e) => e,
        None => return Err(EFAULT),
    };
    if addr == 0 || addr < DRAM_START || end > image_end {
        return Err(EFAULT);
    }
    Ok(len as isize)
}

/// `write(bytes)`: an empty buffer returns 0 without entering the kernel;
/// otherwise traps with `(SYS_WRITE, addr, len)`.
pub fn write(addr: usize, len: usize) -> (r: UserCall)
    ensures
        len == 0 ==> r == UserCall::Immediate(0),
        len != 0 ==> r == UserCall::Trap(request(SYS_WRITE, addr, len, 0, 0, 0)),
{
    if len == 0 {
        return UserCall::Immediate(0);
    }
    UserCall::Trap(make_request(SYS_WRITE, addr, len, 0, 0, 0))
}

/// `exit(code)`: traps with `(SYS_EXIT, code)`.
pub fn exit(code: u32) -> (r: SyscallRequest)
    ensures
        r == request(SYS_EXIT, code as usize, 0, 0, 0, 0),
{
    make_request(SYS_EXIT, code as usize, 0, 0, 0, 0)
}

} // verus!
