//! The register-level interface between user programs and the kernels.
use vstd::prelude::*;

verus! {

/// Saved user registers, in the order the M-mode trap entry stores them.
#[derive(Clone, Copy)]
pub struct TrapFrame {
    pub ra: usize,
    pub gp: usize,
    pub tp: usize,
    pub t0: usize,
    pub t1: usize,
    pub t2: usize,
    pub s0: usize,
    pub s1: usize,
    pub a0: usize,
    pub a1: usize,
    pub a2: usize,
    pub a3: usize,
    pub a4: usize,
    pub a5: usize,
    pub a6: usize,
    pub a7: usize,
    pub s2: usize,
    pub s3: usize,
    pub s4: usize,
    pub s5: usize,
    pub s6: usize,
    pub s7: usize,
    pub s8: usize,
    pub s9: usize,
    pub s10: usize,
    pub s11: usize,
    pub t3: usize,
    pub t4: usize,
    pub t5: usize,
    pub t6: usize,
    pub user_sp: usize,
    pub mepc: usize,
}

impl TrapFrame {
    /// The frame with every register cleared.
    pub open spec fn zeroed_spec() -> TrapFrame {
        TrapFrame { ra: 0, gp: 0, tp: 0, t0: 0, t1: 0, t2: 0, s0: 0, s1: 0, a0: 0, a1: 0, a2: 0, a3: 0, a4: 0, a5: 0, a6: 0, a7: 0, s2: 0, s3: 0, s4: 0, s5: 0, s6: 0, s7: 0, s8: 0, s9: 0, s10: 0, s11: 0, t3: 0, t4: 0, t5: 0, t6: 0, user_sp: 0, mepc: 0 }
    }

    /// A frame with every register cleared.
    pub fn zeroed() -> (r: Self)
        ensures
            r == TrapFrame::zeroed_spec(),
    {
        TrapFrame {
            ra: 0,
            gp: 0,
            tp: 0,
            t0: 0,
            t1: 0,
            t2: 0,
            s0: 0,
            s1: 0,
            a0: 0,
            a1: 0,
            a2: 0,
            a3: 0,
            a4: 0,
            a5: 0,
            a6: 0,
            a7: 0,
            s2: 0,
            s3: 0,
            s4: 0,
            s5: 0,
            s6: 0,
            s7: 0,
            s8: 0,
            s9: 0,
            s10: 0,
            s11: 0,
            t3: 0,
            t4: 0,
            t5: 0,
            t6: 0,
            user_sp: 0,
            mepc: 0,
        }
    }
}

/// The registers a user program loads before `ecall`: the call number in
/// `a7` and the arguments in `a0`..`a4`.
#[derive(Clone, Copy)]
pub struct SyscallRequest {
    pub nr: usize,
    pub a0: usize,
    pub a1: usize,
    pub a2: usize,
    pub a3: usize,
    pub a4: usize,
}

/// What a user-side system call stub does: answer at once without entering
/// the kernel, or trap with the given registers.
pub enum UserCall {
    Immediate(isize),
    Trap(SyscallRequest),
}

/// The request `(nr, a0, a1, a2, a3, a4)`.
pub open spec fn request(nr: usize, a0: usize, a1: usize, a2: usize, a3: usize, a4: usize) -> SyscallRequest {
    SyscallRequest { nr, a0, a1, a2, a3, a4 }
}

/// Builds the register image of a system call.
pub fn make_request(nr: usize, a0: usize, a1: usize, a2: usize, a3: usize, a4: usize) -> (r: SyscallRequest)
    ensures
        r == request(nr, a0, a1, a2, a3, a4),
{
    SyscallRequest { nr, a0, a1, a2, a3, a4 }
}

} // verus!
