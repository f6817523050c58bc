//! Building zero-padded, fixed-size name buffers.
use vstd::prelude::*;

verus! {

/// The buffer of length `n` holding `name`, cut to at most `n - 1` bytes and
/// padded with zero bytes (so that it stays zero terminated).
pub open spec fn padded(name: Seq<u8>, n: int) -> Seq<u8> {
    Seq::new(
        n as nat,
        |i: int|
            if i < name.len() && i < n - 1 {
                name[i]
            } else {
                0u8
            },
    )
}

/// The buffer of length `n` holding `name` in full when it fits, padded with
/// zero bytes (no terminator is reserved).
pub open spec fn padded_full(name: Seq<u8>, n: int) -> Seq<u8> {
    Seq::new(n as nat, |i: int| if i < name.len() { name[i] } else { 0u8 })
}

} // verus!
