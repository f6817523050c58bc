//! Decoding of fixed-size, zero-padded name buffers into text.
use vstd::prelude::*;
use vstd::utf8::{decode_utf8, valid_utf8};

verus! {

/// Index of the first zero byte of `b` at or after `i`, or `b.len()` when there is none.
pub open spec fn first_zero_from(b: Seq<u8>, i: int) -> int
    decreases b.len() - i,
{
    if i < 0 || i >= b.len() {
        b.len() as int
    } else if b[i] == 0 {
        i
    } else {
        first_zero_from(b, i + 1)
    }
}

/// Length of the name stored in a zero-padded buffer.
pub open spec fn name_len(b: Seq<u8>) -> int {
    first_zero_from(b, 0)
}

/// The text shown for a zero-padded name buffer: the bytes before the first
/// zero decoded as UTF-8, or `<invalid>` when they are not valid UTF-8.
pub open spec fn name_text(b: Seq<u8>) -> Seq<char> {
    let p = b.subrange(0, name_len(b));
    if valid_utf8(p) {
        decode_utf8(p)
    } else {
        "<invalid>"@
    }
}

pub proof fn lemma_first_zero_bounds(b: Seq<u8>, i: int)
    requires
        0 <= i <= b.len(),
    ensures
        i <= first_zero_from(b, i) <= b.len(),
        forall|k: int| i <= k < first_zero_from(b, i) ==> b[k] != 0,
        first_zero_from(b, i) < b.len() ==> b[first_zero_from(b, i)] == 0,
    decreases b.len() - i,
{
    if i < b.len() && b[i] != 0 {
        lemma_first_zero_bounds(b, i + 1);
    }
}

/// `core::str::from_utf8`: the slice as text when it is valid UTF-8.
/// Trusted: the result is present exactly when the bytes are valid UTF-8
/// (vstd's `valid_utf8`), and it then holds the decoded characters.
#[verifier::external_body]
pub(crate) fn str_from_utf8(bytes: &[u8]) -> (r: Option<&str>)
    ensures
        r.is_some() == valid_utf8(bytes@),
        r.is_some() ==> r.unwrap()@ == decode_utf8(bytes@),
{
    core::str::from_utf8(bytes).ok()
}

/// Length of the name in a zero-padded buffer (index of the first zero byte).
pub fn zero_terminated_len(bytes: &[u8]) -> (n: usize)
    ensures
        n == name_len(bytes@),
        n <= bytes@.len(),
{
    let mut len: usize = 0;
    proof {
        lemma_first_zero_bounds(bytes@, 0);
    }
    while len < bytes.len() && bytes[len] != 0
        invariant
            len <= bytes@.len(),
            first_zero_from(bytes@, len as int) == first_zero_from(bytes@, 0),
        decreases bytes@.len() - len,
    {
        len += 1;
    }
    len
}

/// The text of a zero-padded name buffer (see [`name_text`]).
pub fn padded_bytes_to_str(bytes: &[u8]) -> (r: &str)
    ensures
        r@ == name_text(bytes@),
{
    let len = zero_terminated_len(bytes);
    let prefix = vstd::slice::slice_subrange(bytes, 0, len);
    match str_from_utf8(prefix) {
        Some(s) => s,
        None => "<invalid>",
    }
}

} // verus!
