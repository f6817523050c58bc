//! The deep-directory check: building, shortening and copying paths in a
//! byte buffer, finding a name in a directory listing, and a path that is
//! too long on purpose.
use vstd::prelude::*;
use super::kernel_task1::FS_PATH_MAX;
use super::path::SLASH;
use vstd::string::StringSliceAdditionalSpecFns;

verus! {

/// A listing's line separator.
pub const NEWLINE: u8 = 10;
/// The size of the buffer for the over-long path.
pub const LONG_PATH_BUFFER_BYTES: usize = 320;

/// Starts a path with the root `/`; returns its length.
pub fn init_root_path(buffer: &mut [u8]) -> (r: usize)
    requires
        old(buffer)@.len() >= 1,
    ensures
        r == 1,
        final(buffer)@ == old(buffer)@.update(0, SLASH),
{
    buffer[0] = SLASH;
    1
}

/// What appending `c` to a path of length `len` writes at `len`: a
/// separating slash unless the path is just the root, then `c`.
pub open spec fn appended(len: int, c: Seq<u8>) -> Seq<u8> {
    if len > 1 { seq![SLASH] + c } else { c }
}

/// Appends the component `component` to the path `buffer[..length]`.
pub fn append_component(buffer: &mut [u8], length: &mut usize, component: &str)
    requires
        *old(length) + appended(*old(length) as int, component.spec_bytes()).len() <= old(buffer)@.len(),
    ensures
        *final(length) == *old(length) + appended(*old(length) as int, component.spec_bytes()).len(),
        final(buffer)@ == old(buffer)@.subrange(0, *old(length) as int) + appended(*old(length) as int,
            component.spec_bytes()) + old(buffer)@.subrange(*final(length) as int, old(buffer)@.len() as int),
{
    let bytes = component.as_bytes();
    let ghost b0 = buffer@;
    let ghost l0 = *length as int;
    if *length > 1 {
        buffer[*length] = SLASH;
        *length += 1;
    }
    let start = *length;
    let mut k: usize = 0;
    while k < bytes.len()
        invariant
            start + bytes@.len() <= buffer.len(),
            buffer@.len() == b0.len(),
            k <= bytes@.len(),
            start == l0 + (if l0 > 1 { 1int } else { 0int }),
            l0 > 1 ==> buffer@[l0] == SLASH,
            forall|j: int| 0 <= j < buffer@.len() && !(start <= j < start + k) && !(l0 > 1 && j == l0) ==> #[trigger] buffer@[j]
                == b0[j],
            forall|j: int| start <= j < start + k ==> #[trigger] buffer@[j] == bytes@[j - start],
        decreases bytes@.len() - k,
    {
        buffer[start + k] = bytes[k];
        k += 1;
    }
    *length = start + bytes.len();
    proof {
        let want = b0.subrange(0, l0) + appended(l0, bytes@) + b0.subrange(*length as int, b0.len() as int);
        assert forall|j: int| 0 <= j < buffer@.len() implies buffer@[j] == want[j] by {
            if j >= start && j < start + bytes@.len() {
                assert(buffer@[j] == bytes@[j - start]);
            }
        }
        assert(buffer@ =~= want);
    }
}

/// Copies the path `source[..source_len]` into `target`.
pub fn copy_path(target: &mut [u8], target_len: &mut usize, source: &[u8], source_len: usize)
    requires
        source_len <= source@.len(),
        source_len <= old(target)@.len(),
    ensures
        *final(target_len) == source_len,
        final(target)@ == source@.subrange(0, source_len as int) + old(target)@.subrange(source_len as int,
            old(target)@.len() as int),
{
    let ghost t0 = target@;
    let mut k: usize = 0;
    while k < source_len
        invariant
            k <= source_len <= source@.len(),
            source_len <= target@.len(),
            target@.len() == t0.len(),
            forall|j: int| 0 <= j < k ==> #[trigger] target@[j] == source@[j],
            forall|j: int| k <= j < target@.len() ==> #[trigger] target@[j] == t0[j],
        decreases source_len - k,
    {
        target[k] = source[k];
        k += 1;
    }
    *target_len = source_len;
    assert(target@ =~= source@.subrange(0, source_len as int) + t0.subrange(source_len as int, t0.len() as int));
}

/// The index after the last slash at or before `i`, scanning back to 1.
pub open spec fn slash_back(b: Seq<u8>, i: int) -> int
    decreases i,
{
    if i > 1 && b[i - 1] != SLASH { slash_back(b, i - 1) } else { i }
}

/// The length of a path without its last component: the root stays.
pub open spec fn popped_len(b: Seq<u8>, len: int) -> int {
    if len <= 1 {
        len
    } else {
        let i = slash_back(b, len);
        if i > 1 { i - 1 } else { 1 }
    }
}

/// Drops the last component of the path `buffer[..length]`.
pub fn pop_last_component(length: &mut usize, buffer: &[u8])
    requires
        *old(length) <= buffer@.len(),
    ensures
        *final(length) == popped_len(buffer@, *old(length) as int),
{
    if *length <= 1 {
        return;
    }
    let mut index = *length;
    while index > 1 && buffer[index - 1] != SLASH
        invariant
            index <= buffer@.len(),
            slash_back(buffer@, index as int) == slash_back(buffer@, *old(length) as int),
        decreases index,
    {
        index -= 1;
    }
    *length = if index > 1 { index - 1 } else { 1 };
}

/// The end of the line that starts at `i`: the next newline, or the end.
pub open spec fn line_end(l: Seq<u8>, i: int) -> int
    decreases l.len() - i,
{
    if i < l.len() && l[i] != NEWLINE { line_end(l, i + 1) } else { i }
}

pub proof fn lemma_line_end(l: Seq<u8>, i: int)
    requires
        0 <= i <= l.len(),
    ensures
        i <= line_end(l, i) <= l.len(),
        forall|k: int| i <= k < line_end(l, i) ==> l[k] != NEWLINE,
    decreases l.len() - i,
{
    if i < l.len() && l[i] != NEWLINE {
        lemma_line_end(l, i + 1);
    }
}

/// Whether some line of `l` from `start` on is `name`.
pub open spec fn has_line(l: Seq<u8>, name: Seq<u8>, start: int) -> bool
    decreases l.len() + 1 - start,
{
    if start < 0 || start >= l.len() {
        false
    } else {
        let e = line_end(l, start);
        proof {
            lemma_line_end(l, start);
        }
        l.subrange(start, e) == name || has_line(l, name, e + 1)
    }
}

/// Whether `name` is one of the lines of `listing`.
pub fn listing_contains(listing: &[u8], name: &[u8]) -> (r: bool)
    ensures
        r == has_line(listing@, name@, 0),
{
    let mut start: usize = 0;
    while start < listing.len()
        invariant
            start <= listing@.len() + 1,
            has_line(listing@, name@, 0) == has_line(listing@, name@, start as int),
        decreases listing@.len() + 1 - start,
    {
        let mut end = start;
        while end < listing.len() && listing[end] != NEWLINE
            invariant
                start <= end <= listing@.len(),
                line_end(listing@, start as int) == line_end(listing@, end as int),
            decreases listing@.len() - end,
        {
            end += 1;
        }
        // Compare `listing[start..end]` with `name`.
        let mut same = end - start == name.len();
        let mut k: usize = 0;
        while same && k < name.len()
            invariant
                same ==> end - start == name@.len(),
                k <= name@.len(),
                end <= listing@.len(),
                same ==> forall|j: int| 0 <= j < k ==> #[trigger] listing@[start + j] == name@[j],
                !same ==> listing@.subrange(start as int, end as int) != name@,
            decreases name@.len() - k,
        {
            if listing[start + k] != name[k] {
                same = false;
                assert(listing@.subrange(start as int, end as int)[k as int] != name@[k as int]);
            }
            k += 1;
        }
        proof {
            lemma_line_end(listing@, start as int);
        }
        if same {
            assert forall|j: int| 0 <= j < name@.len() implies listing@.subrange(start as int, end as int)[j] == name@[j] by {
                assert(listing@[start + j] == name@[j]);
            }
            assert(listing@.subrange(start as int, end as int) =~= name@);
            return true;
        }
        let next = end.saturating_add(1);
        proof {
            assert(line_end(listing@, start as int) == end);
            assert(listing@.subrange(start as int, end as int) != name@);
            assert(has_line(listing@, name@, start as int) == has_line(listing@, name@, end + 1));
            if end == usize::MAX {
                assert(end == listing@.len());
                assert(!has_line(listing@, name@, end + 1));
                assert(!has_line(listing@, name@, next as int));
            }
        }
        start = next;
    }
    false
}

/// The components of the over-long path, alternating: `segmentalpha`
/// for even segments, `segmentbeta` for odd ones.
pub open spec fn long_word(seg: int) -> Seq<u8> {
    if seg % 2 == 0 {
        seq![115u8, 101, 103, 109, 101, 110, 116, 97, 108, 112, 104, 97]
    } else {
        seq![115u8, 101, 103, 109, 101, 110, 116, 98, 101, 116, 97]
    }
}

/// The over-long path after `seg` components.
pub open spec fn long_path(seg: nat) -> Seq<u8>
    decreases seg,
{
    if seg == 0 {
        seq![SLASH]
    } else {
        long_path((seg - 1) as nat) + appended(long_path((seg - 1) as nat).len() as int, long_word(seg - 1))
    }
}

/// The first number of components, from `seg` on, that makes the path at
/// least `FS_PATH_MAX + 8` long.
pub open spec fn long_segments(seg: nat) -> nat
    decreases 264 - seg,
{
    if seg >= 264 || long_path(seg).len() >= FS_PATH_MAX + 8 { seg } else { long_segments(seg + 1) }
}

pub proof fn lemma_long_path_len(seg: nat)
    ensures
        long_path(seg).len() >= seg + 1,
    decreases seg,
{
    if seg > 0 {
        lemma_long_path_len((seg - 1) as nat);
    }
}

/// Builds a path of alternating components just past `FS_PATH_MAX + 8`
/// bytes (too long on purpose); returns its length.
pub fn build_long_path(buffer: &mut [u8; LONG_PATH_BUFFER_BYTES]) -> (r: usize)
    ensures
        r == long_path(long_segments(0)).len(),
        final(buffer)@.subrange(0, r as int) == long_path(long_segments(0)),
        final(buffer)@.subrange(r as int, LONG_PATH_BUFFER_BYTES as int) == old(buffer)@.subrange(r as int,
            LONG_PATH_BUFFER_BYTES as int),
{
    let alpha: [u8; 12] = [115, 101, 103, 109, 101, 110, 116, 97, 108, 112, 104, 97];
    let beta: [u8; 11] = [115, 101, 103, 109, 101, 110, 116, 98, 101, 116, 97];
    let ghost b0 = buffer@;
    buffer[0] = SLASH;
    let mut length: usize = 1;
    let mut segment: usize = 0;
    proof {
        assert(buffer@.subrange(0, 1) =~= long_path(0));
    }
    while length < FS_PATH_MAX + 8
        invariant
            length == long_path(segment as nat).len(),
            segment <= length,
            buffer@.len() == LONG_PATH_BUFFER_BYTES,
            length <= FS_PATH_MAX + 8 + 13,
            b0.len() == LONG_PATH_BUFFER_BYTES,
            buffer@.subrange(0, length as int) == long_path(segment as nat),
            forall|j: int| length <= j < LONG_PATH_BUFFER_BYTES ==> #[trigger] buffer@[j] == b0[j],
            long_segments(0) == long_segments(segment as nat),
            alpha@ == long_word(0),
            beta@ == long_word(1),
        decreases FS_PATH_MAX + 8 + 13 - length,
    {
        let ghost before = buffer@;
        let ghost l0 = length as int;
        let ghost word = long_word(segment as int);
        proof {
            assert(word == (if segment % 2 == 0 { alpha@ } else { beta@ }));
            lemma_long_path_len(segment as nat);
        }
        if length > 1 {
            buffer[length] = SLASH;
            length += 1;
        }
        let start = length;
        let wlen: usize = if segment % 2 == 0 { 12 } else { 11 };
        let mut k: usize = 0;
        while k < wlen
            invariant
                buffer@.len() == LONG_PATH_BUFFER_BYTES,
                start + wlen <= LONG_PATH_BUFFER_BYTES,
                wlen == word.len(),
                word == (if segment % 2 == 0 { alpha@ } else { beta@ }),
                k <= wlen,
                start == l0 + (if l0 > 1 { 1int } else { 0int }),
                l0 > 1 ==> buffer@[l0] == SLASH,
                forall|j: int| 0 <= j < LONG_PATH_BUFFER_BYTES && !(start <= j < start + k) && !(l0 > 1 && j == l0)
                    ==> #[trigger] buffer@[j] == before[j],
                forall|j: int| start <= j < start + k ==> #[trigger] buffer@[j] == word[j - start],
            decreases wlen - k,
        {
            let c = if segment % 2 == 0 { alpha[k] } else { beta[k] };
            buffer[start + k] = c;
            k += 1;
        }
        length = start + wlen;
        proof {
            let want = long_path((segment + 1) as nat);
            assert(want == long_path(segment as nat) + appended(l0, word));
            assert forall|j: int| 0 <= j < length implies buffer@[j] == want[j] by {
                if j < l0 {
                    assert(buffer@[j] == before[j]);
                    assert(before.subrange(0, l0)[j] == before[j]);
                } else if j >= start {
                    assert(buffer@[j] == word[j - start]);
                }
            }
            assert(buffer@.subrange(0, length as int) =~= want);
        }
        segment += 1;
    }
    proof {
        assert(buffer@.subrange(length as int, LONG_PATH_BUFFER_BYTES as int) =~= b0.subrange(length as int,
            LONG_PATH_BUFFER_BYTES as int));
    }
    length
}

} // verus!
