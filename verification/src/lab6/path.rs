//! Absolute paths of the lab-6 file systems: a leading `/`, components
//! separated by one or more `/`, trailing slashes ignored. A component is
//! shorter than `FS_NAME_MAX` and is neither `.` nor `..`.
use vstd::prelude::*;
use super::kernel_task1::{EINVAL, ENAMETOOLONG, FS_NAME_MAX, FS_PATH_MAX};

verus! {

/// `/`
pub const SLASH: u8 = 47;
/// `.`
pub const DOT: u8 = 46;

/// The end of `p[..e]` once trailing slashes are dropped (a lone leading
/// slash stays).
pub open spec fn trim_from(p: Seq<u8>, e: int) -> int
    decreases e,
{
    if e > 1 && p[e - 1] == SLASH { trim_from(p, e - 1) } else { e }
}

/// The end of `p` without its trailing slashes.
pub open spec fn trimmed_end(p: Seq<u8>) -> int {
    trim_from(p, p.len() as int)
}

/// The first index from `i` (below `end`) that is not a slash.
pub open spec fn skip_slashes(p: Seq<u8>, i: int, end: int) -> int
    decreases end - i,
{
    if i < end && p[i] == SLASH { skip_slashes(p, i + 1, end) } else { i }
}

/// The first index from `i` (below `end`) that is a slash.
pub open spec fn comp_end(p: Seq<u8>, i: int, end: int) -> int
    decreases end - i,
{
    if i < end && p[i] != SLASH { comp_end(p, i + 1, end) } else { i }
}

pub proof fn lemma_skip_slashes(p: Seq<u8>, i: int, end: int)
    requires
        i <= end,
    ensures
        i <= skip_slashes(p, i, end) <= end,
        skip_slashes(p, i, end) < end ==> p[skip_slashes(p, i, end)] != SLASH,
        forall|k: int| i <= k < skip_slashes(p, i, end) ==> p[k] == SLASH,
    decreases end - i,
{
    if i < end && p[i] == SLASH {
        lemma_skip_slashes(p, i + 1, end);
    }
}

pub proof fn lemma_comp_end(p: Seq<u8>, i: int, end: int)
    requires
        i <= end,
    ensures
        i <= comp_end(p, i, end) <= end,
        comp_end(p, i, end) < end ==> p[comp_end(p, i, end)] == SLASH,
        forall|k: int| i <= k < comp_end(p, i, end) ==> p[k] != SLASH,
    decreases end - i,
{
    if i < end && p[i] != SLASH {
        lemma_comp_end(p, i + 1, end);
    }
}

/// The components of `p[i..end]`: the maximal runs without a slash.
pub open spec fn components(p: Seq<u8>, i: int, end: int) -> Seq<Seq<u8>>
    decreases end - i,
{
    if i >= end {
        Seq::empty()
    } else {
        let s = skip_slashes(p, i, end);
        if s >= end {
            Seq::empty()
        } else {
            let j = comp_end(p, s, end);
            proof {
                lemma_skip_slashes(p, i, end);
                lemma_comp_end(p, s + 1, end);
            }
            seq![p.subrange(s, j)] + components(p, j, end)
        }
    }
}

/// The components of an absolute path.
pub open spec fn path_components(p: Seq<u8>) -> Seq<Seq<u8>> {
    components(p, 1, trimmed_end(p))
}

/// What is wrong with a component, if anything.
pub open spec fn comp_error(c: Seq<u8>) -> Option<isize> {
    if c.len() == 0 {
        Some(EINVAL)
    } else if c.len() >= FS_NAME_MAX {
        Some(ENAMETOOLONG)
    } else if c == seq![DOT] || c == seq![DOT, DOT] {
        Some(EINVAL)
    } else {
        None
    }
}

/// The error of the first bad component.
pub open spec fn first_error(cs: Seq<Seq<u8>>) -> Option<isize>
    decreases cs.len(),
{
    if cs.len() == 0 {
        None
    } else {
        match comp_error(cs[0]) {
            Some(e) => Some(e),
            None => first_error(cs.drop_first()),
        }
    }
}

/// Why `p` is not a valid absolute path, if it is not.
pub open spec fn path_error(p: Seq<u8>) -> Option<isize> {
    if p.len() == 0 {
        Some(EINVAL)
    } else if p.len() >= FS_PATH_MAX {
        Some(ENAMETOOLONG)
    } else if p[0] != SLASH {
        Some(EINVAL)
    } else {
        first_error(path_components(p))
    }
}

pub proof fn lemma_trim_from(p: Seq<u8>, e: int)
    requires
        0 <= e <= p.len(),
    ensures
        trim_from(p, e) <= e,
        e >= 1 ==> 1 <= trim_from(p, e),
        trim_from(p, e) > 1 ==> p[trim_from(p, e) - 1] != SLASH,
        forall|k: int| trim_from(p, e) <= k < e ==> p[k] == SLASH,
    decreases e,
{
    if e > 1 && p[e - 1] == SLASH {
        lemma_trim_from(p, e - 1);
    }
}

/// Unfolds `components` once at a non-empty component.
pub proof fn lemma_components_step(p: Seq<u8>, i: int, s: int, j: int, end: int)
    requires
        i <= s < end,
        s == skip_slashes(p, i, end),
        j == comp_end(p, s, end),
    ensures
        components(p, i, end) == seq![p.subrange(s, j)] + components(p, j, end),
{
}

/// `p` without its trailing slashes: at least the leading slash stays.
pub fn trimmed_path_end(path: &[u8]) -> (r: usize)
    ensures
        r == trimmed_end(path@),
{
    let mut end = path.len();
    while end > 1 && path[end - 1] == SLASH
        invariant
            end <= path.len(),
            trim_from(path@, end as int) == trimmed_end(path@),
        decreases end,
    {
        end -= 1;
    }
    end
}

/// Checks an absolute path: not empty, shorter than `FS_PATH_MAX`, starting
/// with `/`, and every component valid.
pub fn validate_path(path: &[u8]) -> (r: Result<(), isize>)
    ensures
        r == (match path_error(path@) {
            Some(e) => Err::<(), isize>(e),
            None => Ok(()),
        }),
{
    if path.len() == 0 {
        return Err(EINVAL);
    }
    if path.len() >= FS_PATH_MAX {
        return Err(ENAMETOOLONG);
    }
    if path[0] != SLASH {
        return Err(EINVAL);
    }
    let end = trimmed_path_end(path);
    proof {
        lemma_trim_from(path@, path@.len() as int);
    }
    let mut index: usize = 1;
    while index < end
        invariant
            1 <= index <= end <= path.len() < FS_PATH_MAX,
            path@[0] == SLASH,
            end == trimmed_end(path@),
            path_error(path@) == first_error(components(path@, index as int, end as int)),
        decreases end - index,
    {
        let ghost i0 = index as int;
        while index < end && path[index] == SLASH
            invariant
                i0 <= index <= end <= path.len(),
                skip_slashes(path@, i0, end as int) == skip_slashes(path@, index as int, end as int),
            decreases end - index,
        {
            index += 1;
        }
        if index >= end {
            assert(components(path@, i0, end as int) == Seq::<Seq<u8>>::empty());
            return Ok(());
        }
        let start = index;
        while index < end && path[index] != SLASH
            invariant
                start <= index <= end <= path.len(),
                comp_end(path@, start as int, end as int) == comp_end(path@, index as int, end as int),
            decreases end - index,
        {
            index += 1;
        }
        let ghost c = path@.subrange(start as int, index as int);
        proof {
            lemma_components_step(path@, i0, start as int, index as int, end as int);
            let cs = components(path@, i0, end as int);
            assert(cs[0] == c);
            assert(cs.drop_first() == components(path@, index as int, end as int));
        }
        let len = index - start;
        if len == 0 {
            return Err(EINVAL);
        }
        if len >= FS_NAME_MAX {
            return Err(ENAMETOOLONG);
        }
        let one_dot = len == 1 && path[start] == DOT;
        let two_dots = len == 2 && path[start] == DOT && path[start + 1] == DOT;
        proof {
            assert(one_dot ==> c =~= seq![DOT]);
            assert(two_dots ==> c =~= seq![DOT, DOT]);
            assert(c == seq![DOT] ==> one_dot) by {
                if c == seq![DOT] {
                    assert(c[0] == path@[start as int]);
                }
            }
            assert(c == seq![DOT, DOT] ==> two_dots) by {
                if c == seq![DOT, DOT] {
                    assert(c[0] == path@[start as int]);
                    assert(c[1] == path@[start + 1]);
                }
            }
        }
        if one_dot || two_dots {
            return Err(EINVAL);
        }
    }
    Ok(())
}

/// The last slash at or before `i` (0 if none).
pub open spec fn last_slash(p: Seq<u8>, i: int) -> int
    decreases i,
{
    if i > 0 && p[i] != SLASH { last_slash(p, i - 1) } else { i }
}

/// Where a path splits into parent and last component.
pub open spec fn split_point(p: Seq<u8>) -> int {
    last_slash(p, trimmed_end(p) - 1)
}

/// The length of the parent part of `p`: up to the split, or just `/`.
pub open spec fn parent_len(p: Seq<u8>) -> int {
    if split_point(p) == 0 { 1 } else { split_point(p) }
}

/// The last component of `p`.
pub open spec fn leaf_name(p: Seq<u8>) -> Seq<u8> {
    p.subrange(split_point(p) + 1, trimmed_end(p))
}

/// Why `p` cannot be split into a parent and a new name.
pub open spec fn split_error(p: Seq<u8>) -> Option<isize> {
    match path_error(p) {
        Some(e) => Some(e),
        None => if trimmed_end(p) == 1 || leaf_name(p).len() == 0 { Some(EINVAL) } else { None },
    }
}

pub proof fn lemma_last_slash(p: Seq<u8>, i: int)
    requires
        0 <= i < p.len(),
    ensures
        0 <= last_slash(p, i) <= i,
        last_slash(p, i) > 0 ==> p[last_slash(p, i)] == SLASH,
        forall|k: int| last_slash(p, i) < k <= i ==> p[k] != SLASH,
    decreases i,
{
    if i > 0 && p[i] != SLASH {
        lemma_last_slash(p, i - 1);
    }
}

/// Skipping slashes stops at the same place in a longer range once it has
/// stopped before the shorter range's end.
pub proof fn lemma_skip_same(p: Seq<u8>, i: int, e1: int, e2: int)
    requires
        i <= e1 <= e2,
        skip_slashes(p, i, e1) < e1,
    ensures
        skip_slashes(p, i, e2) == skip_slashes(p, i, e1),
    decreases e1 - i,
{
    if i < e1 && p[i] == SLASH {
        lemma_skip_same(p, i + 1, e1, e2);
    }
}

/// Within `[i, s]` where `p[s]` is a slash, a component ends at the same
/// place in any range reaching `s`.
pub proof fn lemma_comp_end_same(p: Seq<u8>, i: int, s: int, e1: int, e2: int)
    requires
        i <= s <= e1 <= e2,
        0 <= s < p.len(),
        p[s] == SLASH,
    ensures
        comp_end(p, i, e1) == comp_end(p, i, e2),
        comp_end(p, i, e1) <= s,
    decreases s - i,
{
    if i < s && p[i] != SLASH {
        lemma_comp_end_same(p, i + 1, s, e1, e2);
    }
}

/// The components of a range that ends in a last component after a slash
/// at `s`: those before `s`, then that last component.
pub proof fn lemma_components_last(p: Seq<u8>, i: int, s: int, end: int)
    requires
        0 <= i <= s + 1,
        0 <= s,
        s + 1 < end <= p.len(),
        p[s] == SLASH,
        forall|k: int| s < k < end ==> p[k] != SLASH,
    ensures
        components(p, i, end) == components(p, i, s) + seq![p.subrange(s + 1, end)],
    decreases s + 1 - i,
{
    lemma_skip_slashes(p, i, end);
    let sk = skip_slashes(p, i, end);
    if sk == s + 1 {
        lemma_comp_end(p, s + 1, end);
        assert(comp_end(p, s + 1, end) == end);
        lemma_components_step(p, i, s + 1, end, end);
        assert(components(p, end, end) == Seq::<Seq<u8>>::empty());
        if i < s {
            lemma_skip_slashes(p, i, s);
            assert(skip_slashes(p, i, s) >= s) by {
                if skip_slashes(p, i, s) < s {
                    lemma_skip_same(p, i, s, end);
                }
            }
        }
        assert(components(p, i, s) == Seq::<Seq<u8>>::empty());
        assert(components(p, i, end) =~= components(p, i, s) + seq![p.subrange(s + 1, end)]);
    } else {
        assert(sk < s) by {
            if sk > s + 1 {
                assert(p[s + 1] != SLASH);
            }
            if sk == s {
                assert(p[s] == SLASH);
            }
        }
        assert(skip_slashes(p, i, s) == sk) by {
            lemma_skip_slashes(p, i, s);
            if skip_slashes(p, i, s) >= s {
                assert(p[sk] != SLASH);
            }
            lemma_skip_same(p, i, s, end);
        }
        lemma_comp_end_same(p, sk, s, s, end);
        let ce = comp_end(p, sk, end);
        lemma_comp_end(p, sk, end);
        lemma_components_step(p, i, sk, ce, end);
        lemma_components_step(p, i, sk, ce, s);
        lemma_components_last(p, ce, s, end);
        assert(components(p, i, end) =~= components(p, i, s) + seq![p.subrange(s + 1, end)]);
    }
}

/// A path without errors has no bad component.
pub proof fn lemma_first_error_none(cs: Seq<Seq<u8>>, k: int)
    requires
        first_error(cs) is None,
        0 <= k < cs.len(),
    ensures
        comp_error(cs[k]) is None,
    decreases cs.len(),
{
    if k > 0 {
        lemma_first_error_none(cs.drop_first(), k - 1);
    }
}

/// The leaf of a splittable path is its last component, so it is a valid
/// name.
pub proof fn lemma_leaf_is_last(p: Seq<u8>)
    requires
        split_error(p) is None,
    ensures
        path_components(p) == components(p, 1, split_point(p)) + seq![leaf_name(p)],
        0 < leaf_name(p).len() < FS_NAME_MAX,
        leaf_name(p) != seq![DOT],
        leaf_name(p) != seq![DOT, DOT],
{
    let end = trimmed_end(p);
    lemma_trim_from(p, p.len() as int);
    lemma_last_slash(p, end - 1);
    let s = split_point(p);
    assert(p[s] == SLASH);
    lemma_components_last(p, 1, s, end);
    let cs = path_components(p);
    lemma_first_error_none(cs, cs.len() - 1);
    assert(cs[cs.len() - 1] == leaf_name(p));
}

/// Skipping slashes only reads the bytes of its range.
pub proof fn lemma_skip_agree(p: Seq<u8>, q: Seq<u8>, i: int, e: int)
    requires
        i <= e,
        forall|k: int| i <= k < e ==> p[k] == q[k],
    ensures
        skip_slashes(p, i, e) == skip_slashes(q, i, e),
    decreases e - i,
{
    if i < e {
        lemma_skip_agree(p, q, i + 1, e);
    }
}

/// Finding a component's end only reads the bytes of its range.
pub proof fn lemma_comp_end_agree(p: Seq<u8>, q: Seq<u8>, i: int, e: int)
    requires
        i <= e,
        forall|k: int| i <= k < e ==> p[k] == q[k],
    ensures
        comp_end(p, i, e) == comp_end(q, i, e),
    decreases e - i,
{
    if i < e {
        lemma_comp_end_agree(p, q, i + 1, e);
    }
}

/// The components of a range only depend on the bytes of the range.
pub proof fn lemma_components_agree(p: Seq<u8>, q: Seq<u8>, i: int, e: int)
    requires
        0 <= i,
        e <= p.len(),
        e <= q.len(),
        forall|k: int| i <= k < e ==> p[k] == q[k],
    ensures
        components(p, i, e) == components(q, i, e),
    decreases e - i,
{
    if i < e {
        lemma_skip_agree(p, q, i, e);
        lemma_skip_slashes(p, i, e);
        let s = skip_slashes(p, i, e);
        if s < e {
            lemma_comp_end_agree(p, q, s, e);
            lemma_comp_end(p, s, e);
            let j = comp_end(p, s, e);
            lemma_components_step(p, i, s, j, e);
            lemma_components_step(q, i, s, j, e);
            lemma_components_agree(p, q, j, e);
            assert(p.subrange(s, j) =~= q.subrange(s, j));
        }
    }
}

/// Slashes at the end of a range add no component.
pub proof fn lemma_components_trailing(p: Seq<u8>, i: int, t: int, e: int)
    requires
        0 <= i <= t <= e <= p.len(),
        forall|k: int| t <= k < e ==> p[k] == SLASH,
    ensures
        components(p, i, e) == components(p, i, t),
    decreases t - i,
{
    if t < e && i < e {
        lemma_skip_slashes(p, i, e);
        let sk = skip_slashes(p, i, e);
        if sk >= t {
            if sk < e {
                assert(p[sk] == SLASH);
            }
            if i < t {
                lemma_skip_slashes(p, i, t);
                if skip_slashes(p, i, t) < t {
                    lemma_skip_same(p, i, t, e);
                }
            }
            assert(components(p, i, e) == Seq::<Seq<u8>>::empty());
            assert(components(p, i, t) == Seq::<Seq<u8>>::empty());
        } else {
            lemma_skip_slashes(p, i, t);
            assert(skip_slashes(p, i, t) < t) by {
                if skip_slashes(p, i, t) >= t {
                    assert(p[sk] == SLASH);
                }
            }
            lemma_skip_same(p, i, t, e);
            lemma_comp_end_same(p, sk, t, t, e);
            let ce = comp_end(p, sk, e);
            lemma_comp_end(p, sk, e);
            lemma_components_step(p, i, sk, ce, e);
            lemma_components_step(p, i, sk, ce, t);
            lemma_components_trailing(p, ce, t, e);
        }
    }
}

/// The parent part of a splittable path has the path's components but the
/// last.
pub proof fn lemma_parent_components(p: Seq<u8>)
    requires
        split_error(p) is None,
    ensures
        path_components(p.subrange(0, parent_len(p))) == components(p, 1, split_point(p)),
{
    let end = trimmed_end(p);
    lemma_trim_from(p, p.len() as int);
    lemma_last_slash(p, end - 1);
    let s = split_point(p);
    let q = p.subrange(0, parent_len(p));
    if s == 0 {
        assert(trimmed_end(q) == 1);
        assert(components(q, 1, 1) == Seq::<Seq<u8>>::empty());
        assert(components(p, 1, 0) == Seq::<Seq<u8>>::empty());
    } else {
        lemma_trim_from(q, s);
        let t = trimmed_end(q);
        lemma_components_agree(q, p, 1, t);
        assert forall|k: int| t <= k < s implies p[k] == SLASH by {
            assert(q[k] == SLASH);
        }
        lemma_components_trailing(p, 1, t, s);
    }
}

/// Splits a path into its parent path and its last component.
pub fn split_parent_and_name(path: &[u8]) -> (r: Result<(&[u8], &[u8]), isize>)
    ensures
        match r {
            Ok((parent, name)) => split_error(path@) is None && parent@ == path@.subrange(0, parent_len(path@))
                && name@ == leaf_name(path@),
            Err(e) => split_error(path@) == Some(e),
        },
{
    match validate_path(path) {
        Ok(()) => {},
        Err(e) => return Err(e),
    }
    let end = trimmed_path_end(path);
    proof {
        lemma_trim_from(path@, path@.len() as int);
    }
    if end == 1 {
        return Err(EINVAL);
    }
    let mut split = end - 1;
    while split > 0 && path[split] != SLASH
        invariant
            split < end <= path.len(),
            last_slash(path@, split as int) == split_point(path@),
            end == trimmed_end(path@),
        decreases split,
    {
        split -= 1;
    }
    proof {
        lemma_last_slash(path@, end - 1);
    }
    let name = vstd::slice::slice_subrange(path, split + 1, end);
    if name.len() == 0 {
        return Err(EINVAL);
    }
    let parent = if split == 0 {
        vstd::slice::slice_subrange(path, 0, 1)
    } else {
        vstd::slice::slice_subrange(path, 0, split)
    };
    Ok((parent, name))
}

} // verus!
