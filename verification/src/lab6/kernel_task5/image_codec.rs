//! The byte layout of the disk image on the host: the `#[repr(C)]` layout of
//! the image record, little endian, 368 bytes.
use vstd::prelude::*;
use super::abi::{FILE_NAME_MAX, FILE_PAYLOAD_BYTES};
use super::journal::{DirentDisk, DiskImage, FileInode, JournalHeader, RootInode};

verus! {

/// Size of the encoded image.
pub const DISK_IMAGE_BYTES: usize = 368;

pub open spec fn le32(v: u32) -> Seq<u8> {
    seq![(v & 0xff) as u8, ((v >> 8u32) & 0xff) as u8, ((v >> 16u32) & 0xff) as u8, ((v >> 24u32) & 0xff) as u8]
}

pub open spec fn le64(v: u64) -> Seq<u8> {
    seq![(v & 0xff) as u8, ((v >> 8u64) & 0xff) as u8, ((v >> 16u64) & 0xff) as u8, ((v >> 24u64) & 0xff) as u8,
        ((v >> 32u64) & 0xff) as u8, ((v >> 40u64) & 0xff) as u8, ((v >> 48u64) & 0xff) as u8, ((v >> 56u64) & 0xff) as u8]
}

pub open spec fn get32(s: Seq<u8>, at: int) -> u32 {
    ((s[at] as u32) | ((s[at + 1] as u32) << 8u32) | ((s[at + 2] as u32) << 16u32) | ((s[at + 3] as u32) << 24u32)) as u32
}

pub open spec fn get64(s: Seq<u8>, at: int) -> u64 {
    ((s[at] as u64) | ((s[at + 1] as u64) << 8u64) | ((s[at + 2] as u64) << 16u64) | ((s[at + 3] as u64) << 24u64)
        | ((s[at + 4] as u64) << 32u64) | ((s[at + 5] as u64) << 40u64) | ((s[at + 6] as u64) << 48u64)
        | ((s[at + 7] as u64) << 56u64)) as u64
}

proof fn lemma_le32(v: u32)
    by (bit_vector)
    ensures
        (((v & 0xff) as u8) as u32 | (((v >> 8u32) & 0xff) as u8 as u32) << 8u32
            | (((v >> 16u32) & 0xff) as u8 as u32) << 16u32 | (((v >> 24u32) & 0xff) as u8 as u32) << 24u32) == v,
{
}

proof fn lemma_le64(v: u64)
    by (bit_vector)
    ensures
        (((v & 0xff) as u8) as u64 | (((v >> 8u64) & 0xff) as u8 as u64) << 8u64
            | (((v >> 16u64) & 0xff) as u8 as u64) << 16u64 | (((v >> 24u64) & 0xff) as u8 as u64) << 24u64
            | (((v >> 32u64) & 0xff) as u8 as u64) << 32u64 | (((v >> 40u64) & 0xff) as u8 as u64) << 40u64
            | (((v >> 48u64) & 0xff) as u8 as u64) << 48u64 | (((v >> 56u64) & 0xff) as u8 as u64) << 56u64) == v,
{
}

/// The encoding of an inode record (16 bytes).
pub open spec fn file_inode_bytes(i: FileInode) -> Seq<u8> {
    seq![i.valid, i.kind] + i.padding@ + le32(i.size_bytes) + le64(i.checksum)
}

/// Magic, version, root inode and root entry, then four padding bytes (48).
pub open spec fn head_bytes(img: DiskImage) -> Seq<u8> {
    le32(img.magic) + le32(img.version)
        + (seq![img.root_inode.valid, img.root_inode.kind] + img.root_inode.padding@
            + le32(img.root_inode.child_count) + le32(img.root_inode.size_bytes))
        + (seq![img.root_dirent.valid, img.root_dirent.name_len] + img.root_dirent.padding@
            + le32(img.root_dirent.inode_index) + img.root_dirent.name@)
        + seq![0u8, 0u8, 0u8, 0u8]
}

/// The journal header (32).
pub open spec fn header_bytes(h: JournalHeader) -> Seq<u8> {
    seq![h.active, h.committed] + h.padding@ + le32(h.target_inode) + le64(h.tx_seq)
        + le32(h.logged_size) + le32(h.reserved) + le64(h.logged_checksum)
}

/// The encoding of the whole image, field by field, with the four padding
/// bytes the layout puts before the home inode.
pub open spec fn spec_encode(img: DiskImage) -> Seq<u8> {
    head_bytes(img) + (file_inode_bytes(img.home_inode) + img.home_data@) + header_bytes(img.log_header)
        + (file_inode_bytes(img.log_inode) + img.log_data@)
}

fn push_u32(out: &mut Vec<u8>, v: u32)
    ensures
        final(out)@ == old(out)@ + le32(v),
{
    out.push((v & 0xff) as u8);
    out.push(((v >> 8u32) & 0xff) as u8);
    out.push(((v >> 16u32) & 0xff) as u8);
    out.push(((v >> 24u32) & 0xff) as u8);
    assert(out@ =~= old(out)@ + le32(v));
}

fn push_u64(out: &mut Vec<u8>, v: u64)
    ensures
        final(out)@ == old(out)@ + le64(v),
{
    out.push((v & 0xff) as u8);
    out.push(((v >> 8u64) & 0xff) as u8);
    out.push(((v >> 16u64) & 0xff) as u8);
    out.push(((v >> 24u64) & 0xff) as u8);
    out.push(((v >> 32u64) & 0xff) as u8);
    out.push(((v >> 40u64) & 0xff) as u8);
    out.push(((v >> 48u64) & 0xff) as u8);
    out.push(((v >> 56u64) & 0xff) as u8);
    assert(out@ =~= old(out)@ + le64(v));
}

fn push_bytes(out: &mut Vec<u8>, bytes: &[u8])
    ensures
        final(out)@ == old(out)@ + bytes@,
{
    let mut i: usize = 0;
    while i < bytes.len()
        invariant
            i <= bytes@.len(),
            out@ == old(out)@ + bytes@.subrange(0, i as int),
        decreases bytes@.len() - i,
    {
        out.push(bytes[i]);
        i += 1;
        assert(out@ =~= old(out)@ + bytes@.subrange(0, i as int));
    }
    assert(bytes@.subrange(0, bytes@.len() as int) =~= bytes@);
}

fn push_file_inode(out: &mut Vec<u8>, i: &FileInode)
    ensures
        final(out)@ == old(out)@ + file_inode_bytes(*i),
{
    out.push(i.valid);
    out.push(i.kind);
    push_bytes(out, i.padding.as_slice());
    push_u32(out, i.size_bytes);
    push_u64(out, i.checksum);
    assert(out@ =~= old(out)@ + file_inode_bytes(*i));
}

/// The image as the bytes written to the host.
pub fn encode(img: &DiskImage) -> (r: Vec<u8>)
    ensures
        r@ == spec_encode(*img),
        r@.len() == DISK_IMAGE_BYTES,
{
    let mut out: Vec<u8> = Vec::new();
    push_u32(&mut out, img.magic);
    push_u32(&mut out, img.version);
    let ghost p0 = out@;
    out.push(img.root_inode.valid);
    out.push(img.root_inode.kind);
    push_bytes(&mut out, img.root_inode.padding.as_slice());
    push_u32(&mut out, img.root_inode.child_count);
    push_u32(&mut out, img.root_inode.size_bytes);
    let ghost p1 = out@;
    out.push(img.root_dirent.valid);
    out.push(img.root_dirent.name_len);
    push_bytes(&mut out, img.root_dirent.padding.as_slice());
    push_u32(&mut out, img.root_dirent.inode_index);
    push_bytes(&mut out, img.root_dirent.name.as_slice());
    let ghost p2 = out@;
    out.push(0u8);
    out.push(0u8);
    out.push(0u8);
    out.push(0u8);
    push_file_inode(&mut out, &img.home_inode);
    push_bytes(&mut out, img.home_data.as_slice());
    let ghost p3 = out@;
    out.push(img.log_header.active);
    out.push(img.log_header.committed);
    push_bytes(&mut out, img.log_header.padding.as_slice());
    push_u32(&mut out, img.log_header.target_inode);
    push_u64(&mut out, img.log_header.tx_seq);
    push_u32(&mut out, img.log_header.logged_size);
    push_u32(&mut out, img.log_header.reserved);
    push_u64(&mut out, img.log_header.logged_checksum);
    let ghost p4 = out@;
    push_file_inode(&mut out, &img.log_inode);
    push_bytes(&mut out, img.log_data.as_slice());
    proof {
        assert(p2 + seq![0u8, 0u8, 0u8, 0u8] =~= head_bytes(*img));
        assert(p4.subrange(p3.len() as int, p4.len() as int) =~= header_bytes(img.log_header));
        assert(out@ =~= spec_encode(*img));
    }
    out
}


/// `img` is what the 368 bytes `b` hold under the layout.
pub open spec fn decodes_to(b: Seq<u8>, img: DiskImage) -> bool {
    &&& b.len() == DISK_IMAGE_BYTES
    &&& img.magic == get32(b, 0) && img.version == get32(b, 4)
    &&& img.root_inode.valid == b[8] && img.root_inode.kind == b[9] && img.root_inode.padding@ == b.subrange(10, 12)
    &&& img.root_inode.child_count == get32(b, 12) && img.root_inode.size_bytes == get32(b, 16)
    &&& img.root_dirent.valid == b[20] && img.root_dirent.name_len == b[21] && img.root_dirent.padding@ == b.subrange(22, 24)
    &&& img.root_dirent.inode_index == get32(b, 24) && img.root_dirent.name@ == b.subrange(28, 44)
    &&& file_inode_at(b, 48, img.home_inode)
    &&& img.home_data@ == b.subrange(64, 192)
    &&& img.log_header.active == b[192] && img.log_header.committed == b[193] && img.log_header.padding@ == b.subrange(194, 196)
    &&& img.log_header.target_inode == get32(b, 196) && img.log_header.tx_seq == get64(b, 200)
    &&& img.log_header.logged_size == get32(b, 208) && img.log_header.reserved == get32(b, 212)
    &&& img.log_header.logged_checksum == get64(b, 216)
    &&& file_inode_at(b, 224, img.log_inode)
    &&& img.log_data@ == b.subrange(240, 368)
}

pub open spec fn file_inode_at(b: Seq<u8>, at: int, i: FileInode) -> bool {
    &&& i.valid == b[at] && i.kind == b[at + 1] && i.padding@ == b.subrange(at + 2, at + 4)
    &&& i.size_bytes == get32(b, at + 4) && i.checksum == get64(b, at + 8)
}

fn get_u32(b: &[u8], at: usize) -> (r: u32)
    requires
        at + 4 <= b@.len(),
    ensures
        r == get32(b@, at as int),
{
    (b[at] as u32) | ((b[at + 1] as u32) << 8u32) | ((b[at + 2] as u32) << 16u32) | ((b[at + 3] as u32) << 24u32)
}

fn get_u64(b: &[u8], at: usize) -> (r: u64)
    requires
        at + 8 <= b@.len(),
    ensures
        r == get64(b@, at as int),
{
    (b[at] as u64) | ((b[at + 1] as u64) << 8u64) | ((b[at + 2] as u64) << 16u64) | ((b[at + 3] as u64) << 24u64)
        | ((b[at + 4] as u64) << 32u64) | ((b[at + 5] as u64) << 40u64) | ((b[at + 6] as u64) << 48u64)
        | ((b[at + 7] as u64) << 56u64)
}

fn get_pad(b: &[u8], at: usize) -> (r: [u8; 2])
    requires
        at + 2 <= b@.len(),
    ensures
        r@ == b@.subrange(at as int, at + 2),
{
    let r = [b[at], b[at + 1]];
    assert(r@ =~= b@.subrange(at as int, at + 2));
    r
}

fn get_array<const N: usize>(b: &[u8], at: usize) -> (r: [u8; N])
    requires
        at + N <= b@.len(),
    ensures
        r@ == b@.subrange(at as int, at + N),
{
    let mut r = [0u8; N];
    let len = b.len();
    let mut i: usize = 0;
    while i < N
        invariant
            i <= N,
            at + N <= b@.len(),
            len == b@.len(),
            r@.len() == N,
            forall|k: int| 0 <= k < i ==> r@[k] == b@[at + k],
        decreases N - i,
    {
        r[i] = b[at + i];
        i += 1;
    }
    assert(r@ =~= b@.subrange(at as int, at + N));
    r
}

fn get_file_inode(b: &[u8], at: usize) -> (r: FileInode)
    requires
        at + 16 <= b@.len(),
    ensures
        file_inode_at(b@, at as int, r),
{
    FileInode { valid: b[at], kind: b[at + 1], padding: get_pad(b, at + 2), size_bytes: get_u32(b, at + 4), checksum: get_u64(b, at + 8) }
}

/// The image held by `bytes`, or `None` unless they are exactly one image long.
pub fn decode(bytes: &[u8]) -> (r: Option<DiskImage>)
    ensures
        bytes@.len() != DISK_IMAGE_BYTES ==> r is None,
        bytes@.len() == DISK_IMAGE_BYTES ==> (r matches Some(img) && decodes_to(bytes@, img)),
{
    if bytes.len() != DISK_IMAGE_BYTES {
        return None;
    }
    let root_inode = RootInode { valid: bytes[8], kind: bytes[9], padding: get_pad(bytes, 10),
        child_count: get_u32(bytes, 12), size_bytes: get_u32(bytes, 16) };
    let root_dirent = DirentDisk { valid: bytes[20], name_len: bytes[21], padding: get_pad(bytes, 22),
        inode_index: get_u32(bytes, 24), name: get_array::<FILE_NAME_MAX>(bytes, 28) };
    let log_header = JournalHeader { active: bytes[192], committed: bytes[193], padding: get_pad(bytes, 194),
        target_inode: get_u32(bytes, 196), tx_seq: get_u64(bytes, 200), logged_size: get_u32(bytes, 208),
        reserved: get_u32(bytes, 212), logged_checksum: get_u64(bytes, 216) };
    Some(DiskImage {
        magic: get_u32(bytes, 0),
        version: get_u32(bytes, 4),
        root_inode,
        root_dirent,
        home_inode: get_file_inode(bytes, 48),
        home_data: get_array::<FILE_PAYLOAD_BYTES>(bytes, 64),
        log_header,
        log_inode: get_file_inode(bytes, 224),
        log_data: get_array::<FILE_PAYLOAD_BYTES>(bytes, 240),
    })
}

proof fn lemma_get32_le32(s: Seq<u8>, at: int, v: u32)
    requires
        0 <= at,
        at + 4 <= s.len(),
        s.subrange(at, at + 4) == le32(v),
    ensures
        get32(s, at) == v,
{
    assert(s[at] == le32(v)[0] && s[at + 1] == le32(v)[1] && s[at + 2] == le32(v)[2] && s[at + 3] == le32(v)[3]);
    lemma_le32(v);
}

proof fn lemma_get64_le64(s: Seq<u8>, at: int, v: u64)
    requires
        0 <= at,
        at + 8 <= s.len(),
        s.subrange(at, at + 8) == le64(v),
    ensures
        get64(s, at) == v,
{
    assert(s[at] == le64(v)[0] && s[at + 1] == le64(v)[1] && s[at + 2] == le64(v)[2] && s[at + 3] == le64(v)[3]);
    assert(s[at + 4] == le64(v)[4] && s[at + 5] == le64(v)[5] && s[at + 6] == le64(v)[6] && s[at + 7] == le64(v)[7]);
    lemma_le64(v);
}


proof fn lemma_head(img: DiskImage, b: Seq<u8>)
    requires
        b.len() == 368,
        b.subrange(0, 48) == head_bytes(img),
    ensures
        get32(b, 0) == img.magic && get32(b, 4) == img.version,
        b[8] == img.root_inode.valid && b[9] == img.root_inode.kind && b.subrange(10, 12) == img.root_inode.padding@,
        get32(b, 12) == img.root_inode.child_count && get32(b, 16) == img.root_inode.size_bytes,
        b[20] == img.root_dirent.valid && b[21] == img.root_dirent.name_len && b.subrange(22, 24) == img.root_dirent.padding@,
        get32(b, 24) == img.root_dirent.inode_index && b.subrange(28, 44) == img.root_dirent.name@,
{
    let h = head_bytes(img);
    assert(img.root_inode.padding@.len() == 2);
    assert(img.root_dirent.padding@.len() == 2);
    assert(img.root_dirent.name@.len() == 16);
    assert(h.len() == 48);
    assert forall|k: int| 0 <= k < 48 implies b[k] == h[k] by {
        assert(b.subrange(0, 48)[k] == h[k]);
    }
    assert(b.subrange(0, 4) =~= h.subrange(0, 4));
    assert(h.subrange(0, 4) =~= le32(img.magic));
    assert(b.subrange(4, 8) =~= le32(img.version));
    assert(b.subrange(12, 16) =~= le32(img.root_inode.child_count));
    assert(b.subrange(16, 20) =~= le32(img.root_inode.size_bytes));
    assert(b.subrange(24, 28) =~= le32(img.root_dirent.inode_index));
    lemma_get32_le32(b, 0, img.magic);
    lemma_get32_le32(b, 4, img.version);
    lemma_get32_le32(b, 12, img.root_inode.child_count);
    lemma_get32_le32(b, 16, img.root_inode.size_bytes);
    lemma_get32_le32(b, 24, img.root_dirent.inode_index);
    assert(b.subrange(10, 12) =~= img.root_inode.padding@);
    assert(b.subrange(22, 24) =~= img.root_dirent.padding@);
    assert(b.subrange(28, 44) =~= img.root_dirent.name@);
}

proof fn lemma_inode(i: FileInode, b: Seq<u8>, at: int)
    requires
        0 <= at,
        at + 16 <= b.len(),
        b.subrange(at, at + 16) == file_inode_bytes(i),
    ensures
        file_inode_at(b, at, i),
{
    let f = file_inode_bytes(i);
    assert(i.padding@.len() == 2);
    assert(f.len() == 16);
    assert forall|k: int| 0 <= k < 16 implies b[at + k] == f[k] by {
        assert(b.subrange(at, at + 16)[k] == f[k]);
    }
    let s32 = le32(i.size_bytes);
    let s64 = le64(i.checksum);
    assert(f[4] == s32[0] && f[5] == s32[1] && f[6] == s32[2] && f[7] == s32[3]);
    assert(f[8] == s64[0] && f[9] == s64[1] && f[10] == s64[2] && f[11] == s64[3]);
    assert(f[12] == s64[4] && f[13] == s64[5] && f[14] == s64[6] && f[15] == s64[7]);
    assert(f[2] == i.padding@[0] && f[3] == i.padding@[1]);
    assert(b.subrange(at + 4, at + 8) =~= le32(i.size_bytes));
    assert(b.subrange(at + 8, at + 16) =~= le64(i.checksum));
    lemma_get32_le32(b, at + 4, i.size_bytes);
    lemma_get64_le64(b, at + 8, i.checksum);
    assert(b.subrange(at + 2, at + 4) =~= i.padding@);
    assert(b[at] == f[0] && b[at + 1] == f[1]);
}

proof fn lemma_header(h: JournalHeader, b: Seq<u8>)
    requires
        b.len() == 368,
        b.subrange(192, 224) == header_bytes(h),
    ensures
        h.active == b[192] && h.committed == b[193] && h.padding@ == b.subrange(194, 196),
        h.target_inode == get32(b, 196) && h.tx_seq == get64(b, 200),
        h.logged_size == get32(b, 208) && h.reserved == get32(b, 212),
        h.logged_checksum == get64(b, 216),
{
    let x = header_bytes(h);
    assert(h.padding@.len() == 2);
    assert(x.len() == 32);
    assert forall|k: int| 0 <= k < 32 implies b[192 + k] == x[k] by {
        assert(b.subrange(192, 224)[k] == x[k]);
    }
    let t = le32(h.target_inode);
    let q = le64(h.tx_seq);
    let ls = le32(h.logged_size);
    let rs = le32(h.reserved);
    let lc = le64(h.logged_checksum);
    assert(x[2] == h.padding@[0] && x[3] == h.padding@[1]);
    assert(x[4] == t[0] && x[5] == t[1] && x[6] == t[2] && x[7] == t[3]);
    assert(x[8] == q[0] && x[9] == q[1] && x[10] == q[2] && x[11] == q[3]);
    assert(x[12] == q[4] && x[13] == q[5] && x[14] == q[6] && x[15] == q[7]);
    assert(x[16] == ls[0] && x[17] == ls[1] && x[18] == ls[2] && x[19] == ls[3]);
    assert(x[20] == rs[0] && x[21] == rs[1] && x[22] == rs[2] && x[23] == rs[3]);
    assert(x[24] == lc[0] && x[25] == lc[1] && x[26] == lc[2] && x[27] == lc[3]);
    assert(x[28] == lc[4] && x[29] == lc[5] && x[30] == lc[6] && x[31] == lc[7]);
    assert(b.subrange(196, 200) =~= le32(h.target_inode));
    assert(b.subrange(200, 208) =~= le64(h.tx_seq));
    assert(b.subrange(208, 212) =~= le32(h.logged_size));
    assert(b.subrange(212, 216) =~= le32(h.reserved));
    assert(b.subrange(216, 224) =~= le64(h.logged_checksum));
    lemma_get32_le32(b, 196, h.target_inode);
    lemma_get64_le64(b, 200, h.tx_seq);
    lemma_get32_le32(b, 208, h.logged_size);
    lemma_get32_le32(b, 212, h.reserved);
    lemma_get64_le64(b, 216, h.logged_checksum);
    assert(b.subrange(194, 196) =~= h.padding@);
    assert(b[192] == x[0] && b[193] == x[1]);
}

/// The encoding of `img` decodes to `img`.
#[verifier::rlimit(60)]
pub proof fn lemma_encode_decodes(img: DiskImage)
    ensures
        decodes_to(spec_encode(img), img),
{
    let b = spec_encode(img);
    let p1 = head_bytes(img);
    let p2 = file_inode_bytes(img.home_inode) + img.home_data@;
    let p3 = header_bytes(img.log_header);
    let p4 = file_inode_bytes(img.log_inode) + img.log_data@;
    assert(img.root_inode.padding@.len() == 2 && img.root_dirent.padding@.len() == 2 && img.root_dirent.name@.len() == 16);
    assert(img.home_inode.padding@.len() == 2 && img.log_inode.padding@.len() == 2 && img.log_header.padding@.len() == 2);
    assert(p1.len() == 48 && p2.len() == 144 && p3.len() == 32 && p4.len() == 144);
    assert(b == p1 + p2 + p3 + p4);
    assert(b.len() == 368);
    assert(b.subrange(0, 48) =~= head_bytes(img));
    assert(b.subrange(48, 64) =~= file_inode_bytes(img.home_inode));
    assert(b.subrange(64, 192) =~= img.home_data@);
    assert(b.subrange(192, 224) =~= header_bytes(img.log_header));
    assert(b.subrange(224, 240) =~= file_inode_bytes(img.log_inode));
    assert(b.subrange(240, 368) =~= img.log_data@);
    lemma_head(img, b);
    lemma_inode(img.home_inode, b, 48);
    lemma_header(img.log_header, b);
    lemma_inode(img.log_inode, b, 224);
}

/// Decoding the bytes an image encodes to gives back that image.
pub proof fn lemma_decode_encode(img: DiskImage, d: DiskImage)
    requires
        decodes_to(spec_encode(img), d),
    ensures
        d == img,
{
    lemma_encode_decodes(img);
    assert(d.root_inode.padding@ =~= img.root_inode.padding@);
    assert(d.root_dirent.padding@ =~= img.root_dirent.padding@);
    assert(d.root_dirent.name@ =~= img.root_dirent.name@);
    assert(d.home_inode.padding@ =~= img.home_inode.padding@);
    assert(d.home_data@ =~= img.home_data@);
    assert(d.log_header.padding@ =~= img.log_header.padding@);
    assert(d.log_inode.padding@ =~= img.log_inode.padding@);
    assert(d.log_data@ =~= img.log_data@);
    vstd::array::axiom_array_ext_equal(d.root_inode.padding, img.root_inode.padding);
    vstd::array::axiom_array_ext_equal(d.root_dirent.padding, img.root_dirent.padding);
    vstd::array::axiom_array_ext_equal(d.root_dirent.name, img.root_dirent.name);
    vstd::array::axiom_array_ext_equal(d.home_inode.padding, img.home_inode.padding);
    vstd::array::axiom_array_ext_equal(d.home_data, img.home_data);
    vstd::array::axiom_array_ext_equal(d.log_header.padding, img.log_header.padding);
    vstd::array::axiom_array_ext_equal(d.log_inode.padding, img.log_inode.padding);
    vstd::array::axiom_array_ext_equal(d.log_data, img.log_data);
}

} // verus!
