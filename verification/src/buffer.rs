//! Byte-buffer model: every stage of the pipeline writes fixed-offset regions
//! into one flat buffer, described in specifications by `splice`, which
//! replaces a run of bytes and leaves the rest alone.

use vstd::prelude::*;

verus! {

/// `s` with the bytes from `off` on replaced by `d`; everything else is kept.
pub open spec fn splice(s: Seq<u8>, off: int, d: Seq<u8>) -> Seq<u8> {
    s.take(off) + d + s.skip(off + d.len() as int)
}

/// Big-endian byte order of a 32-bit word.
pub open spec fn be32(v: u32) -> Seq<u8> {
    seq![(v >> 24) as u8, (v >> 16) as u8, (v >> 8) as u8, v as u8]
}

/// Big-endian byte order of a 64-bit word.
pub open spec fn be64(v: u64) -> Seq<u8> {
    seq![
        (v >> 56) as u8,
        (v >> 48) as u8,
        (v >> 40) as u8,
        (v >> 32) as u8,
        (v >> 24) as u8,
        (v >> 16) as u8,
        (v >> 8) as u8,
        v as u8,
    ]
}

/// The 32-bit word stored big-endian at `off` in `s`.
pub open spec fn read_be32(s: Seq<u8>, off: int) -> u32 {
    ((s[off] as u32) << 24) | ((s[off + 1] as u32) << 16) | ((s[off + 2] as u32) << 8) | (s[off
        + 3] as u32)
}

pub broadcast proof fn lemma_splice_len(s: Seq<u8>, off: int, d: Seq<u8>)
    requires
        0 <= off,
        off + d.len() <= s.len(),
    ensures
        (#[trigger] splice(s, off, d)).len() == s.len(),
{
}

pub broadcast proof fn lemma_splice_index(s: Seq<u8>, off: int, d: Seq<u8>, j: int)
    requires
        0 <= off,
        off + d.len() <= s.len(),
        0 <= j < s.len(),
    ensures
        #[trigger] splice(s, off, d)[j] == if off <= j < off + d.len() {
            d[j - off]
        } else {
            s[j]
        },
{
}

pub broadcast group group_splice_axioms {
    lemma_splice_len,
    lemma_splice_index,
}

/// A splice leaves every subrange that it does not touch unchanged.
pub proof fn lemma_splice_subrange_outside(s: Seq<u8>, off: int, d: Seq<u8>, a: int, b: int)
    requires
        0 <= off,
        off + d.len() <= s.len(),
        0 <= a <= b <= s.len(),
        b <= off || off + d.len() <= a,
    ensures
        splice(s, off, d).subrange(a, b) == s.subrange(a, b),
{
    broadcast use group_splice_axioms;

    assert(splice(s, off, d).subrange(a, b) =~= s.subrange(a, b));
}

/// The spliced-in bytes read back exactly.
pub proof fn lemma_splice_subrange_within(s: Seq<u8>, off: int, d: Seq<u8>)
    requires
        0 <= off,
        off + d.len() <= s.len(),
    ensures
        splice(s, off, d).subrange(off, off + d.len() as int) == d,
{
    broadcast use group_splice_axioms;

    assert(splice(s, off, d).subrange(off, off + d.len() as int) =~= d);
}

/// Two splices at back-to-back offsets are one splice of the joined bytes.
pub proof fn lemma_splice_adjacent(s: Seq<u8>, off: int, d1: Seq<u8>, d2: Seq<u8>)
    requires
        0 <= off,
        off + d1.len() + d2.len() <= s.len(),
    ensures
        splice(splice(s, off, d1), off + d1.len() as int, d2) == splice(s, off, d1 + d2),
{
    broadcast use group_splice_axioms;

    assert(splice(splice(s, off, d1), off + d1.len() as int, d2) =~= splice(s, off, d1 + d2));
}

/// Copies `data` into `buf` starting at `off`.
pub fn write_bytes_at(buf: &mut Vec<u8>, off: usize, data: &[u8])
    requires
        off + data@.len() <= old(buf)@.len(),
    ensures
        final(buf)@ == splice(old(buf)@, off as int, data@),
{
    broadcast use group_splice_axioms;

    let n = data.len();
    let buflen = buf.len();
    let mut i: usize = 0;
    while i < n
        invariant
            n == data@.len(),
            buflen == buf@.len(),
            off + n <= buflen,
            buf@.len() == old(buf)@.len(),
            0 <= i <= n,
            forall|j: int|
                0 <= j < buf@.len() ==> buf@[j] == if off <= j < off + i {
                    data@[j - off]
                } else {
                    old(buf)@[j]
                },
        decreases n - i,
    {
        buf[off + i] = data[i];
        i = i + 1;
    }
    assert(buf@ =~= splice(old(buf)@, off as int, data@));
}

/// Writes one byte at `off`.
pub fn write_u8_at(buf: &mut Vec<u8>, off: usize, v: u8)
    requires
        off < old(buf)@.len(),
    ensures
        final(buf)@ == splice(old(buf)@, off as int, seq![v]),
{
    broadcast use group_splice_axioms;

    buf[off] = v;
    assert(buf@ =~= splice(old(buf)@, off as int, seq![v]));
}

/// The big-endian bytes of `v`, as a vector.
pub fn be_u32_vec(v: u32) -> (r: Vec<u8>)
    ensures
        r@ == be32(v),
{
    let mut r: Vec<u8> = Vec::new();
    r.push((v >> 24) as u8);
    r.push((v >> 16) as u8);
    r.push((v >> 8) as u8);
    r.push(v as u8);
    assert(r@ =~= be32(v));
    r
}

/// Writes `v` big-endian at `off`.
pub fn write_be_u32_at(buf: &mut Vec<u8>, off: usize, v: u32)
    requires
        off + 4 <= old(buf)@.len(),
    ensures
        final(buf)@ == splice(old(buf)@, off as int, be32(v)),
{
    let bytes = be_u32_vec(v);
    write_bytes_at(buf, off, bytes.as_slice());
}

/// Writes `v` big-endian at `off`.
pub fn write_be_u64_at(buf: &mut Vec<u8>, off: usize, v: u64)
    requires
        off + 8 <= old(buf)@.len(),
    ensures
        final(buf)@ == splice(old(buf)@, off as int, be64(v)),
{
    let mut bytes: Vec<u8> = Vec::new();
    bytes.push((v >> 56) as u8);
    bytes.push((v >> 48) as u8);
    bytes.push((v >> 40) as u8);
    bytes.push((v >> 32) as u8);
    bytes.push((v >> 24) as u8);
    bytes.push((v >> 16) as u8);
    bytes.push((v >> 8) as u8);
    bytes.push(v as u8);
    assert(bytes@ =~= be64(v));
    write_bytes_at(buf, off, bytes.as_slice());
}

/// Reads the 32-bit word stored big-endian at `off`.
pub fn read_be_u32_at(buf: &[u8], off: usize) -> (r: u32)
    requires
        off + 4 <= buf@.len(),
    ensures
        r == read_be32(buf@, off as int),
{
    let n = buf.len();
    assert(off + 4 <= n);
    let b0 = buf[off];
    let b1 = buf[off + 1];
    let b2 = buf[off + 2];
    let b3 = buf[off + 3];
    ((b0 as u32) << 24) | ((b1 as u32) << 16) | ((b2 as u32) << 8) | (b3 as u32)
}

} // verus!
