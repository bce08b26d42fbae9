//! Byte-buffer primitives: little-endian scalar reads and writes at fixed
//! offsets inside a growable byte buffer, appends to its tail, and the
//! framing lemmas that keep earlier writes intact under later ones.

use vstd::prelude::*;

verus! {

use vstd::bytes::{
    spec_u16_from_le_bytes, spec_u16_to_le_bytes, spec_u32_from_le_bytes, spec_u32_to_le_bytes,
    spec_u64_from_le_bytes, spec_u64_to_le_bytes, lemma_auto_spec_u16_to_from_le_bytes,
    lemma_auto_spec_u32_to_from_le_bytes, lemma_auto_spec_u64_to_from_le_bytes,
    u16_from_le_bytes, u16_to_le_bytes, u32_from_le_bytes, u32_to_le_bytes, u64_from_le_bytes,
    u64_to_le_bytes,
};
use vstd::slice::{slice_subrange, slice_to_vec};

/// The 16-bit scalar stored little-endian at position `p` of `b`.
pub open spec fn u16_at(b: Seq<u8>, p: int) -> u16 {
    spec_u16_from_le_bytes(b.subrange(p, p + 2))
}

/// The 32-bit scalar stored little-endian at position `p` of `b`.
pub open spec fn u32_at(b: Seq<u8>, p: int) -> u32 {
    spec_u32_from_le_bytes(b.subrange(p, p + 4))
}

/// The 64-bit scalar stored little-endian at position `p` of `b`.
pub open spec fn u64_at(b: Seq<u8>, p: int) -> u64 {
    spec_u64_from_le_bytes(b.subrange(p, p + 8))
}

/// A buffer of `n` zero bytes, the blank fixed region a message starts from.
pub fn zero_buf(n: usize) -> (v: Vec<u8>)
    ensures
        v@ == Seq::<u8>::new(n as nat, |i: int| 0u8),
        v@.len() == n,
{
    let mut v: Vec<u8> = Vec::new();
    let mut k: usize = 0;
    while k < n
        invariant
            k <= n,
            v@ == Seq::<u8>::new(k as nat, |i: int| 0u8),
        decreases n - k,
    {
        v.push(0u8);
        k = k + 1;
        proof {
            assert(v@ =~= Seq::<u8>::new(k as nat, |i: int| 0u8));
        }
    }
    v
}

/// If two buffers agree on `[lo, hi)`, they cut to the same subrange there.
pub proof fn lemma_agree_subrange(b1: Seq<u8>, b2: Seq<u8>, lo: int, hi: int)
    requires
        0 <= lo <= hi <= b1.len(),
        hi <= b2.len(),
        forall|i: int| lo <= i < hi ==> b1[i] == b2[i],
    ensures
        b1.subrange(lo, hi) == b2.subrange(lo, hi),
{
    assert(b1.subrange(lo, hi) =~= b2.subrange(lo, hi));
}

/// Cutting a subrange out of a subrange lands on the inner cut of the whole.
pub proof fn lemma_subrange_of_subrange(b: Seq<u8>, lo: int, hi: int, x: int, y: int)
    requires
        0 <= lo <= hi <= b.len(),
        0 <= x <= y <= hi - lo,
    ensures
        b.subrange(lo, hi).subrange(x, y) == b.subrange(lo + x, lo + y),
{
    assert(b.subrange(lo, hi).subrange(x, y) =~= b.subrange(lo + x, lo + y));
}

/// Overwrites the byte at `p`.
pub fn write_u8_at(buf: &mut Vec<u8>, p: usize, v: u8)
    requires
        p < old(buf)@.len(),
    ensures
        final(buf)@ == old(buf)@.update(p as int, v),
{
    let s = buf.as_mut_slice();
    s[p] = v;
}

/// Writes `v` little-endian into `buf[p..p + 2)`; every other byte stays.
pub fn write_u16_at(buf: &mut Vec<u8>, p: usize, v: u16)
    requires
        p + 2 <= old(buf)@.len(),
    ensures
        final(buf)@.len() == old(buf)@.len(),
        final(buf)@.subrange(p as int, p as int + 2) == spec_u16_to_le_bytes(v),
        u16_at(final(buf)@, p as int) == v,
        forall|i: int|
            0 <= i < final(buf)@.len() && !(p <= i < p + 2) ==> final(buf)@[i] == old(buf)@[i],
{
    let buflen = buf.len();
    let bytes = u16_to_le_bytes(v);
    write_u8_at(buf, p, bytes[0]);
    write_u8_at(buf, p + 1, bytes[1]);
    proof {
        assert(buf@.subrange(p as int, p as int + 2) =~= spec_u16_to_le_bytes(v));
        lemma_auto_spec_u16_to_from_le_bytes();
    }
}

/// Writes `v` little-endian into `buf[p..p + 4)`; every other byte stays.
pub fn write_u32_at(buf: &mut Vec<u8>, p: usize, v: u32)
    requires
        p + 4 <= old(buf)@.len(),
    ensures
        final(buf)@.len() == old(buf)@.len(),
        final(buf)@.subrange(p as int, p as int + 4) == spec_u32_to_le_bytes(v),
        u32_at(final(buf)@, p as int) == v,
        forall|i: int|
            0 <= i < final(buf)@.len() && !(p <= i < p + 4) ==> final(buf)@[i] == old(buf)@[i],
{
    let buflen = buf.len();
    let bytes = u32_to_le_bytes(v);
    write_u8_at(buf, p, bytes[0]);
    write_u8_at(buf, p + 1, bytes[1]);
    write_u8_at(buf, p + 2, bytes[2]);
    write_u8_at(buf, p + 3, bytes[3]);
    proof {
        assert(buf@.subrange(p as int, p as int + 4) =~= spec_u32_to_le_bytes(v));
        lemma_auto_spec_u32_to_from_le_bytes();
    }
}

/// Writes `v` little-endian into `buf[p..p + 8)`; every other byte stays.
pub fn write_u64_at(buf: &mut Vec<u8>, p: usize, v: u64)
    requires
        p + 8 <= old(buf)@.len(),
    ensures
        final(buf)@.len() == old(buf)@.len(),
        final(buf)@.subrange(p as int, p as int + 8) == spec_u64_to_le_bytes(v),
        u64_at(final(buf)@, p as int) == v,
        forall|i: int|
            0 <= i < final(buf)@.len() && !(p <= i < p + 8) ==> final(buf)@[i] == old(buf)@[i],
{
    let buflen = buf.len();
    let bytes = u64_to_le_bytes(v);
    let mut k: usize = 0;
    while k < 8
        invariant
            k <= 8,
            buflen == buf@.len(),
            bytes@ == spec_u64_to_le_bytes(v),
            p + 8 <= buf@.len(),
            buf@.len() == old(buf)@.len(),
            forall|i: int| p <= i < p + k ==> buf@[i] == bytes@[i - p],
            forall|i: int| 0 <= i < buf@.len() && !(p <= i < p + k) ==> buf@[i] == old(buf)@[i],
        decreases 8 - k,
    {
        proof {
            lemma_auto_spec_u64_to_from_le_bytes();
        }
        write_u8_at(buf, p + k, bytes[k]);
        k = k + 1;
    }
    proof {
        assert(buf@.subrange(p as int, p as int + 8) =~= spec_u64_to_le_bytes(v));
        lemma_auto_spec_u64_to_from_le_bytes();
    }
}

/// Reads the 16-bit little-endian scalar at `p`.
pub fn read_u16_at(buf: &Vec<u8>, p: usize) -> (r: u16)
    requires
        p + 2 <= buf@.len(),
    ensures
        r == u16_at(buf@, p as int),
{
    let buflen = buf.len();
    proof {
        assert(p + 2 <= buflen);
    }
    let s = slice_subrange(buf.as_slice(), p, p + 2);
    u16_from_le_bytes(s)
}

/// Reads the 32-bit little-endian scalar at `p`.
pub fn read_u32_at(buf: &Vec<u8>, p: usize) -> (r: u32)
    requires
        p + 4 <= buf@.len(),
    ensures
        r == u32_at(buf@, p as int),
{
    let buflen = buf.len();
    proof {
        assert(p + 4 <= buflen);
    }
    let s = slice_subrange(buf.as_slice(), p, p + 4);
    u32_from_le_bytes(s)
}

/// Reads the 64-bit little-endian scalar at `p`.
pub fn read_u64_at(buf: &Vec<u8>, p: usize) -> (r: u64)
    requires
        p + 8 <= buf@.len(),
    ensures
        r == u64_at(buf@, p as int),
{
    let buflen = buf.len();
    proof {
        assert(p + 8 <= buflen);
    }
    let s = slice_subrange(buf.as_slice(), p, p + 8);
    u64_from_le_bytes(s)
}

/// Appends every byte of `src` to the end of `buf`.
pub fn append_bytes(buf: &mut Vec<u8>, src: &[u8])
    ensures
        final(buf)@ == old(buf)@ + src@,
{
    let mut copy = slice_to_vec(src);
    buf.append(&mut copy);
}

/// Copies `src` over `buf[p..p + src.len())`; every other byte stays.
pub fn copy_bytes_at(buf: &mut Vec<u8>, p: usize, src: &Vec<u8>)
    requires
        p + src@.len() <= old(buf)@.len(),
    ensures
        final(buf)@.len() == old(buf)@.len(),
        final(buf)@.subrange(p as int, p as int + src@.len() as int) == src@,
        forall|i: int|
            0 <= i < final(buf)@.len() && !(p <= i < p + src@.len()) ==> final(buf)@[i]
                == old(buf)@[i],
{
    let buflen = buf.len();
    let n = src.len();
    let mut k: usize = 0;
    while k < n
        invariant
            k <= n,
            buflen == buf@.len(),
            n == src@.len(),
            p + n <= buf@.len(),
            buf@.len() == old(buf)@.len(),
            forall|i: int| p <= i < p + k ==> buf@[i] == src@[i - p],
            forall|i: int| 0 <= i < buf@.len() && !(p <= i < p + k) ==> buf@[i] == old(buf)@[i],
        decreases n - k,
    {
        write_u8_at(buf, p + k, src[k]);
        k = k + 1;
    }
    proof {
        assert(buf@.subrange(p as int, p as int + src@.len() as int) =~= src@);
    }
}

/// An owned copy of `buf[from..to)`.
pub fn read_bytes_range(buf: &Vec<u8>, from: usize, to: usize) -> (r: Vec<u8>)
    requires
        from <= to <= buf@.len(),
    ensures
        r@ == buf@.subrange(from as int, to as int),
{
    let s = slice_subrange(buf.as_slice(), from, to);
    slice_to_vec(s)
}

/// Equality of two byte buffers, decided byte for byte.
pub fn bytes_eq(a: &Vec<u8>, b: &Vec<u8>) -> (r: bool)
    ensures
        r == (a@ == b@),
{
    if a.len() != b.len() {
        proof {
            assert(a@.len() != b@.len());
        }
        return false;
    }
    let n = a.len();
    let mut k: usize = 0;
    while k < n
        invariant
            k <= n,
            n == a@.len(),
            n == b@.len(),
            forall|i: int| 0 <= i < k ==> a@[i] == b@[i],
        decreases n - k,
    {
        if a[k] != b[k] {
            proof {
                assert(a@[k as int] != b@[k as int]);
            }
            return false;
        }
        k = k + 1;
    }
    proof {
        assert(a@ =~= b@);
    }
    true
}

} // verus!
