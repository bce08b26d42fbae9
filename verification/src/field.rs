//! The field protocol: how a value occupies a byte range of a message
//! buffer. Fixed-width scalars sit inline; variable-length values sit behind
//! an 8-byte segment pointer `(offset, length)` whose payload is appended to
//! the buffer's tail. `check` decides structural validity exactly; `read`
//! assumes a successful check and decodes.

use vstd::prelude::*;

verus! {

use crate::buffer::{
    u16_at, u32_at, read_u16_at, read_u32_at, write_u32_at, append_bytes, read_bytes_range,
    lemma_agree_subrange, lemma_subrange_of_subrange,
};
use vstd::bytes::{spec_u16_to_le_bytes, spec_u32_to_le_bytes, lemma_auto_spec_u16_to_from_le_bytes,
    lemma_auto_spec_u32_to_from_le_bytes, u16_to_le_bytes, u32_to_le_bytes};
use vstd::utf8::{valid_utf8, decode_utf8, encode_utf8_valid_utf8, encode_utf8_decode_utf8};
use vstd::string::{StrSliceExecFns, StringSliceAdditionalSpecFns};

/// The single structural-validation failure: a malformed length or offset, a
/// truncated buffer, an invalid text encoding, an array length that is no
/// multiple of its element width, or a nested element failing its own check.
#[derive(Clone, Copy, PartialEq, Eq, Structural, Debug)]
pub struct Error;

/// Where the segment pointer at `from` points.
pub open spec fn seg_offset(b: Seq<u8>, from: int) -> int {
    u32_at(b, from) as int
}

/// How many payload bytes the segment pointer at `from` claims.
pub open spec fn seg_length(b: Seq<u8>, from: int) -> int {
    u32_at(b, from + 4) as int
}

/// A structurally sound segment pointer occupying exactly `[from, to)`: the
/// pointer is 8 bytes wide, lies inside the buffer, and its payload range
/// starts past the pointer's own slot and ends within the buffer.
pub open spec fn seg_valid(b: Seq<u8>, from: int, to: int) -> bool {
    &&& to == from + 8
    &&& 0 <= from
    &&& to <= b.len()
    &&& seg_offset(b, from) >= to
    &&& seg_offset(b, from) + seg_length(b, from) <= b.len()
}

/// The payload bytes the segment pointer at `from` addresses.
pub open spec fn seg_bytes(b: Seq<u8>, from: int) -> Seq<u8> {
    b.subrange(seg_offset(b, from), seg_offset(b, from) + seg_length(b, from))
}

/// A segment survives any later change that leaves its pointer slot and every
/// byte from `keep` on untouched, as long as the buffer only grows.
pub proof fn lemma_seg_frame(b1: Seq<u8>, b2: Seq<u8>, from: int, keep: int)
    requires
        seg_valid(b1, from, from + 8),
        b1.len() <= b2.len(),
        keep <= seg_offset(b1, from),
        forall|i: int| from <= i < from + 8 ==> b2[i] == b1[i],
        forall|i: int| keep <= i < b1.len() ==> b2[i] == b1[i],
    ensures
        seg_valid(b2, from, from + 8),
        seg_offset(b2, from) == seg_offset(b1, from),
        seg_length(b2, from) == seg_length(b1, from),
        seg_bytes(b2, from) == seg_bytes(b1, from),
{
    lemma_agree_subrange(b1, b2, from, from + 4);
    lemma_agree_subrange(b1, b2, from + 4, from + 8);
    let off = seg_offset(b1, from);
    let len = seg_length(b1, from);
    lemma_agree_subrange(b1, b2, off, off + len);
}

/// Decides `seg_valid` for the range `[from, to)`, rejecting and never
/// panicking on truncated buffers and out-of-range pointers.
pub fn check_segment(buf: &Vec<u8>, from: usize, to: usize) -> (r: Result<(), Error>)
    ensures
        r is Ok <==> seg_valid(buf@, from as int, to as int),
{
    let n = buf.len();
    if to > n {
        return Err(Error);
    }
    if to < 8 || from != to - 8 {
        return Err(Error);
    }
    let off = read_u32_at(buf, from);
    let len = read_u32_at(buf, from + 4);
    if (off as u64) < (to as u64) {
        return Err(Error);
    }
    if (off as u64) + (len as u64) > (n as u64) {
        return Err(Error);
    }
    Ok(())
}

/// Appends `payload` to the tail and writes the pointer to it into
/// `buf[from..to)`; every byte outside the pointer slot stays.
pub fn write_segment(buf: &mut Vec<u8>, from: usize, to: usize, payload: &Vec<u8>)
    requires
        to == from + 8,
        to <= old(buf)@.len(),
        old(buf)@.len() + payload@.len() <= 0xFFFF_FFFF,
    ensures
        final(buf)@.len() == old(buf)@.len() + payload@.len(),
        seg_valid(final(buf)@, from as int, to as int),
        seg_offset(final(buf)@, from as int) == old(buf)@.len(),
        seg_length(final(buf)@, from as int) == payload@.len(),
        seg_bytes(final(buf)@, from as int) == payload@,
        final(buf)@.subrange(old(buf)@.len() as int, final(buf)@.len() as int) == payload@,
        forall|i: int|
            0 <= i < old(buf)@.len() && !(from <= i < to) ==> final(buf)@[i] == old(buf)@[i],
{
    let off = buf.len();
    append_bytes(buf, payload.as_slice());
    let ghost mid = buf@;
    write_u32_at(buf, from, off as u32);
    write_u32_at(buf, from + 4, payload.len() as u32);
    proof {
        let fin = buf@;
        let plen = payload@.len() as int;
        assert(forall|i: int| 0 <= i < mid.len() && !(from <= i < from + 8) ==> fin[i] == mid[i]);
        lemma_agree_subrange(mid, fin, off as int, off as int + plen);
        assert(mid.subrange(off as int, off as int + plen) =~= payload@);
        lemma_auto_spec_u32_to_from_le_bytes();
        assert(u32_at(fin, from as int) == off as u32) by {
            lemma_agree_subrange(fin, fin, from as int, from as int + 4);
            assert(fin.subrange(from as int, from as int + 4) =~= spec_u32_to_le_bytes(
                off as u32,
            ));
        }
        assert(seg_offset(fin, from as int) == off as int);
        assert(seg_length(fin, from as int) == plen);
        assert(seg_bytes(fin, from as int) == payload@);
    }
}

/// Checks a plain byte segment: the pointer alone carries the structure.
pub fn check_bytes_field(buf: &Vec<u8>, from: usize, to: usize) -> (r: Result<(), Error>)
    ensures
        r is Ok <==> seg_valid(buf@, from as int, to as int),
{
    check_segment(buf, from, to)
}

/// Writes a plain byte segment whose payload is `v`.
pub fn write_bytes_field(buf: &mut Vec<u8>, from: usize, to: usize, v: &Vec<u8>)
    requires
        to == from + 8,
        to <= old(buf)@.len(),
        old(buf)@.len() + v@.len() <= 0xFFFF_FFFF,
    ensures
        final(buf)@.len() == old(buf)@.len() + v@.len(),
        seg_valid(final(buf)@, from as int, to as int),
        seg_offset(final(buf)@, from as int) == old(buf)@.len(),
        seg_bytes(final(buf)@, from as int) == v@,
        forall|i: int|
            0 <= i < old(buf)@.len() && !(from <= i < to) ==> final(buf)@[i] == old(buf)@[i],
{
    write_segment(buf, from, to, v);
}

/// Reads a plain byte segment back, assuming its check succeeded.
pub fn read_bytes_field(buf: &Vec<u8>, from: usize, to: usize) -> (r: Vec<u8>)
    requires
        seg_valid(buf@, from as int, to as int),
    ensures
        r@ == seg_bytes(buf@, from as int),
{
    let n = buf.len();
    let off = read_u32_at(buf, from) as usize;
    let len = read_u32_at(buf, from + 4) as usize;
    proof {
        assert(off + len <= n);
    }
    read_bytes_range(buf, off, off + len)
}

/// A text segment is a byte segment whose payload is well-formed UTF-8.
pub open spec fn text_valid(b: Seq<u8>, from: int, to: int) -> bool {
    seg_valid(b, from, to) && valid_utf8(seg_bytes(b, from))
}

/// The character sequence a text segment carries.
pub open spec fn text_value(b: Seq<u8>, from: int) -> Seq<char> {
    decode_utf8(seg_bytes(b, from))
}

/// Relies on core::str::from_utf8: it accepts exactly the well-formed UTF-8
/// byte sequences.
#[verifier::external_body]
fn utf8_check(bytes: &[u8]) -> (r: bool)
    ensures
        r == valid_utf8(bytes@),
{
    core::str::from_utf8(bytes).is_ok()
}

/// Relies on String::from_utf8 on well-formed input: it decodes the UTF-8
/// byte sequence handed to it.
#[verifier::external_body]
fn utf8_decode(bytes: Vec<u8>) -> (r: String)
    requires
        valid_utf8(bytes@),
    ensures
        r@ == decode_utf8(bytes@),
{
    match String::from_utf8(bytes) {
        Ok(s) => s,
        Err(_) => String::new(),
    }
}

/// Checks a text segment: pointer bounds, then UTF-8 well-formedness.
pub fn check_str_field(buf: &Vec<u8>, from: usize, to: usize) -> (r: Result<(), Error>)
    ensures
        r is Ok <==> text_valid(buf@, from as int, to as int),
{
    let checked = check_segment(buf, from, to);
    if checked.is_err() {
        return Err(Error);
    }
    let payload = read_bytes_field(buf, from, to);
    if utf8_check(payload.as_slice()) {
        Ok(())
    } else {
        Err(Error)
    }
}

/// Writes a text segment holding `s`; its payload round-trips to `s` exactly.
pub fn write_str_field(buf: &mut Vec<u8>, from: usize, to: usize, s: &str)
    requires
        to == from + 8,
        to <= old(buf)@.len(),
        old(buf)@.len() + s.spec_bytes().len() <= 0xFFFF_FFFF,
    ensures
        final(buf)@.len() == old(buf)@.len() + s.spec_bytes().len(),
        text_valid(final(buf)@, from as int, to as int),
        text_value(final(buf)@, from as int) == s@,
        forall|i: int|
            0 <= i < old(buf)@.len() && !(from <= i < to) ==> final(buf)@[i] == old(buf)@[i],
{
    let payload = s.as_bytes_vec();
    write_segment(buf, from, to, &payload);
    proof {
        encode_utf8_valid_utf8(s@);
        encode_utf8_decode_utf8(s@);
    }
}

/// Reads a text segment back as an owned string, assuming its check
/// succeeded.
pub fn read_str_field(buf: &Vec<u8>, from: usize, to: usize) -> (r: String)
    requires
        text_valid(buf@, from as int, to as int),
    ensures
        r@ == text_value(buf@, from as int),
{
    let payload = read_bytes_field(buf, from, to);
    utf8_decode(payload)
}

/// A numeric-array segment of 16-bit elements: an even payload length.
pub open spec fn u16_list_valid(b: Seq<u8>, from: int, to: int) -> bool {
    seg_valid(b, from, to) && seg_length(b, from) % 2 == 0
}

/// The 16-bit elements packed in the segment at `from`, in payload order.
pub open spec fn u16_list_value(b: Seq<u8>, from: int) -> Seq<u16> {
    Seq::new((seg_length(b, from) / 2) as nat, |i: int| u16_at(b, seg_offset(b, from) + 2 * i))
}

/// A numeric-array segment of 32-bit elements: a payload length divisible by
/// four.
pub open spec fn u32_list_valid(b: Seq<u8>, from: int, to: int) -> bool {
    seg_valid(b, from, to) && seg_length(b, from) % 4 == 0
}

/// The 32-bit elements packed in the segment at `from`, in payload order.
pub open spec fn u32_list_value(b: Seq<u8>, from: int) -> Seq<u32> {
    Seq::new((seg_length(b, from) / 4) as nat, |i: int| u32_at(b, seg_offset(b, from) + 4 * i))
}

/// Writes a segment packing `items` two bytes per element, little-endian.
pub fn write_u16_list_field(buf: &mut Vec<u8>, from: usize, to: usize, items: &Vec<u16>)
    requires
        to == from + 8,
        to <= old(buf)@.len(),
        old(buf)@.len() + 2 * items@.len() <= 0xFFFF_FFFF,
    ensures
        final(buf)@.len() == old(buf)@.len() + 2 * items@.len(),
        u16_list_valid(final(buf)@, from as int, to as int),
        u16_list_value(final(buf)@, from as int) == items@,
        seg_offset(final(buf)@, from as int) == old(buf)@.len(),
        forall|i: int|
            0 <= i < old(buf)@.len() && !(from <= i < to) ==> final(buf)@[i] == old(buf)@[i],
{
    let n = items.len();
    let mut payload: Vec<u8> = Vec::new();
    let mut k: usize = 0;
    while k < n
        invariant
            k <= n,
            n == items@.len(),
            payload@.len() == 2 * k,
            forall|j: int|
                0 <= j < k ==> payload@.subrange(2 * j, 2 * j + 2) == spec_u16_to_le_bytes(
                    items@[j],
                ),
        decreases n - k,
    {
        let ghost before = payload@;
        let bytes = u16_to_le_bytes(items[k]);
        append_bytes(&mut payload, bytes.as_slice());
        k = k + 1;
        proof {
            assert forall|j: int| 0 <= j < k implies payload@.subrange(2 * j, 2 * j + 2)
                == spec_u16_to_le_bytes(items@[j]) by {
                if j < k - 1 {
                    assert(payload@.subrange(2 * j, 2 * j + 2) =~= before.subrange(
                        2 * j,
                        2 * j + 2,
                    ));
                } else {
                    assert(payload@.subrange(2 * j, 2 * j + 2) =~= bytes@);
                }
            }
        }
    }
    write_segment(buf, from, to, &payload);
    proof {
        let fin = final(buf)@;
        let off = seg_offset(fin, from as int);
        lemma_auto_spec_u16_to_from_le_bytes();
        assert(seg_length(fin, from as int) == 2 * n);
        assert(seg_length(fin, from as int) % 2 == 0);
        assert(seg_length(fin, from as int) / 2 == n as int);
        assert forall|i: int| 0 <= i < n implies u16_at(fin, off + 2 * i) == items@[i] by {
            lemma_subrange_of_subrange(fin, off, off + 2 * n, 2 * i, 2 * i + 2);
            assert(seg_bytes(fin, from as int).subrange(2 * i, 2 * i + 2) == spec_u16_to_le_bytes(
                items@[i],
            ));
        }
        assert(u16_list_value(fin, from as int) =~= items@);
    }
}

/// Checks a 16-bit array segment: pointer bounds, then an even length.
pub fn check_u16_list_field(buf: &Vec<u8>, from: usize, to: usize) -> (r: Result<(), Error>)
    ensures
        r is Ok <==> u16_list_valid(buf@, from as int, to as int),
{
    let checked = check_segment(buf, from, to);
    if checked.is_err() {
        return Err(Error);
    }
    let len = read_u32_at(buf, from + 4);
    if len % 2 != 0 {
        return Err(Error);
    }
    Ok(())
}

/// Reads a 16-bit array segment back, assuming its check succeeded.
pub fn read_u16_list_field(buf: &Vec<u8>, from: usize, to: usize) -> (r: Vec<u16>)
    requires
        u16_list_valid(buf@, from as int, to as int),
    ensures
        r@ == u16_list_value(buf@, from as int),
{
    let n = buf.len();
    let off = read_u32_at(buf, from) as usize;
    let len = read_u32_at(buf, from + 4) as usize;
    let count = len / 2;
    proof {
        assert(2 * (len as int / 2) == len as int);
    }
    let mut r: Vec<u16> = Vec::new();
    let mut k: usize = 0;
    while k < count
        invariant
            k <= count,
            n == buf@.len(),
            off == seg_offset(buf@, from as int),
            len == seg_length(buf@, from as int),
            len % 2 == 0,
            count == len as int / 2,
            2 * count == len as int,
            off + len <= n,
            r@.len() == k,
            forall|j: int| 0 <= j < k ==> r@[j] == u16_at(buf@, off + 2 * j),
        decreases count - k,
    {
        r.push(read_u16_at(buf, off + 2 * k));
        k = k + 1;
    }
    proof {
        assert(r@ =~= u16_list_value(buf@, from as int));
    }
    r
}

/// Writes a segment packing `items` four bytes per element, little-endian.
pub fn write_u32_list_field(buf: &mut Vec<u8>, from: usize, to: usize, items: &Vec<u32>)
    requires
        to == from + 8,
        to <= old(buf)@.len(),
        old(buf)@.len() + 4 * items@.len() <= 0xFFFF_FFFF,
    ensures
        final(buf)@.len() == old(buf)@.len() + 4 * items@.len(),
        u32_list_valid(final(buf)@, from as int, to as int),
        u32_list_value(final(buf)@, from as int) == items@,
        seg_offset(final(buf)@, from as int) == old(buf)@.len(),
        forall|i: int|
            0 <= i < old(buf)@.len() && !(from <= i < to) ==> final(buf)@[i] == old(buf)@[i],
{
    let n = items.len();
    let mut payload: Vec<u8> = Vec::new();
    let mut k: usize = 0;
    while k < n
        invariant
            k <= n,
            n == items@.len(),
            payload@.len() == 4 * k,
            forall|j: int|
                0 <= j < k ==> payload@.subrange(4 * j, 4 * j + 4) == spec_u32_to_le_bytes(
                    items@[j],
                ),
        decreases n - k,
    {
        let ghost before = payload@;
        let bytes = u32_to_le_bytes(items[k]);
        append_bytes(&mut payload, bytes.as_slice());
        k = k + 1;
        proof {
            assert forall|j: int| 0 <= j < k implies payload@.subrange(4 * j, 4 * j + 4)
                == spec_u32_to_le_bytes(items@[j]) by {
                if j < k - 1 {
                    assert(payload@.subrange(4 * j, 4 * j + 4) =~= before.subrange(
                        4 * j,
                        4 * j + 4,
                    ));
                } else {
                    assert(payload@.subrange(4 * j, 4 * j + 4) =~= bytes@);
                }
            }
        }
    }
    write_segment(buf, from, to, &payload);
    proof {
        let fin = final(buf)@;
        let off = seg_offset(fin, from as int);
        lemma_auto_spec_u32_to_from_le_bytes();
        assert(seg_length(fin, from as int) == 4 * n);
        assert(seg_length(fin, from as int) % 4 == 0);
        assert(seg_length(fin, from as int) / 4 == n as int);
        assert forall|i: int| 0 <= i < n implies u32_at(fin, off + 4 * i) == items@[i] by {
            lemma_subrange_of_subrange(fin, off, off + 4 * n, 4 * i, 4 * i + 4);
            assert(seg_bytes(fin, from as int).subrange(4 * i, 4 * i + 4) == spec_u32_to_le_bytes(
                items@[i],
            ));
        }
        assert(u32_list_value(fin, from as int) =~= items@);
    }
}

/// Checks a 32-bit array segment: pointer bounds, then a length divisible by
/// four.
pub fn check_u32_list_field(buf: &Vec<u8>, from: usize, to: usize) -> (r: Result<(), Error>)
    ensures
        r is Ok <==> u32_list_valid(buf@, from as int, to as int),
{
    let checked = check_segment(buf, from, to);
    if checked.is_err() {
        return Err(Error);
    }
    let len = read_u32_at(buf, from + 4);
    if len % 4 != 0 {
        return Err(Error);
    }
    Ok(())
}

/// Reads a 32-bit array segment back, assuming its check succeeded.
pub fn read_u32_list_field(buf: &Vec<u8>, from: usize, to: usize) -> (r: Vec<u32>)
    requires
        u32_list_valid(buf@, from as int, to as int),
    ensures
        r@ == u32_list_value(buf@, from as int),
{
    let n = buf.len();
    let off = read_u32_at(buf, from) as usize;
    let len = read_u32_at(buf, from + 4) as usize;
    let count = len / 4;
    proof {
        assert(4 * (len as int / 4) == len as int);
    }
    let mut r: Vec<u32> = Vec::new();
    let mut k: usize = 0;
    while k < count
        invariant
            k <= count,
            n == buf@.len(),
            off == seg_offset(buf@, from as int),
            len == seg_length(buf@, from as int),
            len % 4 == 0,
            count == len as int / 4,
            4 * count == len as int,
            off + len <= n,
            r@.len() == k,
            forall|j: int| 0 <= j < k ==> r@[j] == u32_at(buf@, off + 4 * j),
        decreases count - k,
    {
        r.push(read_u32_at(buf, off + 4 * k));
        k = k + 1;
    }
    proof {
        assert(r@ =~= u32_list_value(buf@, from as int));
    }
    r
}

/// The summed byte length of a sequence of payloads.
pub open spec fn bytes_total(s: Seq<Seq<u8>>) -> int
    decreases s.len(),
{
    if s.len() == 0 {
        0
    } else {
        bytes_total(s.drop_last()) + s.last().len()
    }
}

/// The summed length is never negative.
pub proof fn lemma_bytes_total_nonneg(s: Seq<Seq<u8>>)
    ensures
        bytes_total(s) >= 0,
    decreases s.len(),
{
    if s.len() > 0 {
        lemma_bytes_total_nonneg(s.drop_last());
    }
}

/// One more prefix element adds exactly its length to the sum.
pub proof fn lemma_bytes_total_take_succ(s: Seq<Seq<u8>>, i: int)
    requires
        0 <= i < s.len(),
    ensures
        bytes_total(s.take(i + 1)) == bytes_total(s.take(i)) + s[i].len(),
{
    assert(s.take(i + 1).drop_last() =~= s.take(i));
    assert(s.take(i + 1).last() == s[i]);
}

/// A prefix never sums to more than the whole.
pub proof fn lemma_bytes_total_take_le(s: Seq<Seq<u8>>, i: int)
    requires
        0 <= i <= s.len(),
    ensures
        bytes_total(s.take(i)) <= bytes_total(s),
    decreases s.len() - i,
{
    if i == s.len() {
        assert(s.take(i) =~= s);
    } else {
        lemma_bytes_total_take_succ(s, i);
        lemma_bytes_total_take_le(s, i + 1);
        assert(s[i].len() >= 0);
    }
}

/// A segment of segments survives any later change that leaves its pointer
/// slot and every byte from `keep` on untouched, as long as the buffer only
/// grows and the table sits past `keep`.
pub proof fn lemma_byte_lists_frame(b1: Seq<u8>, b2: Seq<u8>, from: int, keep: int)
    requires
        byte_lists_valid(b1, from, from + 8),
        b1.len() <= b2.len(),
        keep <= seg_offset(b1, from),
        forall|i: int| from <= i < from + 8 ==> b2[i] == b1[i],
        forall|i: int| keep <= i < b1.len() ==> b2[i] == b1[i],
    ensures
        byte_lists_valid(b2, from, from + 8),
        seg_offset(b2, from) == seg_offset(b1, from),
        seg_length(b2, from) == seg_length(b1, from),
        byte_lists_value(b2, from) == byte_lists_value(b1, from),
{
    lemma_seg_frame(b1, b2, from, keep);
    let off = seg_offset(b1, from);
    let count = seg_list_count(b1, from);
    assert forall|i: int| 0 <= i < count implies #[trigger] seg_entry_valid(b2, off, i)
        && seg_bytes(b2, off + 8 * i) == seg_bytes(b1, off + 8 * i) by {
        assert(seg_entry_valid(b1, off, i));
        lemma_seg_frame(b1, b2, off + 8 * i, keep);
    }
    assert forall|i: int| 0 <= i < count implies byte_lists_value(b2, from)[i]
        == byte_lists_value(b1, from)[i] by {
        assert(seg_entry_valid(b2, off, i));
    }
    assert(byte_lists_value(b2, from) =~= byte_lists_value(b1, from));
}

/// How many inner pointers the segment-of-segments at `from` holds.
pub open spec fn seg_list_count(b: Seq<u8>, from: int) -> int {
    seg_length(b, from) / 8
}

/// The `i`-th inner pointer of a table at `off` is itself a sound segment.
pub open spec fn seg_entry_valid(b: Seq<u8>, off: int, i: int) -> bool {
    seg_valid(b, off + 8 * i, off + 8 * i + 8)
}

/// While a table is being filled: entry `j` is sound, points past the table,
/// and its payload is the `j`-th element.
spec fn entry_holds(b: Seq<u8>, t0: int, n: int, views: Seq<Seq<u8>>, j: int) -> bool {
    &&& seg_entry_valid(b, t0, j)
    &&& seg_offset(b, t0 + 8 * j) >= t0 + 8 * n
    &&& seg_bytes(b, t0 + 8 * j) == views[j]
}

/// A segment of segments: the outer payload is a table of inner pointers,
/// each of which must itself be a sound segment.
pub open spec fn byte_lists_valid(b: Seq<u8>, from: int, to: int) -> bool {
    &&& seg_valid(b, from, to)
    &&& seg_length(b, from) % 8 == 0
    &&& forall|i: int|
        0 <= i < seg_list_count(b, from) ==> #[trigger] seg_entry_valid(b, seg_offset(b, from), i)
}

/// The payloads of the inner segments, in table order.
pub open spec fn byte_lists_value(b: Seq<u8>, from: int) -> Seq<Seq<u8>> {
    Seq::new(
        seg_list_count(b, from) as nat,
        |i: int| seg_bytes(b, seg_offset(b, from) + 8 * i),
    )
}

/// Writes a segment of segments: first the zeroed inner-pointer table as the
/// outer payload, then each element's payload, filling its table entry.
pub fn write_byte_lists_field(buf: &mut Vec<u8>, from: usize, to: usize, items: &Vec<Vec<u8>>)
    requires
        to == from + 8,
        to <= old(buf)@.len(),
        old(buf)@.len() + 8 * items@.len() + bytes_total(items@.map_values(|v: Vec<u8>| v@))
            <= 0xFFFF_FFFF,
    ensures
        final(buf)@.len() == old(buf)@.len() + 8 * items@.len() + bytes_total(
            items@.map_values(|v: Vec<u8>| v@),
        ),
        byte_lists_valid(final(buf)@, from as int, to as int),
        byte_lists_value(final(buf)@, from as int) == items@.map_values(|v: Vec<u8>| v@),
        seg_offset(final(buf)@, from as int) == old(buf)@.len(),
        forall|i: int|
            0 <= i < old(buf)@.len() && !(from <= i < to) ==> final(buf)@[i] == old(buf)@[i],
{
    let ghost views = items@.map_values(|v: Vec<u8>| v@);
    proof {
        lemma_bytes_total_nonneg(views);
    }
    let n = items.len();
    let t0 = buf.len();
    let table = crate::buffer::zero_buf(8 * n);
    write_segment(buf, from, to, &table);
    let ghost base = buf@;
    let mut i: usize = 0;
    while i < n
        invariant
            i <= n,
            n == items@.len(),
            views == items@.map_values(|v: Vec<u8>| v@),
            from + 8 == to,
            to <= t0,
            t0 == old(buf)@.len(),
            base.len() == t0 + 8 * n,
            buf@.len() == base.len() + bytes_total(views.take(i as int)),
            t0 + 8 * n + bytes_total(views) <= 0xFFFF_FFFF,
            bytes_total(views.take(i as int)) <= bytes_total(views),
            bytes_total(views.take(i as int)) >= 0,
            seg_valid(buf@, from as int, to as int),
            seg_offset(buf@, from as int) == t0,
            seg_length(buf@, from as int) == 8 * n,
            forall|p: int|
                0 <= p < t0 && !(from <= p < to) ==> buf@[p] == old(buf)@[p],
            forall|j: int|
                0 <= j < i ==> #[trigger] entry_holds(buf@, t0 as int, n as int, views, j),
        decreases n - i,
    {
        let ghost prev = buf@;
        proof {
            lemma_bytes_total_take_succ(views, i as int);
            lemma_bytes_total_take_le(views, i as int + 1);
            assert(views[i as int].len() >= 0);
        }
        let p = buf.len();
        proof {
            assert(views[i as int] == items@[i as int]@);
        }
        append_bytes(buf, items[i].as_slice());
        let ghost mid = buf@;
        let elem_len = items[i].len();
        write_u32_at(buf, t0 + 8 * i, p as u32);
        write_u32_at(buf, t0 + 8 * i + 4, elem_len as u32);
        proof {
            let fin = buf@;
            let e = t0 + 8 * (i as int);
            lemma_auto_spec_u32_to_from_le_bytes();
            // The two pointer words of the new entry.
            assert(u32_at(fin, e) == p as u32) by {
                assert(fin.subrange(e, e + 4) =~= spec_u32_to_le_bytes(p as u32));
            }
            assert(u32_at(fin, e + 4) == elem_len as u32) by {
                assert(fin.subrange(e + 4, e + 8) =~= spec_u32_to_le_bytes(elem_len as u32));
            }
            assert(seg_offset(fin, e) == p as int);
            assert(seg_length(fin, e) == views[i as int].len());
            assert(seg_valid(fin, e, e + 8));
            assert(seg_bytes(fin, e) =~= views[i as int]) by {
                assert(mid.subrange(p as int, p as int + views[i as int].len() as int)
                    =~= views[i as int]);
                lemma_agree_subrange(mid, fin, p as int, p as int + views[i as int].len() as int);
            }
            // The outer pointer slot is untouched.
            assert(seg_valid(fin, from as int, to as int) && seg_offset(fin, from as int) == t0
                && seg_length(fin, from as int) == 8 * n) by {
                assert(fin.subrange(from as int, from as int + 4) =~= prev.subrange(
                    from as int,
                    from as int + 4,
                ));
                assert(fin.subrange(from as int + 4, from as int + 8) =~= prev.subrange(
                    from as int + 4,
                    from as int + 8,
                ));
            }
            assert(p as int >= t0 + 8 * n);
            assert(entry_holds(fin, t0 as int, n as int, views, i as int));
            // Earlier entries keep their slots and payloads.
            assert forall|j: int| 0 <= j < i implies #[trigger] entry_holds(
                fin,
                t0 as int,
                n as int,
                views,
                j,
            ) by {
                assert(entry_holds(prev, t0 as int, n as int, views, j));
                lemma_seg_frame(prev, fin, t0 + 8 * j, t0 + 8 * n);
            }
            assert(forall|q: int|
                0 <= q < t0 && !(from <= q < to) ==> fin[q] == prev[q]);
        }
        i = i + 1;
    }
    proof {
        let fin = buf@;
        assert(views.take(n as int) =~= views);
        assert(seg_list_count(fin, from as int) == n as int);
        assert forall|j: int| 0 <= j < seg_list_count(fin, from as int) implies
            #[trigger] seg_entry_valid(fin, seg_offset(fin, from as int), j) by {
            assert(entry_holds(fin, t0 as int, n as int, views, j));
        }
        assert(byte_lists_valid(fin, from as int, to as int));
        assert forall|j: int| 0 <= j < n implies byte_lists_value(fin, from as int)[j]
            == views[j] by {
            assert(entry_holds(fin, t0 as int, n as int, views, j));
        }
        assert(byte_lists_value(fin, from as int) =~= views);
    }
}

/// Checks a segment of segments: the outer pointer, the table length, then
/// every inner pointer.
pub fn check_byte_lists_field(buf: &Vec<u8>, from: usize, to: usize) -> (r: Result<(), Error>)
    ensures
        r is Ok <==> byte_lists_valid(buf@, from as int, to as int),
{
    let checked = check_segment(buf, from, to);
    if checked.is_err() {
        return Err(Error);
    }
    let n = buf.len();
    let off = read_u32_at(buf, from) as usize;
    let len = read_u32_at(buf, from + 4) as usize;
    if len % 8 != 0 {
        return Err(Error);
    }
    let count = len / 8;
    proof {
        assert(8 * (len as int / 8) == len as int);
    }
    let mut i: usize = 0;
    while i < count
        invariant
            i <= count,
            n == buf@.len(),
            seg_valid(buf@, from as int, to as int),
            off == seg_offset(buf@, from as int),
            len == seg_length(buf@, from as int),
            len % 8 == 0,
            count == len as int / 8,
            8 * count == len as int,
            off + len <= n,
            forall|j: int| 0 <= j < i ==> #[trigger] seg_entry_valid(buf@, off as int, j),
        decreases count - i,
    {
        let inner = check_segment(buf, off + 8 * i, off + 8 * i + 8);
        if inner.is_err() {
            proof {
                assert(!seg_entry_valid(buf@, off as int, i as int));
            }
            return Err(Error);
        }
        i = i + 1;
    }
    proof {
        assert(forall|j: int|
            0 <= j < count ==> #[trigger] seg_entry_valid(buf@, off as int, j));
    }
    Ok(())
}

/// Reads a segment of segments back as owned byte vectors, assuming its
/// check succeeded.
pub fn read_byte_lists_field(buf: &Vec<u8>, from: usize, to: usize) -> (r: Vec<Vec<u8>>)
    requires
        byte_lists_valid(buf@, from as int, to as int),
    ensures
        r@.map_values(|v: Vec<u8>| v@) == byte_lists_value(buf@, from as int),
{
    let n = buf.len();
    let off = read_u32_at(buf, from) as usize;
    let len = read_u32_at(buf, from + 4) as usize;
    let count = len / 8;
    proof {
        assert(8 * (len as int / 8) == len as int);
    }
    let mut r: Vec<Vec<u8>> = Vec::new();
    let mut i: usize = 0;
    while i < count
        invariant
            i <= count,
            n == buf@.len(),
            byte_lists_valid(buf@, from as int, to as int),
            off == seg_offset(buf@, from as int),
            len == seg_length(buf@, from as int),
            count == len as int / 8,
            8 * count == len as int,
            off + len <= n,
            r@.len() == i,
            forall|j: int| 0 <= j < i ==> r@[j]@ == seg_bytes(buf@, off + 8 * j),
        decreases count - i,
    {
        proof {
            assert(seg_entry_valid(buf@, off as int, i as int));
        }
        let inner = read_bytes_field(buf, off + 8 * i, off + 8 * i + 8);
        r.push(inner);
        i = i + 1;
    }
    proof {
        assert(r@.map_values(|v: Vec<u8>| v@) =~= byte_lists_value(buf@, from as int));
    }
    r
}

} // verus!
