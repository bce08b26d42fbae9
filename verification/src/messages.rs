//! The signed envelope: a fixed header (network id, protocol version,
//! message class, message type, total length), a body laid out by the field
//! protocol, the variable-region tail, and a 64-byte Ed25519 signature
//! trailer covering every preceding byte.

use vstd::prelude::*;

verus! {

use crate::buffer::{
    u32_at, read_u32_at, write_u8_at, write_u32_at, append_bytes, read_bytes_range, bytes_eq,
    lemma_agree_subrange, lemma_subrange_of_subrange,
};
use crate::field::{
    Error, seg_valid, seg_offset, seg_length, seg_bytes, seg_entry_valid, seg_list_count,
    byte_lists_valid, byte_lists_value, bytes_total, check_byte_lists_field,
    write_byte_lists_field, read_byte_lists_field,
};
use crate::crypto::{sig_ok, pub_of, sign, verify_signature, PublicKey, SecretKey};
use vstd::slice::slice_to_vec;

/// Bytes of the fixed header: network id, protocol version, message class,
/// message type, and the total length word.
pub const HEADER_LEN: usize = 8;

/// Bytes of the Ed25519 signature trailer.
pub const SIGNATURE_LEN: usize = 64;

/// A structurally sound envelope: room for header and trailer, and a length
/// word that states the whole buffer's length.
pub open spec fn raw_valid(b: Seq<u8>) -> bool {
    &&& b.len() >= HEADER_LEN + SIGNATURE_LEN
    &&& b.len() <= 0xFFFF_FFFF
    &&& u32_at(b, 4) as int == b.len()
}

/// Everything the signature covers: the buffer up to the trailer.
pub open spec fn signed_part(b: Seq<u8>) -> Seq<u8> {
    b.subrange(0, b.len() - SIGNATURE_LEN)
}

/// The signature trailer itself.
pub open spec fn sig_part(b: Seq<u8>) -> Seq<u8> {
    b.subrange(b.len() - SIGNATURE_LEN, b.len() as int)
}

/// Whether the envelope's trailer is an acceptable signature by `pk` over
/// the signed region.
pub open spec fn raw_verifies(b: Seq<u8>, pk: Seq<u8>) -> bool {
    b.len() >= HEADER_LEN + SIGNATURE_LEN && sig_ok(pk, signed_part(b), sig_part(b))
}

/// The full signed binary envelope of one consensus message. Immutable once
/// constructed; shared by value; equal exactly when the buffers are equal
/// byte for byte.
pub struct RawMessage {
    data: Vec<u8>,
}

impl Clone for RawMessage {
    fn clone(&self) -> (r: RawMessage)
        ensures
            r@ == self@,
    {
        RawMessage { data: slice_to_vec(self.data.as_slice()) }
    }
}

impl View for RawMessage {
    type V = Seq<u8>;

    closed spec fn view(&self) -> Seq<u8> {
        self.data@
    }
}

impl PartialEq for RawMessage {
    fn eq(&self, other: &RawMessage) -> bool {
        bytes_eq(&self.data, &other.data)
    }
}

impl vstd::std_specs::cmp::PartialEqSpecImpl for RawMessage {
    open spec fn obeys_eq_spec() -> bool {
        true
    }

    open spec fn eq_spec(&self, other: &RawMessage) -> bool {
        self@ == other@
    }
}

impl RawMessage {
    /// Wraps a byte buffer as an envelope, validated separately by `check`.
    pub fn from_vec(data: Vec<u8>) -> (r: RawMessage)
        ensures
            r@ == data@,
    {
        RawMessage { data }
    }

    /// The underlying bytes.
    pub fn as_bytes(&self) -> (r: &Vec<u8>)
        ensures
            r@ == self@,
    {
        &self.data
    }

    /// The buffer length.
    pub fn len(&self) -> (r: usize)
        ensures
            r == self@.len(),
    {
        self.data.len()
    }

    /// The message-class byte of the header.
    pub fn message_class(&self) -> (r: u8)
        requires
            self@.len() >= HEADER_LEN,
        ensures
            r == self@[2],
    {
        self.data[2]
    }

    /// The message-type byte of the header.
    pub fn message_type(&self) -> (r: u8)
        requires
            self@.len() >= HEADER_LEN,
        ensures
            r == self@[3],
    {
        self.data[3]
    }

    /// Decides `raw_valid`: room for header and trailer, and a correct
    /// total-length word.
    pub fn check(&self) -> (r: Result<(), Error>)
        ensures
            r is Ok <==> raw_valid(self@),
    {
        let n = self.data.len();
        if n < HEADER_LEN + SIGNATURE_LEN {
            return Err(Error);
        }
        if (n as u64) > 0xFFFF_FFFFu64 {
            return Err(Error);
        }
        let stated = read_u32_at(&self.data, 4);
        if (stated as u64) != (n as u64) {
            return Err(Error);
        }
        Ok(())
    }

    /// Recomputes the signature over everything before the trailer and
    /// compares; false, never a panic, on any mismatch or a buffer too short
    /// to carry header and trailer.
    pub fn verify(&self, public_key: &PublicKey) -> (r: bool)
        requires
            public_key@.len() == 32,
        ensures
            r == raw_verifies(self@, public_key@),
    {
        let n = self.data.len();
        if n < HEADER_LEN + SIGNATURE_LEN {
            return false;
        }
        let body = read_bytes_range(&self.data, 0, n - SIGNATURE_LEN);
        let sig = read_bytes_range(&self.data, n - SIGNATURE_LEN, n);
        verify_signature(body.as_slice(), sig.as_slice(), public_key)
    }
}

/// Stamps class, type and total length into the header of an assembled
/// body-and-tail buffer, signs the whole of it, and appends the trailer.
/// The result verifies under the public key matching `secret_key`.
pub(crate) fn seal_message(buf: Vec<u8>, class: u8, ty: u8, secret_key: &SecretKey) -> (r:
    RawMessage)
    requires
        buf@.len() >= HEADER_LEN,
        buf@.len() + SIGNATURE_LEN <= 0xFFFF_FFFF,
        secret_key@.len() == 32,
    ensures
        r@.len() == buf@.len() + SIGNATURE_LEN,
        raw_valid(r@),
        r@[2] == class,
        r@[3] == ty,
        forall|i: int| 8 <= i < buf@.len() ==> r@[i] == buf@[i],
        raw_verifies(r@, pub_of(secret_key@)),
{
    let mut body = buf;
    let total = body.len() + SIGNATURE_LEN;
    write_u8_at(&mut body, 2, class);
    write_u8_at(&mut body, 3, ty);
    write_u32_at(&mut body, 4, total as u32);
    let ghost signed = body@;
    let sig = sign(body.as_slice(), secret_key);
    append_bytes(&mut body, sig.as_slice());
    proof {
        let fin = body@;
        assert(fin.subrange(0, fin.len() - 64) =~= signed);
        assert(fin.subrange(fin.len() - 64, fin.len() as int) =~= sig@);
        assert(u32_at(fin, 4) == total as u32) by {
            lemma_agree_subrange(signed, fin, 4, 8);
        }
    }
    RawMessage { data: body }
}

/// A segment of segments whose every element is itself a structurally sound
/// envelope.
pub open spec fn raw_list_valid(b: Seq<u8>, from: int, to: int) -> bool {
    &&& byte_lists_valid(b, from, to)
    &&& forall|i: int|
        0 <= i < seg_list_count(b, from) ==> raw_valid(#[trigger] byte_lists_value(b, from)[i])
}

/// Writes a segment of envelopes; the table order is the element order.
pub fn write_raw_list_field(buf: &mut Vec<u8>, from: usize, to: usize, items: &Vec<RawMessage>)
    requires
        to == from + 8,
        to <= old(buf)@.len(),
        forall|i: int| 0 <= i < items@.len() ==> raw_valid(#[trigger] items@[i]@),
        old(buf)@.len() + 8 * items@.len() + bytes_total(
            items@.map_values(|m: RawMessage| m@),
        ) <= 0xFFFF_FFFF,
    ensures
        final(buf)@.len() == old(buf)@.len() + 8 * items@.len() + bytes_total(
            items@.map_values(|m: RawMessage| m@),
        ),
        raw_list_valid(final(buf)@, from as int, to as int),
        byte_lists_value(final(buf)@, from as int) == items@.map_values(|m: RawMessage| m@),
        seg_offset(final(buf)@, from as int) == old(buf)@.len(),
        forall|i: int|
            0 <= i < old(buf)@.len() && !(from <= i < to) ==> final(buf)@[i] == old(buf)@[i],
{
    let ghost views = items@.map_values(|m: RawMessage| m@);
    let n = items.len();
    let mut copies: Vec<Vec<u8>> = Vec::new();
    let mut k: usize = 0;
    while k < n
        invariant
            k <= n,
            n == items@.len(),
            copies@.len() == k,
            forall|j: int| 0 <= j < k ==> copies@[j]@ == items@[j]@,
        decreases n - k,
    {
        copies.push(slice_to_vec(items[k].as_bytes().as_slice()));
        k = k + 1;
    }
    proof {
        assert(copies@.map_values(|v: Vec<u8>| v@) =~= views);
    }
    write_byte_lists_field(buf, from, to, &copies);
    proof {
        let fin = final(buf)@;
        assert forall|i: int| 0 <= i < seg_list_count(fin, from as int) implies raw_valid(
            #[trigger] byte_lists_value(fin, from as int)[i],
        ) by {
            assert(byte_lists_value(fin, from as int)[i] == views[i]);
            assert(views[i] == items@[i]@);
        }
    }
}

/// Checks a segment of envelopes: the table, then every element's own
/// envelope structure.
pub fn check_raw_list_field(buf: &Vec<u8>, from: usize, to: usize) -> (r: Result<(), Error>)
    ensures
        r is Ok <==> raw_list_valid(buf@, from as int, to as int),
{
    let checked = check_byte_lists_field(buf, from, to);
    if checked.is_err() {
        return Err(Error);
    }
    let n = buf.len();
    let off = read_u32_at(buf, from) as usize;
    let len = read_u32_at(buf, from + 4) as usize;
    let count = len / 8;
    proof {
        assert(8 * (len as int / 8) == len as int);
    }
    let mut i: usize = 0;
    while i < count
        invariant
            i <= count,
            n == buf@.len(),
            byte_lists_valid(buf@, from as int, to as int),
            off == seg_offset(buf@, from as int),
            len == seg_length(buf@, from as int),
            count == seg_list_count(buf@, from as int),
            8 * count == len as int,
            off + len <= n,
            forall|j: int|
                0 <= j < i ==> raw_valid(#[trigger] byte_lists_value(buf@, from as int)[j]),
        decreases count - i,
    {
        proof {
            assert(seg_entry_valid(buf@, off as int, i as int));
        }
        let ioff = read_u32_at(buf, off + 8 * i) as usize;
        let ilen = read_u32_at(buf, off + 8 * i + 4) as usize;
        let ghost elem = byte_lists_value(buf@, from as int)[i as int];
        proof {
            assert(elem == seg_bytes(buf@, off + 8 * (i as int)));
            assert(elem.len() == ilen);
        }
        if ilen < HEADER_LEN + SIGNATURE_LEN {
            proof {
                assert(!raw_valid(elem));
            }
            return Err(Error);
        }
        let stated = read_u32_at(buf, ioff + 4);
        proof {
            lemma_subrange_of_subrange(buf@, ioff as int, ioff as int + ilen as int, 4, 8);
            assert(u32_at(elem, 4) == u32_at(buf@, ioff as int + 4));
        }
        if (stated as u64) != (ilen as u64) {
            proof {
                assert(!raw_valid(elem));
            }
            return Err(Error);
        }
        i = i + 1;
    }
    Ok(())
}

/// Reads a segment of envelopes back, assuming its check succeeded.
pub fn read_raw_list_field(buf: &Vec<u8>, from: usize, to: usize) -> (r: Vec<RawMessage>)
    requires
        raw_list_valid(buf@, from as int, to as int),
    ensures
        r@.map_values(|m: RawMessage| m@) == byte_lists_value(buf@, from as int),
        forall|i: int| 0 <= i < r@.len() ==> raw_valid(#[trigger] r@[i]@),
{
    let inner = read_byte_lists_field(buf, from, to);
    let ghost lists = byte_lists_value(buf@, from as int);
    let n = inner.len();
    proof {
        assert(inner@.map_values(|v: Vec<u8>| v@).len() == lists.len());
    }
    let mut r: Vec<RawMessage> = Vec::new();
    let mut k: usize = 0;
    while k < n
        invariant
            k <= n,
            n == inner@.len(),
            inner@.map_values(|v: Vec<u8>| v@) == lists,
            forall|i: int| 0 <= i < lists.len() ==> raw_valid(#[trigger] lists[i]),
            r@.len() == k,
            forall|j: int| 0 <= j < k ==> #[trigger] r@[j]@ == lists[j],
        decreases n - k,
    {
        proof {
            assert(inner@.map_values(|v: Vec<u8>| v@)[k as int] == inner@[k as int]@);
        }
        let bytes = slice_to_vec(inner[k].as_slice());
        r.push(RawMessage::from_vec(bytes));
        k = k + 1;
    }
    proof {
        assert(r@.map_values(|m: RawMessage| m@) =~= lists);
        assert forall|i: int| 0 <= i < r@.len() implies raw_valid(#[trigger] r@[i]@) by {
            assert(r@[i]@ == lists[i]);
        }
    }
    r
}

} // verus!
