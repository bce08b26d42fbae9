//! The consensus message catalogue: typed views over the signed envelope.
//! Each type fixes a field layout; constructors assemble, sign and seal the
//! buffer, and accessors read back from the fixed offsets, assuming the
//! envelope already passed its structural check.

use vstd::prelude::*;

verus! {

use crate::buffer::{
    u16_at, u32_at, u64_at, zero_buf, read_u16_at, read_u32_at, read_u64_at, write_u16_at,
    write_u32_at, write_u64_at, copy_bytes_at, read_bytes_range, lemma_agree_subrange,
    lemma_subrange_of_subrange,
};
use crate::field::Error;
use crate::crypto::{pub_of, Digest, PublicKey, SecretKey};
use crate::messages::{SIGNATURE_LEN, raw_valid, raw_verifies, RawMessage, seal_message};
use crate::field::{
    seg_valid, seg_offset, seg_length, seg_bytes, write_segment, check_segment, lemma_seg_frame,
    byte_lists_value, seg_list_count, bytes_total, lemma_bytes_total_nonneg,
    lemma_byte_lists_frame,
};
use crate::messages::{raw_list_valid, write_raw_list_field, check_raw_list_field,
    read_raw_list_field};
use crate::buffer::append_bytes;
use vstd::slice::slice_to_vec;
use vstd::bytes::{
    lemma_auto_spec_u16_to_from_le_bytes, lemma_auto_spec_u32_to_from_le_bytes,
    lemma_auto_spec_u64_to_from_le_bytes,
};

/// The message class shared by the consensus vocabulary.
pub const CONSENSUS_CLASS: u8 = 0;

pub const CONNECT_ID: u8 = 0;

pub const PROPOSE_ID: u8 = 1;

pub const PREVOTE_ID: u8 = 2;

pub const PRECOMMIT_ID: u8 = 3;

pub const STATUS_ID: u8 = 4;

pub const BLOCK_ID: u8 = 5;

pub const REQUEST_BLOCK_ID: u8 = 6;

/// A wall-clock instant as a (seconds, nanoseconds) pair, 12 bytes on the
/// wire.
#[derive(Clone, Copy, PartialEq, Eq, Structural, Debug)]
pub struct TimeSpec {
    pub sec: u64,
    pub nsec: u32,
}

impl TimeSpec {
    pub fn new(sec: u64, nsec: u32) -> (r: TimeSpec)
        ensures
            r.sec == sec,
            r.nsec == nsec,
    {
        TimeSpec { sec, nsec }
    }
}

/// A peer's network address as an IPv4 word and a port, 6 bytes on the wire.
#[derive(Clone, Copy, PartialEq, Eq, Structural, Debug)]
pub struct PeerAddr {
    pub ip: u32,
    pub port: u16,
}

impl PeerAddr {
    /// Builds the address from four dotted octets and a port.
    pub fn new(a: u8, b: u8, c: u8, d: u8, port: u16) -> (r: PeerAddr)
        ensures
            r.ip == (a as u32) * 0x100_0000 + (b as u32) * 0x1_0000 + (c as u32) * 0x100 + (
            d as u32),
            r.port == port,
    {
        let ip = (a as u32) * 0x100_0000 + (b as u32) * 0x1_0000 + (c as u32) * 0x100 + (d as u32);
        PeerAddr { ip, port }
    }
}

/// The instant stored at position `p`: seconds then nanoseconds.
pub open spec fn time_at(b: Seq<u8>, p: int) -> TimeSpec {
    TimeSpec { sec: u64_at(b, p), nsec: u32_at(b, p + 8) }
}

/// The address stored at position `p`: the IPv4 word then the port.
pub open spec fn addr_at(b: Seq<u8>, p: int) -> PeerAddr {
    PeerAddr { ip: u32_at(b, p), port: u16_at(b, p + 4) }
}

/// A sound envelope carrying the given class and type bytes with room for a
/// fixed region of `fixed` bytes.
pub open spec fn typed_valid(b: Seq<u8>, class: u8, ty: u8, fixed: int) -> bool {
    &&& raw_valid(b)
    &&& b.len() >= fixed + SIGNATURE_LEN
    &&& b[2] == class
    &&& b[3] == ty
}

/// Writes the instant `t` at `[p, p + 12)`.
fn write_time_at(buf: &mut Vec<u8>, p: usize, t: TimeSpec)
    requires
        p + 12 <= old(buf)@.len(),
    ensures
        final(buf)@.len() == old(buf)@.len(),
        time_at(final(buf)@, p as int) == t,
        forall|i: int|
            0 <= i < final(buf)@.len() && !(p <= i < p + 12) ==> final(buf)@[i] == old(buf)@[i],
{
    let buflen = buf.len();
    write_u64_at(buf, p, t.sec);
    write_u32_at(buf, p + 8, t.nsec);
    proof {
        let fin = final(buf)@;
        assert(u64_at(fin, p as int) == t.sec) by {
            assert(fin.subrange(p as int, p as int + 8) =~= vstd::bytes::spec_u64_to_le_bytes(
                t.sec,
            ));
            lemma_auto_spec_u64_to_from_le_bytes();
        }
        assert(time_at(fin, p as int) == t);
    }
}

/// Writes the address `a` at `[p, p + 6)`.
fn write_addr_at(buf: &mut Vec<u8>, p: usize, a: PeerAddr)
    requires
        p + 6 <= old(buf)@.len(),
    ensures
        final(buf)@.len() == old(buf)@.len(),
        addr_at(final(buf)@, p as int) == a,
        forall|i: int|
            0 <= i < final(buf)@.len() && !(p <= i < p + 6) ==> final(buf)@[i] == old(buf)@[i],
{
    let buflen = buf.len();
    write_u32_at(buf, p, a.ip);
    write_u16_at(buf, p + 4, a.port);
    proof {
        let fin = final(buf)@;
        assert(u32_at(fin, p as int) == a.ip) by {
            assert(fin.subrange(p as int, p as int + 4) =~= vstd::bytes::spec_u32_to_le_bytes(
                a.ip,
            ));
            lemma_auto_spec_u32_to_from_le_bytes();
        }
        assert(addr_at(fin, p as int) == a);
    }
}

/// Reads the 32-byte hash stored inline at `p`.
fn read_hash_at(buf: &Vec<u8>, p: usize) -> (r: Digest)
    requires
        p + 32 <= buf@.len(),
    ensures
        r@ == buf@.subrange(p as int, p as int + 32),
{
    let buflen = buf.len();
    Digest::new(read_bytes_range(buf, p, p + 32))
}

/// A node's announcement of its own chain position: validator id, height,
/// and the hash of its last block.
pub struct Status {
    raw: RawMessage,
}

impl View for Status {
    type V = Seq<u8>;

    closed spec fn view(&self) -> Seq<u8> {
        self.raw@
    }
}

impl PartialEq for Status {
    fn eq(&self, other: &Status) -> bool {
        self.raw == other.raw
    }
}

impl vstd::std_specs::cmp::PartialEqSpecImpl for Status {
    open spec fn obeys_eq_spec() -> bool {
        true
    }

    open spec fn eq_spec(&self, other: &Status) -> bool {
        self@ == other@
    }
}

impl Clone for Status {
    fn clone(&self) -> (r: Status)
        ensures
            r@ == self@,
    {
        Status { raw: self.raw.clone() }
    }
}

/// Structural validity of a status envelope.
pub open spec fn status_valid(b: Seq<u8>) -> bool {
    typed_valid(b, CONSENSUS_CLASS, STATUS_ID, 52)
}

impl Status {
    pub open spec fn wf(&self) -> bool {
        status_valid(self@)
    }

    pub open spec fn validator_spec(&self) -> u32 {
        u32_at(self@, 8)
    }

    pub open spec fn height_spec(&self) -> u64 {
        u64_at(self@, 12)
    }

    pub open spec fn last_hash_spec(&self) -> Seq<u8> {
        self@.subrange(20, 52)
    }

    /// Assembles, signs and seals a status message.
    pub fn new(validator: u32, height: u64, last_hash: &Digest, secret_key: &SecretKey) -> (r:
        Status)
        requires
            last_hash@.len() == 32,
            secret_key@.len() == 32,
        ensures
            r.wf(),
            r.validator_spec() == validator,
            r.height_spec() == height,
            r.last_hash_spec() == last_hash@,
            raw_verifies(r@, pub_of(secret_key@)),
    {
        let mut buf = zero_buf(52);
        write_u32_at(&mut buf, 8, validator);
        write_u64_at(&mut buf, 12, height);
        copy_bytes_at(&mut buf, 20, last_hash.as_bytes());
        let ghost assembled = buf@;
        let raw = seal_message(buf, CONSENSUS_CLASS, STATUS_ID, secret_key);
        proof {
            let fin = raw@;
            lemma_auto_spec_u32_to_from_le_bytes();
            lemma_auto_spec_u64_to_from_le_bytes();
            assert(fin.subrange(8, 12) =~= vstd::bytes::spec_u32_to_le_bytes(validator));
            assert(fin.subrange(12, 20) =~= vstd::bytes::spec_u64_to_le_bytes(height));
            assert(fin.subrange(20, 52) =~= last_hash@);
        }
        Status { raw }
    }

    /// Wraps a checked envelope; rejects any buffer that fails the status
    /// structure.
    pub fn from_raw(raw: RawMessage) -> (r: Result<Status, Error>)
        ensures
            r is Ok <==> status_valid(raw@),
            r matches Ok(m) ==> m@ == raw@,
    {
        let checked = raw.check();
        if checked.is_err() {
            return Err(Error);
        }
        if raw.len() < 52 + SIGNATURE_LEN {
            return Err(Error);
        }
        if raw.message_class() != CONSENSUS_CLASS || raw.message_type() != STATUS_ID {
            return Err(Error);
        }
        Ok(Status { raw })
    }

    pub fn raw(&self) -> (r: &RawMessage)
        ensures
            r@ == self@,
    {
        &self.raw
    }

    pub fn validator(&self) -> (r: u32)
        requires
            self.wf(),
        ensures
            r == self.validator_spec(),
    {
        read_u32_at(self.raw.as_bytes(), 8)
    }

    pub fn height(&self) -> (r: u64)
        requires
            self.wf(),
        ensures
            r == self.height_spec(),
    {
        read_u64_at(self.raw.as_bytes(), 12)
    }

    pub fn last_hash(&self) -> (r: Digest)
        requires
            self.wf(),
        ensures
            r@ == self.last_hash_spec(),
    {
        read_hash_at(self.raw.as_bytes(), 20)
    }

    pub fn verify(&self, public_key: &PublicKey) -> (r: bool)
        requires
            public_key@.len() == 32,
        ensures
            r == raw_verifies(self@, public_key@),
    {
        self.raw.verify(public_key)
    }
}

/// A handshake announcing a peer's public key, listen address and local
/// time.
pub struct Connect {
    raw: RawMessage,
}

impl View for Connect {
    type V = Seq<u8>;

    closed spec fn view(&self) -> Seq<u8> {
        self.raw@
    }
}

/// Structural validity of a connect envelope.
pub open spec fn connect_valid(b: Seq<u8>) -> bool {
    typed_valid(b, CONSENSUS_CLASS, CONNECT_ID, 58)
}

impl Connect {
    pub open spec fn wf(&self) -> bool {
        connect_valid(self@)
    }

    pub open spec fn pub_key_spec(&self) -> Seq<u8> {
        self@.subrange(8, 40)
    }

    pub open spec fn addr_spec(&self) -> PeerAddr {
        addr_at(self@, 40)
    }

    pub open spec fn time_spec(&self) -> TimeSpec {
        time_at(self@, 46)
    }

    /// Assembles, signs and seals a connect message.
    pub fn new(public_key: &PublicKey, addr: PeerAddr, time: TimeSpec, secret_key: &SecretKey)
        -> (r: Connect)
        requires
            public_key@.len() == 32,
            secret_key@.len() == 32,
        ensures
            r.wf(),
            r.pub_key_spec() == public_key@,
            r.addr_spec() == addr,
            r.time_spec() == time,
            raw_verifies(r@, pub_of(secret_key@)),
    {
        let mut buf = zero_buf(58);
        copy_bytes_at(&mut buf, 8, public_key.as_bytes());
        write_addr_at(&mut buf, 40, addr);
        let ghost baddr = buf@;
        write_time_at(&mut buf, 46, time);
        let ghost btime = buf@;
        let raw = seal_message(buf, CONSENSUS_CLASS, CONNECT_ID, secret_key);
        proof {
            let fin = raw@;
            assert(fin.subrange(8, 40) =~= public_key@);
            lemma_agree_subrange(baddr, fin, 40, 44);
            lemma_agree_subrange(baddr, fin, 44, 46);
            lemma_agree_subrange(btime, fin, 46, 54);
            lemma_agree_subrange(btime, fin, 54, 58);
        }
        Connect { raw }
    }

    /// Wraps a checked envelope; rejects any buffer that fails the connect
    /// structure.
    pub fn from_raw(raw: RawMessage) -> (r: Result<Connect, Error>)
        ensures
            r is Ok <==> connect_valid(raw@),
            r matches Ok(m) ==> m@ == raw@,
    {
        let checked = raw.check();
        if checked.is_err() {
            return Err(Error);
        }
        if raw.len() < 58 + SIGNATURE_LEN {
            return Err(Error);
        }
        if raw.message_class() != CONSENSUS_CLASS || raw.message_type() != CONNECT_ID {
            return Err(Error);
        }
        Ok(Connect { raw })
    }

    pub fn raw(&self) -> (r: &RawMessage)
        ensures
            r@ == self@,
    {
        &self.raw
    }

    pub fn pub_key(&self) -> (r: PublicKey)
        requires
            self.wf(),
        ensures
            r@ == self.pub_key_spec(),
    {
        PublicKey::new(read_bytes_range(self.raw.as_bytes(), 8, 40))
    }

    pub fn addr(&self) -> (r: PeerAddr)
        requires
            self.wf(),
        ensures
            r == self.addr_spec(),
    {
        let ip = read_u32_at(self.raw.as_bytes(), 40);
        let port = read_u16_at(self.raw.as_bytes(), 44);
        PeerAddr { ip, port }
    }

    pub fn time(&self) -> (r: TimeSpec)
        requires
            self.wf(),
        ensures
            r == self.time_spec(),
    {
        let sec = read_u64_at(self.raw.as_bytes(), 46);
        let nsec = read_u32_at(self.raw.as_bytes(), 54);
        TimeSpec { sec, nsec }
    }

    pub fn verify(&self, public_key: &PublicKey) -> (r: bool)
        requires
            public_key@.len() == 32,
        ensures
            r == raw_verifies(self@, public_key@),
    {
        self.raw.verify(public_key)
    }
}

/// A first-phase vote for a proposal.
pub struct Prevote {
    raw: RawMessage,
}

impl View for Prevote {
    type V = Seq<u8>;

    closed spec fn view(&self) -> Seq<u8> {
        self.raw@
    }
}

/// Structural validity of a prevote envelope.
pub open spec fn prevote_valid(b: Seq<u8>) -> bool {
    typed_valid(b, CONSENSUS_CLASS, PREVOTE_ID, 60)
}

impl Prevote {
    pub open spec fn wf(&self) -> bool {
        prevote_valid(self@)
    }

    pub open spec fn validator_spec(&self) -> u32 {
        u32_at(self@, 8)
    }

    pub open spec fn height_spec(&self) -> u64 {
        u64_at(self@, 12)
    }

    pub open spec fn round_spec(&self) -> u32 {
        u32_at(self@, 20)
    }

    pub open spec fn propose_hash_spec(&self) -> Seq<u8> {
        self@.subrange(24, 56)
    }

    pub open spec fn locked_round_spec(&self) -> u32 {
        u32_at(self@, 56)
    }

    /// Assembles, signs and seals a prevote.
    pub fn new(
        validator: u32,
        height: u64,
        round: u32,
        propose_hash: &Digest,
        locked_round: u32,
        secret_key: &SecretKey,
    ) -> (r: Prevote)
        requires
            propose_hash@.len() == 32,
            secret_key@.len() == 32,
        ensures
            r.wf(),
            r.validator_spec() == validator,
            r.height_spec() == height,
            r.round_spec() == round,
            r.propose_hash_spec() == propose_hash@,
            r.locked_round_spec() == locked_round,
            raw_verifies(r@, pub_of(secret_key@)),
    {
        let mut buf = zero_buf(60);
        write_u32_at(&mut buf, 8, validator);
        write_u64_at(&mut buf, 12, height);
        write_u32_at(&mut buf, 20, round);
        copy_bytes_at(&mut buf, 24, propose_hash.as_bytes());
        write_u32_at(&mut buf, 56, locked_round);
        let raw = seal_message(buf, CONSENSUS_CLASS, PREVOTE_ID, secret_key);
        proof {
            let fin = raw@;
            lemma_auto_spec_u32_to_from_le_bytes();
            lemma_auto_spec_u64_to_from_le_bytes();
            assert(fin.subrange(8, 12) =~= vstd::bytes::spec_u32_to_le_bytes(validator));
            assert(fin.subrange(12, 20) =~= vstd::bytes::spec_u64_to_le_bytes(height));
            assert(fin.subrange(20, 24) =~= vstd::bytes::spec_u32_to_le_bytes(round));
            assert(fin.subrange(24, 56) =~= propose_hash@);
            assert(fin.subrange(56, 60) =~= vstd::bytes::spec_u32_to_le_bytes(locked_round));
        }
        Prevote { raw }
    }

    /// Wraps a checked envelope; rejects any buffer that fails the prevote
    /// structure.
    pub fn from_raw(raw: RawMessage) -> (r: Result<Prevote, Error>)
        ensures
            r is Ok <==> prevote_valid(raw@),
            r matches Ok(m) ==> m@ == raw@,
    {
        let checked = raw.check();
        if checked.is_err() {
            return Err(Error);
        }
        if raw.len() < 60 + SIGNATURE_LEN {
            return Err(Error);
        }
        if raw.message_class() != CONSENSUS_CLASS || raw.message_type() != PREVOTE_ID {
            return Err(Error);
        }
        Ok(Prevote { raw })
    }

    pub fn raw(&self) -> (r: &RawMessage)
        ensures
            r@ == self@,
    {
        &self.raw
    }

    pub fn validator(&self) -> (r: u32)
        requires
            self.wf(),
        ensures
            r == self.validator_spec(),
    {
        read_u32_at(self.raw.as_bytes(), 8)
    }

    pub fn height(&self) -> (r: u64)
        requires
            self.wf(),
        ensures
            r == self.height_spec(),
    {
        read_u64_at(self.raw.as_bytes(), 12)
    }

    pub fn round(&self) -> (r: u32)
        requires
            self.wf(),
        ensures
            r == self.round_spec(),
    {
        read_u32_at(self.raw.as_bytes(), 20)
    }

    pub fn propose_hash(&self) -> (r: Digest)
        requires
            self.wf(),
        ensures
            r@ == self.propose_hash_spec(),
    {
        read_hash_at(self.raw.as_bytes(), 24)
    }

    pub fn locked_round(&self) -> (r: u32)
        requires
            self.wf(),
        ensures
            r == self.locked_round_spec(),
    {
        read_u32_at(self.raw.as_bytes(), 56)
    }

    pub fn verify(&self, public_key: &PublicKey) -> (r: bool)
        requires
            public_key@.len() == 32,
        ensures
            r == raw_verifies(self@, public_key@),
    {
        self.raw.verify(public_key)
    }
}

/// A second-phase (commit) vote naming both the proposal and the block it
/// commits.
pub struct Precommit {
    raw: RawMessage,
}

impl View for Precommit {
    type V = Seq<u8>;

    closed spec fn view(&self) -> Seq<u8> {
        self.raw@
    }
}

impl PartialEq for Precommit {
    fn eq(&self, other: &Precommit) -> bool {
        self.raw == other.raw
    }
}

impl vstd::std_specs::cmp::PartialEqSpecImpl for Precommit {
    open spec fn obeys_eq_spec() -> bool {
        true
    }

    open spec fn eq_spec(&self, other: &Precommit) -> bool {
        self@ == other@
    }
}

impl Clone for Precommit {
    fn clone(&self) -> (r: Precommit)
        ensures
            r@ == self@,
    {
        Precommit { raw: self.raw.clone() }
    }
}

/// Structural validity of a precommit envelope.
pub open spec fn precommit_valid(b: Seq<u8>) -> bool {
    typed_valid(b, CONSENSUS_CLASS, PRECOMMIT_ID, 88)
}

impl Precommit {
    pub open spec fn wf(&self) -> bool {
        precommit_valid(self@)
    }

    pub open spec fn validator_spec(&self) -> u32 {
        u32_at(self@, 8)
    }

    pub open spec fn height_spec(&self) -> u64 {
        u64_at(self@, 12)
    }

    pub open spec fn round_spec(&self) -> u32 {
        u32_at(self@, 20)
    }

    pub open spec fn propose_hash_spec(&self) -> Seq<u8> {
        self@.subrange(24, 56)
    }

    pub open spec fn block_hash_spec(&self) -> Seq<u8> {
        self@.subrange(56, 88)
    }

    /// Assembles, signs and seals a precommit.
    pub fn new(
        validator: u32,
        height: u64,
        round: u32,
        propose_hash: &Digest,
        block_hash: &Digest,
        secret_key: &SecretKey,
    ) -> (r: Precommit)
        requires
            propose_hash@.len() == 32,
            block_hash@.len() == 32,
            secret_key@.len() == 32,
        ensures
            r.wf(),
            r.validator_spec() == validator,
            r.height_spec() == height,
            r.round_spec() == round,
            r.propose_hash_spec() == propose_hash@,
            r.block_hash_spec() == block_hash@,
            raw_verifies(r@, pub_of(secret_key@)),
    {
        let mut buf = zero_buf(88);
        write_u32_at(&mut buf, 8, validator);
        write_u64_at(&mut buf, 12, height);
        write_u32_at(&mut buf, 20, round);
        copy_bytes_at(&mut buf, 24, propose_hash.as_bytes());
        copy_bytes_at(&mut buf, 56, block_hash.as_bytes());
        let raw = seal_message(buf, CONSENSUS_CLASS, PRECOMMIT_ID, secret_key);
        proof {
            let fin = raw@;
            lemma_auto_spec_u32_to_from_le_bytes();
            lemma_auto_spec_u64_to_from_le_bytes();
            assert(fin.subrange(8, 12) =~= vstd::bytes::spec_u32_to_le_bytes(validator));
            assert(fin.subrange(12, 20) =~= vstd::bytes::spec_u64_to_le_bytes(height));
            assert(fin.subrange(20, 24) =~= vstd::bytes::spec_u32_to_le_bytes(round));
            assert(fin.subrange(24, 56) =~= propose_hash@);
            assert(fin.subrange(56, 88) =~= block_hash@);
        }
        Precommit { raw }
    }

    /// Wraps a checked envelope; rejects any buffer that fails the precommit
    /// structure.
    pub fn from_raw(raw: RawMessage) -> (r: Result<Precommit, Error>)
        ensures
            r is Ok <==> precommit_valid(raw@),
            r matches Ok(m) ==> m@ == raw@,
    {
        let checked = raw.check();
        if checked.is_err() {
            return Err(Error);
        }
        if raw.len() < 88 + SIGNATURE_LEN {
            return Err(Error);
        }
        if raw.message_class() != CONSENSUS_CLASS || raw.message_type() != PRECOMMIT_ID {
            return Err(Error);
        }
        Ok(Precommit { raw })
    }

    pub fn raw(&self) -> (r: &RawMessage)
        ensures
            r@ == self@,
    {
        &self.raw
    }

    pub fn validator(&self) -> (r: u32)
        requires
            self.wf(),
        ensures
            r == self.validator_spec(),
    {
        read_u32_at(self.raw.as_bytes(), 8)
    }

    pub fn height(&self) -> (r: u64)
        requires
            self.wf(),
        ensures
            r == self.height_spec(),
    {
        read_u64_at(self.raw.as_bytes(), 12)
    }

    pub fn round(&self) -> (r: u32)
        requires
            self.wf(),
        ensures
            r == self.round_spec(),
    {
        read_u32_at(self.raw.as_bytes(), 20)
    }

    pub fn propose_hash(&self) -> (r: Digest)
        requires
            self.wf(),
        ensures
            r@ == self.propose_hash_spec(),
    {
        read_hash_at(self.raw.as_bytes(), 24)
    }

    pub fn block_hash(&self) -> (r: Digest)
        requires
            self.wf(),
        ensures
            r@ == self.block_hash_spec(),
    {
        read_hash_at(self.raw.as_bytes(), 56)
    }

    pub fn verify(&self, public_key: &PublicKey) -> (r: bool)
        requires
            public_key@.len() == 32,
        ensures
            r == raw_verifies(self@, public_key@),
    {
        self.raw.verify(public_key)
    }
}

/// A request that a peer send the block at a given height.
pub struct RequestBlock {
    raw: RawMessage,
}

impl View for RequestBlock {
    type V = Seq<u8>;

    closed spec fn view(&self) -> Seq<u8> {
        self.raw@
    }
}

/// Structural validity of a block-request envelope.
pub open spec fn request_block_valid(b: Seq<u8>) -> bool {
    typed_valid(b, CONSENSUS_CLASS, REQUEST_BLOCK_ID, 92)
}

impl RequestBlock {
    pub open spec fn wf(&self) -> bool {
        request_block_valid(self@)
    }

    pub open spec fn from_spec(&self) -> Seq<u8> {
        self@.subrange(8, 40)
    }

    pub open spec fn to_spec(&self) -> Seq<u8> {
        self@.subrange(40, 72)
    }

    pub open spec fn time_spec(&self) -> TimeSpec {
        time_at(self@, 72)
    }

    pub open spec fn height_spec(&self) -> u64 {
        u64_at(self@, 84)
    }

    /// Assembles, signs and seals a block request.
    pub fn new(
        from: &PublicKey,
        to: &PublicKey,
        time: TimeSpec,
        height: u64,
        secret_key: &SecretKey,
    ) -> (r: RequestBlock)
        requires
            from@.len() == 32,
            to@.len() == 32,
            secret_key@.len() == 32,
        ensures
            r.wf(),
            r.from_spec() == from@,
            r.to_spec() == to@,
            r.time_spec() == time,
            r.height_spec() == height,
            raw_verifies(r@, pub_of(secret_key@)),
    {
        let mut buf = zero_buf(92);
        copy_bytes_at(&mut buf, 8, from.as_bytes());
        copy_bytes_at(&mut buf, 40, to.as_bytes());
        write_time_at(&mut buf, 72, time);
        let ghost btime = buf@;
        write_u64_at(&mut buf, 84, height);
        let raw = seal_message(buf, CONSENSUS_CLASS, REQUEST_BLOCK_ID, secret_key);
        proof {
            let fin = raw@;
            lemma_auto_spec_u64_to_from_le_bytes();
            assert(fin.subrange(8, 40) =~= from@);
            assert(fin.subrange(40, 72) =~= to@);
            lemma_agree_subrange(btime, fin, 72, 80);
            lemma_agree_subrange(btime, fin, 80, 84);
            assert(fin.subrange(84, 92) =~= vstd::bytes::spec_u64_to_le_bytes(height));
        }
        RequestBlock { raw }
    }

    /// Wraps a checked envelope; rejects any buffer that fails the
    /// block-request structure.
    pub fn from_raw(raw: RawMessage) -> (r: Result<RequestBlock, Error>)
        ensures
            r is Ok <==> request_block_valid(raw@),
            r matches Ok(m) ==> m@ == raw@,
    {
        let checked = raw.check();
        if checked.is_err() {
            return Err(Error);
        }
        if raw.len() < 92 + SIGNATURE_LEN {
            return Err(Error);
        }
        if raw.message_class() != CONSENSUS_CLASS || raw.message_type() != REQUEST_BLOCK_ID {
            return Err(Error);
        }
        Ok(RequestBlock { raw })
    }

    pub fn raw(&self) -> (r: &RawMessage)
        ensures
            r@ == self@,
    {
        &self.raw
    }

    pub fn from(&self) -> (r: PublicKey)
        requires
            self.wf(),
        ensures
            r@ == self.from_spec(),
    {
        PublicKey::new(read_bytes_range(self.raw.as_bytes(), 8, 40))
    }

    pub fn to(&self) -> (r: PublicKey)
        requires
            self.wf(),
        ensures
            r@ == self.to_spec(),
    {
        PublicKey::new(read_bytes_range(self.raw.as_bytes(), 40, 72))
    }

    pub fn time(&self) -> (r: TimeSpec)
        requires
            self.wf(),
        ensures
            r == self.time_spec(),
    {
        let sec = read_u64_at(self.raw.as_bytes(), 72);
        let nsec = read_u32_at(self.raw.as_bytes(), 80);
        TimeSpec { sec, nsec }
    }

    pub fn height(&self) -> (r: u64)
        requires
            self.wf(),
        ensures
            r == self.height_spec(),
    {
        read_u64_at(self.raw.as_bytes(), 84)
    }

    pub fn verify(&self, public_key: &PublicKey) -> (r: bool)
        requires
            public_key@.len() == 32,
        ensures
            r == raw_verifies(self@, public_key@),
    {
        self.raw.verify(public_key)
    }
}

/// A payload cut into consecutive 32-byte digests.
pub open spec fn hash_chunks(payload: Seq<u8>) -> Seq<Seq<u8>> {
    Seq::new((payload.len() / 32) as nat, |i: int| payload.subrange(32 * i, 32 * i + 32))
}

/// A proposal for the next block: scope counters, the previous block's hash
/// and the ordered transaction hashes it would commit.
pub struct Propose {
    raw: RawMessage,
}

impl View for Propose {
    type V = Seq<u8>;

    closed spec fn view(&self) -> Seq<u8> {
        self.raw@
    }
}

/// Structural validity of a propose envelope: the fixed fields plus a sound
/// transaction-hash segment cut into 32-byte entries.
pub open spec fn propose_valid(b: Seq<u8>) -> bool {
    &&& typed_valid(b, CONSENSUS_CLASS, PROPOSE_ID, 76)
    &&& seg_valid(b, 68, 76)
    &&& seg_length(b, 68) % 32 == 0
}

impl Propose {
    pub open spec fn wf(&self) -> bool {
        propose_valid(self@)
    }

    pub open spec fn validator_spec(&self) -> u32 {
        u32_at(self@, 8)
    }

    pub open spec fn height_spec(&self) -> u64 {
        u64_at(self@, 12)
    }

    pub open spec fn round_spec(&self) -> u32 {
        u32_at(self@, 20)
    }

    pub open spec fn time_spec(&self) -> TimeSpec {
        time_at(self@, 24)
    }

    pub open spec fn prev_hash_spec(&self) -> Seq<u8> {
        self@.subrange(36, 68)
    }

    pub open spec fn transactions_spec(&self) -> Seq<Seq<u8>> {
        hash_chunks(seg_bytes(self@, 68))
    }

    /// Assembles, signs and seals a proposal; the transaction hashes keep
    /// their order, duplicates included.
    pub fn new(
        validator: u32,
        height: u64,
        round: u32,
        time: TimeSpec,
        prev_hash: &Digest,
        transactions: &Vec<Digest>,
        secret_key: &SecretKey,
    ) -> (r: Propose)
        requires
            prev_hash@.len() == 32,
            forall|i: int| 0 <= i < transactions@.len() ==> (#[trigger] transactions@[i])@.len()
                == 32,
            secret_key@.len() == 32,
            140 + 32 * transactions@.len() <= 0xFFFF_FFFF,
        ensures
            r.wf(),
            r.validator_spec() == validator,
            r.height_spec() == height,
            r.round_spec() == round,
            r.time_spec() == time,
            r.prev_hash_spec() == prev_hash@,
            r.transactions_spec() == transactions@.map_values(|h: Digest| h@),
            raw_verifies(r@, pub_of(secret_key@)),
    {
        let ghost views = transactions@.map_values(|h: Digest| h@);
        let mut buf = zero_buf(76);
        write_u32_at(&mut buf, 8, validator);
        write_u64_at(&mut buf, 12, height);
        write_u32_at(&mut buf, 20, round);
        write_time_at(&mut buf, 24, time);
        let ghost btime = buf@;
        copy_bytes_at(&mut buf, 36, prev_hash.as_bytes());
        let n = transactions.len();
        let mut payload: Vec<u8> = Vec::new();
        let mut k: usize = 0;
        while k < n
            invariant
                k <= n,
                n == transactions@.len(),
                forall|i: int| 0 <= i < n ==> (#[trigger] transactions@[i])@.len() == 32,
                140 + 32 * n <= 0xFFFF_FFFF,
                payload@.len() == 32 * k,
                forall|j: int|
                    0 <= j < k ==> payload@.subrange(32 * j, 32 * j + 32)
                        == (#[trigger] transactions@[j])@,
            decreases n - k,
        {
            let ghost before = payload@;
            append_bytes(&mut payload, transactions[k].as_bytes().as_slice());
            k = k + 1;
            proof {
                assert forall|j: int| 0 <= j < k implies payload@.subrange(32 * j, 32 * j + 32)
                    == (#[trigger] transactions@[j])@ by {
                    if j < k - 1 {
                        assert(payload@.subrange(32 * j, 32 * j + 32) =~= before.subrange(
                            32 * j,
                            32 * j + 32,
                        ));
                    } else {
                        assert(payload@.subrange(32 * j, 32 * j + 32)
                            =~= transactions@[j]@);
                    }
                }
            }
        }
        write_segment(&mut buf, 68, 76, &payload);
        let ghost bseg = buf@;
        let raw = seal_message(buf, CONSENSUS_CLASS, PROPOSE_ID, secret_key);
        proof {
            let fin = raw@;
            lemma_auto_spec_u32_to_from_le_bytes();
            lemma_auto_spec_u64_to_from_le_bytes();
            assert(fin.subrange(8, 12) =~= vstd::bytes::spec_u32_to_le_bytes(validator));
            assert(fin.subrange(12, 20) =~= vstd::bytes::spec_u64_to_le_bytes(height));
            assert(fin.subrange(20, 24) =~= vstd::bytes::spec_u32_to_le_bytes(round));
            lemma_agree_subrange(btime, fin, 24, 32);
            lemma_agree_subrange(btime, fin, 32, 36);
            assert(fin.subrange(36, 68) =~= prev_hash@);
            lemma_seg_frame(bseg, fin, 68, 76);
            assert(seg_bytes(fin, 68) == payload@);
            assert(seg_length(fin, 68) == 32 * n);
            assert(seg_length(fin, 68) % 32 == 0);
            assert((payload@.len() as int) / 32 == n as int);
            assert forall|i: int| 0 <= i < n implies hash_chunks(payload@)[i] == views[i] by {
                assert(payload@.subrange(32 * i, 32 * i + 32) == transactions@[i]@);
            }
            assert(hash_chunks(payload@) =~= views);
        }
        Propose { raw }
    }

    /// Wraps a checked envelope; rejects any buffer that fails the propose
    /// structure.
    pub fn from_raw(raw: RawMessage) -> (r: Result<Propose, Error>)
        ensures
            r is Ok <==> propose_valid(raw@),
            r matches Ok(m) ==> m@ == raw@,
    {
        let checked = raw.check();
        if checked.is_err() {
            return Err(Error);
        }
        if raw.len() < 76 + SIGNATURE_LEN {
            return Err(Error);
        }
        if raw.message_class() != CONSENSUS_CLASS || raw.message_type() != PROPOSE_ID {
            return Err(Error);
        }
        let seg = check_segment(raw.as_bytes(), 68, 76);
        if seg.is_err() {
            return Err(Error);
        }
        let len = read_u32_at(raw.as_bytes(), 72);
        if len % 32 != 0 {
            return Err(Error);
        }
        Ok(Propose { raw })
    }

    pub fn raw(&self) -> (r: &RawMessage)
        ensures
            r@ == self@,
    {
        &self.raw
    }

    pub fn validator(&self) -> (r: u32)
        requires
            self.wf(),
        ensures
            r == self.validator_spec(),
    {
        read_u32_at(self.raw.as_bytes(), 8)
    }

    pub fn height(&self) -> (r: u64)
        requires
            self.wf(),
        ensures
            r == self.height_spec(),
    {
        read_u64_at(self.raw.as_bytes(), 12)
    }

    pub fn round(&self) -> (r: u32)
        requires
            self.wf(),
        ensures
            r == self.round_spec(),
    {
        read_u32_at(self.raw.as_bytes(), 20)
    }

    pub fn time(&self) -> (r: TimeSpec)
        requires
            self.wf(),
        ensures
            r == self.time_spec(),
    {
        let sec = read_u64_at(self.raw.as_bytes(), 24);
        let nsec = read_u32_at(self.raw.as_bytes(), 32);
        TimeSpec { sec, nsec }
    }

    pub fn prev_hash(&self) -> (r: Digest)
        requires
            self.wf(),
        ensures
            r@ == self.prev_hash_spec(),
    {
        read_hash_at(self.raw.as_bytes(), 36)
    }

    /// The transaction hashes, in the order they were proposed.
    pub fn transactions(&self) -> (r: Vec<Digest>)
        requires
            self.wf(),
        ensures
            r@.map_values(|h: Digest| h@) == self.transactions_spec(),
    {
        let b = self.raw.as_bytes();
        let n = b.len();
        let off = read_u32_at(b, 68) as usize;
        let len = read_u32_at(b, 72) as usize;
        let count = len / 32;
        proof {
            assert(32 * (len as int / 32) == len as int);
        }
        let mut r: Vec<Digest> = Vec::new();
        let mut k: usize = 0;
        while k < count
            invariant
                k <= count,
                n == b@.len(),
                b@ == self@,
                self.wf(),
                off == seg_offset(self@, 68),
                len == seg_length(self@, 68),
                count == len as int / 32,
                32 * count == len as int,
                off + len <= n,
                r@.len() == k,
                forall|j: int|
                    0 <= j < k ==> (#[trigger] r@[j])@ == self@.subrange(
                        off + 32 * j,
                        off + 32 * j + 32,
                    ),
            decreases count - k,
        {
            r.push(read_hash_at(b, off + 32 * k));
            k = k + 1;
        }
        proof {
            assert forall|j: int| 0 <= j < count implies r@.map_values(|h: Digest| h@)[j]
                == self.transactions_spec()[j] by {
                lemma_subrange_of_subrange(self@, off as int, off as int + len as int, 32 * j,
                    32 * j + 32);
            }
            assert(r@.map_values(|h: Digest| h@) =~= self.transactions_spec());
        }
        r
    }

    pub fn verify(&self, public_key: &PublicKey) -> (r: bool)
        requires
            public_key@.len() == 32,
        ensures
            r == raw_verifies(self@, public_key@),
    {
        self.raw.verify(public_key)
    }
}

/// The header content of one block: its chain position, round, time and the
/// three digests that summarise it.
pub struct BlockContent {
    pub height: u64,
    pub propose_round: u32,
    pub time: TimeSpec,
    pub prev_hash: Digest,
    pub tx_hash: Digest,
    pub state_hash: Digest,
}

impl PartialEq for BlockContent {
    fn eq(&self, other: &BlockContent) -> bool {
        self.height == other.height && self.propose_round == other.propose_round && self.time
            == other.time && self.prev_hash == other.prev_hash && self.tx_hash == other.tx_hash
            && self.state_hash == other.state_hash
    }
}

impl vstd::std_specs::cmp::PartialEqSpecImpl for BlockContent {
    open spec fn obeys_eq_spec() -> bool {
        true
    }

    open spec fn eq_spec(&self, other: &BlockContent) -> bool {
        &&& self.height == other.height
        &&& self.propose_round == other.propose_round
        &&& self.time == other.time
        &&& self.prev_hash@ == other.prev_hash@
        &&& self.tx_hash@ == other.tx_hash@
        &&& self.state_hash@ == other.state_hash@
    }
}

impl Clone for BlockContent {
    fn clone(&self) -> (r: BlockContent)
        ensures
            r.height == self.height,
            r.propose_round == self.propose_round,
            r.time == self.time,
            r.prev_hash@ == self.prev_hash@,
            r.tx_hash@ == self.tx_hash@,
            r.state_hash@ == self.state_hash@,
    {
        BlockContent {
            height: self.height,
            propose_round: self.propose_round,
            time: self.time,
            prev_hash: self.prev_hash.clone(),
            tx_hash: self.tx_hash.clone(),
            state_hash: self.state_hash.clone(),
        }
    }
}

impl BlockContent {
    /// The three digests carry 32 bytes each.
    pub open spec fn wf(&self) -> bool {
        self.prev_hash@.len() == 32 && self.tx_hash@.len() == 32 && self.state_hash@.len() == 32
    }

    pub fn new(
        height: u64,
        time: TimeSpec,
        prev_hash: &Digest,
        tx_hash: &Digest,
        state_hash: &Digest,
        propose_round: u32,
    ) -> (r: BlockContent)
        requires
            prev_hash@.len() == 32,
            tx_hash@.len() == 32,
            state_hash@.len() == 32,
        ensures
            r.wf(),
            r.height == height,
            r.propose_round == propose_round,
            r.time == time,
            r.prev_hash@ == prev_hash@,
            r.tx_hash@ == tx_hash@,
            r.state_hash@ == state_hash@,
    {
        BlockContent {
            height,
            propose_round,
            time,
            prev_hash: prev_hash.clone(),
            tx_hash: tx_hash.clone(),
            state_hash: state_hash.clone(),
        }
    }
}

/// A full block: its header content, the precommits that justify it, and
/// the raw transactions it carries. The precommits are independently signed;
/// the whole envelope is signed by its assembler.
pub struct Block {
    raw: RawMessage,
}

impl View for Block {
    type V = Seq<u8>;

    closed spec fn view(&self) -> Seq<u8> {
        self.raw@
    }
}

/// Structural validity of a block envelope: fixed content, a list of sound
/// precommit envelopes, and a list of sound raw transaction envelopes.
pub open spec fn block_valid(b: Seq<u8>) -> bool {
    &&& typed_valid(b, CONSENSUS_CLASS, BLOCK_ID, 144)
    &&& raw_list_valid(b, 128, 136)
    &&& forall|i: int|
        0 <= i < seg_list_count(b, 128) ==> precommit_valid(#[trigger] byte_lists_value(b, 128)[i])
    &&& raw_list_valid(b, 136, 144)
}

impl Block {
    pub open spec fn wf(&self) -> bool {
        block_valid(self@)
    }

    pub open spec fn height_spec(&self) -> u64 {
        u64_at(self@, 8)
    }

    pub open spec fn propose_round_spec(&self) -> u32 {
        u32_at(self@, 16)
    }

    pub open spec fn time_spec(&self) -> TimeSpec {
        time_at(self@, 20)
    }

    pub open spec fn prev_hash_spec(&self) -> Seq<u8> {
        self@.subrange(32, 64)
    }

    pub open spec fn tx_hash_spec(&self) -> Seq<u8> {
        self@.subrange(64, 96)
    }

    pub open spec fn state_hash_spec(&self) -> Seq<u8> {
        self@.subrange(96, 128)
    }

    pub open spec fn precommits_spec(&self) -> Seq<Seq<u8>> {
        byte_lists_value(self@, 128)
    }

    pub open spec fn transactions_spec(&self) -> Seq<Seq<u8>> {
        byte_lists_value(self@, 136)
    }

    /// Assembles, signs and seals a block from already-signed precommits and
    /// raw transactions, kept by value and in order.
    pub fn new(
        content: BlockContent,
        precommits: Vec<Precommit>,
        transactions: Vec<RawMessage>,
        secret_key: &SecretKey,
    ) -> (r: Block)
        requires
            content.wf(),
            forall|i: int| 0 <= i < precommits@.len() ==> (#[trigger] precommits@[i]).wf(),
            forall|i: int| 0 <= i < transactions@.len() ==> raw_valid(
                (#[trigger] transactions@[i])@,
            ),
            208 + 8 * precommits@.len() + bytes_total(precommits@.map_values(|p: Precommit| p@))
                + 8 * transactions@.len() + bytes_total(
                transactions@.map_values(|m: RawMessage| m@),
            ) <= 0xFFFF_FFFF,
            secret_key@.len() == 32,
        ensures
            r.wf(),
            r.height_spec() == content.height,
            r.propose_round_spec() == content.propose_round,
            r.time_spec() == content.time,
            r.prev_hash_spec() == content.prev_hash@,
            r.tx_hash_spec() == content.tx_hash@,
            r.state_hash_spec() == content.state_hash@,
            r.precommits_spec() == precommits@.map_values(|p: Precommit| p@),
            r.transactions_spec() == transactions@.map_values(|m: RawMessage| m@),
            raw_verifies(r@, pub_of(secret_key@)),
    {
        let ghost pviews = precommits@.map_values(|p: Precommit| p@);
        let ghost tviews = transactions@.map_values(|m: RawMessage| m@);
        proof {
            lemma_bytes_total_nonneg(pviews);
            lemma_bytes_total_nonneg(tviews);
        }
        let mut buf = zero_buf(144);
        write_u64_at(&mut buf, 8, content.height);
        write_u32_at(&mut buf, 16, content.propose_round);
        write_time_at(&mut buf, 20, content.time);
        let ghost btime = buf@;
        copy_bytes_at(&mut buf, 32, content.prev_hash.as_bytes());
        copy_bytes_at(&mut buf, 64, content.tx_hash.as_bytes());
        copy_bytes_at(&mut buf, 96, content.state_hash.as_bytes());
        let np = precommits.len();
        let mut pcopies: Vec<RawMessage> = Vec::new();
        let mut k: usize = 0;
        while k < np
            invariant
                k <= np,
                np == precommits@.len(),
                forall|i: int| 0 <= i < np ==> (#[trigger] precommits@[i]).wf(),
                pcopies@.len() == k,
                forall|j: int| 0 <= j < k ==> (#[trigger] pcopies@[j])@ == precommits@[j]@,
            decreases np - k,
        {
            pcopies.push(RawMessage::from_vec(slice_to_vec(
                precommits[k].raw().as_bytes().as_slice(),
            )));
            k = k + 1;
        }
        proof {
            assert(pcopies@.map_values(|m: RawMessage| m@) =~= pviews);
            assert forall|i: int| 0 <= i < pcopies@.len() implies raw_valid(
                #[trigger] pcopies@[i]@,
            ) by {
                assert(precommits@[i].wf());
            }
        }
        write_raw_list_field(&mut buf, 128, 136, &pcopies);
        let ghost bfirst = buf@;
        write_raw_list_field(&mut buf, 136, 144, &transactions);
        let ghost bsecond = buf@;
        proof {
            lemma_byte_lists_frame(bfirst, bsecond, 128, 144);
        }
        let raw = seal_message(buf, CONSENSUS_CLASS, BLOCK_ID, secret_key);
        proof {
            let fin = raw@;
            lemma_auto_spec_u32_to_from_le_bytes();
            lemma_auto_spec_u64_to_from_le_bytes();
            assert(fin.subrange(8, 16) =~= vstd::bytes::spec_u64_to_le_bytes(content.height));
            assert(fin.subrange(16, 20) =~= vstd::bytes::spec_u32_to_le_bytes(
                content.propose_round,
            ));
            lemma_agree_subrange(btime, fin, 20, 28);
            lemma_agree_subrange(btime, fin, 28, 32);
            assert(fin.subrange(32, 64) =~= content.prev_hash@);
            assert(fin.subrange(64, 96) =~= content.tx_hash@);
            assert(fin.subrange(96, 128) =~= content.state_hash@);
            lemma_byte_lists_frame(bsecond, fin, 128, 144);
            lemma_byte_lists_frame(bsecond, fin, 136, 144);
            assert forall|i: int| 0 <= i < seg_list_count(fin, 128) implies precommit_valid(
                #[trigger] byte_lists_value(fin, 128)[i],
            ) && raw_valid(byte_lists_value(fin, 128)[i]) by {
                assert(byte_lists_value(fin, 128)[i] == pviews[i]);
                assert(pviews[i] == precommits@[i]@);
                assert(precommits@[i].wf());
            }
            assert forall|i: int| 0 <= i < seg_list_count(fin, 136) implies raw_valid(
                #[trigger] byte_lists_value(fin, 136)[i],
            ) by {
                assert(byte_lists_value(fin, 136)[i] == tviews[i]);
                assert(raw_valid(transactions@[i]@));
            }
        }
        Block { raw }
    }

    /// Wraps a checked envelope; rejects any buffer that fails the block
    /// structure, a malformed precommit entry included.
    pub fn from_raw(raw: RawMessage) -> (r: Result<Block, Error>)
        ensures
            r is Ok <==> block_valid(raw@),
            r matches Ok(m) ==> m@ == raw@,
    {
        let checked = raw.check();
        if checked.is_err() {
            return Err(Error);
        }
        if raw.len() < 144 + SIGNATURE_LEN {
            return Err(Error);
        }
        if raw.message_class() != CONSENSUS_CLASS || raw.message_type() != BLOCK_ID {
            return Err(Error);
        }
        let b = raw.as_bytes();
        let plist = check_raw_list_field(b, 128, 136);
        if plist.is_err() {
            return Err(Error);
        }
        let tlist = check_raw_list_field(b, 136, 144);
        if tlist.is_err() {
            return Err(Error);
        }
        let n = b.len();
        proof {
            assert(b@ == raw@);
        }
        let off = read_u32_at(b, 128) as usize;
        let len = read_u32_at(b, 132) as usize;
        let count = len / 8;
        proof {
            assert(8 * (len as int / 8) == len as int);
        }
        let mut i: usize = 0;
        while i < count
            invariant
                i <= count,
                n == b@.len(),
                b@ == raw@,
                raw_list_valid(b@, 128, 136),
                off == seg_offset(b@, 128),
                len == seg_length(b@, 128),
                count == seg_list_count(b@, 128),
                8 * count == len as int,
                off + len <= n,
                forall|j: int|
                    0 <= j < i ==> precommit_valid(#[trigger] byte_lists_value(b@, 128)[j]),
            decreases count - i,
        {
            proof {
                assert(crate::field::seg_entry_valid(b@, off as int, i as int));
            }
            let ioff = read_u32_at(b, off + 8 * i) as usize;
            let ilen = read_u32_at(b, off + 8 * i + 4) as usize;
            let ghost elem = byte_lists_value(b@, 128)[i as int];
            proof {
                assert(elem == seg_bytes(b@, off + 8 * (i as int)));
                assert(elem.len() == ilen);
                assert(raw_valid(elem));
            }
            if ilen < 88 + SIGNATURE_LEN {
                proof {
                    assert(!precommit_valid(elem));
                    assert(byte_lists_value(raw@, 128)[i as int] == elem);
                    assert(!block_valid(raw@));
                }
                return Err(Error);
            }
            let eclass = b[ioff + 2];
            let ety = b[ioff + 3];
            proof {
                assert(elem[2] == b@[ioff as int + 2]);
                assert(elem[3] == b@[ioff as int + 3]);
            }
            if eclass != CONSENSUS_CLASS || ety != PRECOMMIT_ID {
                proof {
                    assert(!precommit_valid(elem));
                    assert(byte_lists_value(raw@, 128)[i as int] == elem);
                    assert(!block_valid(raw@));
                }
                return Err(Error);
            }
            i = i + 1;
        }
        Ok(Block { raw })
    }

    pub fn raw(&self) -> (r: &RawMessage)
        ensures
            r@ == self@,
    {
        &self.raw
    }

    /// The decoded header content.
    pub fn block(&self) -> (r: BlockContent)
        requires
            self.wf(),
        ensures
            r.wf(),
            r.height == self.height_spec(),
            r.propose_round == self.propose_round_spec(),
            r.time == self.time_spec(),
            r.prev_hash@ == self.prev_hash_spec(),
            r.tx_hash@ == self.tx_hash_spec(),
            r.state_hash@ == self.state_hash_spec(),
    {
        let b = self.raw.as_bytes();
        let height = read_u64_at(b, 8);
        let propose_round = read_u32_at(b, 16);
        let sec = read_u64_at(b, 20);
        let nsec = read_u32_at(b, 28);
        BlockContent {
            height,
            propose_round,
            time: TimeSpec { sec, nsec },
            prev_hash: read_hash_at(b, 32),
            tx_hash: read_hash_at(b, 64),
            state_hash: read_hash_at(b, 96),
        }
    }

    /// The precommit messages, in table order.
    pub fn precommits(&self) -> (r: Vec<Precommit>)
        requires
            self.wf(),
        ensures
            r@.map_values(|p: Precommit| p@) == self.precommits_spec(),
            forall|j: int| 0 <= j < r@.len() ==> (#[trigger] r@[j]).wf(),
    {
        let raws = read_raw_list_field(self.raw.as_bytes(), 128, 136);
        let ghost lists = byte_lists_value(self@, 128);
        let n = raws.len();
        proof {
            assert(raws@.map_values(|m: RawMessage| m@).len() == lists.len());
        }
        let mut r: Vec<Precommit> = Vec::new();
        let mut k: usize = 0;
        while k < n
            invariant
                k <= n,
                n == raws@.len(),
                raws@.map_values(|m: RawMessage| m@) == lists,
                forall|i: int|
                    0 <= i < lists.len() ==> precommit_valid(#[trigger] lists[i]),
                r@.len() == k,
                forall|j: int| 0 <= j < k ==> (#[trigger] r@[j])@ == lists[j],
            decreases n - k,
        {
            proof {
                assert(raws@.map_values(|m: RawMessage| m@)[k as int] == raws@[k as int]@);
            }
            let bytes = slice_to_vec(raws[k].as_bytes().as_slice());
            r.push(Precommit { raw: RawMessage::from_vec(bytes) });
            k = k + 1;
        }
        proof {
            assert(r@.map_values(|p: Precommit| p@) =~= lists);
            assert forall|j: int| 0 <= j < r@.len() implies (#[trigger] r@[j]).wf() by {
                assert(r@[j]@ == lists[j]);
            }
        }
        r
    }

    /// The raw transactions, in table order.
    pub fn transactions(&self) -> (r: Vec<RawMessage>)
        requires
            self.wf(),
        ensures
            r@.map_values(|m: RawMessage| m@) == self.transactions_spec(),
    {
        read_raw_list_field(self.raw.as_bytes(), 136, 144)
    }

    pub fn verify(&self, public_key: &PublicKey) -> (r: bool)
        requires
            public_key@.len() == 32,
        ensures
            r == raw_verifies(self@, public_key@),
    {
        self.raw.verify(public_key)
    }
}

/// A segment of envelopes, each of which is itself a sound status message.
pub open spec fn status_list_valid(b: Seq<u8>, from: int, to: int) -> bool {
    &&& raw_list_valid(b, from, to)
    &&& forall|i: int|
        0 <= i < seg_list_count(b, from) ==> status_valid(#[trigger] byte_lists_value(b, from)[i])
}

/// Writes a segment of status messages; the table order is the element
/// order.
pub fn write_status_list_field(buf: &mut Vec<u8>, from: usize, to: usize, items: &Vec<Status>)
    requires
        to == from + 8,
        to <= old(buf)@.len(),
        forall|i: int| 0 <= i < items@.len() ==> (#[trigger] items@[i]).wf(),
        old(buf)@.len() + 8 * items@.len() + bytes_total(items@.map_values(|s: Status| s@))
            <= 0xFFFF_FFFF,
    ensures
        final(buf)@.len() == old(buf)@.len() + 8 * items@.len() + bytes_total(
            items@.map_values(|s: Status| s@),
        ),
        status_list_valid(final(buf)@, from as int, to as int),
        byte_lists_value(final(buf)@, from as int) == items@.map_values(|s: Status| s@),
        forall|i: int|
            0 <= i < old(buf)@.len() && !(from <= i < to) ==> final(buf)@[i] == old(buf)@[i],
{
    let ghost views = items@.map_values(|s: Status| s@);
    let n = items.len();
    let mut copies: Vec<RawMessage> = Vec::new();
    let mut k: usize = 0;
    while k < n
        invariant
            k <= n,
            n == items@.len(),
            forall|i: int| 0 <= i < n ==> (#[trigger] items@[i]).wf(),
            copies@.len() == k,
            forall|j: int| 0 <= j < k ==> (#[trigger] copies@[j])@ == items@[j]@,
        decreases n - k,
    {
        copies.push(items[k].raw().clone());
        k = k + 1;
    }
    proof {
        assert(copies@.map_values(|m: RawMessage| m@) =~= views);
        assert forall|i: int| 0 <= i < copies@.len() implies raw_valid(
            #[trigger] copies@[i]@,
        ) by {
            assert(items@[i].wf());
        }
    }
    write_raw_list_field(buf, from, to, &copies);
    proof {
        let fin = final(buf)@;
        assert forall|i: int| 0 <= i < seg_list_count(fin, from as int) implies status_valid(
            #[trigger] byte_lists_value(fin, from as int)[i],
        ) by {
            assert(byte_lists_value(fin, from as int)[i] == views[i]);
            assert(views[i] == items@[i]@);
            assert(items@[i].wf());
        }
    }
}

/// Checks a segment of status messages: the envelope list, then each
/// element's class, type and fixed-region room.
pub fn check_status_list_field(buf: &Vec<u8>, from: usize, to: usize) -> (r: Result<(), Error>)
    ensures
        r is Ok <==> status_list_valid(buf@, from as int, to as int),
{
    let listed = check_raw_list_field(buf, from, to);
    if listed.is_err() {
        return Err(Error);
    }
    let n = buf.len();
    let off = read_u32_at(buf, from) as usize;
    let len = read_u32_at(buf, from + 4) as usize;
    let count = len / 8;
    proof {
        assert(8 * (len as int / 8) == len as int);
    }
    let mut i: usize = 0;
    while i < count
        invariant
            i <= count,
            n == buf@.len(),
            raw_list_valid(buf@, from as int, to as int),
            off == seg_offset(buf@, from as int),
            len == seg_length(buf@, from as int),
            count == seg_list_count(buf@, from as int),
            8 * count == len as int,
            off + len <= n,
            forall|j: int|
                0 <= j < i ==> status_valid(#[trigger] byte_lists_value(buf@, from as int)[j]),
        decreases count - i,
    {
        proof {
            assert(crate::field::seg_entry_valid(buf@, off as int, i as int));
        }
        let ioff = read_u32_at(buf, off + 8 * i) as usize;
        let ilen = read_u32_at(buf, off + 8 * i + 4) as usize;
        let ghost elem = byte_lists_value(buf@, from as int)[i as int];
        proof {
            assert(elem == seg_bytes(buf@, off + 8 * (i as int)));
            assert(elem.len() == ilen);
            assert(raw_valid(elem));
        }
        if ilen < 52 + SIGNATURE_LEN {
            proof {
                assert(!status_valid(elem));
            }
            return Err(Error);
        }
        let eclass = buf[ioff + 2];
        let ety = buf[ioff + 3];
        proof {
            assert(elem[2] == buf@[ioff as int + 2]);
            assert(elem[3] == buf@[ioff as int + 3]);
        }
        if eclass != CONSENSUS_CLASS || ety != STATUS_ID {
            proof {
                assert(!status_valid(elem));
            }
            return Err(Error);
        }
        i = i + 1;
    }
    Ok(())
}

/// Reads a segment of status messages back, assuming its check succeeded.
pub fn read_status_list_field(buf: &Vec<u8>, from: usize, to: usize) -> (r: Vec<Status>)
    requires
        status_list_valid(buf@, from as int, to as int),
    ensures
        r@.map_values(|s: Status| s@) == byte_lists_value(buf@, from as int),
        forall|j: int| 0 <= j < r@.len() ==> (#[trigger] r@[j]).wf(),
{
    let raws = read_raw_list_field(buf, from, to);
    let ghost lists = byte_lists_value(buf@, from as int);
    let n = raws.len();
    proof {
        assert(raws@.map_values(|m: RawMessage| m@).len() == lists.len());
    }
    let mut r: Vec<Status> = Vec::new();
    let mut k: usize = 0;
    while k < n
        invariant
            k <= n,
            n == raws@.len(),
            raws@.map_values(|m: RawMessage| m@) == lists,
            forall|i: int| 0 <= i < lists.len() ==> status_valid(#[trigger] lists[i]),
            r@.len() == k,
            forall|j: int| 0 <= j < k ==> (#[trigger] r@[j])@ == lists[j],
        decreases n - k,
    {
        proof {
            assert(raws@.map_values(|m: RawMessage| m@)[k as int] == raws@[k as int]@);
        }
        r.push(Status { raw: raws[k].clone() });
        k = k + 1;
    }
    proof {
        assert(r@.map_values(|s: Status| s@) =~= lists);
        assert forall|j: int| 0 <= j < r@.len() implies (#[trigger] r@[j]).wf() by {
            assert(r@[j]@ == lists[j]);
        }
    }
    r
}

} // verus!
