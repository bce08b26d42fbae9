//! Cryptographic collaborators of the codec: hashing, Ed25519 signing and
//! signature verification, consumed through trusted wrappers. The key and
//! digest material itself is held as plain byte vectors of fixed width.

use vstd::prelude::*;
use ed25519_dalek::ed25519::signature::{Signer, Verifier};

verus! {

use crate::buffer::bytes_eq;

/// The SHA-256 digest of a byte sequence, as the outside hash function
/// computes it: it depends on the input bytes alone.
pub uninterp spec fn hash_of(data: Seq<u8>) -> Seq<u8>;

/// The Ed25519 public key derived from a 32-byte seed; derivation depends on
/// the seed alone.
pub uninterp spec fn pub_of(seed: Seq<u8>) -> Seq<u8>;

/// The Ed25519 signature over `msg` by the key with seed `seed`; Ed25519
/// signing is deterministic, so it depends on the two arguments alone.
pub uninterp spec fn sig_of(seed: Seq<u8>, msg: Seq<u8>) -> Seq<u8>;

/// Whether Ed25519 verification accepts `sig` as a signature over `msg` by
/// the public key `pk`; acceptance depends on the three arguments alone.
pub uninterp spec fn sig_ok(pk: Seq<u8>, msg: Seq<u8>, sig: Seq<u8>) -> bool;

/// A 32-byte digest.
pub struct Digest {
    bytes: Vec<u8>,
}

/// A 32-byte Ed25519 public key.
pub struct PublicKey {
    bytes: Vec<u8>,
}

/// A 32-byte Ed25519 signing seed.
pub struct SecretKey {
    bytes: Vec<u8>,
}

impl Clone for Digest {
    fn clone(&self) -> (r: Digest)
        ensures
            r@ == self@,
    {
        Digest { bytes: vstd::slice::slice_to_vec(self.bytes.as_slice()) }
    }
}

impl Clone for PublicKey {
    fn clone(&self) -> (r: PublicKey)
        ensures
            r@ == self@,
    {
        PublicKey { bytes: vstd::slice::slice_to_vec(self.bytes.as_slice()) }
    }
}

impl Clone for SecretKey {
    fn clone(&self) -> (r: SecretKey)
        ensures
            r@ == self@,
    {
        SecretKey { bytes: vstd::slice::slice_to_vec(self.bytes.as_slice()) }
    }
}

impl View for Digest {
    type V = Seq<u8>;

    closed spec fn view(&self) -> Seq<u8> {
        self.bytes@
    }
}

impl View for PublicKey {
    type V = Seq<u8>;

    closed spec fn view(&self) -> Seq<u8> {
        self.bytes@
    }
}

impl View for SecretKey {
    type V = Seq<u8>;

    closed spec fn view(&self) -> Seq<u8> {
        self.bytes@
    }
}

impl Digest {
    /// Wraps 32 digest bytes.
    pub fn new(bytes: Vec<u8>) -> (r: Digest)
        requires
            bytes@.len() == 32,
        ensures
            r@ == bytes@,
    {
        Digest { bytes }
    }

    /// The digest bytes.
    pub fn as_bytes(&self) -> (r: &Vec<u8>)
        ensures
            r@ == self@,
    {
        &self.bytes
    }
}

impl PartialEq for Digest {
    fn eq(&self, other: &Digest) -> bool {
        bytes_eq(&self.bytes, &other.bytes)
    }
}

impl vstd::std_specs::cmp::PartialEqSpecImpl for Digest {
    open spec fn obeys_eq_spec() -> bool {
        true
    }

    open spec fn eq_spec(&self, other: &Digest) -> bool {
        self@ == other@
    }
}

impl PublicKey {
    /// Wraps 32 public-key bytes.
    pub fn new(bytes: Vec<u8>) -> (r: PublicKey)
        requires
            bytes@.len() == 32,
        ensures
            r@ == bytes@,
    {
        PublicKey { bytes }
    }

    /// The key bytes.
    pub fn as_bytes(&self) -> (r: &Vec<u8>)
        ensures
            r@ == self@,
    {
        &self.bytes
    }
}

impl PartialEq for PublicKey {
    fn eq(&self, other: &PublicKey) -> bool {
        bytes_eq(&self.bytes, &other.bytes)
    }
}

impl vstd::std_specs::cmp::PartialEqSpecImpl for PublicKey {
    open spec fn obeys_eq_spec() -> bool {
        true
    }

    open spec fn eq_spec(&self, other: &PublicKey) -> bool {
        self@ == other@
    }
}

impl SecretKey {
    /// The seed bytes.
    pub fn as_bytes(&self) -> (r: &Vec<u8>)
        ensures
            r@ == self@,
    {
        &self.bytes
    }
}

/// Relies on sha2::Sha256 (Digest::digest): the 32-byte digest is a function
/// of the input bytes alone.
#[verifier::external_body]
fn sha256_digest(data: &[u8]) -> (r: Vec<u8>)
    ensures
        r@ == hash_of(data@),
        r@.len() == 32,
{
    <sha2::Sha256 as sha2::Digest>::digest(data).to_vec()
}

/// Relies on ed25519_dalek::SigningKey::verifying_key: the 32-byte public key
/// is derived from the 32-byte seed alone.
#[verifier::external_body]
fn ed25519_derive_public(seed: &Vec<u8>) -> (r: Vec<u8>)
    requires
        seed@.len() == 32,
    ensures
        r@ == pub_of(seed@),
        r@.len() == 32,
{
    let mut arr = [0u8; 32];
    arr.copy_from_slice(seed.as_slice());
    ed25519_dalek::SigningKey::from_bytes(&arr).verifying_key().to_bytes().to_vec()
}

/// Relies on ed25519_dalek's Signer::sign for SigningKey: Ed25519 signing is
/// deterministic in seed and message, produces 64 bytes, and the signature
/// verifies under the verifying key derived from the same seed.
#[verifier::external_body]
fn ed25519_sign(seed: &Vec<u8>, msg: &[u8]) -> (r: Vec<u8>)
    requires
        seed@.len() == 32,
    ensures
        r@ == sig_of(seed@, msg@),
        r@.len() == 64,
        sig_ok(pub_of(seed@), msg@, r@),
{
    let mut arr = [0u8; 32];
    arr.copy_from_slice(seed.as_slice());
    let key = ed25519_dalek::SigningKey::from_bytes(&arr);
    key.sign(msg).to_bytes().to_vec()
}

/// Relies on ed25519_dalek's Verifier::verify for VerifyingKey: acceptance is
/// a function of the key, message and signature bytes alone; a key that is no
/// valid curve point accepts nothing.
#[verifier::external_body]
fn ed25519_verify(pk: &Vec<u8>, msg: &[u8], sig: &[u8]) -> (r: bool)
    requires
        pk@.len() == 32,
        sig@.len() == 64,
    ensures
        r == sig_ok(pk@, msg@, sig@),
{
    let mut arr = [0u8; 32];
    arr.copy_from_slice(pk.as_slice());
    match ed25519_dalek::VerifyingKey::from_bytes(&arr) {
        Ok(key) => match ed25519_dalek::Signature::from_slice(sig) {
            Ok(signature) => key.verify(msg, &signature).is_ok(),
            Err(_) => false,
        },
        Err(_) => false,
    }
}

/// Relies on getrandom::fill: the buffer keeps its length; its contents are
/// whatever the operating system's generator handed back.
#[verifier::external_body]
fn fill_random(buf: &mut Vec<u8>)
    ensures
        final(buf)@.len() == old(buf)@.len(),
{
    let _ = getrandom::fill(buf.as_mut_slice());
}

/// The SHA-256 digest of `data`.
pub fn hash(data: &[u8]) -> (h: Digest)
    ensures
        h@ == hash_of(data@),
        h@.len() == 32,
{
    Digest::new(sha256_digest(data))
}

/// A fresh signing key pair; the public half is derived from the secret seed.
pub fn gen_keypair() -> (r: (PublicKey, SecretKey))
    ensures
        r.0@ == pub_of(r.1@),
        r.0@.len() == 32,
        r.1@.len() == 32,
{
    let mut seed = crate::buffer::zero_buf(32);
    fill_random(&mut seed);
    let secret = SecretKey { bytes: seed };
    let public = PublicKey::new(ed25519_derive_public(&secret.bytes));
    (public, secret)
}

/// The key pair grown from a fixed 32-byte seed.
pub fn keypair_from_seed(seed: Vec<u8>) -> (r: (PublicKey, SecretKey))
    requires
        seed@.len() == 32,
    ensures
        r.1@ == seed@,
        r.0@ == pub_of(seed@),
        r.0@.len() == 32,
{
    let secret = SecretKey { bytes: seed };
    let public = PublicKey::new(ed25519_derive_public(&secret.bytes));
    (public, secret)
}

/// Signs `data` with `secret_key`; the signature verifies under the matching
/// public key.
pub fn sign(data: &[u8], secret_key: &SecretKey) -> (sig: Vec<u8>)
    requires
        secret_key@.len() == 32,
    ensures
        sig@ == sig_of(secret_key@, data@),
        sig@.len() == 64,
        sig_ok(pub_of(secret_key@), data@, sig@),
{
    ed25519_sign(&secret_key.bytes, data)
}

/// Whether `sig` is an acceptable signature over `data` by `public_key`.
pub fn verify_signature(data: &[u8], sig: &[u8], public_key: &PublicKey) -> (r: bool)
    requires
        public_key@.len() == 32,
        sig@.len() == 64,
    ensures
        r == sig_ok(public_key@, data@, sig@),
{
    ed25519_verify(&public_key.bytes, data, sig)
}

} // verus!
