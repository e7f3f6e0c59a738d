//! Identities: nodes, requests, log positions, clusters; and the digests that
//! the identities are made with.

use crate::bytes::put_bytes;
use crate::text::{hex, hex_chars, text_bytes};
use vstd::prelude::*;
use vstd::string::*;
use vstd::utf8::encode_utf8;

verus! {

/// The SHA-256 digest of a byte string.
pub uninterp spec fn sha256_digest(bytes: Seq<u8>) -> Seq<u8>;

/// `sha2`'s SHA-256: the digest depends on the bytes alone. Which digest it is
/// is left unsaid.
#[verifier::external_body]
fn sha256(bytes: &[u8]) -> (digest: [u8; 32])
    ensures
        digest@ == sha256_digest(bytes@),
{
    <sha2::Sha256 as sha2::Digest>::digest(bytes).into()
}

/// The thirty-two bytes of the SHA-256 digest of a byte string.
pub open spec fn sha_of(bytes: Seq<u8>) -> Seq<u8> {
    Seq::new(32, |i: int| sha256_digest(bytes)[i])
}

/// The SHA-256 digest of a byte string.
pub fn sha32(bytes: &[u8]) -> (digest: [u8; 32])
    ensures
        digest@ == sha_of(bytes@),
{
    let digest = sha256(bytes);
    assert(digest@ =~= sha_of(bytes@));
    digest
}

/// The BLAKE3 digest of a byte string.
pub uninterp spec fn blake3_digest(bytes: Seq<u8>) -> Seq<u8>;

/// `blake3::hash`: the digest depends on the bytes alone. Which digest it is
/// is left unsaid.
#[verifier::external_body]
fn blake3_hash(bytes: &[u8]) -> (digest: [u8; 32])
    ensures
        digest@ == blake3_digest(bytes@),
{
    *blake3::hash(bytes).as_bytes()
}

/// The thirty-two bytes of the BLAKE3 digest of a byte string.
pub open spec fn hash_of(bytes: Seq<u8>) -> Seq<u8> {
    Seq::new(32, |i: int| blake3_digest(bytes)[i])
}

/// The digest that payloads and snapshots are checked with.
pub fn hash32(bytes: &[u8]) -> (digest: [u8; 32])
    ensures
        digest@ == hash_of(bytes@),
{
    let digest = blake3_hash(bytes);
    assert(digest@ =~= hash_of(bytes@));
    digest
}

/// Whether sixteen bytes are marked as a random UUID: the fourth version in
/// the upper half of the seventh byte, the variant in the two upper bits of the
/// ninth.
pub open spec fn marked_random(bytes: Seq<u8>) -> bool {
    bytes.len() == 16 && 64 <= bytes[6] < 80 && 128 <= bytes[8] < 192
}

/// `uuid::Uuid::new_v4`: sixteen bytes from the operating system's random
/// source, marked as a random UUID. Nothing else is promised of them.
#[verifier::external_body]
fn fresh_nonce() -> (nonce: [u8; 16])
    ensures
        marked_random(nonce@),
{
    *uuid::Uuid::new_v4().as_bytes()
}

/// One run of one node.
#[derive(Clone, Copy, Debug, PartialEq, Eq, PartialOrd, Ord, Hash)]
pub struct OriginId {
    pub node_id: u64,
    pub boot_nonce: [u8; 16],
}

impl OriginId {
    /// A new origin of a node, told apart from its other origins by a random
    /// nonce.
    pub fn new(node_id: u64) -> (origin: Self)
        ensures
            origin.node_id == node_id,
            marked_random(origin.boot_nonce@),
    {
        Self::with_nonce(node_id, fresh_nonce())
    }

    /// The origin of a node with a given nonce.
    pub fn with_nonce(node_id: u64, boot_nonce: [u8; 16]) -> (origin: Self)
        ensures
            origin == (OriginId { node_id, boot_nonce }),
    {
        OriginId { node_id, boot_nonce }
    }
}

/// One request of an origin.
#[derive(Clone, Copy, Debug, PartialEq, Eq, PartialOrd, Ord, Hash)]
pub struct RequestId {
    pub origin: OriginId,
    pub sequence: u64,
}

impl RequestId {
    pub fn new(origin: OriginId, sequence: u64) -> (id: Self)
        ensures
            id == (RequestId { origin, sequence }),
    {
        RequestId { origin, sequence }
    }
}

/// A position in the replicated log.
#[derive(Clone, Copy, Debug, PartialEq, Eq, PartialOrd, Ord, Hash, Structural)]
pub struct LogId {
    pub term: u64,
    pub index: u64,
}

impl LogId {
    /// The position before the first entry.
    #[verifier::allow_in_spec]
    pub fn zero() -> LogId
        returns
            (LogId { term: 0, index: 0 }),
    {
        LogId { term: 0, index: 0 }
    }
}

impl Default for LogId {
    fn default() -> (id: LogId)
        ensures
            id == LogId::zero(),
    {
        LogId::zero()
    }
}

/// The sixteen bytes that name a cluster.
#[derive(Clone, Copy, Debug, PartialEq, Eq, PartialOrd, Ord, Hash)]
pub struct ClusterId(pub [u8; 16]);

/// The bytes whose digest names the cluster of that name.
pub open spec fn cluster_name_bytes(name: Seq<char>) -> Seq<u8> {
    encode_utf8("chorus-cluster-v1\0"@) + encode_utf8(name)
}

impl ClusterId {
    /// The identity of the cluster of that name: the first half of a digest of
    /// the name.
    pub fn from_name(name: &str) -> (id: Self)
        ensures
            id.0@ == sha_of(cluster_name_bytes(name@)).subrange(0, 16),
    {
        let mut bytes = text_bytes("chorus-cluster-v1\0");
        put_bytes(&mut bytes, name.as_bytes());
        let digest = sha32(bytes.as_slice());
        Self::from_digest(&digest)
    }

    /// The first half of a digest.
    pub fn from_digest(digest: &[u8; 32]) -> (id: Self)
        ensures
            id.0@ == digest@.subrange(0, 16),
    {
        let half = vstd::slice::slice_subrange(digest.as_slice(), 0, 16);
        ClusterId(crate::bytes::array16(half))
    }

    /// The identity in hexadecimal notation.
    pub fn text(&self) -> (text: String)
        ensures
            text@ == hex_chars(self.0@),
    {
        hex(self.0.as_slice())
    }
}

} // verus!
