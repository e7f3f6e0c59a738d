//! The authenticated transport between nodes: payload frames, envelopes and
//! who may speak to whom.

use crate::bytes::{
    be, be_reads_back, be_value, be_writes_back, copy_bytes, lemma_be_value_bound, lemma_span,
    put_bytes, put_u32, read_be,
};
use crate::ids::{sha32, sha_of};
use crate::node_map::{has_node, lemma_node_at, node_value, nodes_ascend, NodeMap};
use crate::text::{is_space, joined, owned, same_bytes, same_text, space_char, text_chars};
use vstd::prelude::*;
use vstd::string::*;

verus! {

pub const TRANSPORT_WIRE_VERSION: u32 = 1;

pub const MAX_RPC_MESSAGE_BYTES: usize = 8_388_608;

pub const MAX_RPC_PAYLOAD_BYTES: usize = 8_387_584;

pub const MAX_SNAPSHOT_CHUNK_BYTES: usize = 1_048_576;

pub const MAX_APPEND_ENTRIES: usize = 4096;

pub const RPC_QUEUE_CAPACITY: usize = 128;

pub const RPC_PAYLOAD_VERSION: u8 = 1;

pub const RPC_PAYLOAD_HEADER_BYTES: usize = 14;

pub const RPC_PAYLOAD_DIGEST_BYTES: usize = 32;

// ---------------------------------------------------------------------------
// Payload frames
// ---------------------------------------------------------------------------

/// What a payload is.
#[derive(Clone, Copy, Debug, PartialEq, Eq, Structural)]
pub enum RpcPayloadDomain {
    VoteRequest,
    VoteResponse,
    AppendEntriesRequest,
    AppendEntriesResponse,
    InstallSnapshotRequest,
    InstallSnapshotResponse,
}

impl RpcPayloadDomain {
    /// The byte that stands for the domain.
    pub open spec fn tag(self) -> u8 {
        match self {
            RpcPayloadDomain::VoteRequest => 1,
            RpcPayloadDomain::VoteResponse => 2,
            RpcPayloadDomain::AppendEntriesRequest => 3,
            RpcPayloadDomain::AppendEntriesResponse => 4,
            RpcPayloadDomain::InstallSnapshotRequest => 5,
            RpcPayloadDomain::InstallSnapshotResponse => 6,
        }
    }

    pub fn byte(self) -> (byte: u8)
        ensures
            byte == self.tag(),
    {
        match self {
            RpcPayloadDomain::VoteRequest => 1,
            RpcPayloadDomain::VoteResponse => 2,
            RpcPayloadDomain::AppendEntriesRequest => 3,
            RpcPayloadDomain::AppendEntriesResponse => 4,
            RpcPayloadDomain::InstallSnapshotRequest => 5,
            RpcPayloadDomain::InstallSnapshotResponse => 6,
        }
    }

    /// The domain that a byte stands for.
    pub fn decode(byte: u8) -> (domain: Option<RpcPayloadDomain>)
        ensures
            match domain {
                Some(d) => d.tag() == byte,
                None => byte == 0 || byte > 6,
            },
    {
        match byte {
            1 => Some(RpcPayloadDomain::VoteRequest),
            2 => Some(RpcPayloadDomain::VoteResponse),
            3 => Some(RpcPayloadDomain::AppendEntriesRequest),
            4 => Some(RpcPayloadDomain::AppendEntriesResponse),
            5 => Some(RpcPayloadDomain::InstallSnapshotRequest),
            6 => Some(RpcPayloadDomain::InstallSnapshotResponse),
            _ => None,
        }
    }
}

/// Why a payload cannot be written or read.
#[derive(Clone, Debug)]
pub enum RpcCodecError {
    Limit,
    Invalid(String),
    Serialization(String),
}

/// What an [`RpcCodecError`] says.
pub enum RpcCodecErrorView {
    Limit,
    Invalid(Seq<char>),
    Serialization(Seq<char>),
}

impl View for RpcCodecError {
    type V = RpcCodecErrorView;

    open spec fn view(&self) -> RpcCodecErrorView {
        match self {
            RpcCodecError::Limit => RpcCodecErrorView::Limit,
            RpcCodecError::Invalid(m) => RpcCodecErrorView::Invalid(m@),
            RpcCodecError::Serialization(m) => RpcCodecErrorView::Serialization(m@),
        }
    }
}

impl RpcCodecErrorView {
    /// The line that is shown for the error.
    pub open spec fn text(self) -> Seq<char> {
        match self {
            RpcCodecErrorView::Limit => "RPC payload exceeds the configured limit"@,
            RpcCodecErrorView::Invalid(m) => "invalid RPC payload: "@ + m,
            RpcCodecErrorView::Serialization(m) => "RPC payload serialization failed: "@ + m,
        }
    }
}

impl RpcCodecError {
    fn invalid(message: &str) -> (error: RpcCodecError)
        ensures
            error@ == RpcCodecErrorView::Invalid(message@),
    {
        RpcCodecError::Invalid(owned(message))
    }

    /// The line that is shown for the error.
    pub fn text(&self) -> (text: String)
        ensures
            text@ == self@.text(),
    {
        match self {
            RpcCodecError::Limit => owned("RPC payload exceeds the configured limit"),
            RpcCodecError::Invalid(m) => joined("invalid RPC payload: ", m.as_str()),
            RpcCodecError::Serialization(m) => joined(
                "RPC payload serialization failed: ",
                m.as_str(),
            ),
        }
    }
}

/// Why a [`CappedWriter`] takes no more.
#[derive(Clone, Copy, Debug, PartialEq, Eq, Structural)]
pub enum WriteRefusal {
    Overflow,
    Exceeded,
}

/// A buffer that never holds more than its limit.
pub struct CappedWriter {
    pub bytes: Vec<u8>,
    pub limit: usize,
    pub exceeded: bool,
}

impl CappedWriter {
    pub fn new(limit: usize) -> (writer: CappedWriter)
        ensures
            writer.bytes@ == Seq::<u8>::empty(),
            writer.limit == limit,
            !writer.exceeded,
    {
        CappedWriter { bytes: Vec::new(), limit, exceeded: false }
    }

    /// Takes all of a buffer or nothing of it.
    pub fn write(&mut self, buffer: &[u8]) -> (written: std::result::Result<usize, WriteRefusal>)
        ensures
            final(self).limit == old(self).limit,
            match written {
                Ok(n) => {
                    &&& n == buffer@.len()
                    &&& old(self).bytes@.len() + buffer@.len() <= old(self).limit
                    &&& final(self).bytes@ == old(self).bytes@ + buffer@
                    &&& final(self).exceeded == old(self).exceeded
                },
                Err(WriteRefusal::Exceeded) => {
                    &&& old(self).bytes@.len() + buffer@.len() > old(self).limit
                    &&& old(self).bytes@.len() + buffer@.len() <= usize::MAX
                    &&& final(self).bytes@ == old(self).bytes@
                    &&& final(self).exceeded
                },
                Err(WriteRefusal::Overflow) => {
                    &&& old(self).bytes@.len() + buffer@.len() > usize::MAX
                    &&& final(self).bytes@ == old(self).bytes@
                    &&& final(self).exceeded == old(self).exceeded
                },
            },
    {
        match self.bytes.len().checked_add(buffer.len()) {
            Some(end) => {
                if end > self.limit {
                    self.exceeded = true;
                    return Err(WriteRefusal::Exceeded);
                }
                put_bytes(&mut self.bytes, buffer);
                Ok(buffer.len())
            },
            None => Err(WriteRefusal::Overflow),
        }
    }
}

/// The eight bytes that begin a payload.
pub open spec fn rpc_magic() -> Seq<u8> {
    seq![67u8, 72, 82, 70, 82, 80, 67, 0]
}

fn rpc_payload_magic() -> (magic: [u8; 8])
    ensures
        magic@ == rpc_magic(),
{
    let magic: [u8; 8] = [67, 72, 82, 70, 82, 80, 67, 0];
    assert(magic@ =~= rpc_magic());
    magic
}

/// The longest body that a payload can carry.
pub const MAX_RPC_BODY_BYTES: usize = 8_387_538;

type BodyOutcome = std::result::Result<Seq<u8>, RpcCodecErrorView>;

/// A body as a payload of a domain.
pub open spec fn rpc_frame(domain: RpcPayloadDomain, body: Seq<u8>) -> BodyOutcome {
    if body.len() > 8_387_538 {
        Err(RpcCodecErrorView::Limit)
    } else {
        Ok(rpc_magic() + seq![1u8, domain.tag()] + be(body.len(), 4) + body + sha_of(body))
    }
}

/// The body that a payload of a domain carries, or why it carries none.
pub open spec fn rpc_body(domain: RpcPayloadDomain, encoded: Seq<u8>) -> BodyOutcome {
    if encoded.len() > 8_387_584 {
        Err(RpcCodecErrorView::Limit)
    } else if encoded.len() < 46 || encoded.subrange(0, 8) != rpc_magic() {
        Err(RpcCodecErrorView::Invalid("bad payload magic or length"@))
    } else if encoded[8] != 1 {
        Err(RpcCodecErrorView::Invalid("unsupported payload version"@))
    } else if encoded[9] == 0 || encoded[9] > 6 {
        Err(RpcCodecErrorView::Invalid("unknown payload domain"@))
    } else if encoded[9] != domain.tag() {
        Err(RpcCodecErrorView::Invalid("payload domain mismatch"@))
    } else {
        let len = be_value(encoded.subrange(10, 14)) as int;
        if 14 + len + 32 > usize::MAX {
            Err(RpcCodecErrorView::Invalid("payload length overflow"@))
        } else if 14 + len + 32 != encoded.len() {
            Err(RpcCodecErrorView::Invalid("payload length or trailing bytes mismatch"@))
        } else if sha_of(encoded.subrange(14, 14 + len)) != encoded.subrange(
            14 + len,
            encoded.len() as int,
        ) {
            Err(RpcCodecErrorView::Invalid("payload checksum mismatch"@))
        } else {
            Ok(encoded.subrange(14, 14 + len))
        }
    }
}

/// Puts a body into a payload of a domain.
pub fn encode_rpc_payload(domain: RpcPayloadDomain, body: &[u8]) -> (payload: std::result::Result<
    Vec<u8>,
    RpcCodecError,
>)
    ensures
        match payload {
            Ok(p) => rpc_frame(domain, body@) == Ok::<_, RpcCodecErrorView>(p@),
            Err(e) => rpc_frame(domain, body@) == Err::<Seq<u8>, _>(e@),
        },
{
    if body.len() > MAX_RPC_BODY_BYTES {
        return Err(RpcCodecError::Limit);
    }
    let mut out: Vec<u8> = Vec::new();
    let magic = rpc_payload_magic();
    put_bytes(&mut out, magic.as_slice());
    out.push(RPC_PAYLOAD_VERSION);
    out.push(domain.byte());
    put_u32(&mut out, body.len() as u32);
    put_bytes(&mut out, body);
    let digest = sha32(body);
    put_bytes(&mut out, digest.as_slice());
    assert(out@ =~= rpc_frame(domain, body@)->Ok_0);
    Ok(out)
}

/// Takes the body out of a payload of a domain.
pub fn decode_rpc_payload(expected_domain: RpcPayloadDomain, encoded: &[u8]) -> (body:
    std::result::Result<Vec<u8>, RpcCodecError>)
    ensures
        match body {
            Ok(b) => rpc_body(expected_domain, encoded@) == Ok::<_, RpcCodecErrorView>(b@),
            Err(e) => rpc_body(expected_domain, encoded@) == Err::<Seq<u8>, _>(e@),
        },
{
    if encoded.len() > MAX_RPC_PAYLOAD_BYTES {
        return Err(RpcCodecError::Limit);
    }
    let magic = rpc_payload_magic();
    if encoded.len() < 46 || !same_bytes(
        vstd::slice::slice_subrange(encoded, 0, 8),
        magic.as_slice(),
    ) {
        return Err(RpcCodecError::invalid("bad payload magic or length"));
    }
    if encoded[8] != RPC_PAYLOAD_VERSION {
        return Err(RpcCodecError::invalid("unsupported payload version"));
    }
    let domain = match RpcPayloadDomain::decode(encoded[9]) {
        Some(domain) => domain,
        None => {
            return Err(RpcCodecError::invalid("unknown payload domain"));
        },
    };
    if domain.byte() != expected_domain.byte() {
        return Err(RpcCodecError::invalid("payload domain mismatch"));
    }
    let size = vstd::slice::slice_subrange(encoded, 10, 14);
    proof {
        lemma_be_value_bound(size@);
        lemma_span();
    }
    let len: u64 = read_be(size);
    let end: usize = match (len as usize).checked_add(RPC_PAYLOAD_HEADER_BYTES) {
        Some(end) => end,
        None => {
            return Err(RpcCodecError::invalid("payload length overflow"));
        },
    };
    let total: usize = match end.checked_add(RPC_PAYLOAD_DIGEST_BYTES) {
        Some(total) => total,
        None => {
            return Err(RpcCodecError::invalid("payload length overflow"));
        },
    };
    if total != encoded.len() {
        return Err(RpcCodecError::invalid("payload length or trailing bytes mismatch"));
    }
    let body = vstd::slice::slice_subrange(encoded, RPC_PAYLOAD_HEADER_BYTES, end);
    let digest = sha32(body);
    if !same_bytes(digest.as_slice(), vstd::slice::slice_subrange(encoded, end, encoded.len())) {
        return Err(RpcCodecError::invalid("payload checksum mismatch"));
    }
    Ok(copy_bytes(body))
}

/// A payload gives back the body that it was made of, and gives none to
/// another domain.
pub proof fn rpc_payload_reads_back(domain: RpcPayloadDomain, other: RpcPayloadDomain, body: Seq<u8>)
    requires
        rpc_frame(domain, body) is Ok,
    ensures
        rpc_body(domain, rpc_frame(domain, body)->Ok_0) == Ok::<_, RpcCodecErrorView>(body),
        other != domain ==> rpc_body(other, rpc_frame(domain, body)->Ok_0) is Err,
{
    let encoded = rpc_frame(domain, body)->Ok_0;
    lemma_span();
    be_reads_back(body.len(), 4);
    assert(encoded.subrange(0, 8) =~= rpc_magic());
    assert(encoded.subrange(10, 14) =~= be(body.len(), 4));
    assert(encoded.subrange(14, 14 + body.len() as int) =~= body);
    assert(encoded.subrange(14 + body.len() as int, encoded.len() as int) =~= sha_of(body));
}

/// A payload is as long as it says, and no longer than a payload may be: with
/// anything behind it, or without its last bytes, it carries nothing.
pub proof fn payloads_keep_their_length(
    domain: RpcPayloadDomain,
    encoded: Seq<u8>,
    extra: Seq<u8>,
    n: int,
)
    requires
        rpc_body(domain, encoded) is Ok,
        extra.len() > 0,
        0 <= n < encoded.len(),
    ensures
        encoded.len() <= MAX_RPC_PAYLOAD_BYTES,
        rpc_body(domain, encoded + extra) is Err,
        rpc_body(domain, encoded.subrange(0, n)) is Err,
{
    let (longer, shorter) = (encoded + extra, encoded.subrange(0, n));
    assert(longer.subrange(0, 8) =~= encoded.subrange(0, 8));
    assert(longer.subrange(10, 14) =~= encoded.subrange(10, 14));
    if n >= 46 {
        assert(shorter.subrange(0, 8) =~= encoded.subrange(0, 8));
        assert(shorter.subrange(10, 14) =~= encoded.subrange(10, 14));
    }
}

/// A payload with another byte in its magic, its version, its domain or its
/// length carries nothing.
pub proof fn payloads_keep_their_head(
    domain: RpcPayloadDomain,
    encoded: Seq<u8>,
    i: int,
    byte: u8,
)
    requires
        rpc_body(domain, encoded) is Ok,
        0 <= i < 14,
        byte != encoded[i],
    ensures
        rpc_body(domain, encoded.update(i, byte)) is Err,
{
    let changed = encoded.update(i, byte);
    let (size, other) = (encoded.subrange(10, 14), changed.subrange(10, 14));
    if i < 8 {
        assert(changed.subrange(0, 8)[i] == byte);
        assert(encoded.subrange(0, 8)[i] == encoded[i]);
    } else if i >= 10 {
        assert(size[i - 10] != other[i - 10]);
        be_writes_back(size);
        be_writes_back(other);
    }
}

/// A payload with another byte in its body carries nothing, but for a body that
/// has the same digest; one with another byte in its digest carries nothing at
/// all.
pub proof fn payloads_keep_their_content(
    domain: RpcPayloadDomain,
    encoded: Seq<u8>,
    i: int,
    byte: u8,
)
    requires
        rpc_body(domain, encoded) is Ok,
        14 <= i < encoded.len(),
        byte != encoded[i],
    ensures
        ({
            let body = rpc_body(domain, encoded)->Ok_0;
            let changed = body.update(i - 14, byte);
            if i < 14 + body.len() {
                rpc_body(domain, encoded.update(i, byte)) is Err <==> sha_of(changed) != sha_of(
                    body,
                )
            } else {
                rpc_body(domain, encoded.update(i, byte)) is Err
            }
        }),
{
    let body = rpc_body(domain, encoded)->Ok_0;
    let changed = encoded.update(i, byte);
    let end = 14 + body.len() as int;
    assert(changed.subrange(0, 8) =~= encoded.subrange(0, 8));
    assert(changed.subrange(10, 14) =~= encoded.subrange(10, 14));
    if i < end {
        assert(changed.subrange(14, end) =~= body.update(i - 14, byte));
        assert(changed.subrange(end, changed.len() as int) =~= encoded.subrange(
            end,
            encoded.len() as int,
        ));
    } else {
        assert(changed.subrange(14, end) =~= body);
        assert(changed.subrange(end, changed.len() as int)[i - end] == byte);
        assert(encoded.subrange(end, encoded.len() as int)[i - end] == encoded[i]);
    }
}

// ---------------------------------------------------------------------------
// Identity
// ---------------------------------------------------------------------------

/// What an RPC asks for.
#[derive(Clone, Copy, Debug, PartialEq, Eq, Structural)]
pub enum RpcMethod {
    Vote,
    AppendEntries,
    InstallSnapshot,
}

/// Where a peer is reached and how it is recognised.
#[derive(Debug, PartialEq, Eq)]
pub struct PeerTlsConfig {
    pub node_id: u64,
    /// An HTTPS address, such as `https://127.0.0.1:7001`.
    pub endpoint: String,
    /// The DNS name that the peer's leaf certificate must carry.
    pub dns_name: String,
    /// The SHA-256 digest of the peer's leaf certificate.
    pub leaf_sha256: [u8; 32],
}

/// Who a node is to its peers, and who they are to it.
pub struct TransportTlsIdentity {
    pub cluster_id: [u8; 16],
    pub cluster_incarnation: u64,
    pub node_id: u64,
    pub ca_pem: Vec<u8>,
    pub certificate_pem: Vec<u8>,
    pub private_key_pem: Vec<u8>,
    pub peers: NodeMap<PeerTlsConfig>,
}

/// Why a transport cannot be set up.
#[derive(Clone, Debug)]
pub enum TransportConfigError {
    Invalid(String),
    Endpoint(String),
    Tls(String),
}

/// What a [`TransportConfigError`] says.
pub enum TransportConfigErrorView {
    Invalid(Seq<char>),
    Endpoint(Seq<char>),
    Tls(Seq<char>),
}

impl View for TransportConfigError {
    type V = TransportConfigErrorView;

    open spec fn view(&self) -> TransportConfigErrorView {
        match self {
            TransportConfigError::Invalid(m) => TransportConfigErrorView::Invalid(m@),
            TransportConfigError::Endpoint(m) => TransportConfigErrorView::Endpoint(m@),
            TransportConfigError::Tls(m) => TransportConfigErrorView::Tls(m@),
        }
    }
}

impl TransportConfigErrorView {
    /// The line that is shown for the error.
    pub open spec fn text(self) -> Seq<char> {
        match self {
            TransportConfigErrorView::Invalid(m) => {
                "invalid authenticated transport configuration: "@ + m
            },
            TransportConfigErrorView::Endpoint(m) => "transport endpoint error: "@ + m,
            TransportConfigErrorView::Tls(m) => "transport TLS error: "@ + m,
        }
    }
}

impl TransportConfigError {
    fn invalid(message: &str) -> (error: TransportConfigError)
        ensures
            error@ == TransportConfigErrorView::Invalid(message@),
    {
        TransportConfigError::Invalid(owned(message))
    }

    /// The line that is shown for the error.
    pub fn text(&self) -> (text: String)
        ensures
            text@ == self@.text(),
    {
        match self {
            TransportConfigError::Invalid(m) => joined(
                "invalid authenticated transport configuration: ",
                m.as_str(),
            ),
            TransportConfigError::Endpoint(m) => joined("transport endpoint error: ", m.as_str()),
            TransportConfigError::Tls(m) => joined("transport TLS error: ", m.as_str()),
        }
    }
}

/// What a check says of a transport: nothing, or an error.
pub type ConfigVerdict = std::result::Result<(), TransportConfigErrorView>;

/// Thirty-two zeros.
pub open spec fn no_fingerprint() -> Seq<u8> {
    Seq::new(32, |i: int| 0u8)
}

/// Whether a text begins with another.
pub open spec fn begins_with(text: Seq<char>, start: Seq<char>) -> bool {
    start.len() <= text.len() && text.subrange(0, start.len() as int) == start
}

/// Whether a text holds white space.
pub open spec fn holds_space(text: Seq<char>) -> bool {
    exists|i: int| 0 <= i < text.len() && is_space(#[trigger] text[i])
}

/// Whether a peer has an HTTPS address, a DNS name and a fingerprint.
pub open spec fn peer_complete(peer: PeerTlsConfig) -> bool {
    begins_with(peer.endpoint@, "https://"@) && peer.dns_name@.len() > 0 && !holds_space(
        peer.dns_name@,
    ) && peer.leaf_sha256@ != no_fingerprint()
}

/// The first thing that is wrong with the peers from `i` on.
pub open spec fn peers_verdict(
    node_id: u64,
    peers: Seq<(u64, PeerTlsConfig)>,
    i: int,
) -> ConfigVerdict
    decreases peers.len() - i,
{
    if i < 0 || i >= peers.len() {
        Ok(())
    } else if peers[i].0 == 0 || peers[i].0 != peers[i].1.node_id || peers[i].0 == node_id {
        Err(
            TransportConfigErrorView::Invalid("peer map keys must match nonlocal, nonzero node ids"@),
        )
    } else if !peer_complete(peers[i].1) {
        Err(
            TransportConfigErrorView::Invalid(
                "peer HTTPS endpoint, DNS name, and leaf fingerprint are required"@,
            ),
        )
    } else if exists|k: int|
        0 <= k < i && ((#[trigger] peers[k]).1.leaf_sha256@ == peers[i].1.leaf_sha256@
            || peers[k].1.dns_name@ == peers[i].1.dns_name@) {
        Err(
            TransportConfigErrorView::Invalid(
                "peer certificate fingerprints and DNS names must be unique"@,
            ),
        )
    } else {
        peers_verdict(node_id, peers, i + 1)
    }
}

/// The first thing that is wrong with an identity.
pub open spec fn identity_verdict(id: TransportTlsIdentity) -> ConfigVerdict {
    if id.cluster_id@ == Seq::new(16, |i: int| 0u8) {
        Err(TransportConfigErrorView::Invalid("cluster id must be nonzero"@))
    } else if id.cluster_incarnation == 0 || id.node_id == 0 {
        Err(
            TransportConfigErrorView::Invalid("cluster incarnation and node id must be nonzero"@),
        )
    } else if id.ca_pem@.len() == 0 || id.certificate_pem@.len() == 0 || id.private_key_pem@.len()
        == 0 {
        Err(
            TransportConfigErrorView::Invalid("CA, certificate, and private key PEM are required"@),
        )
    } else {
        peers_verdict(id.node_id, id.peers@, 0)
    }
}

/// Whether a check came out as `verdict` says.
pub open spec fn config_comes_out(
    verdict: ConfigVerdict,
    result: std::result::Result<(), TransportConfigError>,
) -> bool {
    match result {
        Ok(()) => verdict == Ok::<(), TransportConfigErrorView>(()),
        Err(e) => verdict == Err::<(), TransportConfigErrorView>(e@),
    }
}

/// Whether every byte is zero.
pub fn all_zero(bytes: &[u8]) -> (zero: bool)
    ensures
        zero == (bytes@ == Seq::new(bytes@.len(), |i: int| 0u8)),
{
    let ghost zeros = Seq::new(bytes@.len(), |i: int| 0u8);
    let mut i: usize = 0;
    while i < bytes.len()
        invariant
            zeros == Seq::new(bytes@.len(), |i: int| 0u8),
            i <= bytes@.len(),
            forall|k: int| 0 <= k < i ==> bytes@[k] == 0,
        decreases bytes@.len() - i,
    {
        if bytes[i] != 0 {
            assert(bytes@[i as int] != zeros[i as int]);
            return false;
        }
        i += 1;
    }
    assert(bytes@ =~= zeros);
    true
}

/// Tests whether a text begins with another.
pub fn text_begins_with(text: &str, start: &str) -> (begins: bool)
    ensures
        begins == begins_with(text@, start@),
{
    let t = text_chars(text);
    let s = text_chars(start);
    if s.len() > t.len() {
        return false;
    }
    let mut i: usize = 0;
    while i < s.len()
        invariant
            t@ == text@,
            s@ == start@,
            i <= s@.len() <= t@.len(),
            forall|k: int| 0 <= k < i ==> t@[k] == s@[k],
        decreases s@.len() - i,
    {
        if t[i] != s[i] {
            assert(text@.subrange(0, start@.len() as int)[i as int] != start@[i as int]);
            return false;
        }
        i += 1;
    }
    assert(text@.subrange(0, start@.len() as int) =~= start@);
    true
}

fn text_holds_space(text: &str) -> (holds: bool)
    ensures
        holds == holds_space(text@),
{
    let t = text_chars(text);
    let mut i: usize = 0;
    while i < t.len()
        invariant
            t@ == text@,
            i <= t@.len(),
            forall|k: int| 0 <= k < i ==> !is_space(#[trigger] t@[k]),
        decreases t@.len() - i,
    {
        if space_char(t[i]) {
            return true;
        }
        i += 1;
    }
    false
}

impl TransportTlsIdentity {
    #[verifier::loop_isolation(false)]
    pub fn validate(&self) -> (result: std::result::Result<(), TransportConfigError>)
        ensures
            config_comes_out(identity_verdict(*self), result),
    {
        assert(self.cluster_id@.len() == 16);
        if all_zero(self.cluster_id.as_slice()) {
            return Err(TransportConfigError::invalid("cluster id must be nonzero"));
        }
        if self.cluster_incarnation == 0 || self.node_id == 0 {
            return Err(
                TransportConfigError::invalid("cluster incarnation and node id must be nonzero"),
            );
        }
        if self.ca_pem.len() == 0 || self.certificate_pem.len() == 0 || self.private_key_pem.len()
            == 0 {
            return Err(
                TransportConfigError::invalid("CA, certificate, and private key PEM are required"),
            );
        }
        let ghost peers = self.peers@;
        let count = self.peers.len();
        let mut i: usize = 0;
        while i < count
            invariant
                i <= count == peers.len(),
                peers_verdict(self.node_id, peers, i as int) == peers_verdict(
                    self.node_id,
                    peers,
                    0,
                ),
            decreases count - i,
        {
            let entry = self.peers.at(i);
            let peer = &entry.1;
            if entry.0 == 0 || entry.0 != peer.node_id || entry.0 == self.node_id {
                return Err(
                    TransportConfigError::invalid(
                        "peer map keys must match nonlocal, nonzero node ids",
                    ),
                );
            }
            assert(peer.leaf_sha256@.len() == 32);
            if !text_begins_with(peer.endpoint.as_str(), "https://") || peer.dns_name.as_str().is_empty()
                || text_holds_space(peer.dns_name.as_str()) || all_zero(
                peer.leaf_sha256.as_slice(),
            ) {
                return Err(
                    TransportConfigError::invalid(
                        "peer HTTPS endpoint, DNS name, and leaf fingerprint are required",
                    ),
                );
            }
            let mut k: usize = 0;
            while k < i
                invariant
                    k <= i < count == peers.len(),
                    peers[i as int].1 == *peer,
                    forall|j: int|
                        0 <= j < k ==> (#[trigger] peers[j]).1.leaf_sha256@
                            != peers[i as int].1.leaf_sha256@ && peers[j].1.dns_name@
                            != peers[i as int].1.dns_name@,
                decreases i - k,
            {
                let other = &self.peers.at(k).1;
                if same_bytes(other.leaf_sha256.as_slice(), peer.leaf_sha256.as_slice())
                    || same_text(other.dns_name.as_str(), peer.dns_name.as_str()) {
                    assert(peers[k as int].1 == *other);
                    return Err(
                        TransportConfigError::invalid(
                            "peer certificate fingerprints and DNS names must be unique",
                        ),
                    );
                }
                k += 1;
            }
            i += 1;
        }
        Ok(())
    }

    /// Whether a peer is in the manifest exactly as given.
    pub fn admits(&self, peer: &PeerTlsConfig) -> (result: std::result::Result<
        (),
        TransportConfigError,
    >)
        ensures
            config_comes_out(
                match identity_verdict(*self) {
                    Err(e) => Err(e),
                    Ok(()) => if has_node(self.peers@, peer.node_id) && same_peer(
                        node_value(self.peers@, peer.node_id)->0,
                        *peer,
                    ) {
                        Ok(())
                    } else {
                        Err(
                            TransportConfigErrorView::Invalid(
                                "peer is not present in the authenticated manifest"@,
                            ),
                        )
                    },
                },
                result,
            ),
    {
        match self.validate() {
            Ok(()) => {},
            Err(e) => {
                return Err(e);
            },
        }
        if let Some(known) = self.peers.get(peer.node_id) {
            if known.node_id == peer.node_id && same_text(
                known.endpoint.as_str(),
                peer.endpoint.as_str(),
            ) && same_text(known.dns_name.as_str(), peer.dns_name.as_str()) && same_bytes(
                known.leaf_sha256.as_slice(),
                peer.leaf_sha256.as_slice(),
            ) {
                return Ok(());
            }
        }
        Err(TransportConfigError::invalid("peer is not present in the authenticated manifest"))
    }
}

/// Whether two peers agree in everything.
pub open spec fn same_peer(a: PeerTlsConfig, b: PeerTlsConfig) -> bool {
    a.node_id == b.node_id && a.endpoint@ == b.endpoint@ && a.dns_name@ == b.dns_name@
        && a.leaf_sha256@ == b.leaf_sha256@
}

// ---------------------------------------------------------------------------
// Envelopes
// ---------------------------------------------------------------------------

/// What an RPC answers when it refuses.
#[derive(Clone, Copy, Debug, PartialEq, Eq, Structural)]
pub enum StatusCode {
    DeadlineExceeded,
    Unavailable,
    Unauthenticated,
    PermissionDenied,
    InvalidArgument,
    FailedPrecondition,
    ResourceExhausted,
    Internal,
    Other,
}

/// A refusal with its reason.
#[derive(Clone, Debug)]
pub struct RpcStatus {
    pub code: StatusCode,
    pub message: String,
}

/// What an [`RpcStatus`] says.
pub struct RpcStatusView {
    pub code: StatusCode,
    pub message: Seq<char>,
}

impl View for RpcStatus {
    type V = RpcStatusView;

    open spec fn view(&self) -> RpcStatusView {
        RpcStatusView { code: self.code, message: self.message@ }
    }
}

/// A refusal.
pub open spec fn refusal(code: StatusCode, message: Seq<char>) -> RpcStatusView {
    RpcStatusView { code, message }
}

fn refuse(code: StatusCode, message: &str) -> (status: RpcStatus)
    ensures
        status@ == refusal(code, message@),
{
    RpcStatus { code, message: owned(message) }
}

/// A payload on its way between two nodes of a cluster.
#[derive(Clone, Debug, PartialEq, Eq)]
pub struct Envelope {
    pub version: u32,
    pub cluster_id: Vec<u8>,
    pub cluster_incarnation: u64,
    pub source_node_id: u64,
    pub target_node_id: u64,
    pub payload: Vec<u8>,
}

/// What a check says of a request: nothing, or a refusal.
pub type RequestVerdict = std::result::Result<(), RpcStatusView>;

/// Whether a node takes a request.
pub open spec fn request_verdict(id: TransportTlsIdentity, envelope: Envelope) -> RequestVerdict {
    if envelope.version != 1 {
        Err(
            refusal(
                StatusCode::FailedPrecondition,
                "unsupported OpenRaft transport wire version"@,
            ),
        )
    } else if envelope.cluster_id@ != id.cluster_id@ {
        Err(refusal(StatusCode::PermissionDenied, "cluster id mismatch"@))
    } else if envelope.cluster_incarnation != id.cluster_incarnation {
        Err(refusal(StatusCode::PermissionDenied, "cluster incarnation mismatch"@))
    } else if envelope.source_node_id == 0 || envelope.target_node_id != id.node_id {
        Err(refusal(StatusCode::PermissionDenied, "source or target node mismatch"@))
    } else if envelope.payload@.len() > 8_387_584 {
        Err(refusal(StatusCode::ResourceExhausted, "RPC payload exceeds 8 MiB limit"@))
    } else {
        Ok(())
    }
}

/// Checks a request before anything of it is decoded.
pub fn validate_request_envelope(
    identity: &TransportTlsIdentity,
    envelope: &Envelope,
    _method: RpcMethod,
) -> (result: std::result::Result<(), RpcStatus>)
    ensures
        match result {
            Ok(()) => request_verdict(*identity, *envelope) is Ok,
            Err(s) => request_verdict(*identity, *envelope) == Err::<(), _>(s@),
        },
{
    if envelope.version != TRANSPORT_WIRE_VERSION {
        return Err(
            refuse(
                StatusCode::FailedPrecondition,
                "unsupported OpenRaft transport wire version",
            ),
        );
    }
    if !same_bytes(envelope.cluster_id.as_slice(), identity.cluster_id.as_slice()) {
        return Err(refuse(StatusCode::PermissionDenied, "cluster id mismatch"));
    }
    if envelope.cluster_incarnation != identity.cluster_incarnation {
        return Err(refuse(StatusCode::PermissionDenied, "cluster incarnation mismatch"));
    }
    if envelope.source_node_id == 0 || envelope.target_node_id != identity.node_id {
        return Err(refuse(StatusCode::PermissionDenied, "source or target node mismatch"));
    }
    if envelope.payload.len() > MAX_RPC_PAYLOAD_BYTES {
        return Err(refuse(StatusCode::ResourceExhausted, "RPC payload exceeds 8 MiB limit"));
    }
    Ok(())
}

/// Checks the length of a piece of a snapshot.
pub fn validate_snapshot_chunk_size(data_len: usize) -> (result: std::result::Result<
    (),
    RpcStatus,
>)
    ensures
        match result {
            Ok(()) => data_len <= 1_048_576,
            Err(s) => data_len > 1_048_576 && s@ == refusal(
                StatusCode::ResourceExhausted,
                "snapshot chunk exceeds 1 MiB limit"@,
            ),
        },
{
    if data_len > MAX_SNAPSHOT_CHUNK_BYTES {
        return Err(refuse(StatusCode::ResourceExhausted, "snapshot chunk exceeds 1 MiB limit"));
    }
    Ok(())
}

/// Whether a reply comes from the peer that was asked, for this node, and is
/// not too long.
pub open spec fn reply_fits(
    id: TransportTlsIdentity,
    peer_node_id: u64,
    envelope: Envelope,
) -> bool {
    &&& envelope.version == 1
    &&& envelope.cluster_id@ == id.cluster_id@
    &&& envelope.cluster_incarnation == id.cluster_incarnation
    &&& envelope.source_node_id == peer_node_id
    &&& envelope.target_node_id == id.node_id
    &&& envelope.payload@.len() <= 8_387_584
}

pub fn validate_response_envelope(
    identity: &TransportTlsIdentity,
    peer: &PeerTlsConfig,
    envelope: &Envelope,
) -> (result: std::result::Result<(), TransportConfigError>)
    ensures
        config_comes_out(
            if reply_fits(*identity, peer.node_id, *envelope) {
                Ok(())
            } else {
                Err(
                    TransportConfigErrorView::Invalid(
                        "response envelope identity or size mismatch"@,
                    ),
                )
            },
            result,
        ),
{
    if envelope.version != TRANSPORT_WIRE_VERSION || !same_bytes(
        envelope.cluster_id.as_slice(),
        identity.cluster_id.as_slice(),
    ) || envelope.cluster_incarnation != identity.cluster_incarnation || envelope.source_node_id
        != peer.node_id || envelope.target_node_id != identity.node_id || envelope.payload.len()
        > MAX_RPC_PAYLOAD_BYTES {
        return Err(
            TransportConfigError::invalid("response envelope identity or size mismatch"),
        );
    }
    Ok(())
}

/// Whether an envelope carries a payload from a node to another.
pub open spec fn carries(
    envelope: Envelope,
    id: TransportTlsIdentity,
    target_node_id: u64,
    payload: Seq<u8>,
) -> bool {
    &&& envelope.version == 1
    &&& envelope.cluster_id@ == id.cluster_id@
    &&& envelope.cluster_incarnation == id.cluster_incarnation
    &&& envelope.source_node_id == id.node_id
    &&& envelope.target_node_id == target_node_id
    &&& envelope.payload@ == payload
}

/// What stops a node from sending a payload to another, if anything does.
pub open spec fn sending_verdict(
    id: TransportTlsIdentity,
    target_node_id: u64,
    payload: Seq<u8>,
) -> ConfigVerdict {
    if identity_verdict(id) is Err {
        identity_verdict(id)
    } else if target_node_id == 0 || payload.len() > 8_387_584 {
        Err(
            TransportConfigErrorView::Invalid(
                "target node is zero or payload exceeds the transport limit"@,
            ),
        )
    } else {
        Ok(())
    }
}

/// Puts a payload into an envelope to another node.
pub fn envelope(identity: &TransportTlsIdentity, target_node_id: u64, payload: Vec<u8>) -> (sent:
    std::result::Result<Envelope, TransportConfigError>)
    ensures
        match sent {
            Ok(e) => sending_verdict(*identity, target_node_id, payload@) is Ok && carries(
                e,
                *identity,
                target_node_id,
                payload@,
            ),
            Err(e) => sending_verdict(*identity, target_node_id, payload@) == Err::<(), _>(e@),
        },
{
    match identity.validate() {
        Ok(()) => {},
        Err(e) => {
            return Err(e);
        },
    }
    if target_node_id == 0 || payload.len() > MAX_RPC_PAYLOAD_BYTES {
        return Err(
            TransportConfigError::invalid(
                "target node is zero or payload exceeds the transport limit",
            ),
        );
    }
    Ok(
        Envelope {
            version: TRANSPORT_WIRE_VERSION,
            cluster_id: copy_bytes(identity.cluster_id.as_slice()),
            cluster_incarnation: identity.cluster_incarnation,
            source_node_id: identity.node_id,
            target_node_id,
            payload,
        },
    )
}

/// What a node sends, the node that it is sent to takes as a request, and a
/// reply that it sends back is taken as a reply.
pub proof fn envelopes_are_taken(
    sender: TransportTlsIdentity,
    receiver: TransportTlsIdentity,
    request: Envelope,
    payload: Seq<u8>,
    reply: Envelope,
    answer: Seq<u8>,
)
    requires
        sender.cluster_id@ == receiver.cluster_id@,
        sender.cluster_incarnation == receiver.cluster_incarnation,
        sending_verdict(sender, receiver.node_id, payload) is Ok,
        carries(request, sender, receiver.node_id, payload),
        sending_verdict(receiver, sender.node_id, answer) is Ok,
        carries(reply, receiver, sender.node_id, answer),
    ensures
        request_verdict(receiver, request) is Ok,
        reply_fits(sender, receiver.node_id, reply),
{
}

// ---------------------------------------------------------------------------
// Authentication
// ---------------------------------------------------------------------------

/// What is known of the certificates of a connection.
pub enum PeerCertificates {
    /// The connection is not encrypted.
    NoTls,
    /// The connection is encrypted, and the peer showed no certificates.
    NoCertificates,
    /// The certificates that the peer showed, its leaf first.
    Chain(Vec<Vec<u8>>),
}

/// The digest of a leaf certificate.
pub fn leaf_fingerprint(der: &[u8]) -> (fingerprint: [u8; 32])
    ensures
        fingerprint@ == sha_of(der@),
{
    sha32(der)
}

/// Checks who sends a request before any of it is acted on.
pub struct PeerAuthenticator {
    identity: TransportTlsIdentity,
}

/// The node that a request comes from, or the refusal.
pub open spec fn authenticated(
    id: TransportTlsIdentity,
    envelope: Envelope,
    certificates: PeerCertificates,
) -> std::result::Result<u64, RpcStatusView> {
    match request_verdict(id, envelope) {
        Err(s) => Err(s),
        Ok(()) => match certificates {
            PeerCertificates::NoTls => Err(
                refusal(
                    StatusCode::Unauthenticated,
                    "authenticated TLS connection is required"@,
                ),
            ),
            PeerCertificates::NoCertificates => Err(
                refusal(
                    StatusCode::Unauthenticated,
                    "authenticated TLS peer certificate is required"@,
                ),
            ),
            PeerCertificates::Chain(chain) => if chain@.len() == 0 {
                Err(
                    refusal(
                        StatusCode::Unauthenticated,
                        "TLS peer certificate chain is empty"@,
                    ),
                )
            } else if !has_node(id.peers@, envelope.source_node_id) {
                Err(
                    refusal(
                        StatusCode::PermissionDenied,
                        "source node is not in the peer manifest"@,
                    ),
                )
            } else if sha_of(chain@[0]@) != node_value(
                id.peers@,
                envelope.source_node_id,
            )->0.leaf_sha256@ {
                Err(
                    refusal(
                        StatusCode::PermissionDenied,
                        "TLS leaf certificate does not match source node"@,
                    ),
                )
            } else {
                Ok(node_value(id.peers@, envelope.source_node_id)->0.node_id)
            },
        },
    }
}

impl PeerAuthenticator {
    /// The identity that requests are held against.
    pub closed spec fn id(self) -> TransportTlsIdentity {
        self.identity
    }

    pub fn new(identity: TransportTlsIdentity) -> (authenticator: std::result::Result<
        PeerAuthenticator,
        TransportConfigError,
    >)
        ensures
            match authenticator {
                Ok(a) => identity_verdict(identity) is Ok && a.id() == identity,
                Err(e) => identity_verdict(identity) == Err::<(), _>(e@),
            },
    {
        match identity.validate() {
            Ok(()) => Ok(PeerAuthenticator { identity }),
            Err(e) => Err(e),
        }
    }

    /// Binds a request to the node whose certificate the connection showed.
    pub fn authenticate(
        &self,
        envelope: &Envelope,
        certificates: &PeerCertificates,
        method: RpcMethod,
    ) -> (source: std::result::Result<u64, RpcStatus>)
        ensures
            match source {
                Ok(node) => authenticated(self.id(), *envelope, *certificates) == Ok::<_, RpcStatusView>(
                    node,
                ),
                Err(s) => authenticated(self.id(), *envelope, *certificates) == Err::<u64, _>(s@),
            },
    {
        match validate_request_envelope(&self.identity, envelope, method) {
            Ok(()) => {},
            Err(s) => {
                return Err(s);
            },
        }
        match certificates {
            PeerCertificates::NoTls => Err(
                refuse(
                    StatusCode::Unauthenticated,
                    "authenticated TLS connection is required",
                ),
            ),
            PeerCertificates::NoCertificates => Err(
                refuse(
                    StatusCode::Unauthenticated,
                    "authenticated TLS peer certificate is required",
                ),
            ),
            PeerCertificates::Chain(chain) => {
                if chain.len() == 0 {
                    return Err(
                        refuse(StatusCode::Unauthenticated, "TLS peer certificate chain is empty"),
                    );
                }
                let fingerprint = leaf_fingerprint(chain[0].as_slice());
                match self.identity.peers.get(envelope.source_node_id) {
                    None => Err(
                        refuse(
                            StatusCode::PermissionDenied,
                            "source node is not in the peer manifest",
                        ),
                    ),
                    Some(peer) => {
                        if !same_bytes(fingerprint.as_slice(), peer.leaf_sha256.as_slice()) {
                            return Err(
                                refuse(
                                    StatusCode::PermissionDenied,
                                    "TLS leaf certificate does not match source node",
                                ),
                            );
                        }
                        Ok(peer.node_id)
                    },
                }
            },
        }
    }
}

/// A request that is let in comes from the node that its envelope names, and
/// that node's certificate was shown.
pub proof fn admitted_source_is_bound(
    id: TransportTlsIdentity,
    envelope: Envelope,
    certificates: PeerCertificates,
)
    requires
        identity_verdict(id) is Ok,
        nodes_ascend(id.peers@),
        authenticated(id, envelope, certificates) is Ok,
    ensures
        authenticated(id, envelope, certificates) == Ok::<_, RpcStatusView>(
            envelope.source_node_id,
        ),
        envelope.source_node_id != id.node_id,
        envelope.target_node_id == id.node_id,
        certificates matches PeerCertificates::Chain(chain) && chain@.len() > 0 && sha_of(
            chain@[0]@,
        ) == node_value(id.peers@, envelope.source_node_id)->0.leaf_sha256@,
{
    let peers = id.peers@;
    let at = crate::node_map::node_place(peers, envelope.source_node_id);
    assert(0 <= at < peers.len() && peers[at].0 == envelope.source_node_id);
    lemma_node_at(peers, at);
    lemma_peers_valid(id.node_id, peers, 0, at);
}

proof fn lemma_peers_valid(node_id: u64, peers: Seq<(u64, PeerTlsConfig)>, i: int, at: int)
    requires
        0 <= i <= at < peers.len(),
        peers_verdict(node_id, peers, i) is Ok,
    ensures
        peers[at].0 == peers[at].1.node_id,
        peers[at].0 != node_id,
    decreases at - i,
{
    if i < at {
        lemma_peers_valid(node_id, peers, i + 1, at);
    }
}

} // verus!
