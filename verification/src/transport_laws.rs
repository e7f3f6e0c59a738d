//! What the authenticated transport lets through, and how a payload is laid
//! out.

use crate::bytes::{be, lemma_be_len};
use crate::ids::sha_of;
use crate::node_map::{has_node, node_value};
use crate::pg_wire_laws::{numbers_stand_highest_byte_first, wire_u32};
use crate::rpc::{
    admitted, append_fits, call_failure, call_outcome, configuration_fault, OutgoingRpc,
    RpcFailureView, RpcOutcome,
};
use crate::transport::{
    authenticated, carries, identity_verdict, peer_complete, peers_verdict, reply_fits,
    request_verdict, rpc_frame, rpc_payload_reads_back, Envelope, PeerCertificates, PeerTlsConfig,
    RpcCodecErrorView, RpcMethod, RpcPayloadDomain, StatusCode, TransportTlsIdentity,
};
use vstd::prelude::*;
use vstd::string::*;

verus! {

/// A payload is eight letters, the version, the number of its domain, the
/// length of its body, the body and the SHA-256 digest of the body; every body
/// that leaves it within 8 MiB less a KiB can be sent.
pub proof fn payloads_are_laid_out(domain: RpcPayloadDomain, body: Seq<u8>)
    ensures
        rpc_frame(domain, body) is Ok <==> 8 + 1 + 1 + 4 + body.len() + 32 <= 8 * 1024 * 1024
            - 1024,
        rpc_frame(domain, body) matches Ok(p) ==> {
            &&& p.len() == body.len() + 46
            &&& p.subrange(0, 8) == seq![
                'C' as u8,
                'H' as u8,
                'R' as u8,
                'F' as u8,
                'R' as u8,
                'P' as u8,
                'C' as u8,
                0u8,
            ]
            &&& p[8] == 1
            &&& p[9] == match domain {
                RpcPayloadDomain::VoteRequest => 1u8,
                RpcPayloadDomain::VoteResponse => 2u8,
                RpcPayloadDomain::AppendEntriesRequest => 3u8,
                RpcPayloadDomain::AppendEntriesResponse => 4u8,
                RpcPayloadDomain::InstallSnapshotRequest => 5u8,
                RpcPayloadDomain::InstallSnapshotResponse => 6u8,
            }
            &&& wire_u32(p, 10) == body.len()
            &&& p.subrange(14, 14 + body.len() as int) == body
            &&& p.subrange(14 + body.len() as int, p.len() as int) == sha_of(body)
        },
{
    if let Ok(p) = rpc_frame(domain, body) {
        lemma_be_len(body.len(), 4);
        assert(p.subrange(0, 8) =~= seq![
            'C' as u8,
            'H' as u8,
            'R' as u8,
            'F' as u8,
            'R' as u8,
            'P' as u8,
            'C' as u8,
            0u8,
        ]);
        let four = p.subrange(10, 14);
        assert(four =~= be(body.len(), 4));
        crate::bytes::lemma_span();
        crate::bytes::be_reads_back(body.len(), 4);
        numbers_stand_highest_byte_first(four);
        assert(p[10] == four[0] && p[11] == four[1] && p[12] == four[2] && p[13] == four[3]);
        assert(p.subrange(14, 14 + body.len() as int) =~= body);
        assert(p.subrange(14 + body.len() as int, p.len() as int) =~= sha_of(body));
    }
}

/// Whether a peer can be reached and told apart: its number is that of its
/// place, and neither zero nor the node's own; it has an HTTPS address, a name
/// without spaces and a fingerprint.
pub open spec fn is_sound_peer(node_id: u64, key: u64, peer: PeerTlsConfig) -> bool {
    &&& key != 0
    &&& key == peer.node_id
    &&& key != node_id
    &&& peer_complete(peer)
}

proof fn lemma_peers(node_id: u64, peers: Seq<(u64, PeerTlsConfig)>, i: int)
    requires
        0 <= i <= peers.len(),
    ensures
        peers_verdict(node_id, peers, i) is Ok <==> {
            &&& forall|k: int|
                i <= k < peers.len() ==> is_sound_peer(
                    node_id,
                    (#[trigger] peers[k]).0,
                    peers[k].1,
                )
            &&& forall|j: int, k: int|
                0 <= j < k && i <= k < peers.len() ==> (#[trigger] peers[j]).1.leaf_sha256@ != (
                #[trigger] peers[k]).1.leaf_sha256@ && peers[j].1.dns_name@ != peers[k].1.dns_name@
        },
    decreases peers.len() - i,
{
    if i < peers.len() {
        lemma_peers(node_id, peers, i + 1);
        let clash = exists|k: int|
            0 <= k < i && ((#[trigger] peers[k]).1.leaf_sha256@ == peers[i].1.leaf_sha256@
                || peers[k].1.dns_name@ == peers[i].1.dns_name@);
        if !is_sound_peer(node_id, peers[i].0, peers[i].1) {
        } else if clash {
            let k = choose|k: int|
                0 <= k < i && ((#[trigger] peers[k]).1.leaf_sha256@ == peers[i].1.leaf_sha256@
                    || peers[k].1.dns_name@ == peers[i].1.dns_name@);
            assert(0 <= k < i && i <= i < peers.len());
        }
    }
}

/// A transport is accepted exactly where its cluster, incarnation and node are
/// not zero, its certificates and its key are there, and its peers are sound
/// and no two share a name or a fingerprint.
pub proof fn complete_transports_are_accepted(id: TransportTlsIdentity)
    ensures
        identity_verdict(id) is Ok <==> {
            &&& exists|i: int| 0 <= i < 16 && #[trigger] id.cluster_id@[i] != 0
            &&& id.cluster_incarnation != 0
            &&& id.node_id != 0
            &&& id.ca_pem@.len() > 0
            &&& id.certificate_pem@.len() > 0
            &&& id.private_key_pem@.len() > 0
            &&& forall|k: int|
                0 <= k < id.peers@.len() ==> is_sound_peer(
                    id.node_id,
                    (#[trigger] id.peers@[k]).0,
                    id.peers@[k].1,
                )
            &&& forall|j: int, k: int|
                0 <= j < k < id.peers@.len() ==> (#[trigger] id.peers@[j]).1.leaf_sha256@ != (
                #[trigger] id.peers@[k]).1.leaf_sha256@ && id.peers@[j].1.dns_name@
                    != id.peers@[k].1.dns_name@
        },
{
    lemma_peers(id.node_id, id.peers@, 0);
    let zero = Seq::new(16, |i: int| 0u8);
    if id.cluster_id@ != zero {
        if forall|i: int| 0 <= i < 16 ==> #[trigger] id.cluster_id@[i] == 0 {
            assert(id.cluster_id@ =~= zero);
        }
    } else {
        assert forall|i: int| 0 <= i < 16 implies #[trigger] id.cluster_id@[i] == 0 by {
            assert(zero[i] == 0);
        }
    }
}

/// A peer is complete exactly where its address begins with the letters of
/// HTTPS, its name is there and holds no space, and its fingerprint is not all
/// zeros.
pub proof fn complete_peers_are_reachable(peer: PeerTlsConfig)
    ensures
        peer_complete(peer) ==> peer.endpoint@.len() >= 8 && peer.endpoint@.subrange(0, 8)
            == seq!['h', 't', 't', 'p', 's', ':', '/', '/'],
        peer_complete(peer) ==> peer.dns_name@.len() > 0 && !peer.dns_name@.contains(' ')
            && exists|i: int| 0 <= i < 32 && #[trigger] peer.leaf_sha256@[i] != 0,
{
    reveal_strlit("https://");
    if peer_complete(peer) {
        assert("https://"@ =~= seq!['h', 't', 't', 'p', 's', ':', '/', '/']);
        if peer.dns_name@.contains(' ') {
            let i = choose|i: int| 0 <= i < peer.dns_name@.len() && peer.dns_name@[i] == ' ';
            assert(crate::text::is_space(peer.dns_name@[i]));
        }
        if forall|i: int| 0 <= i < 32 ==> #[trigger] peer.leaf_sha256@[i] == 0 {
            assert(peer.leaf_sha256@ =~= crate::transport::no_fingerprint());
        }
    }
}

/// A request is taken exactly where it is of the version, of the node's own
/// cluster and incarnation, from a node, to this node, and within the limit.
pub proof fn fitting_requests_are_taken(id: TransportTlsIdentity, e: Envelope)
    ensures
        request_verdict(id, e) is Ok <==> e.version == 1 && e.cluster_id@ == id.cluster_id@
            && e.cluster_incarnation == id.cluster_incarnation && e.source_node_id != 0
            && e.target_node_id == id.node_id && e.payload@.len() <= 8 * 1024 * 1024 - 1024,
        e.version == 1 && e.cluster_id@ != id.cluster_id@ ==> (request_verdict(id, e) matches Err(s)
            && s.code == StatusCode::PermissionDenied),
{
}

/// A request is authenticated exactly where it is taken and the first
/// certificate that was shown is the one that is pinned for the node that the
/// request names; it then comes from that node.
pub proof fn pinned_certificates_authenticate(
    id: TransportTlsIdentity,
    e: Envelope,
    certificates: PeerCertificates,
)
    ensures
        authenticated(id, e, certificates) is Ok <==> {
            &&& request_verdict(id, e) is Ok
            &&& has_node(id.peers@, e.source_node_id)
            &&& certificates matches PeerCertificates::Chain(chain) && chain@.len() > 0 && sha_of(
                chain@[0]@,
            ) == node_value(id.peers@, e.source_node_id)->0.leaf_sha256@
        },
        authenticated(id, e, certificates) matches Ok(source) ==> source == node_value(
            id.peers@,
            e.source_node_id,
        )->0.node_id,
{
}

/// The body of a request from an authenticated node is read exactly where its
/// payload is one for the method; it is the body that the node sent.
pub proof fn requests_are_admitted(
    id: TransportTlsIdentity,
    e: Envelope,
    certificates: PeerCertificates,
    method: RpcMethod,
    body: Seq<u8>,
)
    requires
        authenticated(id, e, certificates) is Ok,
        rpc_frame(
            match method {
                RpcMethod::Vote => RpcPayloadDomain::VoteRequest,
                RpcMethod::AppendEntries => RpcPayloadDomain::AppendEntriesRequest,
                RpcMethod::InstallSnapshot => RpcPayloadDomain::InstallSnapshotRequest,
            },
            body,
        ) == Ok::<_, RpcCodecErrorView>(e.payload@),
    ensures
        admitted(id, e, certificates, method) matches Ok((source, read)) && read == body && source
            == authenticated(id, e, certificates)->Ok_0,
{
    rpc_payload_reads_back(method.request_domain(), method.request_domain(), body);
}

/// A call is made exactly where its target is a peer at its address, its
/// payload is within the limits, and the node's own transport is complete.
pub proof fn calls_are_made(
    id: TransportTlsIdentity,
    target: u64,
    address: Seq<char>,
    rpc: OutgoingRpc,
    body: Seq<u8>,
)
    requires
        identity_verdict(id) is Ok,
        target != 0,
    ensures
        configuration_fault(id, target, address) is None <==> has_node(id.peers@, target)
            && address == node_value(id.peers@, target)->0.endpoint@,
        call_failure(id, target, None, rpc, body) is None <==> body.len() <= 8_387_538
            && match rpc {
            OutgoingRpc::Vote => true,
            OutgoingRpc::Append(entries) => entries@.len() <= 4096 && forall|i: int|
                0 <= i < entries@.len() ==> ((#[trigger] entries@[i]) matches Some(json)
                    ==> json@.len() <= 4_194_304),
            OutgoingRpc::Snapshot(len) => len <= 1_048_576,
        },
{
    crate::bytes::lemma_be_len(body.len(), 4);
    payloads_are_laid_out(rpc.method_of().request_domain(), body);
    if let OutgoingRpc::Append(entries) = rpc {
        assert(append_fits(entries@) <==> entries@.len() <= 4096 && forall|i: int|
            0 <= i < entries@.len() ==> ((#[trigger] entries@[i]) matches Some(json) ==> json@.len()
                <= 4_194_304));
    }
}

/// The reply of the node that was called is read as the body that it was made
/// of, and a reply from any other node is none.
pub proof fn replies_are_the_peers(
    id: TransportTlsIdentity,
    target: u64,
    rpc: OutgoingRpc,
    e: Envelope,
    body: Seq<u8>,
)
    requires
        has_node(id.peers@, target),
        rpc_frame(
            match rpc {
                OutgoingRpc::Vote => RpcPayloadDomain::VoteResponse,
                OutgoingRpc::Append(_) => RpcPayloadDomain::AppendEntriesResponse,
                OutgoingRpc::Snapshot(_) => RpcPayloadDomain::InstallSnapshotResponse,
            },
            body,
        ) == Ok::<_, RpcCodecErrorView>(e.payload@),
    ensures
        call_outcome(id, target, rpc, RpcOutcome::Reply(e)) == Ok::<_, RpcFailureView>(body)
            <==> e.version == 1 && e.cluster_id@ == id.cluster_id@ && e.cluster_incarnation
            == id.cluster_incarnation && e.source_node_id == node_value(
            id.peers@,
            target,
        )->0.node_id && e.target_node_id == id.node_id,
        !reply_fits(id, node_value(id.peers@, target)->0.node_id, e) ==> call_outcome(
            id,
            target,
            rpc,
            RpcOutcome::Reply(e),
        ) is Err,
{
    payloads_are_laid_out(rpc.method_of().reply_domain(), body);
    rpc_payload_reads_back(rpc.method_of().reply_domain(), rpc.method_of().reply_domain(), body);
}

/// What a node sends is taken by the node that it is sent to, where both are of
/// one cluster and incarnation, and it comes from the sender.
pub proof fn sent_requests_are_taken(
    sender: TransportTlsIdentity,
    receiver: TransportTlsIdentity,
    envelope: Envelope,
    payload: Seq<u8>,
)
    requires
        carries(envelope, sender, receiver.node_id, payload),
        sender.cluster_id@ == receiver.cluster_id@,
        sender.cluster_incarnation == receiver.cluster_incarnation,
        sender.node_id != 0,
        payload.len() <= 8 * 1024 * 1024 - 1024,
    ensures
        request_verdict(receiver, envelope) is Ok,
        envelope.source_node_id == sender.node_id,
        envelope.payload@ == payload,
{
}

} // verus!
