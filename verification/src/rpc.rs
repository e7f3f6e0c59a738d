//! The calls between nodes: what is sent, what is made of a reply, and how a
//! request is let in and answered.

use crate::command::encode_command;
use crate::node_map::{has_node, node_value};
use crate::text::{digits, digits_text, joined3, same_text};
use crate::transport::{
    authenticated, carries, decode_rpc_payload, encode_rpc_payload, envelope, refusal, reply_fits,
    rpc_body, rpc_frame, sending_verdict, validate_response_envelope, validate_snapshot_chunk_size,
    Envelope, PeerAuthenticator, PeerCertificates, RpcCodecError, RpcCodecErrorView, RpcMethod,
    RpcPayloadDomain, RpcStatus, RpcStatusView, StatusCode, TransportConfigErrorView,
    TransportTlsIdentity, MAX_APPEND_ENTRIES,
};
use vstd::prelude::*;
use vstd::string::*;

verus! {

impl RpcMethod {
    /// The domain of the requests of a method.
    pub open spec fn request_domain(self) -> RpcPayloadDomain {
        match self {
            RpcMethod::Vote => RpcPayloadDomain::VoteRequest,
            RpcMethod::AppendEntries => RpcPayloadDomain::AppendEntriesRequest,
            RpcMethod::InstallSnapshot => RpcPayloadDomain::InstallSnapshotRequest,
        }
    }

    /// The domain of the replies of a method.
    pub open spec fn reply_domain(self) -> RpcPayloadDomain {
        match self {
            RpcMethod::Vote => RpcPayloadDomain::VoteResponse,
            RpcMethod::AppendEntries => RpcPayloadDomain::AppendEntriesResponse,
            RpcMethod::InstallSnapshot => RpcPayloadDomain::InstallSnapshotResponse,
        }
    }

    fn asks_in(self) -> (domain: RpcPayloadDomain)
        ensures
            domain == self.request_domain(),
    {
        match self {
            RpcMethod::Vote => RpcPayloadDomain::VoteRequest,
            RpcMethod::AppendEntries => RpcPayloadDomain::AppendEntriesRequest,
            RpcMethod::InstallSnapshot => RpcPayloadDomain::InstallSnapshotRequest,
        }
    }

    fn answers_in(self) -> (domain: RpcPayloadDomain)
        ensures
            domain == self.reply_domain(),
    {
        match self {
            RpcMethod::Vote => RpcPayloadDomain::VoteResponse,
            RpcMethod::AppendEntries => RpcPayloadDomain::AppendEntriesResponse,
            RpcMethod::InstallSnapshot => RpcPayloadDomain::InstallSnapshotResponse,
        }
    }
}

/// Whether an append request is small enough: no more than 4096 entries, and
/// no command whose JSON is too long.
pub open spec fn append_fits(entries: Seq<Option<Vec<u8>>>) -> bool {
    entries.len() <= 4096 && forall|i: int|
        0 <= i < entries.len() ==> ((#[trigger] entries[i]) matches Some(json) ==> json@.len()
            <= 4_194_304)
}

/// Checks an append request. An entry is the JSON of its command, or nothing
/// where it carries none.
pub fn validate_append_request(entries: &[Option<Vec<u8>>]) -> (result: std::result::Result<
    (),
    RpcCodecError,
>)
    ensures
        match result {
            Ok(()) => append_fits(entries@),
            Err(e) => !append_fits(entries@) && e@ == RpcCodecErrorView::Limit,
        },
{
    if entries.len() > MAX_APPEND_ENTRIES {
        return Err(RpcCodecError::Limit);
    }
    let mut i: usize = 0;
    while i < entries.len()
        invariant
            i <= entries@.len() <= 4096,
            forall|k: int|
                0 <= k < i ==> ((#[trigger] entries@[k]) matches Some(json) ==> json@.len()
                    <= 4_194_304),
        decreases entries@.len() - i,
    {
        if let Some(json) = &entries[i] {
            match encode_command(json.as_slice()) {
                Ok(_) => {},
                Err(_) => {
                    assert(!append_fits(entries@)) by {
                        assert(entries@[i as int] matches Some(json) && json@.len() > 4_194_304);
                    }
                    return Err(RpcCodecError::Limit);
                },
            }
        }
        i += 1;
    }
    Ok(())
}

/// How many entries to try after a request was too large.
pub open spec fn entries_hint(entries: nat) -> nat {
    if entries / 2 > 1 {
        entries / 2
    } else {
        1
    }
}

fn hint_for(entries: usize) -> (hint: u64)
    ensures
        hint == entries_hint(entries as nat),
{
    if entries / 2 > 1 {
        (entries / 2) as u64
    } else {
        1
    }
}

/// What became of a call that brought no reply.
#[derive(Clone, Debug)]
pub enum RpcFailure {
    Timeout,
    Unreachable(String),
    Network(String),
    PayloadTooLarge(u64),
}

/// What an [`RpcFailure`] says.
pub enum RpcFailureView {
    Timeout,
    Unreachable(Seq<char>),
    Network(Seq<char>),
    PayloadTooLarge(nat),
}

impl View for RpcFailure {
    type V = RpcFailureView;

    open spec fn view(&self) -> RpcFailureView {
        match self {
            RpcFailure::Timeout => RpcFailureView::Timeout,
            RpcFailure::Unreachable(m) => RpcFailureView::Unreachable(m@),
            RpcFailure::Network(m) => RpcFailureView::Network(m@),
            RpcFailure::PayloadTooLarge(n) => RpcFailureView::PayloadTooLarge(*n as nat),
        }
    }
}

/// What keeps a node from calling another at an address, if anything does.
pub open spec fn configuration_fault(
    id: TransportTlsIdentity,
    target: u64,
    address: Seq<char>,
) -> Option<Seq<char>> {
    if !has_node(id.peers@, target) {
        Some(
            "target node "@ + digits(target as nat)
                + " is not present in the authenticated manifest"@,
        )
    } else if address != node_value(id.peers@, target)->0.endpoint@ {
        Some(
            "OpenRaft address for node "@ + digits(target as nat)
                + " does not match the authenticated manifest"@,
        )
    } else {
        None
    }
}

/// Finds what keeps a node from calling another at an address.
pub fn peer_configuration(identity: &TransportTlsIdentity, target: u64, address: &str) -> (fault:
    Option<String>)
    ensures
        match fault {
            Some(m) => configuration_fault(*identity, target, address@) == Some(m@),
            None => configuration_fault(*identity, target, address@) is None,
        },
{
    match identity.peers.get(target) {
        None => Some(
            joined3(
                "target node ",
                digits_text(target).as_str(),
                " is not present in the authenticated manifest",
            ),
        ),
        Some(peer) => if !same_text(address, peer.endpoint.as_str()) {
            Some(
                joined3(
                    "OpenRaft address for node ",
                    digits_text(target).as_str(),
                    " does not match the authenticated manifest",
                ),
            )
        } else {
            None
        },
    }
}

/// What is known of a call besides the JSON of its body.
pub enum OutgoingRpc {
    Vote,
    /// The JSON of each entry's command, or nothing where it carries none.
    Append(Vec<Option<Vec<u8>>>),
    /// The length of the piece of the snapshot.
    Snapshot(usize),
}

impl OutgoingRpc {
    pub open spec fn method_of(self) -> RpcMethod {
        match self {
            OutgoingRpc::Vote => RpcMethod::Vote,
            OutgoingRpc::Append(_) => RpcMethod::AppendEntries,
            OutgoingRpc::Snapshot(_) => RpcMethod::InstallSnapshot,
        }
    }

    pub fn method(&self) -> (method: RpcMethod)
        ensures
            method == self.method_of(),
    {
        match self {
            OutgoingRpc::Vote => RpcMethod::Vote,
            OutgoingRpc::Append(_) => RpcMethod::AppendEntries,
            OutgoingRpc::Snapshot(_) => RpcMethod::InstallSnapshot,
        }
    }
}

/// The payload of a call, or what keeps it from being made.
pub open spec fn outgoing_payload(rpc: OutgoingRpc, body: Seq<u8>) -> std::result::Result<
    Seq<u8>,
    RpcFailureView,
> {
    let framed = rpc_frame(rpc.method_of().request_domain(), body);
    match rpc {
        OutgoingRpc::Vote => match framed {
            Ok(p) => Ok(p),
            Err(e) => Err(RpcFailureView::Network(e.text())),
        },
        OutgoingRpc::Append(entries) => if !append_fits(entries@) || framed is Err {
            Err(RpcFailureView::PayloadTooLarge(entries_hint(entries@.len())))
        } else {
            Ok(framed->Ok_0)
        },
        OutgoingRpc::Snapshot(len) => if len > 1_048_576 {
            Err(RpcFailureView::Unreachable("snapshot chunk exceeds 1 MiB limit"@))
        } else {
            match framed {
                Ok(p) => Ok(p),
                Err(e) => Err(RpcFailureView::Unreachable(e.text())),
            }
        },
    }
}

/// What keeps a call from being sent, if anything does.
pub open spec fn call_failure(
    id: TransportTlsIdentity,
    target: u64,
    fault: Option<Seq<char>>,
    rpc: OutgoingRpc,
    body: Seq<u8>,
) -> Option<RpcFailureView> {
    match fault {
        Some(m) => Some(RpcFailureView::Unreachable(m)),
        None => match outgoing_payload(rpc, body) {
            Err(e) => Some(e),
            Ok(payload) => match sending_verdict(id, target, payload) {
                Err(e) => Some(RpcFailureView::Unreachable(e.text())),
                Ok(()) => None,
            },
        },
    }
}

/// Makes the envelope of a call to a node.
pub fn prepare_call(
    identity: &TransportTlsIdentity,
    target: u64,
    fault: &Option<String>,
    rpc: &OutgoingRpc,
    body: &[u8],
) -> (call: std::result::Result<Envelope, RpcFailure>)
    ensures
        ({
            let failure = call_failure(
                *identity,
                target,
                crate::error::optional_text(*fault),
                *rpc,
                body@,
            );
            match call {
                Ok(e) => failure is None && carries(
                    e,
                    *identity,
                    target,
                    outgoing_payload(*rpc, body@)->Ok_0,
                ),
                Err(f) => failure == Some(f@),
            }
        }),
{
    if let Some(message) = fault {
        return Err(RpcFailure::Unreachable(message.clone()));
    }
    match rpc {
        OutgoingRpc::Vote => {},
        OutgoingRpc::Append(entries) => {
            if validate_append_request(entries.as_slice()).is_err() {
                return Err(RpcFailure::PayloadTooLarge(hint_for(entries.len())));
            }
        },
        OutgoingRpc::Snapshot(len) => {
            if let Err(status) = validate_snapshot_chunk_size(*len) {
                return Err(RpcFailure::Unreachable(status.message));
            }
        },
    }
    let payload = match encode_rpc_payload(rpc.method().asks_in(), body) {
        Ok(payload) => payload,
        Err(e) => {
            return Err(
                match rpc {
                    OutgoingRpc::Vote => RpcFailure::Network(e.text()),
                    OutgoingRpc::Append(entries) => RpcFailure::PayloadTooLarge(
                        hint_for(entries.len()),
                    ),
                    OutgoingRpc::Snapshot(_) => RpcFailure::Unreachable(e.text()),
                },
            );
        },
    };
    match envelope(identity, target, payload) {
        Ok(e) => Ok(e),
        Err(e) => Err(RpcFailure::Unreachable(e.text())),
    }
}

/// What came back of a call.
pub enum RpcOutcome {
    TimedOut,
    /// A refusal, and the line that shows it.
    Refused(StatusCode, String),
    Reply(Envelope),
}

/// What a refusal means for a call.
pub open spec fn refused(
    code: StatusCode,
    text: Seq<char>,
    append_entries: Option<nat>,
) -> RpcFailureView {
    match (code, append_entries) {
        (StatusCode::ResourceExhausted, Some(n)) => RpcFailureView::PayloadTooLarge(
            entries_hint(n),
        ),
        (StatusCode::DeadlineExceeded, _) => RpcFailureView::Timeout,
        (StatusCode::Internal, _) => RpcFailureView::Network(text),
        (StatusCode::Other, _) => RpcFailureView::Network(text),
        _ => RpcFailureView::Unreachable(text),
    }
}

/// The number of entries of an append call.
pub open spec fn append_size(rpc: OutgoingRpc) -> Option<nat> {
    match rpc {
        OutgoingRpc::Append(entries) => Some(entries@.len()),
        _ => None,
    }
}

/// The body of the reply to a call, or what became of the call.
pub open spec fn call_outcome(
    id: TransportTlsIdentity,
    target: u64,
    rpc: OutgoingRpc,
    outcome: RpcOutcome,
) -> std::result::Result<Seq<u8>, RpcFailureView> {
    match outcome {
        RpcOutcome::TimedOut => Err(RpcFailureView::Timeout),
        RpcOutcome::Refused(code, text) => Err(refused(code, text@, append_size(rpc))),
        RpcOutcome::Reply(e) => if !has_node(id.peers@, target) {
            Err(
                RpcFailureView::Unreachable(
                    "target node "@ + digits(target as nat)
                        + " disappeared from the authenticated manifest"@,
                ),
            )
        } else if !reply_fits(id, node_value(id.peers@, target)->0.node_id, e) {
            Err(
                RpcFailureView::Unreachable(
                    TransportConfigErrorView::Invalid(
                        "response envelope identity or size mismatch"@,
                    ).text(),
                ),
            )
        } else {
            match rpc_body(rpc.method_of().reply_domain(), e.payload@) {
                Ok(body) => Ok(body),
                Err(e) => Err(RpcFailureView::Network(e.text())),
            }
        },
    }
}

/// Makes what it is worth of what came back of a call.
pub fn finish_call(
    identity: &TransportTlsIdentity,
    target: u64,
    rpc: &OutgoingRpc,
    outcome: RpcOutcome,
) -> (body: std::result::Result<Vec<u8>, RpcFailure>)
    ensures
        match body {
            Ok(b) => call_outcome(*identity, target, *rpc, outcome) == Ok::<_, RpcFailureView>(b@),
            Err(f) => call_outcome(*identity, target, *rpc, outcome) == Err::<Seq<u8>, _>(f@),
        },
{
    match outcome {
        RpcOutcome::TimedOut => Err(RpcFailure::Timeout),
        RpcOutcome::Refused(code, text) => {
            if let OutgoingRpc::Append(entries) = rpc {
                if code == StatusCode::ResourceExhausted {
                    return Err(RpcFailure::PayloadTooLarge(hint_for(entries.len())));
                }
            }
            match code {
                StatusCode::DeadlineExceeded => Err(RpcFailure::Timeout),
                StatusCode::Internal => Err(RpcFailure::Network(text)),
                StatusCode::Other => Err(RpcFailure::Network(text)),
                _ => Err(RpcFailure::Unreachable(text)),
            }
        },
        RpcOutcome::Reply(reply) => {
            let peer = match identity.peers.get(target) {
                Some(peer) => peer,
                None => {
                    return Err(
                        RpcFailure::Unreachable(
                            joined3(
                                "target node ",
                                digits_text(target).as_str(),
                                " disappeared from the authenticated manifest",
                            ),
                        ),
                    );
                },
            };
            if let Err(e) = validate_response_envelope(identity, peer, &reply) {
                return Err(RpcFailure::Unreachable(e.text()));
            }
            match decode_rpc_payload(rpc.method().answers_in(), reply.payload.as_slice()) {
                Ok(body) => Ok(body),
                Err(e) => Err(RpcFailure::Network(e.text())),
            }
        },
    }
}

// ---------------------------------------------------------------------------
// The answering side
// ---------------------------------------------------------------------------

/// A payload that cannot be read or written, as a refusal.
pub open spec fn codec_refusal(e: RpcCodecErrorView) -> RpcStatusView {
    refusal(
        match e {
            RpcCodecErrorView::Limit => StatusCode::ResourceExhausted,
            _ => StatusCode::InvalidArgument,
        },
        e.text(),
    )
}

/// Refuses a payload that cannot be read or written.
pub fn codec_status(error: RpcCodecError) -> (status: RpcStatus)
    ensures
        status@ == codec_refusal(error@),
{
    let message = error.text();
    match error {
        RpcCodecError::Limit => RpcStatus { code: StatusCode::ResourceExhausted, message },
        _ => RpcStatus { code: StatusCode::InvalidArgument, message },
    }
}

/// The source and the body of a request that is let in, or the refusal.
pub open spec fn admitted(
    id: TransportTlsIdentity,
    envelope: Envelope,
    certificates: PeerCertificates,
    method: RpcMethod,
) -> std::result::Result<(u64, Seq<u8>), RpcStatusView> {
    match authenticated(id, envelope, certificates) {
        Err(s) => Err(s),
        Ok(source) => match rpc_body(method.request_domain(), envelope.payload@) {
            Err(e) => Err(codec_refusal(e)),
            Ok(body) => Ok((source, body)),
        },
    }
}

/// Lets a request in: who sends it is known before any of it is read.
pub fn admit_request(
    authenticator: &PeerAuthenticator,
    envelope: &Envelope,
    certificates: &PeerCertificates,
    method: RpcMethod,
) -> (request: std::result::Result<(u64, Vec<u8>), RpcStatus>)
    ensures
        match request {
            Ok(r) => admitted(authenticator.id(), *envelope, *certificates, method) == Ok::<
                _,
                RpcStatusView,
            >((r.0, r.1@)),
            Err(s) => admitted(authenticator.id(), *envelope, *certificates, method) == Err::<
                (u64, Seq<u8>),
                _,
            >(s@),
        },
{
    let source = match authenticator.authenticate(envelope, certificates, method) {
        Ok(source) => source,
        Err(s) => {
            return Err(s);
        },
    };
    match decode_rpc_payload(method.asks_in(), envelope.payload.as_slice()) {
        Ok(body) => Ok((source, body)),
        Err(e) => Err(codec_status(e)),
    }
}

/// What keeps a reply from being sent, if anything does.
pub open spec fn reply_refusal(
    id: TransportTlsIdentity,
    source: u64,
    method: RpcMethod,
    body: Seq<u8>,
) -> Option<RpcStatusView> {
    match rpc_frame(method.reply_domain(), body) {
        Err(e) => Some(codec_refusal(e)),
        Ok(payload) => match sending_verdict(id, source, payload) {
            Err(e) => Some(refusal(StatusCode::Internal, e.text())),
            Ok(()) => None,
        },
    }
}

/// Makes the envelope of a reply.
pub fn answer_request(
    identity: &TransportTlsIdentity,
    source: u64,
    method: RpcMethod,
    body: &[u8],
) -> (reply: std::result::Result<Envelope, RpcStatus>)
    ensures
        match reply {
            Ok(e) => reply_refusal(*identity, source, method, body@) is None && carries(
                e,
                *identity,
                source,
                rpc_frame(method.reply_domain(), body@)->Ok_0,
            ),
            Err(s) => reply_refusal(*identity, source, method, body@) == Some(s@),
        },
{
    let payload = match encode_rpc_payload(method.answers_in(), body) {
        Ok(payload) => payload,
        Err(e) => {
            return Err(codec_status(e));
        },
    };
    match envelope(identity, source, payload) {
        Ok(e) => Ok(e),
        Err(e) => Err(RpcStatus { code: StatusCode::Internal, message: e.text() }),
    }
}

/// A reply that a node sends to a peer that asked is read as the body that it
/// was made of.
pub proof fn replies_are_read_back(
    asker: TransportTlsIdentity,
    answerer: TransportTlsIdentity,
    rpc: OutgoingRpc,
    body: Seq<u8>,
    reply: Envelope,
)
    requires
        asker.cluster_id@ == answerer.cluster_id@,
        asker.cluster_incarnation == answerer.cluster_incarnation,
        has_node(asker.peers@, answerer.node_id),
        node_value(asker.peers@, answerer.node_id)->0.node_id == answerer.node_id,
        reply_refusal(answerer, asker.node_id, rpc.method_of(), body) is None,
        carries(
            reply,
            answerer,
            asker.node_id,
            rpc_frame(rpc.method_of().reply_domain(), body)->Ok_0,
        ),
    ensures
        call_outcome(asker, answerer.node_id, rpc, RpcOutcome::Reply(reply)) == Ok::<
            _,
            RpcFailureView,
        >(body),
{
    let domain = rpc.method_of().reply_domain();
    crate::transport::rpc_payload_reads_back(domain, domain, body);
}

} // verus!
