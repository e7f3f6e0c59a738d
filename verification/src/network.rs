//! A static group of peers over a small synchronous transport: who may ask
//! what, which member leads, and when an entry has reached a quorum.

use crate::bytes::{be, be_reads_back, be_value, lemma_be_value_bound, lemma_span, put_bytes, put_u32, read_be};
use crate::cluster::{is_behind, log_before, ConsensusStatus};
use crate::command::{ApplyResult, ReplicatedCommandV1};
use crate::error::{ChorusError, ChorusErrorView};
use crate::ids::LogId;
use crate::members::{copy_ids, has_id, ids_overlap, overlap, sorted_unique, sorts};
use crate::node_map::{has_node, node_value, NodeMap};
use crate::text::{owned, same_bytes};
use vstd::prelude::*;
use vstd::string::*;

verus! {

/// What a step of the group gives, or its error.
pub type NetResult<T> = std::result::Result<T, ChorusError>;

type NetOutcome<T> = std::result::Result<T, ChorusErrorView>;

/// The longest message between peers.
pub const MAX_PEER_FRAME: usize = 8_388_608;

/// The frame of a message: its length and its JSON.
pub fn peer_frame(json: &[u8]) -> (frame: NetResult<Vec<u8>>)
    ensures
        match frame {
            Ok(f) => json@.len() <= 8_388_608 && f@ == be(json@.len(), 4) + json@,
            Err(e) => json@.len() > 8_388_608 && e@ == ChorusErrorView::Limit(
                "peer message exceeds 8 MiB"@,
            ),
        },
{
    if json.len() > MAX_PEER_FRAME {
        return Err(ChorusError::limit("peer message exceeds 8 MiB"));
    }
    let mut out: Vec<u8> = Vec::new();
    put_u32(&mut out, json.len() as u32);
    put_bytes(&mut out, json);
    assert(out@ =~= be(json@.len(), 4) + json@);
    Ok(out)
}

/// The length of the JSON that stands behind the first four bytes of a frame.
pub fn peer_frame_len(header: &[u8; 4]) -> (len: NetResult<usize>)
    ensures
        match len {
            Ok(n) => n == be_value(header@) && n <= 8_388_608,
            Err(e) => be_value(header@) > 8_388_608 && e@ == ChorusErrorView::Protocol(
                "peer message exceeds 8 MiB"@,
            ),
        },
{
    proof {
        lemma_be_value_bound(header@);
        lemma_span();
    }
    let len: u64 = read_be(header.as_slice());
    if len > 8_388_608 {
        return Err(ChorusError::protocol("peer message exceeds 8 MiB"));
    }
    Ok(len as usize)
}

/// The length that a frame announces is the length of what it carries.
pub proof fn peer_frame_reads_back(json: Seq<u8>)
    requires
        json.len() <= 8_388_608,
    ensures
        be_value((be(json.len(), 4) + json).subrange(0, 4)) == json.len(),
        (be(json.len(), 4) + json).subrange(4, 4 + json.len() as int) == json,
{
    lemma_span();
    be_reads_back(json.len(), 4);
    let frame = be(json.len(), 4) + json;
    assert(frame.subrange(0, 4) =~= be(json.len(), 4));
    assert(frame.subrange(4, 4 + json.len() as int) =~= json);
}

// ---------------------------------------------------------------------------
// Requests
// ---------------------------------------------------------------------------

/// Who asks, and of which cluster the asker is a member.
#[derive(Clone, Copy, Debug, PartialEq, Eq)]
pub struct PeerIdentity {
    pub from: u64,
    pub cluster_id: [u8; 16],
    pub cluster_incarnation: u64,
}

/// What a peer asks for.
#[derive(Clone, Copy, Debug, PartialEq, Eq, Structural)]
pub enum PeerQuestion {
    Ping,
    Status,
    ReadBarrier,
    Snapshot,
    Prepare { log_id: LogId },
    Propose,
    Apply { leader_id: u64, log_id: LogId },
    Install { leader_id: u64 },
}

/// How far a member has come.
#[derive(Clone, Copy, Debug, PartialEq, Eq, Structural)]
pub struct PeerStatus {
    pub node_id: u64,
    pub last_applied: LogId,
    pub healthy: bool,
}

/// What a node does about a request.
#[derive(Clone, Debug)]
pub enum PeerAnswer {
    Pong,
    /// Answer with the node's own status.
    Status,
    /// Answer with the position that the node leads at, or why it does not.
    Barrier,
    /// Answer with a snapshot of the node's state.
    Snapshot,
    Prepared,
    NeedCatchUp { expected: LogId, actual: LogId },
    /// Append the command for the node that proposes it, and answer with what
    /// came of it.
    Propose(u64),
    /// Apply the command at a position, and answer with what came of it.
    Apply(LogId),
    /// Install the snapshot, and answer whether that was done.
    Install,
    Error(String),
}

/// What a [`PeerAnswer`] says.
pub enum PeerAnswerView {
    Pong,
    Status,
    Barrier,
    Snapshot,
    Prepared,
    NeedCatchUp { expected: LogId, actual: LogId },
    Propose(u64),
    Apply(LogId),
    Install,
    Error(Seq<char>),
}

impl View for PeerAnswer {
    type V = PeerAnswerView;

    open spec fn view(&self) -> PeerAnswerView {
        match self {
            PeerAnswer::Pong => PeerAnswerView::Pong,
            PeerAnswer::Status => PeerAnswerView::Status,
            PeerAnswer::Barrier => PeerAnswerView::Barrier,
            PeerAnswer::Snapshot => PeerAnswerView::Snapshot,
            PeerAnswer::Prepared => PeerAnswerView::Prepared,
            PeerAnswer::NeedCatchUp { expected, actual } => PeerAnswerView::NeedCatchUp {
                expected: *expected,
                actual: *actual,
            },
            PeerAnswer::Propose(from) => PeerAnswerView::Propose(*from),
            PeerAnswer::Apply(log_id) => PeerAnswerView::Apply(*log_id),
            PeerAnswer::Install => PeerAnswerView::Install,
            PeerAnswer::Error(m) => PeerAnswerView::Error(m@),
        }
    }
}

/// The index behind an index; the highest stays where it is.
pub open spec fn next_index(index: u64) -> u64 {
    if index == u64::MAX {
        u64::MAX
    } else {
        (index + 1) as u64
    }
}

/// What an entry that leaves a gap behind a state is answered with.
pub open spec fn gap_answer(current: LogId, log_id: LogId) -> PeerAnswerView {
    PeerAnswerView::NeedCatchUp {
        expected: LogId { term: current.term, index: next_index(current.index) },
        actual: log_id,
    }
}

/// What a node whose state is healthy or not and stands at `current` does
/// about a question.
pub open spec fn answer_to(
    from: u64,
    question: PeerQuestion,
    healthy: bool,
    current: LogId,
) -> PeerAnswerView {
    match question {
        PeerQuestion::Ping => PeerAnswerView::Pong,
        PeerQuestion::Status => PeerAnswerView::Status,
        PeerQuestion::ReadBarrier => PeerAnswerView::Barrier,
        PeerQuestion::Snapshot => PeerAnswerView::Snapshot,
        PeerQuestion::Prepare { log_id } => if !healthy {
            PeerAnswerView::Error("state store is unhealthy"@)
        } else if log_id.index > next_index(current.index) {
            gap_answer(current, log_id)
        } else {
            PeerAnswerView::Prepared
        },
        PeerQuestion::Propose => PeerAnswerView::Propose(from),
        PeerQuestion::Apply { leader_id, log_id } => if from != leader_id {
            PeerAnswerView::Error("apply sender is not the declared leader"@)
        } else if log_id.index > next_index(current.index) {
            gap_answer(current, log_id)
        } else {
            PeerAnswerView::Apply(log_id)
        },
        PeerQuestion::Install { leader_id } => if from != leader_id {
            PeerAnswerView::Error("snapshot sender is not the declared leader"@)
        } else {
            PeerAnswerView::Install
        },
    }
}

/// A member that answers may apply an entry only where it follows the state
/// without a gap.
pub proof fn applied_entries_leave_no_gap(
    from: u64,
    question: PeerQuestion,
    healthy: bool,
    current: LogId,
)
    ensures
        answer_to(from, question, healthy, current) matches PeerAnswerView::Apply(log_id) ==> (
        log_id.index <= next_index(current.index)),
{
}

// ---------------------------------------------------------------------------
// Observing the group
// ---------------------------------------------------------------------------

/// The number of statuses that come from voters.
pub open spec fn reachable(voters: Seq<u64>, statuses: Seq<PeerStatus>) -> nat
    decreases statuses.len(),
{
    if statuses.len() == 0 {
        0
    } else {
        reachable(voters, statuses.drop_last()) + if voters.contains(statuses.last().node_id) {
            1nat
        } else {
            0nat
        }
    }
}

/// Whether one status is fresher than another: by index, then by term, then
/// by the lower number.
pub open spec fn fresher(a: PeerStatus, b: PeerStatus) -> bool {
    if a.last_applied.index != b.last_applied.index {
        a.last_applied.index > b.last_applied.index
    } else if a.last_applied.term != b.last_applied.term {
        a.last_applied.term > b.last_applied.term
    } else {
        a.node_id < b.node_id
    }
}

/// Whether the group can be led by a member that stands at a position: it is a
/// voter, and no voter's status is fresher.
pub open spec fn may_lead(
    voters: Seq<u64>,
    statuses: Seq<PeerStatus>,
    leader: u64,
    log_id: LogId,
) -> bool {
    exists|i: int|
        {
            &&& 0 <= i < statuses.len()
            &&& (#[trigger] statuses[i]).node_id == leader
            &&& statuses[i].last_applied == log_id
            &&& voters.contains(leader)
            &&& forall|k: int|
                0 <= k < statuses.len() && voters.contains((#[trigger] statuses[k]).node_id)
                    ==> !fresher(statuses[k], statuses[i])
        }
}

/// Whether a membership can be worked with.
pub open spec fn membership_valid(voters: Seq<u64>, learners: Seq<u64>) -> bool {
    voters.len() > 0 && !voters.contains(0) && !overlap(voters, learners)
}

/// Why the group cannot be led, if it cannot.
pub open spec fn observation_error(
    voters: Seq<u64>,
    learners: Seq<u64>,
    statuses: Seq<PeerStatus>,
) -> Option<ChorusErrorView> {
    if !membership_valid(voters, learners) {
        Some(ChorusErrorView::Protocol("invalid replicated membership"@))
    } else if reachable(voters, statuses) <= voters.len() / 2 {
        Some(ChorusErrorView::Consensus("no majority is reachable"@))
    } else {
        None
    }
}

/// The member that leads the group and where it stands, from the statuses that
/// were received: more than half of the voters must have answered, and the
/// freshest of them leads.
pub fn observe(voters: &[u64], learners: &[u64], statuses: &[PeerStatus]) -> (leader: NetResult<
    (u64, LogId),
>)
    ensures
        match leader {
            Ok(l) => observation_error(voters@, learners@, statuses@) is None && may_lead(
                voters@,
                statuses@,
                l.0,
                l.1,
            ),
            Err(e) => observation_error(voters@, learners@, statuses@) == Some(e@),
        },
{
    if voters.len() == 0 || has_id(voters, 0) || ids_overlap(voters, learners) {
        return Err(ChorusError::protocol("invalid replicated membership"));
    }
    let mut count: usize = 0;
    let mut best: Option<usize> = None;
    let mut i: usize = 0;
    assert(statuses@.subrange(0, 0) == Seq::<PeerStatus>::empty());
    while i < statuses.len()
        invariant
            i <= statuses@.len(),
            count <= i,
            count == reachable(voters@, statuses@.subrange(0, i as int)),
            best is None ==> count == 0,
            best matches Some(b) ==> b < i && voters@.contains(statuses@[b as int].node_id)
                && forall|k: int|
                0 <= k < i && voters@.contains((#[trigger] statuses@[k]).node_id) ==> !fresher(
                    statuses@[k],
                    statuses@[b as int],
                ),
            best is None ==> forall|k: int|
                0 <= k < i ==> !voters@.contains((#[trigger] statuses@[k]).node_id),
        decreases statuses@.len() - i,
    {
        let ghost wider = statuses@.subrange(0, i + 1);
        assert(wider.drop_last() == statuses@.subrange(0, i as int));
        assert(wider.last() == statuses@[i as int]);
        let s = statuses[i];
        if has_id(voters, s.node_id) {
            count += 1;
            match best {
                None => {
                    best = Some(i);
                },
                Some(b) => {
                    let t = statuses[b];
                    let newer = if s.last_applied.index != t.last_applied.index {
                        s.last_applied.index > t.last_applied.index
                    } else if s.last_applied.term != t.last_applied.term {
                        s.last_applied.term > t.last_applied.term
                    } else {
                        s.node_id < t.node_id
                    };
                    if newer {
                        best = Some(i);
                    }
                },
            }
        }
        i += 1;
    }
    assert(statuses@.subrange(0, i as int) == statuses@);
    if count <= voters.len() / 2 {
        return Err(ChorusError::consensus("no majority is reachable"));
    }
    match best {
        Some(b) => Ok((statuses[b].node_id, statuses[b].last_applied)),
        None => Err(ChorusError::consensus("no leader is reachable")),
    }
}

/// What a node sees of its group.
#[derive(Clone, Debug)]
pub struct Observation {
    pub voters: Vec<u64>,
    pub learners: Vec<u64>,
    /// The node's own status and those of the members that are well.
    pub statuses: Vec<PeerStatus>,
    pub leader: u64,
    pub log_id: LogId,
}

/// What an [`Observation`] says.
#[verifier::ext_equal]
pub struct ObservationView {
    pub voters: Seq<u64>,
    pub learners: Seq<u64>,
    pub statuses: Seq<PeerStatus>,
    pub leader: u64,
    pub log_id: LogId,
}

impl View for Observation {
    type V = ObservationView;

    open spec fn view(&self) -> ObservationView {
        ObservationView {
            voters: self.voters@,
            learners: self.learners@,
            statuses: self.statuses@,
            leader: self.leader,
            log_id: self.log_id,
        }
    }
}

/// The statuses that say that their member is well.
pub open spec fn well(statuses: Seq<PeerStatus>) -> Seq<PeerStatus>
    decreases statuses.len(),
{
    if statuses.len() == 0 {
        Seq::empty()
    } else if statuses.last().healthy {
        well(statuses.drop_last()).push(statuses.last())
    } else {
        well(statuses.drop_last())
    }
}

/// The statuses that count: the node's own, where it is a member, and of those
/// that others sent the ones that say that their member is well.
pub open spec fn heard(
    own: Option<PeerStatus>,
    received: Seq<PeerStatus>,
) -> Seq<PeerStatus> {
    match own {
        Some(status) => seq![status] + well(received),
        None => well(received),
    }
}

/// The statuses that were received settle who leads and where the leader
/// stands.
pub proof fn leader_is_settled(
    voters: Seq<u64>,
    statuses: Seq<PeerStatus>,
    a: u64,
    p: LogId,
    b: u64,
    q: LogId,
)
    requires
        may_lead(voters, statuses, a, p),
        may_lead(voters, statuses, b, q),
    ensures
        a == b,
        p == q,
{
    let i = choose|i: int|
        {
            &&& 0 <= i < statuses.len()
            &&& (#[trigger] statuses[i]).node_id == a
            &&& statuses[i].last_applied == p
            &&& voters.contains(a)
            &&& forall|k: int|
                0 <= k < statuses.len() && voters.contains((#[trigger] statuses[k]).node_id)
                    ==> !fresher(statuses[k], statuses[i])
        };
    let j = choose|j: int|
        {
            &&& 0 <= j < statuses.len()
            &&& (#[trigger] statuses[j]).node_id == b
            &&& statuses[j].last_applied == q
            &&& voters.contains(b)
            &&& forall|k: int|
                0 <= k < statuses.len() && voters.contains((#[trigger] statuses[k]).node_id)
                    ==> !fresher(statuses[k], statuses[j])
        };
    assert(!fresher(statuses[i], statuses[j]));
    assert(!fresher(statuses[j], statuses[i]));
}

/// No voter that answered has applied more than the leader: a stale member
/// never leads.
pub proof fn leader_is_not_stale(
    voters: Seq<u64>,
    statuses: Seq<PeerStatus>,
    leader: u64,
    log_id: LogId,
    k: int,
)
    requires
        may_lead(voters, statuses, leader, log_id),
        0 <= k < statuses.len(),
        voters.contains(statuses[k].node_id),
    ensures
        statuses[k].last_applied.index <= log_id.index,
{
}

// ---------------------------------------------------------------------------
// One node of the group
// ---------------------------------------------------------------------------

/// A node of a static group: its members, where they are reached, and the
/// cluster that they form.
pub struct NetworkConsensus {
    pub node_id: u64,
    pub voters: Vec<u64>,
    pub learners: Vec<u64>,
    pub endpoints: NodeMap<String>,
    pub local_endpoint: String,
    pub term: u64,
    pub cluster_id: [u8; 16],
    pub cluster_incarnation: u64,
}

/// What a check says: nothing, or an error.
pub type NetVerdict = std::result::Result<(), ChorusErrorView>;

/// Whether a check came out as `verdict` says.
pub open spec fn net_comes_out(verdict: NetVerdict, result: NetResult<()>) -> bool {
    match result {
        Ok(()) => verdict == Ok::<(), ChorusErrorView>(()),
        Err(e) => verdict == Err::<(), ChorusErrorView>(e@),
    }
}

/// Whether a node may have a command appended: what belongs to an origin only
/// for that origin's node.
pub open spec fn authority_verdict(requester: u64, command: ReplicatedCommandV1) -> NetVerdict {
    match command {
        ReplicatedCommandV1::ActivateOrigin(a) => if a.origin.node_id != requester {
            Err(ChorusErrorView::Protocol("origin activation is not authorized by its node"@))
        } else {
            Ok(())
        },
        ReplicatedCommandV1::CommitTransaction(c) => if c.request_id.origin.node_id != requester {
            Err(ChorusErrorView::Protocol("request origin is not authorized by its node"@))
        } else {
            Ok(())
        },
        ReplicatedCommandV1::SchemaChange(c) => if c.request_id.origin.node_id != requester {
            Err(ChorusErrorView::Protocol("request origin is not authorized by its node"@))
        } else {
            Ok(())
        },
        _ => Ok(()),
    }
}

/// Checks that a node may have a command appended.
pub fn authorize(requester: u64, command: &ReplicatedCommandV1) -> (result: NetResult<()>)
    ensures
        net_comes_out(authority_verdict(requester, *command), result),
{
    match command {
        ReplicatedCommandV1::ActivateOrigin(a) => {
            if a.origin.node_id != requester {
                return Err(
                    ChorusError::protocol("origin activation is not authorized by its node"),
                );
            }
        },
        ReplicatedCommandV1::CommitTransaction(c) => {
            if c.request_id.origin.node_id != requester {
                return Err(ChorusError::protocol("request origin is not authorized by its node"));
            }
        },
        ReplicatedCommandV1::SchemaChange(c) => {
            if c.request_id.origin.node_id != requester {
                return Err(ChorusError::protocol("request origin is not authorized by its node"));
            }
        },
        _ => {},
    }
    Ok(())
}

/// Where a proposal goes.
#[derive(Clone, Debug)]
pub enum Route {
    /// This node leads.
    Local,
    /// The leader is reached at that address.
    Forward(String),
}

/// The other members that can be asked, in the order of a list.
pub open spec fn askable(ids: Seq<u64>, node_id: u64, endpoints: Seq<(u64, String)>) -> Seq<u64>
    decreases ids.len(),
{
    if ids.len() == 0 {
        Seq::empty()
    } else if ids.last() != node_id && has_node(endpoints, ids.last()) {
        askable(ids.drop_last(), node_id, endpoints).push(ids.last())
    } else {
        askable(ids.drop_last(), node_id, endpoints)
    }
}

impl NetworkConsensus {
    /// A node of a group with the identity of its cluster. Voters and learners
    /// are kept in order, each once.
    pub fn new_with_identity(
        node_id: u64,
        voters: Vec<u64>,
        learners: Vec<u64>,
        endpoints: NodeMap<String>,
        cluster_id: [u8; 16],
        cluster_incarnation: u64,
    ) -> (node: NetworkConsensus)
        ensures
            node.node_id == node_id,
            sorts(node.voters@, voters@),
            sorts(node.learners@, learners@),
            node.endpoints == endpoints,
            node.local_endpoint@ == match node_value(endpoints@, node_id) {
                Some(e) => e@,
                None => Seq::empty(),
            },
            node.term == 1,
            node.cluster_id == cluster_id,
            node.cluster_incarnation == cluster_incarnation,
    {
        let local_endpoint = match endpoints.get(node_id) {
            Some(e) => e.clone(),
            None => String::new(),
        };
        NetworkConsensus {
            node_id,
            voters: sorted_unique(voters.as_slice()),
            learners: sorted_unique(learners.as_slice()),
            endpoints,
            local_endpoint,
            term: 1,
            cluster_id,
            cluster_incarnation,
        }
    }

    /// Whether a message belongs to this node's cluster.
    pub open spec fn identity_verdict(
        self,
        cluster_id: Seq<u8>,
        cluster_incarnation: u64,
    ) -> NetVerdict {
        if cluster_id != self.cluster_id@ || cluster_incarnation != self.cluster_incarnation {
            Err(ChorusErrorView::Protocol("peer cluster identity or incarnation mismatch"@))
        } else {
            Ok(())
        }
    }

    pub fn identity_ok(&self, cluster_id: &[u8; 16], cluster_incarnation: u64) -> (result:
        NetResult<()>)
        ensures
            net_comes_out(self.identity_verdict(cluster_id@, cluster_incarnation), result),
    {
        if !same_bytes(cluster_id.as_slice(), self.cluster_id.as_slice()) || cluster_incarnation
            != self.cluster_incarnation {
            return Err(ChorusError::protocol("peer cluster identity or incarnation mismatch"));
        }
        Ok(())
    }

    /// Whether a number belongs to a member.
    pub open spec fn knows(self, node_id: u64) -> bool {
        self.voters@.contains(node_id) || self.learners@.contains(node_id)
    }

    pub fn known_peer(&self, node_id: u64) -> (known: bool)
        ensures
            known == self.knows(node_id),
    {
        has_id(self.voters.as_slice(), node_id) || has_id(self.learners.as_slice(), node_id)
    }

    /// Whether a request is taken: it comes from this cluster, and from a
    /// member of it.
    pub open spec fn request_verdict(self, who: PeerIdentity) -> NetVerdict {
        match self.identity_verdict(who.cluster_id@, who.cluster_incarnation) {
            Err(e) => Err(e),
            Ok(()) => if !self.knows(who.from) {
                Err(ChorusErrorView::Protocol("requester is not a cluster member"@))
            } else {
                Ok(())
            },
        }
    }

    pub fn validate_request(&self, who: &PeerIdentity) -> (result: NetResult<()>)
        ensures
            net_comes_out(self.request_verdict(*who), result),
    {
        match self.identity_ok(&who.cluster_id, who.cluster_incarnation) {
            Ok(()) => {},
            Err(e) => {
                return Err(e);
            },
        }
        if !self.known_peer(who.from) {
            return Err(ChorusError::protocol("requester is not a cluster member"));
        }
        Ok(())
    }

    /// What to do about a request; an error drops the connection.
    pub fn answer(
        &self,
        who: &PeerIdentity,
        question: PeerQuestion,
        healthy: bool,
        current: LogId,
    ) -> (answer: NetResult<PeerAnswer>)
        ensures
            match answer {
                Ok(a) => self.request_verdict(*who) is Ok && a@ == answer_to(
                    who.from,
                    question,
                    healthy,
                    current,
                ),
                Err(e) => self.request_verdict(*who) == Err::<(), _>(e@),
            },
    {
        match self.validate_request(who) {
            Ok(()) => {},
            Err(e) => {
                return Err(e);
            },
        }
        let next: u64 = current.index.saturating_add(1);
        Ok(
            match question {
                PeerQuestion::Ping => PeerAnswer::Pong,
                PeerQuestion::Status => PeerAnswer::Status,
                PeerQuestion::ReadBarrier => PeerAnswer::Barrier,
                PeerQuestion::Snapshot => PeerAnswer::Snapshot,
                PeerQuestion::Prepare { log_id } => {
                    if !healthy {
                        PeerAnswer::Error(owned("state store is unhealthy"))
                    } else if log_id.index > next {
                        PeerAnswer::NeedCatchUp {
                            expected: LogId { term: current.term, index: next },
                            actual: log_id,
                        }
                    } else {
                        PeerAnswer::Prepared
                    }
                },
                PeerQuestion::Propose => PeerAnswer::Propose(who.from),
                PeerQuestion::Apply { leader_id, log_id } => {
                    if who.from != leader_id {
                        PeerAnswer::Error(owned("apply sender is not the declared leader"))
                    } else if log_id.index > next {
                        PeerAnswer::NeedCatchUp {
                            expected: LogId { term: current.term, index: next },
                            actual: log_id,
                        }
                    } else {
                        PeerAnswer::Apply(log_id)
                    }
                },
                PeerQuestion::Install { leader_id } => {
                    if who.from != leader_id {
                        PeerAnswer::Error(owned("snapshot sender is not the declared leader"))
                    } else {
                        PeerAnswer::Install
                    }
                },
            },
        )
    }

    /// The members that count: the replicated ones once there are any, and the
    /// static ones until then.
    pub fn membership(&self, log_id: LogId, voters: &[u64], learners: &[u64]) -> (members: (
        Vec<u64>,
        Vec<u64>,
    ))
        ensures
            log_id != LogId::zero() ==> members.0@ == voters@ && members.1@ == learners@,
            log_id == LogId::zero() ==> members.0@ == self.voters@ && members.1@ == self.learners@,
    {
        if !(log_id == LogId::zero()) {
            (copy_ids(voters), copy_ids(learners))
        } else {
            (copy_ids(self.voters.as_slice()), copy_ids(self.learners.as_slice()))
        }
    }

    /// The other members that can be asked, voters before learners.
    pub fn peers(&self, voters: &[u64], learners: &[u64]) -> (ids: Vec<u64>)
        ensures
            ids@ == askable(voters@ + learners@, self.node_id, self.endpoints@),
    {
        let ghost all = voters@ + learners@;
        let total: usize = voters.len();
        let mut ids: Vec<u64> = Vec::new();
        let mut i: usize = 0;
        assert(all.subrange(0, 0) == Seq::<u64>::empty());
        while i < voters.len()
            invariant
                all == voters@ + learners@,
                i <= voters@.len(),
                ids@ == askable(all.subrange(0, i as int), self.node_id, self.endpoints@),
            decreases voters@.len() - i,
        {
            assert(all.subrange(0, i + 1).drop_last() == all.subrange(0, i as int));
            if voters[i] != self.node_id && self.endpoints.contains(voters[i]) {
                ids.push(voters[i]);
            }
            i += 1;
        }
        let mut k: usize = 0;
        while k < learners.len()
            invariant
                all == voters@ + learners@,
                k <= learners@.len(),
                ids@ == askable(all.subrange(0, voters@.len() + k), self.node_id, self.endpoints@),
            decreases learners@.len() - k,
        {
            let ghost n = voters@.len() + k;
            assert(all.subrange(0, n + 1).drop_last() == all.subrange(0, n));
            assert(all[n] == learners@[k as int]);
            if learners[k] != self.node_id && self.endpoints.contains(learners[k]) {
                ids.push(learners[k]);
            }
            k += 1;
        }
        assert(all.subrange(0, voters@.len() + k) == all);
        ids
    }

    /// Finds out who leads, from the replicated members, the node's own status
    /// and those that the others sent. A member that is not well does not
    /// count.
    #[verifier::loop_isolation(false)]
    pub fn observe(
        &self,
        voters: Vec<u64>,
        learners: Vec<u64>,
        own: PeerStatus,
        received: &[PeerStatus],
    ) -> (observed: NetResult<Observation>)
        ensures
            match observed {
                Ok(o) => {
                    &&& observation_error(voters@, learners@, self.heard(own, received@)) is None
                    &&& o.voters == voters
                    &&& o.learners == learners
                    &&& o.statuses@ == self.heard(own, received@)
                    &&& may_lead(voters@, o.statuses@, o.leader, o.log_id)
                },
                Err(e) => observation_error(voters@, learners@, self.heard(own, received@))
                    == Some(e@),
            },
    {
        let mut statuses: Vec<PeerStatus> = Vec::new();
        if self.known_peer(self.node_id) {
            statuses.push(own);
        }
        let ghost first = statuses@;
        let mut i: usize = 0;
        assert(received@.subrange(0, 0) =~= Seq::<PeerStatus>::empty());
        while i < received.len()
            invariant
                i <= received@.len(),
                statuses@ == first + well(received@.subrange(0, i as int)),
            decreases received@.len() - i,
        {
            let ghost wider = received@.subrange(0, i + 1);
            assert(wider.drop_last() == received@.subrange(0, i as int));
            assert(wider.last() == received@[i as int]);
            if received[i].healthy {
                statuses.push(received[i]);
            }
            assert(statuses@ =~= first + well(wider));
            i += 1;
        }
        assert(received@.subrange(0, i as int) =~= received@);
        assert(statuses@ =~= self.heard(own, received@));
        match observe(voters.as_slice(), learners.as_slice(), statuses.as_slice()) {
            Ok((leader, log_id)) => Ok(
                Observation { voters, learners, statuses, leader, log_id },
            ),
            Err(e) => Err(e),
        }
    }

    /// The statuses that count for this node.
    pub open spec fn heard(self, own: PeerStatus, received: Seq<PeerStatus>) -> Seq<PeerStatus> {
        heard(
            if self.knows(self.node_id) {
                Some(own)
            } else {
                None
            },
            received,
        )
    }

    /// Where this node leads, as it tells a member that asks for the barrier.
    pub fn barrier_local(&self, observed: NetResult<Observation>) -> (barrier: NetResult<LogId>)
        ensures
            match (observed, barrier) {
                (Ok(o), Ok(log_id)) => o.leader == self.node_id && o.log_id == log_id,
                (Ok(o), Err(e)) => o.leader != self.node_id && e@ == ChorusErrorView::Consensus(
                    "not the quorum leader"@,
                ),
                (Err(f), Err(e)) => e@ == f@,
                (Err(_), Ok(_)) => false,
            },
    {
        match observed {
            Ok(o) => match self.require_leader(o.leader, "not the quorum leader") {
                Ok(()) => Ok(o.log_id),
                Err(e) => Err(e),
            },
            Err(e) => Err(e),
        }
    }

    /// Where a proposal goes when a member leads.
    pub fn route(&self, leader: u64) -> (route: NetResult<Route>)
        ensures
            match route {
                Ok(Route::Local) => leader == self.node_id,
                Ok(Route::Forward(endpoint)) => leader != self.node_id && has_node(
                    self.endpoints@,
                    leader,
                ) && endpoint@ == node_value(self.endpoints@, leader)->0@,
                Err(e) => leader != self.node_id && !has_node(self.endpoints@, leader) && e@
                    == ChorusErrorView::Consensus("leader endpoint is missing"@),
            },
    {
        if leader == self.node_id {
            return Ok(Route::Local);
        }
        match self.endpoints.get(leader) {
            Some(endpoint) => Ok(Route::Forward(endpoint.clone())),
            None => Err(ChorusError::consensus("leader endpoint is missing")),
        }
    }

    /// The position that a new entry gets behind a state.
    pub fn next_log_id(&self, last_applied: LogId) -> (log_id: LogId)
        ensures
            log_id.index == next_index(last_applied.index),
            log_id.term == if self.term > last_applied.term {
                self.term
            } else {
                last_applied.term
            },
    {
        LogId {
            term: if self.term > last_applied.term {
                self.term
            } else {
                last_applied.term
            },
            index: last_applied.index.saturating_add(1),
        }
    }

    /// Refuses to go on where this node does not lead.
    pub fn require_leader(&self, leader: u64, reason: &str) -> (result: NetResult<()>)
        ensures
            net_comes_out(
                if leader != self.node_id {
                    Err(ChorusErrorView::Consensus(reason@))
                } else {
                    Ok(())
                },
                result,
            ),
    {
        if leader != self.node_id {
            return Err(ChorusError::consensus(reason));
        }
        Ok(())
    }

    /// Refuses to activate the origin of another node.
    pub fn activate_origin(&self, origin_node_id: u64) -> (result: NetResult<()>)
        ensures
            net_comes_out(
                if origin_node_id != self.node_id {
                    Err(
                        ChorusErrorView::Protocol(
                            "origin activation must use this node's identity"@,
                        ),
                    )
                } else {
                    Ok(())
                },
                result,
            ),
    {
        if origin_node_id != self.node_id {
            return Err(ChorusError::protocol("origin activation must use this node's identity"));
        }
        Ok(())
    }

    /// The command with which this node bootstraps the group, the initial
    /// members being given: only the first voter may, and only over an empty
    /// state.
    pub fn bootstrap(&self, voters: Vec<u64>, learners: Vec<u64>, held: HeldState) -> (command:
        NetResult<ReplicatedCommandV1>)
        ensures
            match command {
                Ok(c) => bootstrap_verdict(self.node_id, voters@, held) == Ok::<
                    (),
                    ChorusErrorView,
                >(()) && c == (ReplicatedCommandV1::Membership { voters, learners }),
                Err(e) => bootstrap_verdict(self.node_id, voters@, held) == Err::<
                    (),
                    ChorusErrorView,
                >(e@),
            },
    {
        if voters.len() == 0 {
            return Err(ChorusError::consensus("bootstrap voter set is empty"));
        }
        if self.node_id != voters[0] {
            return Err(ChorusError::consensus("only the lowest initial voter may bootstrap"));
        }
        if !held.is_empty() {
            return Err(ChorusError::protocol("cannot bootstrap a non-empty durable state"));
        }
        Ok(ReplicatedCommandV1::Membership { voters, learners })
    }

    /// What this node knows of the group: what was observed, where anything
    /// was, and its static members otherwise.
    pub fn status(
        &self,
        applied: LogId,
        observed: Option<(u64, Vec<u64>, Vec<u64>)>,
    ) -> (status: ConsensusStatus)
        ensures
            status.node_id == self.node_id,
            status.term == self.term,
            status.commit_index == applied.index,
            status.applied_index == applied.index,
            status.quorum == observed.is_some(),
            match observed {
                Some(o) => status.leader_id == Some(o.0) && status.voters@ == o.1@
                    && status.learners@ == o.2@,
                None => status.leader_id is None && status.voters@ == self.voters@
                    && status.learners@ == self.learners@,
            },
    {
        match observed {
            Some((leader, voters, learners)) => ConsensusStatus {
                node_id: self.node_id,
                leader_id: Some(leader),
                term: self.term,
                commit_index: applied.index,
                applied_index: applied.index,
                quorum: true,
                voters,
                learners,
            },
            None => ConsensusStatus {
                node_id: self.node_id,
                leader_id: None,
                term: self.term,
                commit_index: applied.index,
                applied_index: applied.index,
                quorum: false,
                voters: copy_ids(self.voters.as_slice()),
                learners: copy_ids(self.learners.as_slice()),
            },
        }
    }
}

/// What of a durable state tells whether anything is held in it.
#[derive(Clone, Copy, Debug, PartialEq, Eq, Structural)]
pub struct HeldState {
    pub last_applied: LogId,
    pub db_epoch: u64,
    /// How many key-value entries there are.
    pub entries: usize,
    /// How many nodes' origins are remembered.
    pub origins: usize,
    /// How many tables the catalog lists.
    pub tables: usize,
}

impl HeldState {
    /// Whether nothing was ever applied and nothing is held.
    pub open spec fn empty(self) -> bool {
        &&& self.last_applied == (LogId { term: 0, index: 0 })
        &&& self.db_epoch == 0
        &&& self.entries == 0
        &&& self.origins == 0
        &&& self.tables == 0
    }

    pub fn is_empty(&self) -> (empty: bool)
        ensures
            empty == self.empty(),
    {
        self.last_applied == LogId::zero() && self.db_epoch == 0 && self.entries == 0
            && self.origins == 0 && self.tables == 0
    }
}

/// Whether a node may bootstrap a group of some initial voters.
pub open spec fn bootstrap_verdict(node_id: u64, voters: Seq<u64>, held: HeldState) -> NetVerdict {
    if voters.len() == 0 {
        Err(ChorusErrorView::Consensus("bootstrap voter set is empty"@))
    } else if node_id != voters[0] {
        Err(ChorusErrorView::Consensus("only the lowest initial voter may bootstrap"@))
    } else if !held.empty() {
        Err(ChorusErrorView::Protocol("cannot bootstrap a non-empty durable state"@))
    } else {
        Ok(())
    }
}

/// What comes of appending the members of a group: an error of the append goes
/// through, and any result but `Noop` is the error given for it.
pub open spec fn members_appended(
    appended: NetResult<ApplyResult>,
    otherwise: ChorusErrorView,
) -> NetVerdict {
    match appended {
        Ok(ApplyResult::Noop) => Ok(()),
        Ok(_) => Err(otherwise),
        Err(e) => Err(e@),
    }
}

/// Whether the group is bootstrapped, by what appending its initial members
/// gave.
pub fn bootstrapped(appended: NetResult<ApplyResult>) -> (result: NetResult<()>)
    ensures
        net_comes_out(
            members_appended(
                appended,
                ChorusErrorView::Protocol("membership bootstrap returned an unexpected result"@),
            ),
            result,
        ),
{
    match appended {
        Ok(ApplyResult::Noop) => Ok(()),
        Ok(_) => Err(ChorusError::protocol("membership bootstrap returned an unexpected result")),
        Err(e) => Err(e),
    }
}

/// Whether the members are changed, by what appending the change gave.
pub fn membership_changed(appended: NetResult<ApplyResult>) -> (result: NetResult<()>)
    ensures
        net_comes_out(
            members_appended(
                appended,
                ChorusErrorView::Consensus("membership change was not applied"@),
            ),
            result,
        ),
{
    match appended {
        Ok(ApplyResult::Noop) => Ok(()),
        Ok(_) => Err(ChorusError::consensus("membership change was not applied")),
        Err(e) => Err(e),
    }
}

/// The command of a change, its members in order and each once, or the refusal
/// of a change that leaves no voter, names node zero, or makes a member both.
pub fn change_membership(voters: Vec<u64>, learners: Vec<u64>) -> (command: NetResult<
    ReplicatedCommandV1,
>)
    ensures
        match command {
            Ok(ReplicatedCommandV1::Membership { voters: v, learners: l }) => sorts(v@, voters@)
                && sorts(l@, learners@) && voters@.len() > 0 && !voters@.contains(0)
                && !learners@.contains(0) && !overlap(voters@, learners@),
            Ok(_) => false,
            Err(e) => (voters@.len() == 0 || voters@.contains(0) || learners@.contains(0)
                || overlap(voters@, learners@)) && e@ == ChorusErrorView::Protocol(
                "invalid membership change"@,
            ),
        },
{
    let v = sorted_unique(voters.as_slice());
    let l = sorted_unique(learners.as_slice());
    proof {
        assert(voters@.len() == 0 <==> v@.len() == 0) by {
            if voters@.len() > 0 {
                assert(voters@.contains(voters@[0]));
                assert(v@.contains(voters@[0]));
            }
            if v@.len() > 0 {
                assert(v@.contains(v@[0]));
            }
        }
        assert(v@.contains(0) <==> voters@.contains(0));
        assert(l@.contains(0) <==> learners@.contains(0));
        assert(overlap(v@, l@) <==> overlap(voters@, learners@)) by {
            if overlap(v@, l@) {
                let id = choose|id: u64| #[trigger] v@.contains(id) && l@.contains(id);
                assert(voters@.contains(id) && learners@.contains(id));
            }
            if overlap(voters@, learners@) {
                let id = choose|id: u64| #[trigger] voters@.contains(id) && learners@.contains(id);
                assert(v@.contains(id) && l@.contains(id));
            }
        }
    }
    if v.len() == 0 || has_id(v.as_slice(), 0) || has_id(l.as_slice(), 0) || ids_overlap(
        v.as_slice(),
        l.as_slice(),
    ) {
        return Err(ChorusError::protocol("invalid membership change"));
    }
    Ok(ReplicatedCommandV1::Membership { voters: v, learners: l })
}

// ---------------------------------------------------------------------------
// Rounds
// ---------------------------------------------------------------------------

/// What a round asks of every member.
#[derive(Clone, Copy, Debug, PartialEq, Eq, Structural)]
pub enum RoundKind {
    Prepare,
    Apply,
}

/// A member that is asked in a round, with how far it was last known to be.
#[derive(Clone, Copy, Debug, PartialEq, Eq, Structural)]
pub struct Target {
    pub node_id: u64,
    pub last_applied: Option<LogId>,
}

/// Where a round stands with the member that it is at.
#[derive(Clone, Copy, Debug, PartialEq, Eq, Structural)]
pub enum RoundPhase {
    Repairing,
    Asking,
    CatchingUp,
    AskingAgain,
    Finished,
}

/// What a round wants done.
#[derive(Clone, Copy, Debug, PartialEq, Eq, Structural)]
pub enum RoundAction {
    /// Install a snapshot on a member.
    Install(u64),
    /// Ask a member to prepare or apply the entry.
    Ask(u64),
    /// All members have been asked; whether a quorum accepted.
    Finish(bool),
}

/// What a member answered.
#[derive(Clone, Copy, Debug, PartialEq, Eq, Structural)]
pub enum RoundEvent {
    Installed(bool),
    Accepted,
    NeedCatchUp,
    Refused,
}

/// A round over the members of a group.
pub struct QuorumRound {
    kind: RoundKind,
    log_id: LogId,
    voters: Vec<u64>,
    targets: Vec<Target>,
    at: usize,
    accepted: Vec<u64>,
    phase: RoundPhase,
}

/// What a [`QuorumRound`] holds.
pub struct RoundView {
    pub kind: RoundKind,
    pub log_id: LogId,
    pub voters: Seq<u64>,
    pub targets: Seq<Target>,
    /// The member that the round is at.
    pub at: int,
    /// The node that began the round, and the voters that accepted.
    pub accepted: Seq<u64>,
    pub phase: RoundPhase,
}

impl View for QuorumRound {
    type V = RoundView;

    closed spec fn view(&self) -> RoundView {
        RoundView {
            kind: self.kind,
            log_id: self.log_id,
            voters: self.voters@,
            targets: self.targets@,
            at: self.at as int,
            accepted: self.accepted@,
            phase: self.phase,
        }
    }
}

/// Whether a member must get a snapshot before an entry, because entries
/// between its state and the entry are missing.
pub open spec fn needs_repair(kind: RoundKind, last: Option<LogId>, log_id: LogId) -> bool {
    match last {
        None => false,
        Some(last) => match kind {
            RoundKind::Prepare => last.index < log_id.index && next_index(last.index)
                < log_id.index,
            RoundKind::Apply => log_before(last, log_id) && next_index(last.index) < log_id.index,
        },
    }
}

fn must_repair(kind: RoundKind, last: Option<LogId>, log_id: LogId) -> (repair: bool)
    ensures
        repair == needs_repair(kind, last, log_id),
{
    match last {
        None => false,
        Some(last) => match kind {
            RoundKind::Prepare => last.index < log_id.index && last.index.saturating_add(1)
                < log_id.index,
            RoundKind::Apply => is_behind(last, log_id) && last.index.saturating_add(1)
                < log_id.index,
        },
    }
}

/// The number of voters that a quorum takes.
pub open spec fn quorum_size(voters: Seq<u64>) -> int {
    voters.len() as int / 2 + 1
}

/// What a round wants done about the member that it is at.
pub open spec fn round_at(r: RoundView) -> (RoundView, RoundAction) {
    if r.at >= r.targets.len() {
        (
            RoundView { phase: RoundPhase::Finished, ..r },
            RoundAction::Finish(r.accepted.len() >= quorum_size(r.voters)),
        )
    } else if needs_repair(r.kind, r.targets[r.at].last_applied, r.log_id) {
        (
            RoundView { phase: RoundPhase::Repairing, ..r },
            RoundAction::Install(r.targets[r.at].node_id),
        )
    } else {
        (
            RoundView { phase: RoundPhase::Asking, ..r },
            RoundAction::Ask(r.targets[r.at].node_id),
        )
    }
}

/// How a round begins.
pub open spec fn round_start(
    kind: RoundKind,
    log_id: LogId,
    node_id: u64,
    voters: Seq<u64>,
    targets: Seq<Target>,
) -> (RoundView, RoundAction) {
    round_at(
        RoundView {
            kind,
            log_id,
            voters,
            targets,
            at: 0,
            accepted: seq![node_id],
            phase: RoundPhase::Finished,
        },
    )
}

/// A round that is done with the member that it is at, which accepted or not.
pub open spec fn round_past(r: RoundView, accepted: bool) -> (RoundView, RoundAction) {
    round_at(
        RoundView {
            at: r.at + 1,
            accepted: if accepted && r.voters.contains(r.targets[r.at].node_id) {
                r.accepted.push(r.targets[r.at].node_id)
            } else {
                r.accepted
            },
            ..r
        },
    )
}

/// How a round goes on after an answer.
pub open spec fn round_step(r: RoundView, event: RoundEvent) -> (RoundView, RoundAction) {
    match (r.phase, event) {
        (RoundPhase::Repairing, RoundEvent::Installed(true)) => (
            RoundView { phase: RoundPhase::Asking, ..r },
            RoundAction::Ask(r.targets[r.at].node_id),
        ),
        (RoundPhase::Asking, RoundEvent::Accepted) => round_past(r, true),
        (RoundPhase::Asking, RoundEvent::NeedCatchUp) => if r.kind == RoundKind::Apply {
            (
                RoundView { phase: RoundPhase::CatchingUp, ..r },
                RoundAction::Install(r.targets[r.at].node_id),
            )
        } else {
            round_past(r, false)
        },
        (RoundPhase::CatchingUp, RoundEvent::Installed(true)) => (
            RoundView { phase: RoundPhase::AskingAgain, ..r },
            RoundAction::Ask(r.targets[r.at].node_id),
        ),
        (RoundPhase::AskingAgain, RoundEvent::Accepted) => round_past(r, true),
        _ => round_past(r, false),
    }
}

/// What a round keeps: it never counts more voters than it has asked, and
/// itself.
pub open spec fn round_sound(r: RoundView) -> bool {
    0 <= r.at <= r.targets.len() && 1 <= r.accepted.len() <= r.at + 1 && (r.phase
        != RoundPhase::Finished ==> r.at < r.targets.len())
}

impl QuorumRound {
    fn look(&mut self) -> (action: RoundAction)
        requires
            0 <= old(self)@.at <= old(self)@.targets.len(),
            1 <= old(self)@.accepted.len() <= old(self)@.at + 1,
        ensures
            (final(self)@, action) == round_at(old(self)@),
            round_sound(final(self)@),
    {
        if self.at >= self.targets.len() {
            self.phase = RoundPhase::Finished;
            return RoundAction::Finish(self.accepted.len() > self.voters.len() / 2);
        }
        let target = self.targets[self.at];
        if must_repair(self.kind, target.last_applied, self.log_id) {
            self.phase = RoundPhase::Repairing;
            RoundAction::Install(target.node_id)
        } else {
            self.phase = RoundPhase::Asking;
            RoundAction::Ask(target.node_id)
        }
    }

    fn pass(&mut self, accepted: bool) -> (action: RoundAction)
        requires
            round_sound(old(self)@),
            old(self)@.phase != RoundPhase::Finished,
        ensures
            (final(self)@, action) == round_past(old(self)@, accepted),
            round_sound(final(self)@),
    {
        let target = self.targets[self.at];
        assert(self.at < self.targets.len());
        if accepted && has_id(self.voters.as_slice(), target.node_id) {
            self.accepted.push(target.node_id);
        }
        self.at = self.at + 1;
        self.look()
    }

    /// Begins a round; the node that begins it counts as one voter that
    /// accepts.
    pub fn start(
        kind: RoundKind,
        log_id: LogId,
        node_id: u64,
        voters: Vec<u64>,
        targets: Vec<Target>,
    ) -> (begun: (QuorumRound, RoundAction))
        ensures
            round_sound(begun.0@),
            (begun.0@, begun.1) == round_start(kind, log_id, node_id, voters@, targets@),
    {
        let mut accepted: Vec<u64> = Vec::new();
        accepted.push(node_id);
        assert(accepted@ =~= seq![node_id]);
        let mut round = QuorumRound {
            kind,
            log_id,
            voters,
            targets,
            at: 0,
            accepted,
            phase: RoundPhase::Finished,
        };
        let action = round.look();
        (round, action)
    }

    /// Goes on after an answer. An answer to something else counts as a
    /// refusal.
    pub fn step(&mut self, event: RoundEvent) -> (action: RoundAction)
        requires
            round_sound(old(self)@),
            old(self)@.phase != RoundPhase::Finished,
        ensures
            (final(self)@, action) == round_step(old(self)@, event),
            round_sound(final(self)@),
    {
        let target = self.targets[self.at];
        match (self.phase, event) {
            (RoundPhase::Repairing, RoundEvent::Installed(true)) => {
                self.phase = RoundPhase::Asking;
                RoundAction::Ask(target.node_id)
            },
            (RoundPhase::Asking, RoundEvent::Accepted) => self.pass(true),
            (RoundPhase::Asking, RoundEvent::NeedCatchUp) => {
                if self.kind == RoundKind::Apply {
                    self.phase = RoundPhase::CatchingUp;
                    RoundAction::Install(target.node_id)
                } else {
                    self.pass(false)
                }
            },
            (RoundPhase::CatchingUp, RoundEvent::Installed(true)) => {
                self.phase = RoundPhase::AskingAgain;
                RoundAction::Ask(target.node_id)
            },
            (RoundPhase::AskingAgain, RoundEvent::Accepted) => self.pass(true),
            _ => self.pass(false),
        }
    }
}

/// A round succeeds exactly when more than half of the voters accepted, the
/// node that began it among them.
pub proof fn rounds_need_a_majority(r: RoundView, event: RoundEvent)
    requires
        round_step(r, event).1 is Finish,
    ensures
        round_step(r, event).1->Finish_0 <==> 2 * round_step(r, event).0.accepted.len()
            > r.voters.len(),
{
}

/// A round ends only when every member that can be asked has been asked.
pub proof fn rounds_ask_every_member(r: RoundView, event: RoundEvent)
    requires
        round_sound(r),
        r.phase != RoundPhase::Finished,
        round_step(r, event).1 is Finish,
    ensures
        round_step(r, event).0.at == r.targets.len(),
        r.at == r.targets.len() - 1,
{
}

/// Whether the members that a node asks are others, each once.
pub open spec fn targets_fit(node_id: u64, targets: Seq<Target>) -> bool {
    &&& forall|i: int| 0 <= i < targets.len() ==> (#[trigger] targets[i]).node_id != node_id
    &&& forall|i: int, j: int|
        0 <= i < j < targets.len() ==> (#[trigger] targets[i]).node_id != (
        #[trigger] targets[j]).node_id
}

/// Whether those who accepted in a round are the node that began it and voters
/// that were asked, each once.
pub open spec fn counts_once(r: RoundView) -> bool {
    &&& r.accepted.len() > 0
    &&& r.accepted.no_duplicates()
    &&& forall|k: int|
        1 <= k < r.accepted.len() ==> r.voters.contains(#[trigger] r.accepted[k]) && asked(
            r,
            r.accepted[k],
        )
}

/// Whether a member has been asked in a round.
pub open spec fn asked(r: RoundView, id: u64) -> bool {
    exists|j: int| 0 <= j < r.at && j < r.targets.len() && (#[trigger] r.targets[j]).node_id == id
}

/// A round counts every voter once, and only voters that it asked, where the
/// members that it asks are others, each once.
pub proof fn rounds_count_voters_once(r: RoundView, event: RoundEvent)
    requires
        round_sound(r),
        r.phase != RoundPhase::Finished,
        counts_once(r),
        targets_fit(r.accepted[0], r.targets),
    ensures
        counts_once(round_step(r, event).0),
        round_step(r, event).0.accepted[0] == r.accepted[0],
        round_step(r, event).0.targets == r.targets,
        round_step(r, event).0.voters == r.voters,
{
    let n = round_step(r, event).0;
    let id = r.targets[r.at].node_id;
    if n.at > r.at {
        assert forall|k: int| 1 <= k < n.accepted.len() implies n.voters.contains(
            #[trigger] n.accepted[k],
        ) && asked(n, n.accepted[k]) by {
            if k < r.accepted.len() {
                assert(n.accepted[k] == r.accepted[k]);
                let j = choose|j: int|
                    0 <= j < r.at && j < r.targets.len() && (#[trigger] r.targets[j]).node_id
                        == r.accepted[k];
                assert(n.targets[j].node_id == n.accepted[k]);
            } else {
                assert(n.targets[r.at].node_id == n.accepted[k]);
            }
        }
        if n.accepted.len() > r.accepted.len() {
            assert forall|k: int| 0 <= k < r.accepted.len() implies r.accepted[k] != id by {
                if k > 0 {
                    assert(asked(r, r.accepted[k]));
                }
            }
            assert(n.accepted == r.accepted.push(id));
            assert forall|i: int, j: int|
                0 <= i < n.accepted.len() && 0 <= j < n.accepted.len() && i
                    != j implies n.accepted[i] != n.accepted[j] by {}
        }
    } else {
        assert(n.accepted == r.accepted);
        assert forall|k: int| 1 <= k < n.accepted.len() implies n.voters.contains(
            #[trigger] n.accepted[k],
        ) && asked(n, n.accepted[k]) by {
            let j = choose|j: int|
                0 <= j < r.at && j < r.targets.len() && (#[trigger] r.targets[j]).node_id
                    == r.accepted[k];
            assert(n.targets[j].node_id == n.accepted[k]);
        }
    }
}

/// A member with missing entries is never asked to take an entry before a
/// snapshot was installed on it.
pub proof fn gaps_are_repaired_first(r: RoundView)
    requires
        0 <= r.at < r.targets.len(),
        needs_repair(r.kind, r.targets[r.at].last_applied, r.log_id),
    ensures
        round_at(r).1 == RoundAction::Install(r.targets[r.at].node_id),
{
}

/// Reports that too few voters prepared or applied an entry.
pub fn round_result(kind: RoundKind, reached: bool) -> (result: NetResult<()>)
    ensures
        net_comes_out(
            if reached {
                Ok(())
            } else {
                Err(
                    ChorusErrorView::Consensus(
                        match kind {
                            RoundKind::Prepare => {
                                "proposal was not durably prepared on a quorum"@
                            },
                            RoundKind::Apply => "replication quorum failed after local apply"@,
                        },
                    ),
                )
            },
            result,
        ),
{
    if reached {
        return Ok(());
    }
    match kind {
        RoundKind::Prepare => Err(
            ChorusError::consensus("proposal was not durably prepared on a quorum"),
        ),
        RoundKind::Apply => Err(
            ChorusError::consensus("replication quorum failed after local apply"),
        ),
    }
}

/// The targets of a round: the members that can be asked, with the first
/// status that was received from each.
pub fn round_targets(ids: &[u64], statuses: &[PeerStatus]) -> (targets: Vec<Target>)
    ensures
        targets@ == targets_for(ids@, statuses@),
{
    let mut targets: Vec<Target> = Vec::new();
    let mut i: usize = 0;
    while i < ids.len()
        invariant
            i <= ids@.len(),
            targets@.len() == i,
            forall|k: int|
                0 <= k < i ==> (#[trigger] targets@[k]).node_id == ids@[k]
                    && targets@[k].last_applied == known_position(statuses@, ids@[k], 0),
        decreases ids@.len() - i,
    {
        let mut last: Option<LogId> = None;
        let mut k: usize = 0;
        while k < statuses.len() && last.is_none()
            invariant
                k <= statuses@.len(),
                last is None ==> known_position(statuses@, ids@[i as int], k as int)
                    == known_position(statuses@, ids@[i as int], 0),
                last is Some ==> last == known_position(statuses@, ids@[i as int], 0),
                i < ids@.len(),
            decreases statuses@.len() - k,
        {
            if statuses[k].node_id == ids[i] {
                last = Some(statuses[k].last_applied);
            }
            k += 1;
        }
        targets.push(Target { node_id: ids[i], last_applied: last });
        i += 1;
    }
    assert(targets@ =~= targets_for(ids@, statuses@));
    targets
}

/// The members of a list, each with where its first status says that it
/// stands.
pub open spec fn targets_for(ids: Seq<u64>, statuses: Seq<PeerStatus>) -> Seq<Target> {
    Seq::new(
        ids.len(),
        |i: int|
            Target { node_id: ids[i], last_applied: known_position(statuses, ids[i], 0) },
    )
}

/// Where the first status of a member from `from` on says that it stands.
pub open spec fn known_position(statuses: Seq<PeerStatus>, id: u64, from: int) -> Option<LogId>
    decreases statuses.len() - from,
{
    if from < 0 || from >= statuses.len() {
        None
    } else if statuses[from].node_id == id {
        Some(statuses[from].last_applied)
    } else {
        known_position(statuses, id, from + 1)
    }
}

// ---------------------------------------------------------------------------
// Proposals and reads
// ---------------------------------------------------------------------------

/// What to do about an entry that was prepared and not acknowledged.
#[derive(Clone, Copy, Debug, PartialEq, Eq, Structural)]
pub enum PendingStep {
    /// Apply it to the local state, and then replicate it.
    Reapply,
    /// It stands in the local state; replicate it.
    Replicate,
}

/// What to do about a pending entry when the local state stands at `current`.
pub fn reapply_pending(current: LogId, pending: LogId) -> (step: NetResult<PendingStep>)
    ensures
        match step {
            Ok(PendingStep::Reapply) => log_before(current, pending),
            Ok(PendingStep::Replicate) => !log_before(current, pending) && current.index
                <= pending.index,
            Err(e) => !log_before(current, pending) && current.index > pending.index && e@
                == ChorusErrorView::Consensus("pending proposal is behind the local state machine"@),
        },
{
    if is_behind(current, pending) {
        Ok(PendingStep::Reapply)
    } else if current.index > pending.index {
        Err(ChorusError::consensus("pending proposal is behind the local state machine"))
    } else {
        Ok(PendingStep::Replicate)
    }
}

/// The reply of a leader to a proposal or to a question for its barrier.
pub enum LeaderReply<T> {
    Value(T),
    Error(String),
    Other,
}

/// What a leader's reply is worth; `what` names the reply in the error.
pub fn leader_reply<T>(reply: LeaderReply<T>, what: &str) -> (value: NetResult<T>)
    ensures
        match reply {
            LeaderReply::Value(v) => value == Ok::<T, ChorusError>(v),
            LeaderReply::Error(m) => value is Err && value->Err_0@ == ChorusErrorView::Consensus(
                m@,
            ),
            LeaderReply::Other => value is Err && value->Err_0@ == ChorusErrorView::Protocol(what@),
        },
{
    match reply {
        LeaderReply::Value(v) => Ok(v),
        LeaderReply::Error(m) => Err(ChorusError::Consensus(m)),
        LeaderReply::Other => Err(ChorusError::protocol(what)),
    }
}

/// Refuses to read while an entry is neither acknowledged nor given up.
pub fn read_allowed(pending: bool) -> (result: NetResult<()>)
    ensures
        net_comes_out(
            if pending {
                Err(
                    ChorusErrorView::Consensus(
                        "an unacknowledged proposal is awaiting quorum recovery"@,
                    ),
                )
            } else {
                Ok(())
            },
            result,
        ),
{
    if pending {
        return Err(
            ChorusError::consensus("an unacknowledged proposal is awaiting quorum recovery"),
        );
    }
    Ok(())
}

/// Whether a state must be brought up to a barrier before it is read.
pub fn needs_sync(local: LogId, barrier: LogId) -> (sync: bool)
    ensures
        sync == (local.index < barrier.index),
{
    local.index < barrier.index
}

/// Refuses a state that was brought up and still stands before the barrier.
pub fn barrier_reached(synced: LogId, barrier: LogId) -> (result: NetResult<()>)
    ensures
        net_comes_out(
            if synced.index < barrier.index {
                Err(ChorusErrorView::Consensus("local state did not catch up to read barrier"@))
            } else {
                Ok(())
            },
            result,
        ),
{
    if synced.index < barrier.index {
        return Err(ChorusError::consensus("local state did not catch up to read barrier"));
    }
    Ok(())
}

/// Refuses to go back to an older state of the leader's.
pub fn accept_leader_snapshot(remote: LogId, local: LogId) -> (result: NetResult<()>)
    ensures
        net_comes_out(
            if remote.index < local.index {
                Err(ChorusErrorView::Consensus("leader snapshot is older than local state"@))
            } else {
                Ok(())
            },
            result,
        ),
{
    if remote.index < local.index {
        return Err(ChorusError::consensus("leader snapshot is older than local state"));
    }
    Ok(())
}

} // verus!
