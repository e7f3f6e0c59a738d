//! Opening and running a node of a replicated group: what must hold before it
//! starts, how requests find the leader, and what its state is worth.

use crate::cluster::{is_behind, log_before, ConsensusStatus};
use crate::error::{ChorusError, ChorusErrorView};
use crate::ids::LogId;
use crate::members::has_id;
use crate::node_map::{has_node, node_value, NodeMap};
use crate::text::{digits, digits_text, joined, joined3, owned, same_bytes, same_text};
use crate::transport::{identity_verdict, PeerTlsConfig, TransportTlsIdentity};
use vstd::prelude::*;
use vstd::string::*;

verus! {

type RunResult<T> = std::result::Result<T, ChorusError>;

pub const MAX_GATEWAY_REDIRECTS: usize = 3;

/// What a check says: nothing, or an error.
pub type RunVerdict = std::result::Result<(), ChorusErrorView>;

/// Whether a check came out as `verdict` says.
pub open spec fn run_comes_out(verdict: RunVerdict, result: RunResult<()>) -> bool {
    match result {
        Ok(()) => verdict == Ok::<(), ChorusErrorView>(()),
        Err(e) => verdict == Err::<(), ChorusErrorView>(e@),
    }
}

/// An error of consensus about a node.
pub open spec fn about_node(before: Seq<char>, node: u64, after: Seq<char>) -> RunVerdict {
    Err(ChorusErrorView::Consensus(before + digits(node as nat) + after))
}

fn node_fault(before: &str, node: u64, after: &str) -> (error: ChorusError)
    ensures
        about_node(before@, node, after@) == Err::<(), _>(error@),
{
    ChorusError::Consensus(joined3(before, digits_text(node).as_str(), after))
}

/// The index of the durable commit cursor; zero where nothing is committed. It
/// is not bounded by what has been applied.
pub fn durable_commit_index(committed: Option<LogId>) -> (index: u64)
    ensures
        index == match committed {
            Some(id) => id.index,
            None => 0,
        },
{
    match committed {
        Some(id) => id.index,
        None => 0,
    }
}

// ---------------------------------------------------------------------------
// Opening
// ---------------------------------------------------------------------------

/// How a node of an authenticated group runs.
#[derive(Clone, Copy, Debug, PartialEq, Eq, Structural)]
pub struct OpenRaftRuntimeOptions {
    pub listen_port: u16,
    pub heartbeat_ms: u64,
    pub election_timeout_min_ms: u64,
    pub election_timeout_max_ms: u64,
    pub snapshot_entries: u64,
}

/// What the replication runtime is configured with.
#[derive(Clone, Debug, PartialEq, Eq)]
pub struct RaftSettings {
    pub cluster_name: String,
    pub heartbeat_interval: u64,
    pub election_timeout_min: u64,
    pub election_timeout_max: u64,
    /// A snapshot is made after this many entries.
    pub snapshot_after: u64,
    /// Entries that are kept though they are in a snapshot.
    pub entries_kept: u64,
    /// The longest piece of a snapshot, where it is not the runtime's own choice.
    pub snapshot_max_chunk_size: Option<u64>,
    /// The most entries of one request, where it is not the runtime's own choice.
    pub max_payload_entries: Option<u64>,
}

/// What is wrong with the times and limits of a configuration, if anything.
pub open spec fn settings_fault(
    heartbeat: u64,
    timeout_min: u64,
    timeout_max: u64,
    payload: Option<u64>,
) -> Option<Seq<char>> {
    if timeout_min >= timeout_max {
        Some(
            "election timeout: min("@ + digits(timeout_min as nat) + ") must be < max("@ + digits(
                timeout_max as nat,
            ) + ")"@,
        )
    } else if timeout_min <= heartbeat {
        Some(
            "election_timeout_min("@ + digits(timeout_min as nat)
                + ") must be > heartbeat_interval("@ + digits(heartbeat as nat) + ")"@,
        )
    } else if payload == Some(0u64) {
        Some("max_payload_entries must be > 0"@)
    } else {
        None
    }
}

/// Has the replication runtime check its settings, by `openraft::Config::validate`.
/// The claim: it refuses an election timeout that is no range, then one that a
/// heartbeat does not fit into, then a request without entries, each with the
/// text that its error displays, and nothing else. A limit that is not set is
/// the runtime's default, which is not zero.
#[verifier::external_body]
fn validated(settings: &RaftSettings) -> (result: std::result::Result<(), String>)
    ensures
        match result {
            Ok(()) => settings_fault(
                settings.heartbeat_interval,
                settings.election_timeout_min,
                settings.election_timeout_max,
                settings.max_payload_entries,
            ) is None,
            Err(text) => settings_fault(
                settings.heartbeat_interval,
                settings.election_timeout_min,
                settings.election_timeout_max,
                settings.max_payload_entries,
            ) == Some(text@),
        },
{
    let usual = openraft::Config::default();
    let config = openraft::Config {
        cluster_name: settings.cluster_name.clone(),
        heartbeat_interval: settings.heartbeat_interval,
        election_timeout_min: settings.election_timeout_min,
        election_timeout_max: settings.election_timeout_max,
        snapshot_policy: openraft::SnapshotPolicy::LogsSinceLast(settings.snapshot_after),
        max_in_snapshot_log_to_keep: settings.entries_kept,
        snapshot_max_chunk_size: settings.snapshot_max_chunk_size.unwrap_or(usual.snapshot_max_chunk_size),
        max_payload_entries: settings.max_payload_entries.unwrap_or(usual.max_payload_entries),
        ..usual
    };
    match config.validate() { Ok(_) => Ok(()), Err(error) => Err(error.to_string()) }
}

/// The settings of a group of one node.
pub fn single_node_config() -> (result: std::result::Result<RaftSettings, String>)
    ensures
        result matches Ok(s) && s.cluster_name@ == "chorus-single-node"@ && s.heartbeat_interval
            == 100 && s.election_timeout_min == 300 && s.election_timeout_max == 600
            && s.snapshot_after == 50_000 && s.entries_kept == 10_000 && s.snapshot_max_chunk_size
            is None && s.max_payload_entries is None,
{
    let settings = RaftSettings {
        cluster_name: owned("chorus-single-node"),
        heartbeat_interval: 100,
        election_timeout_min: 300,
        election_timeout_max: 600,
        snapshot_after: 50_000,
        entries_kept: 10_000,
        snapshot_max_chunk_size: None,
        max_payload_entries: None,
    };
    match validated(&settings) {
        Ok(()) => Ok(settings),
        Err(fault) => Err(joined("invalid OpenRaft configuration: ", fault.as_str())),
    }
}

/// The settings of a node of an authenticated group. Its election timeout is a
/// range that lies above the heartbeat.
pub fn authenticated_config(options: &OpenRaftRuntimeOptions) -> (result: std::result::Result<
    RaftSettings,
    String,
>)
    ensures
        match settings_fault(
            options.heartbeat_ms,
            options.election_timeout_min_ms,
            options.election_timeout_max_ms,
            Some(4096),
        ) {
            Some(fault) => result matches Err(text) && text@
                == "invalid authenticated OpenRaft configuration: "@ + fault,
            None => result matches Ok(s) && s.cluster_name@ == "chorus-authenticated"@
                && s.heartbeat_interval == options.heartbeat_ms && s.election_timeout_min
                == options.election_timeout_min_ms && s.election_timeout_max
                == options.election_timeout_max_ms && s.snapshot_after == options.snapshot_entries
                && s.entries_kept == (if options.snapshot_entries < 10_000 {
                options.snapshot_entries
            } else {
                10_000
            }) && s.snapshot_max_chunk_size == Some(1_048_576u64) && s.max_payload_entries == Some(
                4096u64,
            ),
        },
{
    let settings = RaftSettings {
        cluster_name: owned("chorus-authenticated"),
        heartbeat_interval: options.heartbeat_ms,
        election_timeout_min: options.election_timeout_min_ms,
        election_timeout_max: options.election_timeout_max_ms,
        snapshot_after: options.snapshot_entries,
        entries_kept: if options.snapshot_entries < 10_000 {
            options.snapshot_entries
        } else {
            10_000
        },
        snapshot_max_chunk_size: Some(1_048_576),
        max_payload_entries: Some(4096),
    };
    match validated(&settings) {
        Ok(()) => Ok(settings),
        Err(fault) => Err(
            joined("invalid authenticated OpenRaft configuration: ", fault.as_str()),
        ),
    }
}

/// The first voter from `i` on that is neither the node nor one of its peers.
pub open spec fn unknown_voter(
    id: TransportTlsIdentity,
    node_id: u64,
    voters: Seq<(u64, String)>,
    i: int,
) -> Option<u64>
    decreases voters.len() - i,
{
    if i < 0 || i >= voters.len() {
        None
    } else if voters[i].0 != node_id && !has_node(id.peers@, voters[i].0) {
        Some(voters[i].0)
    } else {
        unknown_voter(id, node_id, voters, i + 1)
    }
}

/// Whether a peer is a voter at another address than the manifest gives.
pub open spec fn misplaced_peer(
    peers: Seq<(u64, PeerTlsConfig)>,
    voters: Seq<(u64, String)>,
) -> bool {
    exists|i: int|
        0 <= i < peers.len() && has_node(voters, (#[trigger] peers[i]).0) && node_value(
            voters,
            peers[i].0,
        )->0@ != peers[i].1.endpoint@
}

/// Whether a member of an authenticated group may be opened.
pub open spec fn opening_verdict(
    node_id: u64,
    cluster_id: Seq<u8>,
    cluster_incarnation: u64,
    initialize: bool,
    id: TransportTlsIdentity,
    voters: Seq<(u64, String)>,
    listen_port: u16,
) -> RunVerdict {
    if id.node_id != node_id || id.cluster_id@ != cluster_id || id.cluster_incarnation
        != cluster_incarnation {
        Err(
            ChorusErrorView::Consensus(
                "authenticated transport identity does not match the durable node identity"@,
            ),
        )
    } else if identity_verdict(id) is Err {
        Err(ChorusErrorView::Consensus(identity_verdict(id)->Err_0.text()))
    } else if voters.len() < 3 || voters.len() > 5 || voters.len() % 2 == 0 {
        Err(ChorusErrorView::Consensus("authenticated static bootstrap requires 3 or 5 voters"@))
    } else if listen_port == 0 {
        Err(ChorusErrorView::Consensus("authenticated OpenRaft listen port must be nonzero"@))
    } else if unknown_voter(id, node_id, voters, 0) is Some {
        about_node(
            "authenticated initial voter "@,
            unknown_voter(id, node_id, voters, 0)->0,
            " is absent from the signed peer manifest"@,
        )
    } else if misplaced_peer(id.peers@, voters) {
        Err(
            ChorusErrorView::Consensus(
                "authenticated peer endpoints do not match the static voter directory"@,
            ),
        )
    } else if initialize && node_id != voters[0].0 {
        about_node(
            "only deterministic bootstrap voter "@,
            voters[0].0,
            " may initialize the cluster"@,
        )
    } else {
        Ok(())
    }
}

/// Checks that a member of an authenticated group may be opened: its identity
/// is the durable one, the voters are three or five known peers at the
/// addresses of the manifest, and only the first of them initializes.
#[verifier::loop_isolation(false)]
pub fn open_authenticated(
    node_id: u64,
    cluster_id: &[u8; 16],
    cluster_incarnation: u64,
    initialize: bool,
    identity: &TransportTlsIdentity,
    initial_voters: &NodeMap<String>,
    options: &OpenRaftRuntimeOptions,
) -> (result: RunResult<()>)
    ensures
        run_comes_out(
            opening_verdict(
                node_id,
                cluster_id@,
                cluster_incarnation,
                initialize,
                *identity,
                initial_voters@,
                options.listen_port,
            ),
            result,
        ),
{
    if identity.node_id != node_id || !same_bytes(
        identity.cluster_id.as_slice(),
        cluster_id.as_slice(),
    ) || identity.cluster_incarnation != cluster_incarnation {
        return Err(
            ChorusError::consensus(
                "authenticated transport identity does not match the durable node identity",
            ),
        );
    }
    match identity.validate() {
        Ok(()) => {},
        Err(e) => {
            return Err(ChorusError::Consensus(e.text()));
        },
    }
    let count = initial_voters.len();
    if count < 3 || count > 5 || count % 2 == 0 {
        return Err(
            ChorusError::consensus("authenticated static bootstrap requires 3 or 5 voters"),
        );
    }
    if options.listen_port == 0 {
        return Err(ChorusError::consensus("authenticated OpenRaft listen port must be nonzero"));
    }
    let ghost voters = initial_voters@;
    let mut i: usize = 0;
    while i < count
        invariant
            i <= count,
            unknown_voter(*identity, node_id, voters, i as int) == unknown_voter(
                *identity,
                node_id,
                voters,
                0,
            ),
        decreases count - i,
    {
        let voter: u64 = initial_voters.at(i).0;
        if voter != node_id && !identity.peers.contains(voter) {
            return Err(
                node_fault(
                    "authenticated initial voter ",
                    voter,
                    " is absent from the signed peer manifest",
                ),
            );
        }
        i += 1;
    }
    let peers = identity.peers.len();
    let ghost known = identity.peers@;
    let mut k: usize = 0;
    while k < peers
        invariant
            k <= peers,
            forall|j: int|
                0 <= j < k ==> !(has_node(voters, (#[trigger] known[j]).0) && node_value(
                    voters,
                    known[j].0,
                )->0@ != known[j].1.endpoint@),
        decreases peers - k,
    {
        let peer = identity.peers.at(k);
        if let Some(endpoint) = initial_voters.get(peer.0) {
            if !same_text(endpoint.as_str(), peer.1.endpoint.as_str()) {
                assert(known[k as int] == *peer);
                return Err(
                    ChorusError::consensus(
                        "authenticated peer endpoints do not match the static voter directory",
                    ),
                );
            }
        }
        k += 1;
    }
    let bootstrap: u64 = initial_voters.at(0).0;
    if initialize && node_id != bootstrap {
        return Err(
            node_fault(
                "only deterministic bootstrap voter ",
                bootstrap,
                " may initialize the cluster",
            ),
        );
    }
    Ok(())
}

/// The members that durable state names, where it names any.
pub struct DurableMembers {
    pub voters: Vec<u64>,
    pub learners: Vec<u64>,
    /// Every member with its address.
    pub nodes: NodeMap<String>,
}

/// The first thing that is wrong with the members from `i` on.
pub open spec fn members_verdict(
    node_id: u64,
    id: TransportTlsIdentity,
    nodes: Seq<(u64, String)>,
    i: int,
) -> RunVerdict
    decreases nodes.len() - i,
{
    if i < 0 || i >= nodes.len() {
        Ok(())
    } else if nodes[i].0 == node_id {
        members_verdict(node_id, id, nodes, i + 1)
    } else if !has_node(id.peers@, nodes[i].0) {
        about_node(
            "durable member "@,
            nodes[i].0,
            " is absent from the signed peer manifest"@,
        )
    } else if nodes[i].1@ != node_value(id.peers@, nodes[i].0)->0.endpoint@ {
        about_node(
            "durable member "@,
            nodes[i].0,
            " endpoint does not match the signed peer manifest"@,
        )
    } else {
        members_verdict(node_id, id, nodes, i + 1)
    }
}

/// Whether a node may be opened on durable state: alone on state that names
/// nobody else, or in a group with members that its manifest names.
pub open spec fn durable_verdict(
    node_id: u64,
    stored: Option<DurableMembers>,
    id: Option<TransportTlsIdentity>,
) -> RunVerdict {
    if node_id == 0 {
        Err(ChorusErrorView::Consensus("Raft node id must be nonzero"@))
    } else {
        match stored {
            None => Ok(()),
            Some(m) => match id {
                None => if m.voters@ != seq![node_id] || m.learners@.len() > 0 {
                    Err(
                        ChorusErrorView::Consensus(
                            "single-node adapter refuses durable multi-node or foreign-node membership"@,
                        ),
                    )
                } else {
                    Ok(())
                },
                Some(id) => if !has_node(m.nodes@, node_id) {
                    about_node(
                        "local node "@,
                        node_id,
                        " is absent from its durable OpenRaft membership"@,
                    )
                } else {
                    members_verdict(node_id, id, m.nodes@, 0)
                },
            },
        }
    }
}

/// Checks that a node may be opened on durable state. `identity` is there for
/// a node of an authenticated group.
#[verifier::loop_isolation(false)]
pub fn open_inner(
    node_id: u64,
    stored: &Option<DurableMembers>,
    identity: &Option<TransportTlsIdentity>,
) -> (result: RunResult<()>)
    ensures
        run_comes_out(durable_verdict(node_id, *stored, *identity), result),
{
    if node_id == 0 {
        return Err(ChorusError::consensus("Raft node id must be nonzero"));
    }
    let members = match stored {
        Some(members) => members,
        None => {
            return Ok(());
        },
    };
    let identity = match identity {
        Some(identity) => identity,
        None => {
            assert(members.voters@ == seq![node_id] <==> members.voters@.len() == 1
                && members.voters@[0] == node_id) by {
                if members.voters@.len() == 1 && members.voters@[0] == node_id {
                    assert(members.voters@ =~= seq![node_id]);
                }
            }
            if members.voters.len() != 1 || members.voters[0] != node_id || members.learners.len()
                > 0 {
                return Err(
                    ChorusError::consensus(
                        "single-node adapter refuses durable multi-node or foreign-node membership",
                    ),
                );
            }
            return Ok(());
        },
    };
    if !members.nodes.contains(node_id) {
        return Err(
            node_fault(
                "local node ",
                node_id,
                " is absent from its durable OpenRaft membership",
            ),
        );
    }
    let count = members.nodes.len();
    let ghost nodes = members.nodes@;
    let mut i: usize = 0;
    while i < count
        invariant
            i <= count,
            members_verdict(node_id, *identity, nodes, i as int) == members_verdict(
                node_id,
                *identity,
                nodes,
                0,
            ),
        decreases count - i,
    {
        let node = members.nodes.at(i);
        if node.0 != node_id {
            match identity.peers.get(node.0) {
                None => {
                    return Err(
                        node_fault(
                            "durable member ",
                            node.0,
                            " is absent from the signed peer manifest",
                        ),
                    );
                },
                Some(peer) => {
                    if !same_text(node.1.as_str(), peer.endpoint.as_str()) {
                        return Err(
                            node_fault(
                                "durable member ",
                                node.0,
                                " endpoint does not match the signed peer manifest",
                            ),
                        );
                    }
                },
            }
        }
        i += 1;
    }
    Ok(())
}

/// What is found in durable state before a node starts.
#[derive(Clone, Copy, Debug, PartialEq, Eq, Structural)]
pub struct DurableState {
    /// The state machine names members.
    pub state_initialized: bool,
    /// The log has a commit cursor.
    pub committed: bool,
    /// The log has entries, or had some.
    pub log_nonempty: bool,
}

/// What keeps a node from starting on durable state, if anything does: a node
/// initializes only empty state, and only where it was asked to.
pub open spec fn startup_fault(
    initialize: bool,
    found: DurableState,
    authenticated: bool,
) -> Option<Seq<char>> {
    if initialize && (found.state_initialized || found.committed || found.log_nonempty) {
        Some("OpenRaft durable state is already initialized or nonempty"@)
    } else if !initialize && !found.state_initialized && !found.committed && !authenticated {
        if found.log_nonempty {
            Some("OpenRaft log is nonempty without committed membership; recovery is required"@)
        } else {
            Some("empty OpenRaft state requires explicit initialization"@)
        }
    } else if found.state_initialized && !found.committed {
        Some("OpenRaft state membership exists without durable commit metadata"@)
    } else {
        None
    }
}

/// Checks that a node may start on durable state.
pub fn startup_decision(initialize: bool, found: DurableState, authenticated: bool) -> (result:
    std::result::Result<(), String>)
    ensures
        match result {
            Ok(()) => startup_fault(initialize, found, authenticated) is None,
            Err(m) => startup_fault(initialize, found, authenticated) == Some(m@),
        },
{
    if initialize && (found.state_initialized || found.committed || found.log_nonempty) {
        return Err(owned("OpenRaft durable state is already initialized or nonempty"));
    }
    if !initialize && !found.state_initialized && !found.committed && !authenticated {
        if found.log_nonempty {
            return Err(
                owned(
                    "OpenRaft log is nonempty without committed membership; recovery is required",
                ),
            );
        }
        return Err(owned("empty OpenRaft state requires explicit initialization"));
    }
    if found.state_initialized && !found.committed {
        return Err(owned("OpenRaft state membership exists without durable commit metadata"));
    }
    Ok(())
}

/// A node that starts never initializes state that holds anything, and state
/// that names members is committed.
pub proof fn startup_keeps_state(initialize: bool, found: DurableState, authenticated: bool)
    requires
        startup_fault(initialize, found, authenticated) is None,
    ensures
        initialize ==> !found.state_initialized && !found.committed && !found.log_nonempty,
        found.state_initialized ==> found.committed,
        !initialize && !authenticated ==> found.committed,
{
}

/// Whether the node must lead before it is ready: alone always, in a group
/// where it initializes the group.
pub fn waits_for_own_leadership(initialize: bool, authenticated: bool) -> (waits: bool)
    ensures
        waits == (!authenticated || initialize),
{
    !authenticated || initialize
}

// ---------------------------------------------------------------------------
// Requests
// ---------------------------------------------------------------------------

/// What the runtime is asked to do.
#[derive(Clone, Copy, Debug, PartialEq, Eq, Structural)]
pub enum RuntimeOperation {
    Write,
    ReadBarrier,
    StatusRead,
    MembershipChange,
    Checkpoint,
    ShutdownCheckpoint,
}

/// The error of an operation that took too long.
pub open spec fn timeout_text(operation: RuntimeOperation) -> Seq<char> {
    match operation {
        RuntimeOperation::Write => "OpenRaft write timed out"@,
        RuntimeOperation::ReadBarrier => "OpenRaft read barrier timed out"@,
        RuntimeOperation::StatusRead => "OpenRaft durable status read timed out"@,
        RuntimeOperation::MembershipChange => "OpenRaft membership change timed out"@,
        RuntimeOperation::Checkpoint => "OpenRaft checkpoint timed out"@,
        RuntimeOperation::ShutdownCheckpoint => "OpenRaft shutdown checkpoint timed out"@,
    }
}

/// The error of an operation that took too long.
pub fn operation_timed_out(operation: RuntimeOperation) -> (error: ChorusError)
    ensures
        error@ == ChorusErrorView::Consensus(timeout_text(operation)),
{
    match operation {
        RuntimeOperation::Write => ChorusError::consensus("OpenRaft write timed out"),
        RuntimeOperation::ReadBarrier => ChorusError::consensus("OpenRaft read barrier timed out"),
        RuntimeOperation::StatusRead => ChorusError::consensus(
            "OpenRaft durable status read timed out",
        ),
        RuntimeOperation::MembershipChange => ChorusError::consensus(
            "OpenRaft membership change timed out",
        ),
        RuntimeOperation::Checkpoint => ChorusError::consensus("OpenRaft checkpoint timed out"),
        RuntimeOperation::ShutdownCheckpoint => ChorusError::consensus(
            "OpenRaft shutdown checkpoint timed out",
        ),
    }
}

/// The search for the leader from node to node.
pub struct Redirects {
    visited: Vec<u64>,
}

impl View for Redirects {
    type V = Seq<u64>;

    closed spec fn view(&self) -> Seq<u64> {
        self.visited@
    }
}

/// The node to ask after some have been asked, or why none is asked.
pub open spec fn redirect(visited: Seq<u64>, target: Option<u64>) -> std::result::Result<
    u64,
    ChorusErrorView,
> {
    if visited.len() >= 3 {
        Err(
            ChorusErrorView::Consensus("OpenRaft follower gateway exceeded its redirect limit"@),
        )
    } else {
        match target {
            None => Err(
                ChorusErrorView::Consensus("OpenRaft follower does not know the current leader"@),
            ),
            Some(leader) => if visited.contains(leader) {
                Err(
                    ChorusErrorView::Consensus("OpenRaft follower gateway detected a redirect loop"@),
                )
            } else {
                Ok(leader)
            },
        }
    }
}

impl Redirects {
    /// Nobody has been asked. A node without a gateway asks nobody.
    pub fn start(has_gateway: bool) -> (redirects: RunResult<Redirects>)
        ensures
            match redirects {
                Ok(r) => has_gateway && r@ == Seq::<u64>::empty(),
                Err(e) => !has_gateway && e@ == ChorusErrorView::Consensus(
                    "OpenRaft has no authenticated follower gateway"@,
                ),
            },
    {
        if !has_gateway {
            return Err(ChorusError::consensus("OpenRaft has no authenticated follower gateway"));
        }
        Ok(Redirects { visited: Vec::new() })
    }

    /// The node to ask next: never more than three, and none twice.
    pub fn next(&mut self, target: Option<u64>) -> (leader: RunResult<u64>)
        ensures
            match leader {
                Ok(l) => redirect(old(self)@, target) == Ok::<_, ChorusErrorView>(l)
                    && final(self)@ == old(self)@.push(l),
                Err(e) => redirect(old(self)@, target) == Err::<u64, _>(e@) && final(self)@
                    == old(self)@,
            },
    {
        if self.visited.len() >= MAX_GATEWAY_REDIRECTS {
            return Err(
                ChorusError::consensus("OpenRaft follower gateway exceeded its redirect limit"),
            );
        }
        match target {
            None => Err(
                ChorusError::consensus("OpenRaft follower does not know the current leader"),
            ),
            Some(leader) => {
                if has_id(self.visited.as_slice(), leader) {
                    return Err(
                        ChorusError::consensus(
                            "OpenRaft follower gateway detected a redirect loop",
                        ),
                    );
                }
                self.visited.push(leader);
                Ok(leader)
            },
        }
    }
}

/// A search for the leader asks no node twice, and ends after three.
pub proof fn redirects_end(visited: Seq<u64>, target: Option<u64>)
    requires
        visited.no_duplicates(),
        redirect(visited, target) is Ok,
    ensures
        visited.push(redirect(visited, target)->Ok_0).no_duplicates(),
        visited.push(redirect(visited, target)->Ok_0).len() <= 3,
{
    let l = redirect(visited, target)->Ok_0;
    let wider = visited.push(l);
    assert forall|i: int, j: int|
        0 <= i < wider.len() && 0 <= j < wider.len() && i != j implies wider[i] != wider[j] by {
        if i == visited.len() {
            assert(visited.contains(wider[j]));
        } else if j == visited.len() {
            assert(visited.contains(wider[i]));
        }
    }
}

/// The error of a leader that refuses what was forwarded to it.
pub fn forwarded_refusal(write: bool, reason: &str) -> (error: ChorusError)
    ensures
        error@ == ChorusErrorView::Consensus(
            (if write {
                "OpenRaft leader rejected forwarded write: "@
            } else {
                "OpenRaft leader rejected forwarded read barrier: "@
            }) + reason@,
        ),
{
    if write {
        ChorusError::Consensus(joined("OpenRaft leader rejected forwarded write: ", reason))
    } else {
        ChorusError::Consensus(joined("OpenRaft leader rejected forwarded read barrier: ", reason))
    }
}

/// Whether local state is at a confirmed read cursor or behind it in the log's
/// order.
pub open spec fn at_cursor(applied: LogId, cursor: LogId) -> bool {
    applied.index > cursor.index || (applied.index == cursor.index && applied.term == cursor.term)
}

/// Checks local state against the read cursor that a leader confirmed.
pub fn snapshot_after_read_cursor(applied: LogId, cursor: Option<LogId>) -> (result: RunResult<()>)
    ensures
        run_comes_out(
            match cursor {
                None => Ok(()),
                Some(c) => if at_cursor(applied, c) {
                    Ok(())
                } else {
                    Err(
                        ChorusErrorView::Consensus(
                            "local state does not match the confirmed OpenRaft read cursor"@,
                        ),
                    )
                },
            },
            result,
        ),
{
    if let Some(c) = cursor {
        if applied.index < c.index || (applied.index == c.index && applied.term != c.term) {
            return Err(
                ChorusError::consensus(
                    "local state does not match the confirmed OpenRaft read cursor",
                ),
            );
        }
    }
    Ok(())
}

/// Checks that local state has come as far as a position, in its term.
pub fn applied_at_least(applied: LogId, log_id: LogId) -> (result: RunResult<()>)
    ensures
        run_comes_out(
            if log_before(applied, log_id) {
                Err(
                    ChorusErrorView::Consensus(
                        "state machine applied index has an unexpected term"@,
                    ),
                )
            } else {
                Ok(())
            },
            result,
        ),
{
    if is_behind(applied, log_id) {
        return Err(
            ChorusError::consensus("state machine applied index has an unexpected term"),
        );
    }
    Ok(())
}

/// The position that a checkpoint has to reach, or none where nothing was
/// applied or a snapshot is there already.
pub fn checkpoint_target(applied: Option<LogId>, snapshot: Option<LogId>) -> (target: Option<LogId>)
    ensures
        target == match applied {
            None => None,
            Some(a) => match snapshot {
                Some(s) => if log_before(s, a) {
                    Some(a)
                } else {
                    None
                },
                None => Some(a),
            },
        },
{
    match applied {
        None => None,
        Some(a) => match snapshot {
            Some(s) => if is_behind(s, a) {
                Some(a)
            } else {
                None
            },
            None => Some(a),
        },
    }
}

/// What the runtime knows of its group. The commit index is the durable one,
/// and may be ahead of what is applied.
pub fn runtime_status(
    node_id: u64,
    leader_id: Option<u64>,
    term: u64,
    committed: Option<LogId>,
    applied: Option<LogId>,
    quorum: bool,
    voters: Vec<u64>,
    learners: Vec<u64>,
) -> (status: ConsensusStatus)
    ensures
        status.node_id == node_id,
        status.leader_id == leader_id,
        status.term == term,
        status.commit_index == match committed {
            Some(id) => id.index,
            None => 0,
        },
        status.applied_index == match applied {
            Some(id) => id.index,
            None => 0,
        },
        status.quorum == quorum,
        status.voters@ == voters@,
        status.learners@ == learners@,
{
    ConsensusStatus {
        node_id,
        leader_id,
        term,
        commit_index: durable_commit_index(committed),
        applied_index: match applied {
            Some(id) => id.index,
            None => 0,
        },
        quorum,
        voters,
        learners,
    }
}

/// What is known of a group whose runtime does not answer: only how far the
/// local state has come.
pub fn fallback_status(node_id: u64, applied: LogId) -> (status: ConsensusStatus)
    ensures
        status.node_id == node_id,
        status.leader_id is None,
        status.term == applied.term,
        status.commit_index == applied.index,
        status.applied_index == applied.index,
        !status.quorum,
        status.voters@ == seq![node_id],
        status.learners@ == Seq::<u64>::empty(),
{
    let mut voters: Vec<u64> = Vec::new();
    voters.push(node_id);
    ConsensusStatus {
        node_id,
        leader_id: None,
        term: applied.term,
        commit_index: applied.index,
        applied_index: applied.index,
        quorum: false,
        voters,
        learners: Vec::new(),
    }
}

/// How the server of peers came to its end without being stopped.
#[derive(Clone, Debug, PartialEq, Eq)]
pub enum ServerEnd {
    Stopped,
    /// It failed, for a reason that was reported as a text.
    Failed(String),
    /// What ran it failed.
    TaskFailed(String),
}

/// What is reported of a server that came to its end by itself.
pub fn server_end_text(end: &ServerEnd) -> (text: String)
    ensures
        text@ == match *end {
            ServerEnd::Stopped => "authenticated OpenRaft server stopped unexpectedly"@,
            ServerEnd::Failed(fault) => "authenticated OpenRaft server failed: "@ + fault@,
            ServerEnd::TaskFailed(fault) => "authenticated OpenRaft server task failed: "@ + fault@,
        },
{
    match end {
        ServerEnd::Stopped => owned("authenticated OpenRaft server stopped unexpectedly"),
        ServerEnd::Failed(fault) => joined(
            "authenticated OpenRaft server failed: ",
            fault.as_str(),
        ),
        ServerEnd::TaskFailed(fault) => joined(
            "authenticated OpenRaft server task failed: ",
            fault.as_str(),
        ),
    }
}

/// The refusal of a change of the state that does not go through the log.
pub fn direct_mutation_error() -> (error: ChorusError)
    ensures
        error@ == ChorusErrorView::Storage(
            "direct state mutation is forbidden; submit the command through OpenRaft"@,
        ),
{
    ChorusError::storage("direct state mutation is forbidden; submit the command through OpenRaft")
}

} // verus!
