//! How a node comes to serve: the steps of each mode in their order, what the
//! replication runtime is given, and what comes of activating the gateway.

use crate::address::{read_address, SocketAddress};
use crate::config::{Config, InitialNode};
use crate::error::optional_text;
use crate::node_map::{node_value, nodes_ascend, NodeMap};
use crate::node_plan::ServingMode;
use crate::runtime::OpenRaftRuntimeOptions;
use crate::text::owned;
use vstd::prelude::*;
use vstd::string::*;

verus! {

/// One step on the way to serving.
#[derive(Clone, Copy, Debug, PartialEq, Eq, Structural)]
pub enum RunStep {
    /// Read the identity that peers are shown.
    ReadIdentity,
    /// Check that every node of the configuration votes.
    CheckVoters,
    /// Open the store, which checks the installation's identity.
    OpenStore,
    /// Check that the store holds no state of another kind of consensus.
    CheckLegacyState,
    /// Check the files of the replicated log and state.
    CheckTargets,
    /// Check that a cluster was started in the store.
    CheckBootstrapped,
    /// Open consensus.
    OpenConsensus,
    /// Take the files of the log and the state away from other users.
    HardenFiles,
    /// Activate the gateway that SQL is committed through.
    Activate,
}

/// What is done before a node serves, in order.
pub open spec fn steps_to_serve(mode: ServingMode) -> Seq<RunStep> {
    match mode {
        ServingMode::OpenRaftAuthenticated => seq![
            RunStep::ReadIdentity,
            RunStep::CheckVoters,
            RunStep::OpenStore,
            RunStep::CheckLegacyState,
            RunStep::CheckTargets,
            RunStep::OpenConsensus,
            RunStep::HardenFiles,
            RunStep::Activate,
        ],
        ServingMode::OpenRaftSingleNode => seq![
            RunStep::OpenStore,
            RunStep::CheckLegacyState,
            RunStep::CheckTargets,
            RunStep::OpenConsensus,
            RunStep::HardenFiles,
            RunStep::Activate,
        ],
        _ => seq![
            RunStep::OpenStore,
            RunStep::CheckBootstrapped,
            RunStep::OpenConsensus,
            RunStep::Activate,
        ],
    }
}

/// Lists what is done before a node serves.
pub fn run_steps(mode: ServingMode) -> (steps: Vec<RunStep>)
    ensures
        steps@ == steps_to_serve(mode),
{
    let mut steps: Vec<RunStep> = Vec::new();
    match mode {
        ServingMode::OpenRaftAuthenticated => {
            steps.push(RunStep::ReadIdentity);
            steps.push(RunStep::CheckVoters);
            steps.push(RunStep::OpenStore);
            steps.push(RunStep::CheckLegacyState);
            steps.push(RunStep::CheckTargets);
            steps.push(RunStep::OpenConsensus);
            steps.push(RunStep::HardenFiles);
            steps.push(RunStep::Activate);
        },
        ServingMode::OpenRaftSingleNode => {
            steps.push(RunStep::OpenStore);
            steps.push(RunStep::CheckLegacyState);
            steps.push(RunStep::CheckTargets);
            steps.push(RunStep::OpenConsensus);
            steps.push(RunStep::HardenFiles);
            steps.push(RunStep::Activate);
        },
        _ => {
            steps.push(RunStep::OpenStore);
            steps.push(RunStep::CheckBootstrapped);
            steps.push(RunStep::OpenConsensus);
            steps.push(RunStep::Activate);
        },
    }
    assert(steps@ =~= steps_to_serve(mode));
    steps
}

/// Whether SQL can be committed at once.
#[derive(Clone, Copy, Debug, PartialEq, Eq, Structural)]
pub enum Activation {
    Active,
    /// Once this node, or a node that it reaches, leads.
    Pending,
}

/// What comes of activating the gateway. A member of an authenticated group
/// that cannot yet waits for a leader; any other node does not serve.
pub fn settle_activation(mode: ServingMode, fault: Option<String>) -> (result: Result<
    Activation,
    String,
>)
    ensures
        match result {
            Ok(Activation::Active) => fault is None,
            Ok(Activation::Pending) => fault is Some && mode
                == ServingMode::OpenRaftAuthenticated,
            Err(text) => optional_text(fault) == Some(text@) && mode
                != ServingMode::OpenRaftAuthenticated,
        },
{
    match fault {
        None => Ok(Activation::Active),
        Some(text) => match mode {
            ServingMode::OpenRaftAuthenticated => Ok(Activation::Pending),
            _ => Err(text),
        },
    }
}

/// What the replication runtime of an authenticated group is given.
pub fn runtime_options(config: &Config) -> (result: Result<OpenRaftRuntimeOptions, String>)
    ensures
        match read_address(config.raft.listen@) {
            None => result matches Err(text) && text@ == "raft.listen is not a socket address"@,
            Some(address) => result == Ok::<_, String>(
                OpenRaftRuntimeOptions {
                    listen_port: address.port,
                    heartbeat_ms: config.raft.heartbeat_ms,
                    election_timeout_min_ms: config.raft.election_timeout_min_ms,
                    election_timeout_max_ms: config.raft.election_timeout_max_ms,
                    snapshot_entries: config.raft.snapshot_entries,
                },
            ),
        },
{
    match SocketAddress::parse(config.raft.listen.as_str()) {
        None => Err(owned("raft.listen is not a socket address")),
        Some(address) => Ok(
            OpenRaftRuntimeOptions {
                listen_port: address.port,
                heartbeat_ms: config.raft.heartbeat_ms,
                election_timeout_min_ms: config.raft.election_timeout_min_ms,
                election_timeout_max_ms: config.raft.election_timeout_max_ms,
                snapshot_entries: config.raft.snapshot_entries,
            },
        ),
    }
}

/// The endpoint that the first `n` nodes of a list give a node: that of the
/// last of them with its number.
pub open spec fn endpoint_of(nodes: Seq<InitialNode>, n: int, id: u64) -> Option<Seq<char>>
    decreases n,
{
    if n <= 0 {
        None
    } else if nodes[n - 1].node_id == id {
        Some(nodes[n - 1].endpoint@)
    } else {
        endpoint_of(nodes, n - 1, id)
    }
}

/// The endpoints of the configured nodes, by node.
#[verifier::loop_isolation(false)]
pub fn node_endpoints(config: &Config) -> (endpoints: NodeMap<String>)
    ensures
        nodes_ascend(endpoints@),
        forall|id: u64|
            optional_text(#[trigger] node_value(endpoints@, id)) == endpoint_of(
                config.initial_nodes@,
                config.initial_nodes@.len() as int,
                id,
            ),
{
    let mut endpoints: NodeMap<String> = NodeMap::new();
    let mut i: usize = 0;
    while i < config.initial_nodes.len()
        invariant
            i <= config.initial_nodes@.len(),
            nodes_ascend(endpoints@),
            forall|id: u64|
                optional_text(#[trigger] node_value(endpoints@, id)) == endpoint_of(
                    config.initial_nodes@,
                    i as int,
                    id,
                ),
        decreases config.initial_nodes@.len() - i,
    {
        let node = &config.initial_nodes[i];
        endpoints.insert(node.node_id, owned(node.endpoint.as_str()));
        i += 1;
    }
    endpoints
}

// ---------------------------------------------------------------------------
// Laws
// ---------------------------------------------------------------------------

/// Whatever the mode, the installation's identity and the state that is found
/// are checked before consensus is opened, and SQL is committed last.
pub proof fn consensus_opens_on_checked_state(mode: ServingMode, i: int)
    requires
        0 <= i < steps_to_serve(mode).len(),
        steps_to_serve(mode)[i] == RunStep::OpenConsensus,
    ensures
        steps_to_serve(mode).last() == RunStep::Activate,
        steps_to_serve(mode).take(i).contains(RunStep::OpenStore),
        steps_to_serve(mode).take(i).contains(RunStep::CheckLegacyState) || steps_to_serve(
            mode,
        ).take(i).contains(RunStep::CheckBootstrapped),
        mode == ServingMode::OpenRaftAuthenticated ==> steps_to_serve(mode).take(i).contains(
            RunStep::ReadIdentity,
        ),
{
    let before = steps_to_serve(mode).take(i);
    match mode {
        ServingMode::OpenRaftAuthenticated => {
            assert(before[0] == RunStep::ReadIdentity);
            assert(before[2] == RunStep::OpenStore);
            assert(before[3] == RunStep::CheckLegacyState);
        },
        ServingMode::OpenRaftSingleNode => {
            assert(before[0] == RunStep::OpenStore);
            assert(before[1] == RunStep::CheckLegacyState);
        },
        _ => {
            assert(before[0] == RunStep::OpenStore);
            assert(before[1] == RunStep::CheckBootstrapped);
        },
    }
}

} // verus!
