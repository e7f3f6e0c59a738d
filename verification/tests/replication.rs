//! The cluster in memory, the durable log and its replay, the network adapter
//! and the runtime around it.

use chorus::appending::{AppendAction as Step, AppendEvent};
use chorus::cluster::{AppendAction, InMemoryCluster, StandaloneConsensus};
use chorus::command::{ApplyResult, ReplicatedCommandV1};
use chorus::error::ChorusError;
use chorus::forwarding::{ForwardAction, ForwardEvent, Forwarding};
use chorus::ids::{LogId, OriginId, RequestId};
use chorus::membership::{
    apply_bounded_membership_change, membership_step_failed, membership_steps,
    verify_uniform_membership, ChangeMembershipIntent, CurrentMembers, MembershipPlan,
    MembershipStep,
};
use chorus::mutation::{canonical_mutations, payload_hash, KvMutationV1};
use chorus::network::{
    accept_leader_snapshot, authorize, barrier_reached, bootstrapped, change_membership,
    membership_changed, needs_sync, observe, peer_frame, peer_frame_len, read_allowed,
    round_result, round_targets, HeldState, NetworkConsensus,
    Observation, PeerAnswer, PeerIdentity, PeerQuestion, PeerStatus, QuorumRound, RoundAction, RoundEvent,
    RoundKind, Route,
};
use chorus::node_map::NodeMap;
use chorus::proposal::{Proposal, ProposalAction, ProposalEvent};
use chorus::raft_log::{
    entry, replace_uncommitted_suffix, Capability, ConsensusLogEntry, HardState, ReadinessReport,
};
use chorus::reading::{ReadAction, ReadEvent};
use chorus::replication::{Replication, ReplicationAction, ReplicationEvent, ReplicationGoal};
use chorus::replay::{Replay, ReplayAction, ReplayEvent, ReplayProgress, StateMark};
use chorus::runtime::{
    applied_at_least, authenticated_config, checkpoint_target, direct_mutation_error,
    durable_commit_index, fallback_status, server_end_text, single_node_config,
    snapshot_after_read_cursor, ServerEnd,
    startup_decision, waits_for_own_leadership, DurableState, OpenRaftRuntimeOptions, Redirects,
    RuntimeOperation,
};
use chorus::runtime_machine::{
    Runtime, RuntimeAction, RuntimeAnswer, RuntimeEvent, RuntimeRequest,
};
use std::collections::BTreeMap;

/// A store that can be told to fail.
struct Store {
    kv: BTreeMap<Vec<u8>, Vec<u8>>,
    last_applied: LogId,
    fail: bool,
}

impl Store {
    fn new() -> Self {
        Store { kv: BTreeMap::new(), last_applied: LogId::zero(), fail: false }
    }

    fn apply(&mut self, log_id: LogId, mutation: Option<&KvMutationV1>) -> Result<(), ()> {
        if self.fail {
            return Err(());
        }
        if let Some(KvMutationV1::Put { key, value }) = mutation {
            self.kv.insert(key.clone(), value.clone());
        }
        self.last_applied = log_id;
        Ok(())
    }
}

/// Replicates one change the way the cluster decides.
fn submit(
    cluster: &mut InMemoryCluster,
    stores: &mut [Store],
    node_id: u64,
    mutation: Option<&KvMutationV1>,
) -> Result<LogId, ChorusError> {
    cluster.local_store_if_healthy(node_id)?;
    let before: Vec<_> =
        stores.iter().map(|store| (store.kv.clone(), store.last_applied)).collect();
    let mut append = cluster.append()?;
    let log_id = append.log_id;
    loop {
        match append.next() {
            AppendAction::Apply(id) => {
                let at = id as usize - 1;
                if stores[at].apply(log_id, mutation).is_err() {
                    for node in cluster.abort(append) {
                        let back = node as usize - 1;
                        stores[back].kv = before[back].0.clone();
                        stores[back].last_applied = before[back].1;
                    }
                    return Err(ChorusError::Storage("injected apply failure".into()));
                }
                append.applied_one();
            }
            AppendAction::Done => return Ok(log_id),
        }
    }
}

fn put(key: &[u8], value: &[u8]) -> KvMutationV1 {
    KvMutationV1::Put { key: key.to_vec(), value: value.to_vec() }
}

#[test]
fn three_node_quorum_rejects_minority_and_replicates() {
    let mut stores = vec![Store::new(), Store::new(), Store::new()];
    let mut cluster = InMemoryCluster::new(&[1, 2, 3], &[0, 0, 0]);
    let origin = OriginId::new(2);
    submit(&mut cluster, &mut stores, 2, None).unwrap();
    let id = RequestId::new(origin, 1);
    let mutation = put(b"k", b"v");
    let canonical = canonical_mutations(std::slice::from_ref(&mutation)).unwrap();
    assert_eq!(payload_hash(1, &id, 0, &canonical).len(), 32);
    assert_eq!(
        submit(&mut cluster, &mut stores, 2, Some(&mutation)).unwrap(),
        LogId { term: 1, index: 2 }
    );
    assert_eq!(stores[0].kv.get(&b"k"[..]).map(Vec::as_slice), Some(&b"v"[..]));
    assert_eq!(stores[1].kv.get(&b"k"[..]).map(Vec::as_slice), Some(&b"v"[..]));
    assert_eq!(stores[2].kv.get(&b"k"[..]).map(Vec::as_slice), Some(&b"v"[..]));
    cluster.set_healthy(1, false);
    cluster.set_healthy(3, false);
    assert!(cluster.read_barrier(2).is_err());
    assert_eq!(cluster.leader(), None);
    cluster.set_healthy(3, true);
    assert_eq!(cluster.leader(), Some(2));
    assert!(cluster.read_barrier(2).is_ok());
}

#[test]
fn failed_replication_does_not_ack_or_leave_a_local_state_leak() {
    let mut stores = vec![Store::new(), Store::new(), Store::new()];
    let mut cluster = InMemoryCluster::new(&[1, 2, 3], &[0, 0, 0]);
    submit(&mut cluster, &mut stores, 1, None).unwrap();
    stores[1].fail = true;

    assert!(submit(&mut cluster, &mut stores, 1, Some(&put(b"quorum-leak", b"must-not-leak")))
        .is_err());
    for store in &stores {
        assert!(store.kv.get(&b"quorum-leak"[..]).is_none());
    }
    assert_eq!(stores[0].kv, stores[2].kv);
    assert_eq!(stores[0].last_applied, stores[2].last_applied);
}

#[test]
fn isolated_node_cannot_read_or_commit_using_the_majority_adapter() {
    let mut stores = vec![Store::new(), Store::new(), Store::new()];
    let mut cluster = InMemoryCluster::new(&[1, 2, 3], &[0, 0, 0]);
    submit(&mut cluster, &mut stores, 1, None).unwrap();

    cluster.set_healthy(1, false);
    assert!(matches!(cluster.read_barrier(1), Err(ChorusError::Consensus(_))));
    assert!(matches!(
        submit(&mut cluster, &mut stores, 1, Some(&put(b"minority-key", b"value"))),
        Err(ChorusError::Consensus(_))
    ));

    for store in &stores {
        assert!(store.kv.get(&b"minority-key"[..]).is_none());
    }
}

#[test]
fn durable_commit_index_is_not_fabricated_from_applied_index() {
    let committed = Some(LogId { term: 7, index: 9 });
    let applied_index = 3;

    let commit_index = durable_commit_index(committed);
    assert_eq!(9, commit_index);
    assert!(commit_index > applied_index);
    assert_eq!(0, durable_commit_index(None));
}

#[test]
fn empty_group_requires_explicit_initialization() {
    let empty = DurableState { state_initialized: false, committed: false, log_nonempty: false };
    let error = startup_decision(false, empty, false).unwrap_err();
    assert!(error.contains("explicit initialization"));

    startup_decision(true, empty, false).unwrap();
    assert!(waits_for_own_leadership(true, false));
}

const CLUSTER: [u8; 16] = [0x42; 16];
const INCARNATION: u64 = 9;

fn noop(term: u64, index: u64) -> ConsensusLogEntry {
    entry(CLUSTER, INCARNATION, term, index, ReplicatedCommandV1::Noop)
}

/// A log in memory that keeps the rules of the library.
struct Log {
    state: HardState,
    entries: Vec<ConsensusLogEntry>,
}

impl Log {
    fn open(cluster_id: [u8; 16], cluster_incarnation: u64) -> Self {
        Log {
            state: HardState {
                cluster_id,
                cluster_incarnation,
                current_term: 0,
                voted_for: None,
                commit_index: 0,
                last_applied: LogId::zero(),
                purged_through: LogId::zero(),
            },
            entries: Vec::new(),
        }
    }

    fn save_vote(&mut self, term: u64, node: Option<u64>) {
        self.state.current_term = term;
        self.state.voted_for = node;
    }

    fn committed_range(&self, from: u64, to: u64) -> Vec<ConsensusLogEntry> {
        self.entries
            .iter()
            .filter(|item| {
                item.log_id.index >= from
                    && item.log_id.index <= to
                    && item.log_id.index <= self.state.commit_index
            })
            .cloned()
            .collect()
    }

    fn replace_uncommitted_suffix(
        &mut self,
        from: u64,
        items: &[ConsensusLogEntry],
    ) -> Result<(), ChorusError> {
        let before = self.entries.iter().find(|item| item.log_id.index + 1 == from);
        replace_uncommitted_suffix(&self.state, from, before.map(|item| item.log_id.term), items)?;
        self.entries.retain(|item| item.log_id.index < from);
        self.entries.extend_from_slice(items);
        Ok(())
    }
}

#[test]
fn term_vote_commit_reopen_and_replay_committed_entries() {
    let mut log = Log::open(CLUSTER, INCARNATION);
    log.save_vote(3, Some(7));
    log.entries = vec![noop(3, 1), noop(3, 2), noop(3, 3)];
    log.state.commit_index = 2;
    let report = ReadinessReport::for_log(&log.state, true);
    assert!(report.durable_primitives_ready());
    assert!(!report.release_ready());
    assert!(matches!(report.openraft_runtime, Capability::Blocked(_)));

    assert_eq!(log.state.current_term, 3);
    assert_eq!(log.state.voted_for, Some(7));
    assert_eq!(log.state.commit_index, 2);
    assert_eq!(log.committed_range(1, u64::MAX), vec![noop(3, 1), noop(3, 2)]);
    assert_eq!(log.committed_range(1, 3), vec![noop(3, 1), noop(3, 2)]);
}

#[test]
fn replace_uncommitted_suffix_and_reject_committed_truncation() {
    let mut log = Log::open(CLUSTER, INCARNATION);
    log.save_vote(1, Some(7));
    log.entries = vec![noop(1, 1), noop(1, 2), noop(1, 3), noop(1, 4)];
    log.state.commit_index = 2;

    log.replace_uncommitted_suffix(4, &[noop(1, 4), noop(1, 5)]).unwrap();
    assert_eq!(log.entries.last().unwrap().log_id, LogId { term: 1, index: 5 });
    assert_eq!(log.entries[2..], [noop(1, 3), noop(1, 4), noop(1, 5)]);
    assert!(log.replace_uncommitted_suffix(2, &[noop(1, 2)]).is_err());
    assert!(log.replace_uncommitted_suffix(2, &[]).is_err());
    assert_eq!(log.entries.len(), 5);
    match log.replace_uncommitted_suffix(7, &[noop(1, 7)]) {
        Err(ChorusError::Storage(text)) => {
            assert_eq!(text, "replacement predecessor is missing from durable log");
        }
        other => panic!("unexpected {other:?}"),
    }
    for (items, text) in [
        (vec![noop(1, 5)], "replacement suffix does not start at from_index"),
        (vec![noop(1, 4), noop(1, 6)], "replacement suffix contains a gap"),
        (vec![noop(2, 4)], "replacement entry term is not covered by hard state"),
    ] {
        match log.replace_uncommitted_suffix(4, &items) {
            Err(ChorusError::Protocol(found)) => assert_eq!(found, text),
            other => panic!("unexpected {other:?}"),
        }
    }
    log.replace_uncommitted_suffix(4, &[]).unwrap();
    assert_eq!(log.entries.len(), 3);
}

const REPLAY_CLUSTER: [u8; 16] = [0x51; 16];
const REPLAY_INCARNATION: u64 = 12;

/// A state machine that counts what is applied to it and can fail once.
struct Counted {
    last_applied: LogId,
    membership: Option<(LogId, Vec<u64>, Vec<u64>)>,
    fail_once_at: Option<u64>,
    attempts: Vec<LogId>,
    successes: Vec<LogId>,
}

impl Counted {
    fn new(fail_once_at: Option<u64>) -> Self {
        Counted {
            last_applied: LogId::zero(),
            membership: None,
            fail_once_at,
            attempts: Vec::new(),
            successes: Vec::new(),
        }
    }

    fn apply(&mut self, log_id: LogId, command: &ReplicatedCommandV1) -> Result<(), ChorusError> {
        self.attempts.push(log_id);
        if self.fail_once_at == Some(log_id.index) {
            self.fail_once_at = None;
            return Err(ChorusError::Storage(format!(
                "injected apply failure at index {}",
                log_id.index
            )));
        }
        if let ReplicatedCommandV1::Membership { voters, learners } = command {
            self.membership = Some((log_id, voters.clone(), learners.clone()));
        }
        self.last_applied = log_id;
        self.successes.push(log_id);
        Ok(())
    }

    fn mark(&self) -> StateMark {
        StateMark {
            healthy: true,
            cluster_id: REPLAY_CLUSTER,
            cluster_incarnation: REPLAY_INCARNATION,
            last_applied: self.last_applied,
        }
    }

    fn attempts_at(&self, index: u64) -> usize {
        self.attempts.iter().filter(|id| id.index == index).count()
    }

    fn successes_at(&self, index: u64) -> usize {
        self.successes.iter().filter(|id| id.index == index).count()
    }
}

fn replay(log: &mut Log, state: &mut Counted) -> Result<ReplayProgress, ChorusError> {
    let (mut replay, mut action) = Replay::start(log.state, state.mark())?;
    loop {
        let event = match action {
            ReplayAction::Done(progress) => return Ok(progress),
            ReplayAction::Read(from, to) => ReplayEvent::Read(
                log.committed_range(from, to).iter().map(|item| item.log_id).collect(),
            ),
            ReplayAction::Mark(cursor) => {
                log.state.last_applied = cursor;
                ReplayEvent::Marked(log.state)
            }
            ReplayAction::Apply(log_id) => {
                let item = log.entries.iter().find(|item| item.log_id == log_id).unwrap();
                state.apply(log_id, &item.command)?;
                ReplayEvent::Applied(state.mark())
            }
        };
        action = replay.step(event)?;
    }
}

#[test]
fn reconciles_apply_before_hard_marker_without_duplicate_apply() {
    let membership =
        ReplicatedCommandV1::Membership { voters: vec![1, 2, 3], learners: vec![4] };
    let first = entry(REPLAY_CLUSTER, REPLAY_INCARNATION, 1, 1, membership.clone());
    let second = entry(REPLAY_CLUSTER, REPLAY_INCARNATION, 1, 2, ReplicatedCommandV1::Noop);
    let mut log = Log::open(REPLAY_CLUSTER, REPLAY_INCARNATION);
    log.save_vote(1, Some(1));
    log.entries = vec![first.clone(), second];
    log.state.commit_index = 2;

    let mut counted = Counted::new(None);
    counted.apply(first.log_id, &membership).unwrap();
    assert_eq!(log.state.last_applied, LogId::zero());
    assert_eq!(
        replay(&mut log, &mut counted).unwrap(),
        ReplayProgress { reconciled_hard_cursor: true, entries_applied: 1 }
    );
    assert_eq!(counted.successes_at(1), 1);
    assert_eq!(counted.attempts_at(1), 1);
    assert_eq!(counted.successes_at(2), 1);
    assert_eq!(counted.last_applied.index, 2);
    assert_eq!(log.state.last_applied.index, 2);
    let stored = counted.membership.unwrap();
    assert_eq!(stored.0, first.log_id);
    assert_eq!(stored.1, vec![1, 2, 3]);
    assert_eq!(stored.2, vec![4]);
}

#[test]
fn apply_failure_leaves_marker_and_retry_resumes_once() {
    let mut log = Log::open(REPLAY_CLUSTER, REPLAY_INCARNATION);
    log.save_vote(1, Some(1));
    log.entries = vec![
        entry(REPLAY_CLUSTER, REPLAY_INCARNATION, 1, 1, ReplicatedCommandV1::Noop),
        entry(REPLAY_CLUSTER, REPLAY_INCARNATION, 1, 2, ReplicatedCommandV1::Noop),
    ];
    log.state.commit_index = 2;

    let mut counted = Counted::new(Some(2));
    assert!(matches!(
        replay(&mut log, &mut counted),
        Err(ChorusError::Storage(message)) if message.contains("injected apply failure")
    ));
    assert_eq!(counted.last_applied.index, 1);
    assert_eq!(log.state.last_applied.index, 1);
    assert_eq!(counted.successes_at(1), 1);
    assert_eq!(counted.attempts_at(2), 1);

    assert_eq!(
        replay(&mut log, &mut counted).unwrap(),
        ReplayProgress { reconciled_hard_cursor: false, entries_applied: 1 }
    );
    assert_eq!(counted.last_applied.index, 2);
    assert_eq!(log.state.last_applied.index, 2);
    assert_eq!(counted.successes_at(2), 1);
    assert_eq!(counted.attempts_at(2), 2);
}

#[test]
fn replays_refuse_foreign_unhealthy_and_inconsistent_states() {
    let mut log = Log::open(REPLAY_CLUSTER, REPLAY_INCARNATION);
    log.state.commit_index = 2;
    let mut foreign = Counted::new(None).mark();
    foreign.cluster_incarnation = 1;
    assert!(matches!(Replay::start(log.state, foreign), Err(ChorusError::Protocol(_))));
    let mut sick = Counted::new(None).mark();
    sick.healthy = false;
    assert!(matches!(Replay::start(log.state, sick), Err(ChorusError::Storage(_))));
    let mut ahead = Counted::new(None).mark();
    ahead.last_applied = LogId { term: 1, index: 3 };
    assert!(matches!(Replay::start(log.state, ahead), Err(ChorusError::Protocol(_))));
}

#[test]
fn a_standalone_node_serves_only_as_leader() {
    let mut node = StandaloneConsensus::new(5);
    assert!(node.read_barrier().is_ok());
    assert_eq!(
        node.submit(LogId { term: 1, index: 4 }).unwrap(),
        LogId { term: 1, index: 5 }
    );
    node.set_quorum(false);
    assert!(node.read_barrier().is_err());
    assert!(node.submit(LogId::zero()).is_err());
    assert!(!node.status(LogId::zero()).quorum);
}

fn network(node_id: u64) -> NetworkConsensus {
    let mut endpoints = NodeMap::new();
    for id in 1..=3u64 {
        endpoints.insert(id, format!("127.0.0.1:{}", 19_500 + id));
    }
    NetworkConsensus::new_with_identity(
        node_id,
        vec![1, 2, 3],
        Vec::new(),
        endpoints,
        [6; 16],
        2,
    )
}

#[test]
fn peer_frames_read_back() {
    let frame = peer_frame(b"{\"a\":1}").unwrap();
    let header: [u8; 4] = frame[..4].try_into().unwrap();
    assert_eq!(peer_frame_len(&header).unwrap(), frame.len() - 4);
    assert_eq!(&frame[4..], b"{\"a\":1}");
    assert!(peer_frame_len(&[255; 4]).is_err());
}

#[test]
fn peers_answer_only_members_of_their_cluster() {
    let node = network(1);
    let who = PeerIdentity { from: 2, cluster_id: [6; 16], cluster_incarnation: 2 };
    assert!(node.validate_request(&who).is_ok());
    let stranger = PeerIdentity { from: 9, cluster_id: [6; 16], cluster_incarnation: 2 };
    assert!(node.validate_request(&stranger).is_err());
    let foreign = PeerIdentity { from: 2, cluster_id: [7; 16], cluster_incarnation: 2 };
    assert!(node.validate_request(&foreign).is_err());
    let current = LogId { term: 1, index: 3 };
    let answer = node
        .answer(&who, PeerQuestion::Prepare { log_id: LogId { term: 1, index: 6 } }, true, current)
        .unwrap();
    assert!(matches!(answer, PeerAnswer::NeedCatchUp { .. }));
    assert!(authorize(2, &ReplicatedCommandV1::Noop).is_ok());
}

#[test]
fn the_leader_is_the_most_advanced_voter_of_a_majority() {
    let at = |node_id, index, healthy| PeerStatus {
        node_id,
        last_applied: LogId { term: 1, index },
        healthy,
    };
    let seen = [at(1, 4, true), at(2, 6, true), at(3, 6, true)];
    let (leader, applied) = observe(&[1, 2, 3], &[], &seen).unwrap();
    assert_eq!(applied.index, 6);
    assert_eq!(leader, 2);
    assert!(observe(&[1, 2, 3], &[], &seen[..1]).is_err());
    let ill = [at(2, 9, false), at(3, 5, true)];
    let observed = network(1).observe(vec![1, 2, 3], Vec::new(), at(1, 4, true), &ill).unwrap();
    assert_eq!((observed.leader, observed.log_id.index), (3, 5));
    assert_eq!(observed.statuses, [at(1, 4, true), at(3, 5, true)]);
    let alone = network(1).observe(vec![1, 2, 3], Vec::new(), at(1, 4, true), &ill[..1]);
    assert!(matches!(&alone, Err(ChorusError::Consensus(text)) if text == "no majority is reachable"));
    match network(1).barrier_local(Ok(observed)) {
        Err(ChorusError::Consensus(text)) => assert_eq!(text, "not the quorum leader"),
        other => panic!("unexpected {other:?}"),
    }
    assert_eq!(round_targets(&[1, 2, 3], &seen).len(), 3);
    let node = network(1);
    assert!(matches!(node.route(1).unwrap(), Route::Local));
    assert!(matches!(node.route(2).unwrap(), Route::Forward(_)));
}

#[test]
fn rounds_end_with_a_majority_or_without() {
    let targets = round_targets(
        &[2, 3],
        &[PeerStatus { node_id: 2, last_applied: LogId::zero(), healthy: true }],
    );
    let (mut round, mut action) = QuorumRound::start(
        RoundKind::Prepare,
        LogId { term: 1, index: 1 },
        1,
        vec![1, 2, 3],
        targets,
    );
    let mut asked = Vec::new();
    let reached = loop {
        match action {
            RoundAction::Ask(node) => {
                asked.push(node);
                action = round.step(if node == 2 { RoundEvent::Accepted } else { RoundEvent::Refused });
            }
            RoundAction::Install(_) => action = round.step(RoundEvent::Installed(false)),
            RoundAction::Finish(reached) => break reached,
        }
    };
    assert!(reached);
    assert!(asked.contains(&2));
    assert!(round_result(RoundKind::Apply, false).is_err());
}

#[test]
fn a_proposal_is_prepared_applied_and_replicated() {
    let node = network(1);
    let current = LogId { term: 1, index: 4 };
    let (mut proposal, mut action) = Proposal::start(&node, None, false, current).unwrap();
    let mut seen = Vec::new();
    loop {
        seen.push(action);
        let event = match action {
            ProposalAction::Observe => ProposalEvent::Leader(1, current),
            ProposalAction::Prepare(_)
            | ProposalAction::Apply(_)
            | ProposalAction::Replicate(_)
            | ProposalAction::ApplyPending(_)
            | ProposalAction::ReplicatePending(_)
            | ProposalAction::Rollback => ProposalEvent::Done(true),
            ProposalAction::Acknowledge | ProposalAction::Fail(_) => break,
        };
        action = proposal.step(event);
    }
    let next = LogId { term: 1, index: 5 };
    assert_eq!(
        seen,
        vec![
            ProposalAction::Observe,
            ProposalAction::Prepare(next),
            ProposalAction::Apply(next),
            ProposalAction::Replicate(next),
            ProposalAction::Acknowledge,
        ]
    );
}

#[test]
fn a_proposal_that_is_not_replicated_is_rolled_back() {
    let node = network(1);
    let current = LogId { term: 1, index: 4 };
    let (mut proposal, mut action) = Proposal::start(&node, None, false, current).unwrap();
    let mut rolled_back = false;
    loop {
        let event = match action {
            ProposalAction::Observe => ProposalEvent::Leader(1, current),
            ProposalAction::Replicate(_) => ProposalEvent::Done(false),
            ProposalAction::Rollback => {
                rolled_back = true;
                ProposalEvent::Done(true)
            }
            ProposalAction::Acknowledge => panic!("acknowledged without a quorum"),
            ProposalAction::Fail(_) => break,
            _ => ProposalEvent::Done(true),
        };
        action = proposal.step(event);
    }
    assert!(rolled_back);
}

#[test]
fn reads_wait_for_what_they_need() {
    assert!(read_allowed(false).is_ok());
    assert!(read_allowed(true).is_err());
    let early = LogId { term: 1, index: 1 };
    let late = LogId { term: 1, index: 2 };
    assert!(needs_sync(early, late));
    assert!(!needs_sync(late, late));
    assert!(barrier_reached(early, late).is_err());
    assert!(accept_leader_snapshot(early, late).is_err());
    assert_eq!(
        change_membership(vec![3, 1, 2, 3], vec![5, 4]).unwrap(),
        ReplicatedCommandV1::Membership { voters: vec![1, 2, 3], learners: vec![4, 5] }
    );
    assert!(change_membership(vec![1, 2], vec![2]).is_err());
    assert!(change_membership(vec![0], vec![]).is_err());
}

#[test]
fn only_the_first_voter_bootstraps_and_only_an_empty_state() {
    let empty = HeldState {
        last_applied: LogId::zero(),
        db_epoch: 0,
        entries: 0,
        origins: 0,
        tables: 0,
    };
    assert!(empty.is_empty());
    let command = network(1).bootstrap(vec![1, 2, 3], vec![4], empty).unwrap();
    assert_eq!(
        command,
        ReplicatedCommandV1::Membership { voters: vec![1, 2, 3], learners: vec![4] }
    );
    let refused = |node: u64, voters: Vec<u64>, held: HeldState| {
        network(node).bootstrap(voters, Vec::new(), held).unwrap_err()
    };
    assert!(matches!(refused(1, vec![], empty),
        ChorusError::Consensus(text) if text == "bootstrap voter set is empty"));
    assert!(matches!(refused(2, vec![1, 2, 3], empty),
        ChorusError::Consensus(text) if text == "only the lowest initial voter may bootstrap"));
    for held in [
        HeldState { last_applied: LogId { term: 0, index: 1 }, ..empty },
        HeldState { last_applied: LogId { term: 1, index: 0 }, ..empty },
        HeldState { db_epoch: 1, ..empty },
        HeldState { entries: 1, ..empty },
        HeldState { origins: 1, ..empty },
        HeldState { tables: 1, ..empty },
    ] {
        assert!(!held.is_empty());
        assert!(matches!(refused(1, vec![1, 2, 3], held),
            ChorusError::Protocol(text) if text == "cannot bootstrap a non-empty durable state"));
    }
}

#[test]
fn members_are_settled_by_an_empty_result_alone() {
    assert!(bootstrapped(Ok(ApplyResult::Noop)).is_ok());
    assert!(membership_changed(Ok(ApplyResult::Noop)).is_ok());
    for other in [
        || ApplyResult::Activated,
        || ApplyResult::StaleOrigin,
        || ApplyResult::Duplicate(Box::new(ApplyResult::Noop)),
        || ApplyResult::Rejected("no".into()),
    ] {
        assert!(matches!(bootstrapped(Ok(other())).unwrap_err(), ChorusError::Protocol(text)
            if text == "membership bootstrap returned an unexpected result"));
        assert!(matches!(membership_changed(Ok(other())).unwrap_err(), ChorusError::Consensus(text)
            if text == "membership change was not applied"));
    }
    let lost = || Err(ChorusError::Storage("gone".into()));
    assert!(matches!(bootstrapped(lost()).unwrap_err(), ChorusError::Storage(t) if t == "gone"));
    assert!(matches!(membership_changed(lost()).unwrap_err(),
        ChorusError::Storage(t) if t == "gone"));
}

#[test]
fn the_end_of_a_server_is_reported() {
    assert_eq!(
        server_end_text(&ServerEnd::Stopped),
        "authenticated OpenRaft server stopped unexpectedly"
    );
    assert_eq!(
        server_end_text(&ServerEnd::Failed("x".into())),
        "authenticated OpenRaft server failed: x"
    );
    assert_eq!(
        server_end_text(&ServerEnd::TaskFailed("y".into())),
        "authenticated OpenRaft server task failed: y"
    );
}

#[test]
fn membership_changes_are_planned_one_node_at_a_time() {
    let current = || CurrentMembers {
        voters: vec![1, 2, 3],
        learners: vec![],
        node_id: 1,
        leader: Some(1),
        configurations: 1,
    };
    let mut authorized = NodeMap::new();
    for id in 1..=4u64 {
        authorized.insert(id, format!("https://127.0.0.1:{}", 7000 + id));
    }
    let plan = apply_bounded_membership_change(
        &current(),
        &[1, 2, 3],
        &[4],
        &authorized,
        Some(ChangeMembershipIntent::AddLearner { node_id: 4 }),
    )
    .unwrap();
    assert_eq!(plan, MembershipPlan::AddLearner(4));
    assert!(apply_bounded_membership_change(
        &current(),
        &[1, 2, 3],
        &[5],
        &authorized,
        Some(ChangeMembershipIntent::AddLearner { node_id: 5 }),
    )
    .is_err());
    assert!(verify_uniform_membership(&current(), &[1, 2, 3], &[]).is_ok());
    assert!(verify_uniform_membership(&current(), &[1, 2, 3], &[4]).is_err());
}

#[test]
fn the_runtime_keeps_its_bounds() {
    let options = OpenRaftRuntimeOptions {
        listen_port: 7001,
        heartbeat_ms: 250,
        election_timeout_min_ms: 1200,
        election_timeout_max_ms: 2400,
        snapshot_entries: 50_000,
    };
    let settings = authenticated_config(&options).unwrap();
    assert_eq!(settings.heartbeat_interval, 250);
    assert_eq!(settings.snapshot_after, 50_000);
    assert_eq!(settings.entries_kept, 10_000);
    let alone = single_node_config().unwrap();
    assert_eq!(alone.cluster_name, "chorus-single-node");
    assert!(alone.election_timeout_min < alone.election_timeout_max);
    let mut narrow = options;
    narrow.election_timeout_max_ms = narrow.election_timeout_min_ms;
    assert_eq!(
        authenticated_config(&narrow).unwrap_err(),
        format!(
            "invalid authenticated OpenRaft configuration: election timeout: min({0}) must be < \
             max({0})",
            narrow.election_timeout_min_ms
        )
    );
    let mut slow = options;
    slow.heartbeat_ms = slow.election_timeout_min_ms;
    assert_eq!(
        authenticated_config(&slow).unwrap_err(),
        format!(
            "invalid authenticated OpenRaft configuration: election_timeout_min({0}) must be > \
             heartbeat_interval({0})",
            slow.heartbeat_ms
        )
    );
    let mut redirects = Redirects::start(true).unwrap();
    assert_eq!(redirects.next(Some(2)).unwrap(), 2);
    assert!(redirects.next(Some(2)).is_err());
    assert!(Redirects::start(false).is_err());
    let low = LogId { term: 1, index: 1 };
    let high = LogId { term: 1, index: 2 };
    assert!(snapshot_after_read_cursor(low, Some(high)).is_err());
    assert!(applied_at_least(high, low).is_ok());
    assert!(applied_at_least(low, high).is_err());
    assert_eq!(checkpoint_target(Some(high), Some(high)), None);
    assert_eq!(checkpoint_target(Some(high), Some(low)), Some(high));
    assert!(!fallback_status(1, low).quorum);
    assert!(matches!(direct_mutation_error(), ChorusError::Storage(_)));
}

/// Takes a runtime through its start, each step of which is done.
fn start_runtime(authenticated: bool, initialize: bool) -> (Runtime, Vec<String>) {
    let (mut runtime, mut action) = Runtime::start(authenticated, initialize, false, "0.0.0.0:7001");
    let mut seen = Vec::new();
    loop {
        seen.push(format!("{action:?}"));
        if matches!(action, RuntimeAction::AwaitRequest) {
            return (runtime, seen);
        }
        assert!(seen.len() < 32);
        action = runtime.step(RuntimeEvent::Done(false));
    }
}

#[test]
fn runtime_starts_in_order() {
    let (_, alone) = start_runtime(false, true);
    assert_eq!(
        alone,
        [
            "ReadCommitted",
            "ReadLogState",
            "Configure",
            "OpenNode",
            "Initialize",
            "AwaitLeadership",
            "ReportStarted",
            "AwaitRequest",
        ]
    );
    let (_, member) = start_runtime(true, false);
    assert_eq!(
        member,
        [
            "ReadCommitted",
            "ReadLogState",
            "Bind",
            "Configure",
            "ConnectPeers",
            "OpenNode",
            "MakeService",
            "ReadServerTls",
            "ConfigureServer",
            "StartServer",
            "ReportStarted",
            "AwaitRequest",
        ]
    );
}

#[test]
fn runtime_refuses_state_that_it_may_not_start_on() {
    let (mut runtime, _) = Runtime::start(false, false, false, "");
    runtime.step(RuntimeEvent::Done(false));
    match runtime.step(RuntimeEvent::Done(true)) {
        RuntimeAction::ReportFailed { text, stop_server, shut_down_node } => {
            assert_eq!(
                text,
                "OpenRaft log is nonempty without committed membership; recovery is required"
            );
            assert!(!stop_server && !shut_down_node);
        }
        other => panic!("unexpected {other:?}"),
    }
    assert!(matches!(runtime.step(RuntimeEvent::Done(true)), RuntimeAction::Finish));
}

#[test]
fn failed_start_stops_what_runs() {
    let (mut runtime, mut action) = Runtime::start(true, true, false, "0.0.0.0:7001");
    while !matches!(action, RuntimeAction::Initialize) {
        action = runtime.step(RuntimeEvent::Done(false));
    }
    match runtime.step(RuntimeEvent::TimedOut) {
        RuntimeAction::ReportFailed { text, stop_server, shut_down_node } => {
            assert_eq!(text, "OpenRaft initialization timed out");
            assert!(stop_server && shut_down_node);
        }
        other => panic!("unexpected {other:?}"),
    }
    let (mut runtime, mut action) = Runtime::start(true, false, false, "0.0.0.0:7001");
    while !matches!(action, RuntimeAction::Bind) {
        action = runtime.step(RuntimeEvent::Done(false));
    }
    match runtime.step(RuntimeEvent::Failed("in use".to_string())) {
        RuntimeAction::ReportFailed { text, stop_server, shut_down_node } => {
            assert_eq!(
                text,
                "could not bind authenticated OpenRaft listener 0.0.0.0:7001: in use"
            );
            assert!(!stop_server && !shut_down_node);
        }
        other => panic!("unexpected {other:?}"),
    }
}

#[test]
fn runtime_answers_requests_and_ends_in_order() {
    let (mut runtime, _) = start_runtime(true, false);
    let action = runtime.step(RuntimeEvent::Request(RuntimeRequest::Status));
    assert!(matches!(action, RuntimeAction::Perform(RuntimeOperation::ReadBarrier)));
    let action = runtime.step(RuntimeEvent::TimedOut);
    assert!(matches!(action, RuntimeAction::Perform(RuntimeOperation::StatusRead)));
    assert!(matches!(
        runtime.step(RuntimeEvent::Done(true)),
        RuntimeAction::Answer(RuntimeAnswer::Status { quorum: false })
    ));
    assert!(matches!(runtime.step(RuntimeEvent::Done(true)), RuntimeAction::AwaitRequest));
    runtime.step(RuntimeEvent::Request(RuntimeRequest::Write));
    match runtime.step(RuntimeEvent::TimedOut) {
        RuntimeAction::Answer(RuntimeAnswer::Failed(ChorusError::Consensus(text))) => {
            assert_eq!(text, "OpenRaft write timed out");
        }
        other => panic!("unexpected {other:?}"),
    }
    runtime.step(RuntimeEvent::Done(true));
    let wanted = LogId { term: 2, index: 4 };
    for (term, done) in [(2, true), (1, false)] {
        runtime.step(RuntimeEvent::Request(RuntimeRequest::WaitApplied(wanted)));
        let action = runtime.step(RuntimeEvent::Applied(LogId { term, index: 4 }));
        assert_eq!(matches!(action, RuntimeAction::Answer(RuntimeAnswer::Done)), done);
        runtime.step(RuntimeEvent::Done(true));
    }
    let action = runtime.step(RuntimeEvent::Request(RuntimeRequest::Shutdown));
    assert!(matches!(action, RuntimeAction::Perform(RuntimeOperation::ShutdownCheckpoint)));
    assert!(matches!(runtime.step(RuntimeEvent::TimedOut), RuntimeAction::StopServer));
    assert!(matches!(runtime.step(RuntimeEvent::Done(true)), RuntimeAction::ShutDownNode));
    assert!(matches!(
        runtime.step(RuntimeEvent::Done(true)),
        RuntimeAction::Answer(RuntimeAnswer::Done)
    ));
    assert!(matches!(runtime.step(RuntimeEvent::Done(true)), RuntimeAction::Finish));
}

#[test]
fn forwarded_requests_wait_for_the_local_state() {
    let confirmed = LogId { term: 2, index: 9 };
    let behind = LogId { term: 2, index: 8 };
    for (applied, done) in [(confirmed, true), (behind, false)] {
        let (mut request, action) = Forwarding::start(true, true);
        assert!(matches!(action, ForwardAction::Local));
        let action = request.step(ForwardEvent::NotLeader { named: None, known: Some(2) });
        assert!(matches!(action, ForwardAction::Ask(2)));
        let action = request.step(ForwardEvent::Redirected(Some(3)));
        assert!(matches!(action, ForwardAction::Ask(3)));
        let action = request.step(ForwardEvent::Accepted(Some(confirmed)));
        assert!(matches!(action, ForwardAction::ReadState));
        let action = request.step(ForwardEvent::Applied(applied));
        assert_eq!(matches!(action, ForwardAction::Done), done);
    }
    let (mut request, _) = Forwarding::start(true, true);
    assert!(matches!(request.step(ForwardEvent::Accepted(None)), ForwardAction::Done));
}

#[test]
fn forwarding_asks_no_node_twice() {
    let local = || ForwardEvent::NotLeader { named: Some(2), known: Some(3) };
    let (mut request, _) = Forwarding::start(false, true);
    assert!(matches!(request.step(local()), ForwardAction::Ask(2)));
    assert!(matches!(request.step(ForwardEvent::Redirected(Some(2))), ForwardAction::Fail(_)));
    let (mut request, _) = Forwarding::start(false, false);
    match request.step(local()) {
        ForwardAction::Fail(ChorusError::Consensus(text)) => {
            assert_eq!(text, "OpenRaft has no authenticated follower gateway");
        }
        other => panic!("unexpected {other:?}"),
    }
    let (mut request, _) = Forwarding::start(false, true);
    request.step(local());
    match request.step(ForwardEvent::Refused("busy".to_string())) {
        ForwardAction::Fail(ChorusError::Consensus(text)) => {
            assert_eq!(text, "OpenRaft leader rejected forwarded read barrier: busy");
        }
        other => panic!("unexpected {other:?}"),
    }
}

#[test]
fn membership_changes_go_in_steps() {
    let replace = MembershipPlan::ReplaceVoter(4, 3);
    assert_eq!(
        membership_steps(replace),
        [MembershipStep::CatchUp(4), MembershipStep::ChangeVoters, MembershipStep::Verify]
    );
    assert_eq!(membership_steps(MembershipPlan::Nothing), []);
    assert_eq!(
        membership_steps(MembershipPlan::RemoveLearner(5)),
        [MembershipStep::Remove(5), MembershipStep::Verify]
    );
    let failed = |plan, step| match membership_step_failed(plan, step, "late") {
        ChorusError::Consensus(text) => text,
        other => panic!("unexpected {other:?}"),
    };
    assert_eq!(
        failed(replace, MembershipStep::CatchUp(4)),
        "OpenRaft replacement learner catch-up failed: late"
    );
    assert_eq!(
        failed(MembershipPlan::RetryLearner(5), MembershipStep::CatchUp(5)),
        "OpenRaft learner 5 catch-up retry failed: late"
    );
    assert_eq!(
        failed(MembershipPlan::RemoveLearner(5), MembershipStep::Remove(5)),
        "OpenRaft learner 5 removal failed: late"
    );
}

#[test]
fn reads_wait_for_the_barrier() {
    let node = network(1);
    assert!(node.read_barrier(true).is_err());
    let at = |index| LogId { term: 1, index };
    let (mut read, action) = node.read_barrier(false).unwrap();
    assert!(matches!(action, ReadAction::Observe));
    match read.step(&node, ReadEvent::Observed { leader: 2, log_id: at(5) }) {
        ReadAction::AskBarrier(endpoint) => assert_eq!(endpoint, "127.0.0.1:19502"),
        other => panic!("unexpected {other:?}"),
    }
    let step = |read: &mut chorus::reading::Reading, event| read.step(&node, event);
    assert!(matches!(step(&mut read, ReadEvent::Barrier(at(5))), ReadAction::ReadLocal));
    assert!(matches!(step(&mut read, ReadEvent::Stands(at(3))), ReadAction::FetchSnapshot));
    assert!(matches!(step(&mut read, ReadEvent::Snapshot(at(6))), ReadAction::ReadLocal));
    assert!(matches!(step(&mut read, ReadEvent::Stands(at(3))), ReadAction::Install));
    assert!(matches!(step(&mut read, ReadEvent::Installed), ReadAction::ReadLocal));
    assert!(matches!(step(&mut read, ReadEvent::Stands(at(6))), ReadAction::Serve));
    assert!(matches!(step(&mut read, ReadEvent::Stands(at(6))), ReadAction::Fail(_)));

    let (mut read, _) = node.read_barrier(false).unwrap();
    step(&mut read, ReadEvent::Observed { leader: 1, log_id: at(5) });
    assert!(matches!(step(&mut read, ReadEvent::Stands(at(5))), ReadAction::Serve));

    let (mut read, _) = node.read_barrier(false).unwrap();
    step(&mut read, ReadEvent::Observed { leader: 1, log_id: at(5) });
    assert!(matches!(step(&mut read, ReadEvent::Stands(at(4))), ReadAction::ReadLocal));
    match step(&mut read, ReadEvent::Stands(at(4))) {
        ReadAction::Fail(ChorusError::Consensus(text)) => {
            assert_eq!(text, "local state did not catch up to read barrier");
        }
        other => panic!("unexpected {other:?}"),
    }
}

#[test]
fn reads_fail_on_what_the_leader_must_not_answer() {
    let node = network(1);
    let at = |index| LogId { term: 1, index };
    let begin = || {
        let (mut read, _) = node.read_barrier(false).unwrap();
        read.step(&node, ReadEvent::Observed { leader: 2, log_id: at(5) });
        read
    };
    let text = |action| match action {
        ReadAction::Fail(ChorusError::Consensus(text)) => text,
        ReadAction::Fail(ChorusError::Protocol(text)) => text,
        other => panic!("unexpected {other:?}"),
    };
    let answered = ReadEvent::Answered("busy".to_string());
    assert_eq!(text(begin().step(&node, answered)), "busy");
    assert_eq!(text(begin().step(&node, ReadEvent::Strange)), "invalid read barrier response");
    let mut read = begin();
    read.step(&node, ReadEvent::Barrier(at(5)));
    read.step(&node, ReadEvent::Stands(at(3)));
    assert_eq!(text(read.step(&node, ReadEvent::Strange)), "invalid snapshot response");
    let mut read = begin();
    read.step(&node, ReadEvent::Barrier(at(5)));
    read.step(&node, ReadEvent::Stands(at(3)));
    read.step(&node, ReadEvent::Snapshot(at(2)));
    assert_eq!(
        text(read.step(&node, ReadEvent::Stands(at(3)))),
        "leader snapshot is older than local state"
    );
    let (mut read, _) = node.read_barrier(false).unwrap();
    let strange = ReadEvent::Observed { leader: 9, log_id: at(5) };
    assert_eq!(text(read.step(&node, strange)), "leader endpoint is missing");
}

#[test]
fn proposals_go_to_the_leader() {
    let node = network(1);
    let noop = ReplicatedCommandV1::Noop;
    assert!(matches!(node.append_from(2, &noop, Ok(1)), Ok(Route::Local)));
    match node.append_from(2, &noop, Ok(3)) {
        Ok(Route::Forward(endpoint)) => assert_eq!(endpoint, "127.0.0.1:19503"),
        other => panic!("unexpected {other:?}"),
    }
    assert!(node.append_from(2, &noop, Ok(9)).is_err());
    let unknown = Err(ChorusError::Consensus("no leader is reachable".to_string()));
    assert!(node.append_from(2, &noop, unknown).is_err());
}

/// What node 1 of three sees when `leader` leads and all stand at an index.
fn seen(leader: u64, index: u64) -> Observation {
    let status = |node_id| PeerStatus {
        node_id,
        last_applied: LogId { term: 1, index },
        healthy: true,
    };
    Observation {
        voters: vec![1, 2, 3],
        learners: Vec::new(),
        statuses: vec![status(1), status(2), status(3)],
        leader,
        log_id: LogId { term: 1, index },
    }
}

fn fault(error: ChorusError) -> String {
    match error {
        ChorusError::Consensus(text) => text,
        other => panic!("unexpected {other:?}"),
    }
}

#[test]
fn entries_are_acknowledged_after_two_rounds() {
    let node = network(1);
    let id = LogId { term: 1, index: 5 };
    let (mut r, action) = Replication::start(ReplicationGoal::Acknowledge, id, true);
    assert!(matches!(action, ReplicationAction::Observe));
    let observed = |leader| ReplicationEvent::Observed(seen(leader, 4));
    let accepted = || ReplicationEvent::Answered(RoundEvent::Accepted);
    let refused = || ReplicationEvent::Answered(RoundEvent::Refused);
    assert!(matches!(r.step(&node, observed(1)), ReplicationAction::Observe));
    assert!(matches!(r.step(&node, observed(1)), ReplicationAction::AskPrepare(2)));
    assert!(matches!(r.step(&node, refused()), ReplicationAction::AskPrepare(3)));
    assert!(matches!(r.step(&node, accepted()), ReplicationAction::AskApply(2)));
    assert!(matches!(r.step(&node, accepted()), ReplicationAction::AskApply(3)));
    assert!(matches!(r.step(&node, refused()), ReplicationAction::Acknowledge));

    let (mut r, _) = Replication::start(ReplicationGoal::Prepare, id, false);
    r.step(&node, observed(1));
    r.step(&node, accepted());
    assert!(matches!(r.step(&node, refused()), ReplicationAction::Prepared));
}

#[test]
fn replications_fail_without_a_majority_or_the_lead() {
    let node = network(1);
    let id = LogId { term: 1, index: 5 };
    let observed = |leader| ReplicationEvent::Observed(seen(leader, 4));
    let accepted = || ReplicationEvent::Answered(RoundEvent::Accepted);
    let refused = || ReplicationEvent::Answered(RoundEvent::Refused);
    let text = |known: bool, events: Vec<ReplicationEvent>| {
        let (mut r, _) = Replication::start(ReplicationGoal::Acknowledge, id, known);
        let mut last = String::new();
        for event in events {
            if let ReplicationAction::Fail(error) = r.step(&node, event) {
                last = fault(error);
            }
        }
        last
    };
    assert_eq!(text(true, vec![observed(2)]), "leadership changed during replication");
    assert_eq!(text(true, vec![observed(1), observed(2)]), "not the quorum leader");
    assert_eq!(
        text(true, vec![observed(1), observed(1), refused(), refused()]),
        "proposal was not durably prepared on a quorum"
    );
    assert_eq!(
        text(false, vec![observed(1), observed(1), accepted(), accepted()]),
        "leader apply result is missing"
    );
    assert_eq!(
        text(
            true,
            vec![observed(1), observed(1), accepted(), accepted(), refused(), refused()]
        ),
        "replication quorum failed after local apply"
    );
}

/// Appends a command; the members in `well` accept what they are asked.
fn append(pending: Option<(LogId, bool)>, same: bool, well: &[u64]) -> (Vec<String>, Step) {
    let node = network(1);
    let current = LogId { term: 1, index: 4 };
    let (mut append, mut action) = node.append_as_leader(pending, same, current).unwrap();
    let mut steps = Vec::new();
    loop {
        steps.push(format!("{action:?}"));
        assert!(steps.len() < 40);
        let event = match &action {
            Step::Observe { .. } => AppendEvent::Observed { seen: seen(1, 4), last: current },
            Step::Install(_) => AppendEvent::Answered(RoundEvent::Installed(true)),
            Step::AskPrepare(id) | Step::AskApply(id) => {
                AppendEvent::Answered(if well.contains(id) {
                    RoundEvent::Accepted
                } else {
                    RoundEvent::Refused
                })
            }
            Step::ApplyPending(_) | Step::Apply(_) | Step::Rollback => AppendEvent::Done,
            Step::Acknowledge | Step::Fail { .. } => return (steps, action),
        };
        action = append.step(&node, event);
    }
}

#[test]
fn commands_are_appended_by_the_leader() {
    let (steps, last) = append(None, false, &[2]);
    assert!(matches!(last, Step::Acknowledge));
    let at = |text: &str| steps.iter().position(|step| step.starts_with(text)).unwrap();
    assert!(at("AskPrepare") < at("Apply(") && at("Apply(") < at("AskApply"));

    let (steps, last) = append(None, false, &[]);
    match last {
        Step::Fail { error, pending } => {
            assert_eq!(fault(error), "proposal was not durably prepared on a quorum");
            assert!(!pending);
        }
        other => panic!("unexpected {other:?}"),
    }
    assert!(!steps.iter().any(|step| step.starts_with("Apply(")));
}

#[test]
fn pending_entries_are_finished_first() {
    let pending = LogId { term: 1, index: 5 };
    let (steps, last) = append(Some((pending, true)), false, &[2, 3]);
    assert!(matches!(last, Step::Acknowledge));
    assert!(steps[0].starts_with("ApplyPending"));
    assert!(steps.iter().any(|step| step == "Observe { cleared: true }"));
    let (steps, last) = append(Some((pending, true)), true, &[2, 3]);
    assert!(matches!(last, Step::Acknowledge));
    assert!(!steps.iter().any(|step| step == "Observe { cleared: true }"));
    let behind = LogId { term: 1, index: 3 };
    let refused = network(1).append_as_leader(
        Some((behind, true)),
        false,
        LogId { term: 1, index: 4 },
    );
    assert_eq!(fault(refused.err().unwrap()), "pending proposal is behind the local state machine");
}

#[test]
fn proposals_end_where_another_leads() {
    let node = network(1);
    let current = LogId { term: 1, index: 4 };
    let (mut append, _) = node.append_as_leader(None, false, current).unwrap();
    match append.step(&node, AppendEvent::Observed { seen: seen(2, 4), last: current }) {
        Step::Fail { error, pending } => {
            assert_eq!(fault(error), "leadership changed during proposal");
            assert!(!pending);
        }
        other => panic!("unexpected {other:?}"),
    }
}
