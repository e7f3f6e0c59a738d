//! A proposal of the leader: prepared on a quorum before the local state
//! changes, and hidden again where it is not acknowledged.

use crate::error::{ChorusError, ChorusErrorView};
use crate::ids::LogId;
use crate::network::{next_index, reapply_pending, NetworkConsensus, PendingStep};
use crate::cluster::log_before;
use vstd::prelude::*;

verus! {

/// What a proposal wants done.
#[derive(Clone, Copy, Debug, PartialEq, Eq, Structural)]
pub enum ProposalAction {
    /// Apply the pending entry to the local state.
    ApplyPending(LogId),
    /// Replicate the pending entry to a quorum.
    ReplicatePending(LogId),
    /// Find out who leads and where the local state stands.
    Observe,
    /// Keep a copy of the local state and have an entry prepared on a quorum.
    Prepare(LogId),
    /// Remember the entry as pending and apply it to the local state.
    Apply(LogId),
    /// Replicate the entry to a quorum.
    Replicate(LogId),
    /// Bring the local state back to the copy; the entry stays pending.
    Rollback,
    /// The entry is acknowledged; nothing is pending any more.
    Acknowledge,
    /// Give up; whether an entry stays pending.
    Fail(bool),
}

/// What happened.
#[derive(Clone, Copy, Debug, PartialEq, Eq, Structural)]
pub enum ProposalEvent {
    /// What was asked for was done, or failed.
    Done(bool),
    /// This member leads, and the local state stands there.
    Leader(u64, LogId),
}

/// Where a proposal stands.
#[derive(Clone, Copy, Debug, PartialEq, Eq, Structural)]
pub enum ProposalPhase {
    ReapplyingPending,
    ReplicatingPending,
    Observing,
    Preparing,
    Applying,
    Replicating,
    RollingBack,
    Finished,
}

/// A proposal that is under way.
#[derive(Clone, Copy, Debug, PartialEq, Eq, Structural)]
pub struct Proposal {
    pub node_id: u64,
    pub term: u64,
    /// The position of the entry that the proposal is at.
    pub log_id: LogId,
    /// Whether the pending entry is what is proposed.
    pub same: bool,
    pub phase: ProposalPhase,
}

/// The position behind a state, in the higher of two terms.
pub open spec fn proposed_at(term: u64, last: LogId) -> LogId {
    LogId {
        term: if term > last.term {
            term
        } else {
            last.term
        },
        index: next_index(last.index),
    }
}

/// A proposal gives up.
pub open spec fn gives_up(p: Proposal, pending: bool) -> (Proposal, ProposalAction) {
    (Proposal { phase: ProposalPhase::Finished, ..p }, ProposalAction::Fail(pending))
}

/// How a proposal goes on after an event.
pub open spec fn proposal_step(p: Proposal, event: ProposalEvent) -> (Proposal, ProposalAction) {
    match (p.phase, event) {
        (ProposalPhase::ReapplyingPending, ProposalEvent::Done(true)) => (
            Proposal { phase: ProposalPhase::ReplicatingPending, ..p },
            ProposalAction::ReplicatePending(p.log_id),
        ),
        (ProposalPhase::ReapplyingPending, _) => gives_up(p, true),
        (ProposalPhase::ReplicatingPending, ProposalEvent::Done(true)) => if p.same {
            (Proposal { phase: ProposalPhase::Finished, ..p }, ProposalAction::Acknowledge)
        } else {
            (Proposal { phase: ProposalPhase::Observing, ..p }, ProposalAction::Observe)
        },
        (ProposalPhase::ReplicatingPending, _) => gives_up(p, true),
        (ProposalPhase::Observing, ProposalEvent::Leader(leader, last)) => if leader
            == p.node_id {
            (
                Proposal {
                    log_id: proposed_at(p.term, last),
                    phase: ProposalPhase::Preparing,
                    ..p
                },
                ProposalAction::Prepare(proposed_at(p.term, last)),
            )
        } else {
            gives_up(p, false)
        },
        (ProposalPhase::Observing, _) => gives_up(p, false),
        (ProposalPhase::Preparing, ProposalEvent::Done(true)) => (
            Proposal { phase: ProposalPhase::Applying, ..p },
            ProposalAction::Apply(p.log_id),
        ),
        (ProposalPhase::Preparing, _) => gives_up(p, false),
        (ProposalPhase::Applying, ProposalEvent::Done(true)) => (
            Proposal { phase: ProposalPhase::Replicating, ..p },
            ProposalAction::Replicate(p.log_id),
        ),
        (ProposalPhase::Applying, _) => gives_up(p, false),
        (ProposalPhase::Replicating, ProposalEvent::Done(true)) => (
            Proposal { phase: ProposalPhase::Finished, ..p },
            ProposalAction::Acknowledge,
        ),
        (ProposalPhase::Replicating, _) => (
            Proposal { phase: ProposalPhase::RollingBack, ..p },
            ProposalAction::Rollback,
        ),
        (ProposalPhase::RollingBack, _) => gives_up(p, true),
        (ProposalPhase::Finished, _) => gives_up(p, false),
    }
}

impl Proposal {
    /// Begins a proposal. An entry that is pending is finished first: `same`
    /// says whether it is what is proposed now.
    pub fn start(
        node: &NetworkConsensus,
        pending: Option<LogId>,
        same: bool,
        current: LogId,
    ) -> (begun: std::result::Result<(Proposal, ProposalAction), ChorusError>)
        ensures
            match pending {
                None => begun == Ok::<_, ChorusError>(
                    (
                        Proposal {
                            node_id: node.node_id,
                            term: node.term,
                            log_id: current,
                            same,
                            phase: ProposalPhase::Observing,
                        },
                        ProposalAction::Observe,
                    ),
                ),
                Some(id) => if log_before(current, id) {
                    begun == Ok::<_, ChorusError>(
                        (
                            Proposal {
                                node_id: node.node_id,
                                term: node.term,
                                log_id: id,
                                same,
                                phase: ProposalPhase::ReapplyingPending,
                            },
                            ProposalAction::ApplyPending(id),
                        ),
                    )
                } else if current.index > id.index {
                    begun is Err && begun->Err_0@ == ChorusErrorView::Consensus(
                        "pending proposal is behind the local state machine"@,
                    )
                } else {
                    begun == Ok::<_, ChorusError>(
                        (
                            Proposal {
                                node_id: node.node_id,
                                term: node.term,
                                log_id: id,
                                same,
                                phase: ProposalPhase::ReplicatingPending,
                            },
                            ProposalAction::ReplicatePending(id),
                        ),
                    )
                },
            },
    {
        match pending {
            None => Ok(
                (
                    Proposal {
                        node_id: node.node_id,
                        term: node.term,
                        log_id: current,
                        same,
                        phase: ProposalPhase::Observing,
                    },
                    ProposalAction::Observe,
                ),
            ),
            Some(id) => match reapply_pending(current, id) {
                Ok(PendingStep::Reapply) => Ok(
                    (
                        Proposal {
                            node_id: node.node_id,
                            term: node.term,
                            log_id: id,
                            same,
                            phase: ProposalPhase::ReapplyingPending,
                        },
                        ProposalAction::ApplyPending(id),
                    ),
                ),
                Ok(PendingStep::Replicate) => Ok(
                    (
                        Proposal {
                            node_id: node.node_id,
                            term: node.term,
                            log_id: id,
                            same,
                            phase: ProposalPhase::ReplicatingPending,
                        },
                        ProposalAction::ReplicatePending(id),
                    ),
                ),
                Err(e) => Err(e),
            },
        }
    }

    fn give_up(&mut self, pending: bool) -> (action: ProposalAction)
        ensures
            (*final(self), action) == gives_up(*old(self), pending),
    {
        self.phase = ProposalPhase::Finished;
        ProposalAction::Fail(pending)
    }

    /// Goes on after an event.
    pub fn step(&mut self, event: ProposalEvent) -> (action: ProposalAction)
        ensures
            (*final(self), action) == proposal_step(*old(self), event),
    {
        match (self.phase, event) {
            (ProposalPhase::ReapplyingPending, ProposalEvent::Done(true)) => {
                self.phase = ProposalPhase::ReplicatingPending;
                ProposalAction::ReplicatePending(self.log_id)
            },
            (ProposalPhase::ReapplyingPending, _) => self.give_up(true),
            (ProposalPhase::ReplicatingPending, ProposalEvent::Done(true)) => {
                if self.same {
                    self.phase = ProposalPhase::Finished;
                    ProposalAction::Acknowledge
                } else {
                    self.phase = ProposalPhase::Observing;
                    ProposalAction::Observe
                }
            },
            (ProposalPhase::ReplicatingPending, _) => self.give_up(true),
            (ProposalPhase::Observing, ProposalEvent::Leader(leader, last)) => {
                if leader == self.node_id {
                    self.log_id = LogId {
                        term: if self.term > last.term {
                            self.term
                        } else {
                            last.term
                        },
                        index: last.index.saturating_add(1),
                    };
                    self.phase = ProposalPhase::Preparing;
                    ProposalAction::Prepare(self.log_id)
                } else {
                    self.give_up(false)
                }
            },
            (ProposalPhase::Observing, _) => self.give_up(false),
            (ProposalPhase::Preparing, ProposalEvent::Done(true)) => {
                self.phase = ProposalPhase::Applying;
                ProposalAction::Apply(self.log_id)
            },
            (ProposalPhase::Preparing, _) => self.give_up(false),
            (ProposalPhase::Applying, ProposalEvent::Done(true)) => {
                self.phase = ProposalPhase::Replicating;
                ProposalAction::Replicate(self.log_id)
            },
            (ProposalPhase::Applying, _) => self.give_up(false),
            (ProposalPhase::Replicating, ProposalEvent::Done(true)) => {
                self.phase = ProposalPhase::Finished;
                ProposalAction::Acknowledge
            },
            (ProposalPhase::Replicating, _) => {
                self.phase = ProposalPhase::RollingBack;
                ProposalAction::Rollback
            },
            (ProposalPhase::RollingBack, _) => self.give_up(true),
            (ProposalPhase::Finished, _) => self.give_up(false),
        }
    }
}

/// The local state takes a new entry only after a quorum prepared it.
pub proof fn applies_follow_a_prepared_quorum(p: Proposal, event: ProposalEvent)
    requires
        proposal_step(p, event).1 is Apply,
    ensures
        p.phase == ProposalPhase::Preparing,
        event == ProposalEvent::Done(true),
        proposal_step(p, event).1 == ProposalAction::Apply(p.log_id),
{
}

/// An entry is acknowledged only after it was replicated to a quorum.
pub proof fn acknowledgements_follow_a_quorum(p: Proposal, event: ProposalEvent)
    requires
        proposal_step(p, event).1 == ProposalAction::Acknowledge,
    ensures
        event == ProposalEvent::Done(true),
        p.phase == ProposalPhase::Replicating || (p.phase == ProposalPhase::ReplicatingPending
            && p.same),
{
}

/// A proposal that was applied locally and did not reach a quorum is rolled
/// back before it fails, and stays pending.
pub proof fn failed_replication_is_rolled_back(p: Proposal, event: ProposalEvent)
    requires
        p.phase == ProposalPhase::Replicating,
        event != ProposalEvent::Done(true),
    ensures
        proposal_step(p, event).1 == ProposalAction::Rollback,
        forall|next: ProposalEvent|
            (#[trigger] proposal_step(proposal_step(p, event).0, next)).1 == ProposalAction::Fail(
                true,
            ),
{
}

/// Refuses to replicate an entry whose local result is not known.
pub fn require_local_result(known: bool) -> (result: std::result::Result<(), ChorusError>)
    ensures
        match result {
            Ok(()) => known,
            Err(e) => !known && e@ == ChorusErrorView::Consensus(
                "leader apply result is missing"@,
            ),
        },
{
    if !known {
        return Err(ChorusError::consensus("leader apply result is missing"));
    }
    Ok(())
}

} // verus!
