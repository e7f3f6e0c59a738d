//! Appending a command as the leader: the proposal decides, and every entry
//! that it wants prepared or replicated goes through the rounds of a
//! replication.

use crate::cluster::log_before;
use crate::error::{ChorusError, ChorusErrorView};
use crate::ids::LogId;
use crate::network::{NetworkConsensus, Observation, ObservationView, RoundEvent, RoundKind};
use crate::proposal::{proposal_step, Proposal, ProposalAction, ProposalEvent, ProposalPhase};
use crate::replication::{
    acknowledgements_follow_two_rounds, majority_accepted, observation_fits,
    preparations_follow_a_round, replication_next, replication_sound, replications_stay_sound,
    round_runs, Replication, ReplicationAction, ReplicationActionView, ReplicationEvent,
    ReplicationEventView, ReplicationGoal, ReplicationPhase, ReplicationView,
};
use vstd::prelude::*;
use vstd::string::*;

verus! {

/// What appending a command asks for next.
#[derive(Clone, Debug)]
pub enum AppendAction {
    /// Apply the pending entry to the local state.
    ApplyPending(LogId),
    /// Find out who leads and where the local state stands. `cleared` says that
    /// the pending entry was acknowledged and is pending no more.
    Observe { cleared: bool },
    /// Install a snapshot of the local state on a member.
    Install(u64),
    /// Ask a member to prepare the entry.
    AskPrepare(u64),
    /// Ask a member to apply the entry.
    AskApply(u64),
    /// Remember the entry as pending, keep a copy of the local state, and apply
    /// the entry to it.
    Apply(LogId),
    /// Bring the local state back to the copy; the entry stays pending.
    Rollback,
    /// The command is acknowledged; nothing is pending any more.
    Acknowledge,
    /// Give up; whether an entry stays pending.
    Fail { error: ChorusError, pending: bool },
}

/// What happened.
#[derive(Clone, Debug)]
pub enum AppendEvent {
    /// What was asked of the local state was done.
    Done,
    /// What the node sees of its group, and where the local state stands.
    Observed { seen: Observation, last: LogId },
    /// What a member answered.
    Answered(RoundEvent),
    Failed(ChorusError),
}

/// A command that is being appended.
pub struct Append {
    proposal: Proposal,
    result_known: bool,
    replication: Option<Replication>,
    fault: Option<ChorusError>,
}

/// What an [`Append`] holds.
#[verifier::ext_equal]
pub struct AppendView {
    pub proposal: Proposal,
    /// Whether the result of the pending entry is known.
    pub result_known: bool,
    /// The replication that is under way.
    pub replication: Option<ReplicationView>,
    /// The first thing that went wrong.
    pub fault: Option<ChorusErrorView>,
}

impl View for Append {
    type V = AppendView;

    closed spec fn view(&self) -> AppendView {
        AppendView {
            proposal: self.proposal,
            result_known: self.result_known,
            replication: match self.replication {
                Some(r) => Some(r@),
                None => None,
            },
            fault: match self.fault {
                Some(e) => Some(e@),
                None => None,
            },
        }
    }
}

/// What an [`AppendAction`] says.
pub enum AppendActionView {
    ApplyPending(LogId),
    Observe { cleared: bool },
    Install(u64),
    AskPrepare(u64),
    AskApply(u64),
    Apply(LogId),
    Rollback,
    Acknowledge,
    Fail { error: ChorusErrorView, pending: bool },
}

impl View for AppendAction {
    type V = AppendActionView;

    open spec fn view(&self) -> AppendActionView {
        match self {
            AppendAction::ApplyPending(id) => AppendActionView::ApplyPending(*id),
            AppendAction::Observe { cleared } => AppendActionView::Observe { cleared: *cleared },
            AppendAction::Install(id) => AppendActionView::Install(*id),
            AppendAction::AskPrepare(id) => AppendActionView::AskPrepare(*id),
            AppendAction::AskApply(id) => AppendActionView::AskApply(*id),
            AppendAction::Apply(id) => AppendActionView::Apply(*id),
            AppendAction::Rollback => AppendActionView::Rollback,
            AppendAction::Acknowledge => AppendActionView::Acknowledge,
            AppendAction::Fail { error, pending } => AppendActionView::Fail {
                error: error@,
                pending: *pending,
            },
        }
    }
}

/// What an [`AppendEvent`] says.
pub enum AppendEventView {
    Done,
    Observed { seen: ObservationView, last: LogId },
    Answered(RoundEvent),
    Failed(ChorusErrorView),
}

impl View for AppendEvent {
    type V = AppendEventView;

    open spec fn view(&self) -> AppendEventView {
        match self {
            AppendEvent::Done => AppendEventView::Done,
            AppendEvent::Observed { seen, last } => AppendEventView::Observed {
                seen: seen@,
                last: *last,
            },
            AppendEvent::Answered(answer) => AppendEventView::Answered(*answer),
            AppendEvent::Failed(e) => AppendEventView::Failed(e@),
        }
    }
}

// ---------------------------------------------------------------------------
// The steps
// ---------------------------------------------------------------------------

/// What comes next: what is held, and what is asked for.
pub type AppendTurn = (AppendView, AppendActionView);

/// The error of an answer to something that was not asked.
pub open spec fn unexpected() -> ChorusErrorView {
    ChorusErrorView::Consensus("unexpected answer"@)
}

/// A replication that has not begun.
pub open spec fn fresh_replication(
    goal: ReplicationGoal,
    log_id: LogId,
    result_known: bool,
) -> ReplicationView {
    ReplicationView {
        goal,
        log_id,
        result_known,
        electorate: None,
        prepared: None,
        round: None,
        phase: if goal == ReplicationGoal::Prepare {
            ReplicationPhase::ObservingAgain
        } else {
            ReplicationPhase::Observing
        },
    }
}

/// What the proposal's next wish leads to, where `fault` is what went wrong.
pub open spec fn append_turn(
    a: AppendView,
    turn: (Proposal, ProposalAction),
    fault: Option<ChorusErrorView>,
) -> AppendTurn {
    let b = AppendView {
        proposal: turn.0,
        replication: None,
        fault: if a.fault is Some {
            a.fault
        } else {
            fault
        },
        ..a
    };
    match turn.1 {
        ProposalAction::ApplyPending(id) => (b, AppendActionView::ApplyPending(id)),
        ProposalAction::ReplicatePending(id) => (
            AppendView {
                replication: Some(
                    fresh_replication(ReplicationGoal::Acknowledge, id, a.result_known),
                ),
                ..b
            },
            AppendActionView::Observe { cleared: false },
        ),
        ProposalAction::Observe => (
            b,
            AppendActionView::Observe {
                cleared: a.proposal.phase == ProposalPhase::ReplicatingPending,
            },
        ),
        ProposalAction::Prepare(id) => (
            AppendView {
                replication: Some(fresh_replication(ReplicationGoal::Prepare, id, false)),
                ..b
            },
            AppendActionView::Observe { cleared: false },
        ),
        ProposalAction::Apply(id) => (b, AppendActionView::Apply(id)),
        ProposalAction::Replicate(id) => (
            AppendView {
                replication: Some(fresh_replication(ReplicationGoal::Acknowledge, id, true)),
                ..b
            },
            AppendActionView::Observe { cleared: false },
        ),
        ProposalAction::Rollback => (b, AppendActionView::Rollback),
        ProposalAction::Acknowledge => (b, AppendActionView::Acknowledge),
        ProposalAction::Fail(pending) => (
            AppendView { fault: None, ..b },
            AppendActionView::Fail {
                error: match b.fault {
                    Some(e) => e,
                    None => unexpected(),
                },
                pending,
            },
        ),
    }
}

/// What an event is to a replication.
pub open spec fn for_replication(event: AppendEventView) -> ReplicationEventView {
    match event {
        AppendEventView::Done => ReplicationEventView::Failed(unexpected()),
        AppendEventView::Observed { seen, .. } => ReplicationEventView::Observed(seen),
        AppendEventView::Answered(answer) => ReplicationEventView::Answered(answer),
        AppendEventView::Failed(e) => ReplicationEventView::Failed(e),
    }
}

/// What comes of a turn of the replication that is under way.
pub open spec fn after_replicating(
    a: AppendView,
    r: ReplicationView,
    action: ReplicationActionView,
) -> AppendTurn {
    let b = AppendView { replication: Some(r), ..a };
    match action {
        ReplicationActionView::Observe => (b, AppendActionView::Observe { cleared: false }),
        ReplicationActionView::Install(id) => (b, AppendActionView::Install(id)),
        ReplicationActionView::AskPrepare(id) => (b, AppendActionView::AskPrepare(id)),
        ReplicationActionView::AskApply(id) => (b, AppendActionView::AskApply(id)),
        ReplicationActionView::Prepared => append_turn(
            a,
            proposal_step(a.proposal, ProposalEvent::Done(true)),
            None,
        ),
        ReplicationActionView::Acknowledge => append_turn(
            a,
            proposal_step(a.proposal, ProposalEvent::Done(true)),
            None,
        ),
        ReplicationActionView::Fail(e) => append_turn(
            a,
            proposal_step(a.proposal, ProposalEvent::Done(false)),
            Some(e),
        ),
    }
}

/// What happens next where no replication is under way.
pub open spec fn append_local(node_id: u64, a: AppendView, event: AppendEventView) -> AppendTurn {
    match event {
        AppendEventView::Done => append_turn(
            a,
            proposal_step(a.proposal, ProposalEvent::Done(true)),
            None,
        ),
        AppendEventView::Observed { seen, last } => append_turn(
            a,
            proposal_step(a.proposal, ProposalEvent::Leader(seen.leader, last)),
            if a.proposal.phase == ProposalPhase::Observing && seen.leader != node_id {
                Some(ChorusErrorView::Consensus("leadership changed during proposal"@))
            } else {
                None
            },
        ),
        AppendEventView::Answered(_) => append_turn(
            a,
            proposal_step(a.proposal, ProposalEvent::Done(false)),
            None,
        ),
        AppendEventView::Failed(e) => append_turn(
            a,
            proposal_step(a.proposal, ProposalEvent::Done(false)),
            Some(e),
        ),
    }
}

/// What happens next on a node.
pub open spec fn append_next(
    node_id: u64,
    endpoints: Seq<(u64, String)>,
    a: AppendView,
    event: AppendEventView,
) -> AppendTurn {
    match a.replication {
        Some(r) => {
            let turn = replication_next(node_id, endpoints, r, for_replication(event));
            after_replicating(a, turn.0, turn.1)
        },
        None => append_local(node_id, a, event),
    }
}

/// How appending begins, where `pending` is the entry that is neither
/// acknowledged nor given up, and whether its result is known.
pub open spec fn append_start(
    node_id: u64,
    term: u64,
    pending: Option<(LogId, bool)>,
    same: bool,
    current: LogId,
) -> Result<AppendTurn, ChorusErrorView> {
    let at = |log_id: LogId, phase: ProposalPhase, known: bool|
        AppendView {
            proposal: Proposal { node_id, term, log_id, same, phase },
            result_known: known,
            replication: None,
            fault: None,
        };
    match pending {
        None => Ok(
            (
                at(current, ProposalPhase::Observing, false),
                AppendActionView::Observe { cleared: false },
            ),
        ),
        Some((id, known)) => if log_before(current, id) {
            Ok(
                (
                    at(id, ProposalPhase::ReapplyingPending, known),
                    AppendActionView::ApplyPending(id),
                ),
            )
        } else if current.index > id.index {
            Err(
                ChorusErrorView::Consensus(
                    "pending proposal is behind the local state machine"@,
                ),
            )
        } else {
            Ok(
                (
                    AppendView {
                        replication: Some(
                            fresh_replication(ReplicationGoal::Acknowledge, id, known),
                        ),
                        ..at(id, ProposalPhase::ReplicatingPending, known)
                    },
                    AppendActionView::Observe { cleared: false },
                ),
            )
        },
    }
}

// ---------------------------------------------------------------------------
// The machine
// ---------------------------------------------------------------------------

/// Whether the replication that is under way is in order.
pub open spec fn append_runs(a: AppendView) -> bool {
    a.replication matches Some(r) ==> round_runs(r)
}

impl Append {
    fn begin(&mut self, goal: ReplicationGoal, log_id: LogId, known: bool) -> (action: AppendAction)
        ensures
            append_runs(final(self)@),
            final(self)@ == (AppendView {
                replication: Some(fresh_replication(goal, log_id, known)),
                ..old(self)@
            }),
            action@ == (AppendActionView::Observe { cleared: false }),
    {
        let (replication, _) = Replication::start(goal, log_id, known);
        self.replication = Some(replication);
        AppendAction::Observe { cleared: false }
    }

    fn wish(&mut self, event: ProposalEvent, fault: Option<ChorusError>) -> (action: AppendAction)
        ensures
            append_runs(final(self)@),
            (final(self)@, action@) == append_turn(
                old(self)@,
                proposal_step(old(self)@.proposal, event),
                match fault {
                    Some(e) => Some(e@),
                    None => None,
                },
            ),
    {
        let cleared = match self.proposal.phase {
            ProposalPhase::ReplicatingPending => true,
            _ => false,
        };
        let known = self.result_known;
        let wanted = self.proposal.step(event);
        self.replication = None;
        if self.fault.is_none() {
            self.fault = fault;
        }
        match wanted {
            ProposalAction::ApplyPending(id) => AppendAction::ApplyPending(id),
            ProposalAction::ReplicatePending(id) => self.begin(
                ReplicationGoal::Acknowledge,
                id,
                known,
            ),
            ProposalAction::Observe => AppendAction::Observe { cleared },
            ProposalAction::Prepare(id) => self.begin(ReplicationGoal::Prepare, id, false),
            ProposalAction::Apply(id) => AppendAction::Apply(id),
            ProposalAction::Replicate(id) => self.begin(ReplicationGoal::Acknowledge, id, true),
            ProposalAction::Rollback => AppendAction::Rollback,
            ProposalAction::Acknowledge => AppendAction::Acknowledge,
            ProposalAction::Fail(pending) => {
                let error = match self.fault.take() {
                    Some(e) => e,
                    None => ChorusError::consensus("unexpected answer"),
                };
                AppendAction::Fail { error, pending }
            },
        }
    }

    fn replicate(
        &mut self,
        node: &NetworkConsensus,
        replication: Replication,
        event: ReplicationEvent,
    ) -> (action: AppendAction)
        requires
            old(self)@.replication is None,
            round_runs(replication@),
        ensures
            append_runs(final(self)@),
            ({
                let turn = replication_next(
                    node.node_id,
                    node.endpoints@,
                    replication@,
                    event@,
                );
                (final(self)@, action@) == after_replicating(old(self)@, turn.0, turn.1)
            }),
    {
        let mut replication = replication;
        let action = replication.step(node, event);
        match action {
            ReplicationAction::Prepared => self.wish(ProposalEvent::Done(true), None),
            ReplicationAction::Acknowledge => self.wish(ProposalEvent::Done(true), None),
            ReplicationAction::Fail(e) => self.wish(ProposalEvent::Done(false), Some(e)),
            ReplicationAction::Observe => {
                self.replication = Some(replication);
                AppendAction::Observe { cleared: false }
            },
            ReplicationAction::Install(id) => {
                self.replication = Some(replication);
                AppendAction::Install(id)
            },
            ReplicationAction::AskPrepare(id) => {
                self.replication = Some(replication);
                AppendAction::AskPrepare(id)
            },
            ReplicationAction::AskApply(id) => {
                self.replication = Some(replication);
                AppendAction::AskApply(id)
            },
        }
    }

    fn local(&mut self, event: AppendEvent) -> (action: AppendAction)
        requires
            old(self)@.replication is None,
        ensures
            append_runs(final(self)@),
            (final(self)@, action@) == append_local(
                old(self)@.proposal.node_id,
                old(self)@,
                event@,
            ),
    {
        match event {
            AppendEvent::Done => self.wish(ProposalEvent::Done(true), None),
            AppendEvent::Observed { seen, last } => {
                let observing = match self.proposal.phase {
                    ProposalPhase::Observing => true,
                    _ => false,
                };
                let fault = if observing && seen.leader != self.proposal.node_id {
                    Some(ChorusError::consensus("leadership changed during proposal"))
                } else {
                    None
                };
                self.wish(ProposalEvent::Leader(seen.leader, last), fault)
            },
            AppendEvent::Answered(_) => self.wish(ProposalEvent::Done(false), None),
            AppendEvent::Failed(e) => self.wish(ProposalEvent::Done(false), Some(e)),
        }
    }

    /// Takes what happened, and says what to do next.
    pub fn step(&mut self, node: &NetworkConsensus, event: AppendEvent) -> (action: AppendAction)
        requires
            append_runs(old(self)@),
            old(self)@.proposal.node_id == node.node_id,
        ensures
            append_runs(final(self)@),
            final(self)@.proposal.node_id == node.node_id,
            (final(self)@, action@) == append_next(
                node.node_id,
                node.endpoints@,
                old(self)@,
                event@,
            ),
    {
        match self.replication.take() {
            Some(replication) => {
                let event = match event {
                    AppendEvent::Done => ReplicationEvent::Failed(
                        ChorusError::consensus("unexpected answer"),
                    ),
                    AppendEvent::Observed { seen, .. } => ReplicationEvent::Observed(seen),
                    AppendEvent::Answered(answer) => ReplicationEvent::Answered(answer),
                    AppendEvent::Failed(e) => ReplicationEvent::Failed(e),
                };
                self.replicate(node, replication, event)
            },
            None => self.local(event),
        }
    }
}

impl NetworkConsensus {
    /// Begins to append a command as the leader. An entry that is pending is
    /// finished first: with it comes whether its result is known, and `same`
    /// says whether it is what is appended now.
    pub fn append_as_leader(&self, pending: Option<(LogId, bool)>, same: bool, current: LogId) -> (begun:
        Result<(Append, AppendAction), ChorusError>)
        ensures
            match begun {
                Ok(b) => append_start(self.node_id, self.term, pending, same, current) == Ok::<
                    _,
                    ChorusErrorView,
                >((b.0@, b.1@)) && append_runs(b.0@) && b.0@.proposal.node_id == self.node_id,
                Err(e) => append_start(self.node_id, self.term, pending, same, current) == Err::<
                    AppendTurn,
                    _,
                >(e@),
            },
    {
        let (id, known) = match pending {
            Some((id, known)) => (Some(id), known),
            None => (None, false),
        };
        let (proposal, wanted) = match Proposal::start(self, id, same, current) {
            Ok(begun) => begun,
            Err(e) => {
                return Err(e);
            },
        };
        let mut append = Append { proposal, result_known: known, replication: None, fault: None };
        let action = match wanted {
            ProposalAction::ApplyPending(id) => AppendAction::ApplyPending(id),
            ProposalAction::ReplicatePending(id) => append.begin(
                ReplicationGoal::Acknowledge,
                id,
                known,
            ),
            _ => AppendAction::Observe { cleared: false },
        };
        Ok((append, action))
    }
}

// ---------------------------------------------------------------------------
// Laws
// ---------------------------------------------------------------------------

/// Whether what happened is something that can happen.
pub open spec fn append_event_fits(event: AppendEventView) -> bool {
    event matches AppendEventView::Observed { seen, .. } ==> observation_fits(seen)
}

/// What appending keeps: a replication is under way exactly where the proposal
/// waits for one, for the proposal's entry and as far as the proposal wants it.
pub open spec fn append_sound(node_id: u64, a: AppendView) -> bool {
    &&& a.proposal.node_id == node_id
    &&& match a.proposal.phase {
        ProposalPhase::Preparing => a.replication matches Some(r) && r.goal
            == ReplicationGoal::Prepare,
        ProposalPhase::ReplicatingPending => a.replication matches Some(r) && r.goal
            == ReplicationGoal::Acknowledge,
        ProposalPhase::Replicating => a.replication matches Some(r) && r.goal
            == ReplicationGoal::Acknowledge,
        _ => a.replication is None,
    }
    &&& a.replication matches Some(r) ==> replication_sound(node_id, r) && round_runs(r)
        && r.log_id == a.proposal.log_id
}

/// Appending stays sound, whatever happens.
pub proof fn appends_stay_sound(
    node_id: u64,
    endpoints: Seq<(u64, String)>,
    a: AppendView,
    event: AppendEventView,
)
    requires
        append_sound(node_id, a),
        append_event_fits(event),
    ensures
        append_sound(node_id, append_next(node_id, endpoints, a, event).0),
{
    if let Some(r) = a.replication {
        replications_stay_sound(node_id, endpoints, r, for_replication(event));
        if replication_next(node_id, endpoints, r, for_replication(event)).1 is Acknowledge {
            acknowledgements_follow_two_rounds(node_id, endpoints, r, for_replication(event));
        }
        if replication_next(node_id, endpoints, r, for_replication(event)).1 is Prepared {
            preparations_follow_a_round(node_id, endpoints, r, for_replication(event));
        }
    }
}

/// What a proposal begins with is sound.
pub proof fn appends_begin_sound(
    node_id: u64,
    term: u64,
    pending: Option<(LogId, bool)>,
    same: bool,
    current: LogId,
)
    requires
        append_start(node_id, term, pending, same, current) is Ok,
    ensures
        append_sound(node_id, append_start(node_id, term, pending, same, current)->Ok_0.0),
{
}

/// Whether a majority of distinct voters prepared an entry in a replication,
/// and then another round of it had a majority of distinct voters apply it.
pub open spec fn prepared_and_applied(r: ReplicationView, log_id: LogId) -> bool {
    &&& prepared_by_majority(r, log_id)
    &&& r.round matches Some(round) && {
        &&& majority_accepted(round)
        &&& round.kind == RoundKind::Apply
        &&& round.log_id == log_id
    }
}

/// Whether a majority of distinct voters prepared an entry in a replication.
pub open spec fn prepared_by_majority(r: ReplicationView, log_id: LogId) -> bool {
    r.prepared matches Some(round) && {
        &&& majority_accepted(round)
        &&& round.kind == RoundKind::Prepare
        &&& round.log_id == log_id
    }
}

/// A command is acknowledged, and a pending entry is cleared, only after a
/// majority of distinct voters prepared its entry and a majority of distinct
/// voters applied it.
pub proof fn acknowledged_entries_are_replicated(
    node_id: u64,
    endpoints: Seq<(u64, String)>,
    a: AppendView,
    event: AppendEventView,
)
    requires
        append_sound(node_id, a),
        append_event_fits(event),
        append_next(node_id, endpoints, a, event).1 is Acknowledge || append_next(
            node_id,
            endpoints,
            a,
            event,
        ).1 == (AppendActionView::Observe { cleared: true }),
    ensures
        a.replication matches Some(r) && prepared_and_applied(
            replication_next(node_id, endpoints, r, for_replication(event)).0,
            a.proposal.log_id,
        ),
{
    if let Some(r) = a.replication {
        replications_stay_sound(node_id, endpoints, r, for_replication(event));
        if replication_next(node_id, endpoints, r, for_replication(event)).1 is Acknowledge {
            acknowledgements_follow_two_rounds(node_id, endpoints, r, for_replication(event));
        }
        if replication_next(node_id, endpoints, r, for_replication(event)).1 is Prepared {
            preparations_follow_a_round(node_id, endpoints, r, for_replication(event));
        }
    }
}

/// The local state takes a new entry only after a majority of distinct voters
/// prepared it.
pub proof fn applied_entries_are_prepared(
    node_id: u64,
    endpoints: Seq<(u64, String)>,
    a: AppendView,
    event: AppendEventView,
)
    requires
        append_sound(node_id, a),
        append_event_fits(event),
        append_next(node_id, endpoints, a, event).1 is Apply,
    ensures
        append_next(node_id, endpoints, a, event).1 == AppendActionView::Apply(a.proposal.log_id),
        a.replication matches Some(r) && prepared_by_majority(
            replication_next(node_id, endpoints, r, for_replication(event)).0,
            a.proposal.log_id,
        ),
{
    if let Some(r) = a.replication {
        replications_stay_sound(node_id, endpoints, r, for_replication(event));
        if replication_next(node_id, endpoints, r, for_replication(event)).1 is Acknowledge {
            acknowledgements_follow_two_rounds(node_id, endpoints, r, for_replication(event));
        }
        if replication_next(node_id, endpoints, r, for_replication(event)).1 is Prepared {
            preparations_follow_a_round(node_id, endpoints, r, for_replication(event));
        }
    }
}

} // verus!
