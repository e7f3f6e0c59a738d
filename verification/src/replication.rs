//! Replicating an entry: the leader has it prepared on a quorum, then applied
//! on a quorum, and only then acknowledges it.

use crate::error::{ChorusError, ChorusErrorView};
use crate::ids::LogId;
use crate::network::{
    askable, counts_once, round_result, round_sound, round_start,
    round_step, round_targets, rounds_count_voters_once, targets_fit, targets_for,
    NetworkConsensus, Observation, ObservationView, QuorumRound, RoundAction, RoundEvent,
    RoundKind, RoundPhase, RoundView, Target,
};
use crate::proposal::require_local_result;
use vstd::prelude::*;
use vstd::string::*;

verus! {

/// How far an entry is taken.
#[derive(Clone, Copy, Debug, PartialEq, Eq, Structural)]
pub enum ReplicationGoal {
    /// Until a quorum has prepared it.
    Prepare,
    /// Until a quorum has applied it.
    Acknowledge,
}

/// What a replication asks for next.
#[derive(Clone, Debug)]
pub enum ReplicationAction {
    /// Find out who leads.
    Observe,
    /// Install a snapshot of the local state on a member.
    Install(u64),
    /// Ask a member to prepare the entry.
    AskPrepare(u64),
    /// Ask a member to apply the entry.
    AskApply(u64),
    /// A quorum has prepared the entry.
    Prepared,
    /// A quorum has applied the entry: it is pending no more, and acknowledged.
    Acknowledge,
    Fail(ChorusError),
}

/// What happened.
#[derive(Clone, Debug)]
pub enum ReplicationEvent {
    Observed(Observation),
    /// What a member answered.
    Answered(RoundEvent),
    /// Nobody could be observed, or the local state could not be read.
    Failed(ChorusError),
}

/// Where a replication stands.
#[derive(Clone, Copy, Debug, PartialEq, Eq, Structural)]
pub enum ReplicationPhase {
    Observing,
    /// Who leads is looked at once more before anything is prepared.
    ObservingAgain,
    Preparing,
    Applying,
    Finished,
}

/// The members of a round.
#[derive(Clone, Debug)]
pub struct Electorate {
    pub voters: Vec<u64>,
    pub targets: Vec<Target>,
}

/// A replication that is under way.
pub struct Replication {
    goal: ReplicationGoal,
    log_id: LogId,
    result_known: bool,
    electorate: Option<Electorate>,
    prepared: Option<QuorumRound>,
    round: Option<QuorumRound>,
    phase: ReplicationPhase,
}

/// What a [`Replication`] holds.
#[verifier::ext_equal]
pub struct ReplicationView {
    pub goal: ReplicationGoal,
    pub log_id: LogId,
    /// Whether the result of applying the entry to the local state is known.
    pub result_known: bool,
    /// The voters and the members to ask, as they were seen first.
    pub electorate: Option<(Seq<u64>, Seq<Target>)>,
    /// The round that prepared the entry, once it is over.
    pub prepared: Option<RoundView>,
    /// The round that is under way, or was last.
    pub round: Option<RoundView>,
    pub phase: ReplicationPhase,
}

/// What a round of an optional one holds.
pub open spec fn round_of(round: Option<QuorumRound>) -> Option<RoundView> {
    match round {
        Some(r) => Some(r@),
        None => None,
    }
}

impl View for Replication {
    type V = ReplicationView;

    closed spec fn view(&self) -> ReplicationView {
        ReplicationView {
            goal: self.goal,
            log_id: self.log_id,
            result_known: self.result_known,
            electorate: match self.electorate {
                Some(e) => Some((e.voters@, e.targets@)),
                None => None,
            },
            prepared: round_of(self.prepared),
            round: round_of(self.round),
            phase: self.phase,
        }
    }
}

/// What a [`ReplicationAction`] says.
pub enum ReplicationActionView {
    Observe,
    Install(u64),
    AskPrepare(u64),
    AskApply(u64),
    Prepared,
    Acknowledge,
    Fail(ChorusErrorView),
}

impl View for ReplicationAction {
    type V = ReplicationActionView;

    open spec fn view(&self) -> ReplicationActionView {
        match self {
            ReplicationAction::Observe => ReplicationActionView::Observe,
            ReplicationAction::Install(id) => ReplicationActionView::Install(*id),
            ReplicationAction::AskPrepare(id) => ReplicationActionView::AskPrepare(*id),
            ReplicationAction::AskApply(id) => ReplicationActionView::AskApply(*id),
            ReplicationAction::Prepared => ReplicationActionView::Prepared,
            ReplicationAction::Acknowledge => ReplicationActionView::Acknowledge,
            ReplicationAction::Fail(e) => ReplicationActionView::Fail(e@),
        }
    }
}

/// What a [`ReplicationEvent`] says.
pub enum ReplicationEventView {
    Observed(ObservationView),
    Answered(RoundEvent),
    Failed(ChorusErrorView),
}

impl View for ReplicationEvent {
    type V = ReplicationEventView;

    open spec fn view(&self) -> ReplicationEventView {
        match self {
            ReplicationEvent::Observed(o) => ReplicationEventView::Observed(o@),
            ReplicationEvent::Answered(event) => ReplicationEventView::Answered(*event),
            ReplicationEvent::Failed(e) => ReplicationEventView::Failed(e@),
        }
    }
}

// ---------------------------------------------------------------------------
// The steps
// ---------------------------------------------------------------------------

/// What comes next: what the replication holds, and what it asks for.
pub type ReplicationTurn = (ReplicationView, ReplicationActionView);

/// The replication failed.
pub open spec fn replication_fails(r: ReplicationView, e: ChorusErrorView) -> ReplicationTurn {
    (
        ReplicationView { phase: ReplicationPhase::Finished, ..r },
        ReplicationActionView::Fail(e),
    )
}

/// The members that a node asks, with how far each was last seen to be.
pub open spec fn members_to_ask(
    node_id: u64,
    endpoints: Seq<(u64, String)>,
    o: ObservationView,
) -> Seq<Target> {
    targets_for(askable(o.voters + o.learners, node_id, endpoints), o.statuses)
}

/// What comes of a turn of the round that applies the entry.
pub open spec fn after_applying(r: ReplicationView, turn: (RoundView, RoundAction)) -> ReplicationTurn {
    let held = ReplicationView {
        round: Some(turn.0),
        phase: ReplicationPhase::Applying,
        ..r
    };
    match turn.1 {
        RoundAction::Install(id) => (held, ReplicationActionView::Install(id)),
        RoundAction::Ask(id) => (held, ReplicationActionView::AskApply(id)),
        RoundAction::Finish(true) => (
            ReplicationView { phase: ReplicationPhase::Finished, ..held },
            ReplicationActionView::Acknowledge,
        ),
        RoundAction::Finish(false) => replication_fails(
            held,
            ChorusErrorView::Consensus("replication quorum failed after local apply"@),
        ),
    }
}

/// What comes once a quorum has prepared the entry.
pub open spec fn to_applying(node_id: u64, r: ReplicationView) -> ReplicationTurn {
    if r.goal == ReplicationGoal::Prepare {
        (
            ReplicationView { phase: ReplicationPhase::Finished, ..r },
            ReplicationActionView::Prepared,
        )
    } else if !r.result_known {
        replication_fails(r, ChorusErrorView::Consensus("leader apply result is missing"@))
    } else {
        match r.electorate {
            Some((voters, targets)) => after_applying(
                r,
                round_start(RoundKind::Apply, r.log_id, node_id, voters, targets),
            ),
            None => replication_fails(r, ChorusErrorView::Consensus("unexpected answer"@)),
        }
    }
}

/// What comes of a turn of the round that prepares the entry.
pub open spec fn after_preparing(
    node_id: u64,
    r: ReplicationView,
    turn: (RoundView, RoundAction),
) -> ReplicationTurn {
    let held = ReplicationView {
        round: Some(turn.0),
        phase: ReplicationPhase::Preparing,
        ..r
    };
    match turn.1 {
        RoundAction::Install(id) => (held, ReplicationActionView::Install(id)),
        RoundAction::Ask(id) => (held, ReplicationActionView::AskPrepare(id)),
        RoundAction::Finish(true) => to_applying(
            node_id,
            ReplicationView { prepared: Some(turn.0), round: None, ..held },
        ),
        RoundAction::Finish(false) => replication_fails(
            held,
            ChorusErrorView::Consensus("proposal was not durably prepared on a quorum"@),
        ),
    }
}

/// What comes of an observation.
pub open spec fn after_observing(
    node_id: u64,
    endpoints: Seq<(u64, String)>,
    r: ReplicationView,
    o: ObservationView,
) -> ReplicationTurn {
    match r.phase {
        ReplicationPhase::Observing => if o.leader != node_id {
            replication_fails(
                r,
                ChorusErrorView::Consensus("leadership changed during replication"@),
            )
        } else {
            (
                ReplicationView {
                    electorate: Some((o.voters, members_to_ask(node_id, endpoints, o))),
                    phase: ReplicationPhase::ObservingAgain,
                    ..r
                },
                ReplicationActionView::Observe,
            )
        },
        ReplicationPhase::ObservingAgain => if o.leader != node_id {
            replication_fails(r, ChorusErrorView::Consensus("not the quorum leader"@))
        } else {
            after_preparing(
                node_id,
                r,
                round_start(
                    RoundKind::Prepare,
                    r.log_id,
                    node_id,
                    o.voters,
                    members_to_ask(node_id, endpoints, o),
                ),
            )
        },
        _ => replication_fails(r, ChorusErrorView::Consensus("unexpected answer"@)),
    }
}

/// What happens next in a replication on a node.
pub open spec fn replication_next(
    node_id: u64,
    endpoints: Seq<(u64, String)>,
    r: ReplicationView,
    event: ReplicationEventView,
) -> ReplicationTurn {
    match event {
        ReplicationEventView::Failed(e) => replication_fails(r, e),
        ReplicationEventView::Observed(o) => after_observing(node_id, endpoints, r, o),
        ReplicationEventView::Answered(answer) => match (r.phase, r.round) {
            (ReplicationPhase::Preparing, Some(round)) => after_preparing(
                node_id,
                r,
                round_step(round, answer),
            ),
            (ReplicationPhase::Applying, Some(round)) => after_applying(
                r,
                round_step(round, answer),
            ),
            _ => replication_fails(r, ChorusErrorView::Consensus("unexpected answer"@)),
        },
    }
}

/// Whether a round under way is in order.
pub open spec fn round_runs(r: ReplicationView) -> bool {
    match r.phase {
        ReplicationPhase::Preparing => r.round matches Some(round) && round_sound(round)
            && round.phase != RoundPhase::Finished,
        ReplicationPhase::Applying => r.round matches Some(round) && round_sound(round)
            && round.phase != RoundPhase::Finished,
        _ => true,
    }
}

// ---------------------------------------------------------------------------
// The machine
// ---------------------------------------------------------------------------

impl Replication {
    /// A replication of an entry that has not begun. One that only prepares
    /// looks once who leads.
    pub fn start(goal: ReplicationGoal, log_id: LogId, result_known: bool) -> (begun: (
        Replication,
        ReplicationAction,
    ))
        ensures
            round_runs(begun.0@),
            begun.0@ == (ReplicationView {
                goal,
                log_id,
                result_known,
                electorate: None,
                prepared: None,
                round: None,
                phase: if goal == ReplicationGoal::Prepare {
                    ReplicationPhase::ObservingAgain
                } else {
                    ReplicationPhase::Observing
                },
            }),
            begun.1@ == ReplicationActionView::Observe,
    {
        let phase = match goal {
            ReplicationGoal::Prepare => ReplicationPhase::ObservingAgain,
            ReplicationGoal::Acknowledge => ReplicationPhase::Observing,
        };
        (
            Replication {
                goal,
                log_id,
                result_known,
                electorate: None,
                prepared: None,
                round: None,
                phase,
            },
            ReplicationAction::Observe,
        )
    }

    fn fail(&mut self, e: ChorusError) -> (action: ReplicationAction)
        ensures
            round_runs(final(self)@),
            (final(self)@, action@) == replication_fails(old(self)@, e@),
    {
        self.phase = ReplicationPhase::Finished;
        ReplicationAction::Fail(e)
    }

    fn apply_on(&mut self, round: QuorumRound, action: RoundAction) -> (next: ReplicationAction)
        requires
            round_sound(round@),
            round@.phase == RoundPhase::Finished <==> action is Finish,
        ensures
            round_runs(final(self)@),
            (final(self)@, next@) == after_applying(old(self)@, (round@, action)),
    {
        self.round = Some(round);
        self.phase = ReplicationPhase::Applying;
        match action {
            RoundAction::Install(id) => ReplicationAction::Install(id),
            RoundAction::Ask(id) => ReplicationAction::AskApply(id),
            RoundAction::Finish(reached) => match round_result(RoundKind::Apply, reached) {
                Ok(()) => {
                    self.phase = ReplicationPhase::Finished;
                    ReplicationAction::Acknowledge
                },
                Err(e) => self.fail(e),
            },
        }
    }

    fn go_on_to_apply(&mut self, node_id: u64) -> (next: ReplicationAction)
        ensures
            round_runs(final(self)@),
            (final(self)@, next@) == to_applying(node_id, old(self)@),
    {
        match self.goal {
            ReplicationGoal::Prepare => {
                self.phase = ReplicationPhase::Finished;
                return ReplicationAction::Prepared;
            },
            ReplicationGoal::Acknowledge => {},
        }
        match require_local_result(self.result_known) {
            Ok(()) => {},
            Err(e) => {
                return self.fail(e);
            },
        }
        match &self.electorate {
            Some(e) => {
                let (round, action) = QuorumRound::start(
                    RoundKind::Apply,
                    self.log_id,
                    node_id,
                    e.voters.clone(),
                    e.targets.clone(),
                );
                self.apply_on(round, action)
            },
            None => self.fail(ChorusError::consensus("unexpected answer")),
        }
    }

    fn prepare_on(&mut self, node_id: u64, round: QuorumRound, action: RoundAction) -> (next:
        ReplicationAction)
        requires
            round_sound(round@),
            round@.phase == RoundPhase::Finished <==> action is Finish,
        ensures
            round_runs(final(self)@),
            (final(self)@, next@) == after_preparing(node_id, old(self)@, (round@, action)),
    {
        self.phase = ReplicationPhase::Preparing;
        match action {
            RoundAction::Install(id) => {
                self.round = Some(round);
                ReplicationAction::Install(id)
            },
            RoundAction::Ask(id) => {
                self.round = Some(round);
                ReplicationAction::AskPrepare(id)
            },
            RoundAction::Finish(reached) => match round_result(RoundKind::Prepare, reached) {
                Ok(()) => {
                    self.prepared = Some(round);
                    self.round = None;
                    self.go_on_to_apply(node_id)
                },
                Err(e) => {
                    self.round = Some(round);
                    self.fail(e)
                },
            },
        }
    }

    fn take_observation(&mut self, node: &NetworkConsensus, o: Observation) -> (next:
        ReplicationAction)
        ensures
            round_runs(final(self)@),
            (final(self)@, next@) == after_observing(
                node.node_id,
                node.endpoints@,
                old(self)@,
                o@,
            ),
    {
        match self.phase {
            ReplicationPhase::Observing => {
                match node.require_leader(o.leader, "leadership changed during replication") {
                    Ok(()) => {},
                    Err(e) => {
                        return self.fail(e);
                    },
                }
                let ids = node.peers(o.voters.as_slice(), o.learners.as_slice());
                let targets = round_targets(ids.as_slice(), o.statuses.as_slice());
                self.electorate = Some(Electorate { voters: o.voters, targets });
                self.phase = ReplicationPhase::ObservingAgain;
                ReplicationAction::Observe
            },
            ReplicationPhase::ObservingAgain => {
                match node.require_leader(o.leader, "not the quorum leader") {
                    Ok(()) => {},
                    Err(e) => {
                        return self.fail(e);
                    },
                }
                let ids = node.peers(o.voters.as_slice(), o.learners.as_slice());
                let targets = round_targets(ids.as_slice(), o.statuses.as_slice());
                let (round, action) = QuorumRound::start(
                    RoundKind::Prepare,
                    self.log_id,
                    node.node_id,
                    o.voters,
                    targets,
                );
                self.prepare_on(node.node_id, round, action)
            },
            _ => self.fail(ChorusError::consensus("unexpected answer")),
        }
    }

    /// Takes what happened, and says what to do next.
    pub fn step(&mut self, node: &NetworkConsensus, event: ReplicationEvent) -> (action:
        ReplicationAction)
        requires
            round_runs(old(self)@),
        ensures
            round_runs(final(self)@),
            (final(self)@, action@) == replication_next(
                node.node_id,
                node.endpoints@,
                old(self)@,
                event@,
            ),
    {
        match event {
            ReplicationEvent::Failed(e) => self.fail(e),
            ReplicationEvent::Observed(o) => self.take_observation(node, o),
            ReplicationEvent::Answered(answer) => {
                let preparing = match self.phase {
                    ReplicationPhase::Preparing => true,
                    ReplicationPhase::Applying => false,
                    _ => {
                        return self.fail(ChorusError::consensus("unexpected answer"));
                    },
                };
                let mut round = match self.round.take() {
                    Some(round) => round,
                    None => {
                        return self.fail(ChorusError::consensus("unexpected answer"));
                    },
                };
                let action = round.step(answer);
                if preparing {
                    self.prepare_on(node.node_id, round, action)
                } else {
                    self.apply_on(round, action)
                }
            },
        }
    }
}

// ---------------------------------------------------------------------------
// Laws
// ---------------------------------------------------------------------------

/// Whether an observation is one that a node can make: who leads is a voter,
/// and no member is listed twice.
pub open spec fn observation_fits(o: ObservationView) -> bool {
    o.voters.contains(o.leader) && (o.voters + o.learners).no_duplicates()
}

/// Whether what happened is something that can happen.
pub open spec fn event_fits(event: ReplicationEventView) -> bool {
    event matches ReplicationEventView::Observed(o) ==> observation_fits(o)
}

/// Whether a round of a node for an entry asks others, each once, and counts
/// the node, which is a voter, and voters that it asked, each once.
pub open spec fn round_fits(node_id: u64, kind: RoundKind, log_id: LogId, r: RoundView) -> bool {
    &&& r.kind == kind
    &&& r.log_id == log_id
    &&& r.voters.contains(node_id)
    &&& targets_fit(node_id, r.targets)
    &&& counts_once(r)
    &&& r.accepted[0] == node_id
}

/// Whether more than half of a list of voters accepted: a majority of distinct
/// voters, the node that began the round among them.
pub open spec fn majority_accepted(r: RoundView) -> bool {
    &&& r.accepted.no_duplicates()
    &&& forall|k: int|
        0 <= k < r.accepted.len() ==> r.voters.contains(#[trigger] r.accepted[k])
    &&& 2 * r.accepted.len() > r.voters.len()
}

/// What a replication keeps: its rounds are for its entry and count every voter
/// once, and it applies nothing that a majority has not prepared.
pub open spec fn replication_sound(node_id: u64, r: ReplicationView) -> bool {
    &&& r.electorate matches Some((voters, targets)) ==> voters.contains(node_id) && targets_fit(
        node_id,
        targets,
    )
    &&& r.prepared matches Some(p) ==> round_fits(node_id, RoundKind::Prepare, r.log_id, p)
        && majority_accepted(p)
    &&& r.phase == ReplicationPhase::Preparing ==> (r.round matches Some(round) && round_fits(
        node_id,
        RoundKind::Prepare,
        r.log_id,
        round,
    ))
    &&& r.phase == ReplicationPhase::Applying ==> {
        &&& r.goal == ReplicationGoal::Acknowledge
        &&& r.result_known
        &&& r.prepared is Some
        &&& r.round matches Some(round) && round_fits(node_id, RoundKind::Apply, r.log_id, round)
    }
}

proof fn lemma_askable(ids: Seq<u64>, node_id: u64, endpoints: Seq<(u64, String)>)
    requires
        ids.no_duplicates(),
    ensures
        askable(ids, node_id, endpoints).no_duplicates(),
        !askable(ids, node_id, endpoints).contains(node_id),
        forall|id: u64| #[trigger]
            askable(ids, node_id, endpoints).contains(id) ==> ids.contains(id),
    decreases ids.len(),
{
    let all = askable(ids, node_id, endpoints);
    if ids.len() > 0 {
        let before = ids.drop_last();
        let shorter = askable(before, node_id, endpoints);
        assert(before.no_duplicates());
        lemma_askable(before, node_id, endpoints);
        assert forall|id: u64| #[trigger] all.contains(id) implies ids.contains(id) && id
            != node_id by {
            let k = choose|k: int| 0 <= k < all.len() && all[k] == id;
            if k < shorter.len() {
                assert(shorter[k] == id);
                assert(shorter.contains(id));
                let j = choose|j: int| 0 <= j < before.len() && before[j] == id;
                assert(ids[j] == id);
            } else {
                assert(ids[ids.len() - 1] == id);
            }
        }
        assert forall|i: int, j: int|
            0 <= i < all.len() && 0 <= j < all.len() && i != j implies all[i] != all[j] by {
            if i == shorter.len() && all[i] == all[j] {
                assert(shorter[j] == ids.last());
                assert(shorter.contains(ids.last()));
                let m = choose|m: int| 0 <= m < before.len() && before[m] == ids.last();
                assert(ids[m] == ids[ids.len() - 1]);
            }
            if j == shorter.len() && all[i] == all[j] {
                assert(shorter[i] == ids.last());
                assert(shorter.contains(ids.last()));
                let m = choose|m: int| 0 <= m < before.len() && before[m] == ids.last();
                assert(ids[m] == ids[ids.len() - 1]);
            }
        }
    }
}

proof fn lemma_members_fit(node_id: u64, endpoints: Seq<(u64, String)>, o: ObservationView)
    requires
        observation_fits(o),
    ensures
        targets_fit(node_id, members_to_ask(node_id, endpoints, o)),
{
    let ids = askable(o.voters + o.learners, node_id, endpoints);
    let targets = members_to_ask(node_id, endpoints, o);
    lemma_askable(o.voters + o.learners, node_id, endpoints);
    assert forall|i: int| 0 <= i < targets.len() implies (#[trigger] targets[i]).node_id
        != node_id by {
        assert(ids.contains(ids[i]));
    }
}

proof fn lemma_started(
    kind: RoundKind,
    log_id: LogId,
    node_id: u64,
    voters: Seq<u64>,
    targets: Seq<Target>,
)
    requires
        voters.contains(node_id),
        targets_fit(node_id, targets),
    ensures
        round_fits(node_id, kind, log_id, round_start(kind, log_id, node_id, voters, targets).0),
        round_start(kind, log_id, node_id, voters, targets).1 == RoundAction::Finish(true)
            ==> majority_accepted(round_start(kind, log_id, node_id, voters, targets).0),
{
    let r = round_start(kind, log_id, node_id, voters, targets).0;
    assert(r.accepted == seq![node_id]);
    assert(r.accepted[0] == node_id);
}

proof fn lemma_stepped(
    kind: RoundKind,
    log_id: LogId,
    node_id: u64,
    r: RoundView,
    answer: RoundEvent,
)
    requires
        round_fits(node_id, kind, log_id, r),
        round_sound(r),
        r.phase != RoundPhase::Finished,
    ensures
        round_fits(node_id, kind, log_id, round_step(r, answer).0),
        round_step(r, answer).1 == RoundAction::Finish(true) ==> majority_accepted(
            round_step(r, answer).0,
        ),
{
    rounds_count_voters_once(r, answer);
    let n = round_step(r, answer).0;
    assert forall|k: int| 0 <= k < n.accepted.len() implies n.voters.contains(
        #[trigger] n.accepted[k],
    ) by {}
}

/// A replication stays sound, whatever happens.
pub proof fn replications_stay_sound(
    node_id: u64,
    endpoints: Seq<(u64, String)>,
    r: ReplicationView,
    event: ReplicationEventView,
)
    requires
        replication_sound(node_id, r),
        round_runs(r),
        event_fits(event),
    ensures
        ({
            let n = replication_next(node_id, endpoints, r, event).0;
            &&& replication_sound(node_id, n)
            &&& round_runs(n)
            &&& n.goal == r.goal
            &&& n.log_id == r.log_id
        }),
{
    lemma_turn(node_id, endpoints, r, event);
}

proof fn lemma_turn(
    node_id: u64,
    endpoints: Seq<(u64, String)>,
    r: ReplicationView,
    event: ReplicationEventView,
)
    requires
        replication_sound(node_id, r),
        round_runs(r),
        event_fits(event),
    ensures
        ({
            let (n, action) = replication_next(node_id, endpoints, r, event);
            &&& replication_sound(node_id, n)
            &&& round_runs(n)
            &&& n.goal == r.goal
            &&& n.log_id == r.log_id
            &&& action is Prepared || action is Acknowledge ==> n.prepared is Some
            &&& action is Acknowledge ==> (n.round matches Some(a) && round_fits(
                node_id,
                RoundKind::Apply,
                n.log_id,
                a,
            ) && majority_accepted(a))
        }),
{
    if let Some((voters, targets)) = r.electorate {
        lemma_started(RoundKind::Apply, r.log_id, node_id, voters, targets);
    }
    match event {
        ReplicationEventView::Observed(o) => {
            lemma_members_fit(node_id, endpoints, o);
            if o.leader == node_id {
                lemma_started(
                    RoundKind::Prepare,
                    r.log_id,
                    node_id,
                    o.voters,
                    members_to_ask(node_id, endpoints, o),
                );
            }
        },
        ReplicationEventView::Answered(answer) => {
            if let Some(round) = r.round {
                if r.phase == ReplicationPhase::Preparing {
                    lemma_stepped(RoundKind::Prepare, r.log_id, node_id, round, answer);
                } else if r.phase == ReplicationPhase::Applying {
                    lemma_stepped(RoundKind::Apply, r.log_id, node_id, round, answer);
                }
            }
        },
        _ => {},
    }
}

/// An entry is acknowledged only after two rounds for it that a majority of
/// distinct voters accepted, this node among them: one that prepared it, and
/// then one that applied it.
pub proof fn acknowledgements_follow_two_rounds(
    node_id: u64,
    endpoints: Seq<(u64, String)>,
    r: ReplicationView,
    event: ReplicationEventView,
)
    requires
        replication_sound(node_id, r),
        round_runs(r),
        event_fits(event),
        replication_next(node_id, endpoints, r, event).1 is Acknowledge,
    ensures
        ({
            let n = replication_next(node_id, endpoints, r, event).0;
            &&& n.prepared matches Some(p) && {
                &&& majority_accepted(p)
                &&& p.kind == RoundKind::Prepare
                &&& p.log_id == r.log_id
                &&& p.accepted[0] == node_id
            }
            &&& n.round matches Some(a) && {
                &&& majority_accepted(a)
                &&& a.kind == RoundKind::Apply
                &&& a.log_id == r.log_id
                &&& a.accepted[0] == node_id
            }
            &&& r.result_known
            &&& r.goal == ReplicationGoal::Acknowledge
        }),
{
    lemma_turn(node_id, endpoints, r, event);
}

/// An entry counts as prepared only after a round for it that a majority of
/// distinct voters accepted, this node among them.
pub proof fn preparations_follow_a_round(
    node_id: u64,
    endpoints: Seq<(u64, String)>,
    r: ReplicationView,
    event: ReplicationEventView,
)
    requires
        replication_sound(node_id, r),
        round_runs(r),
        event_fits(event),
        replication_next(node_id, endpoints, r, event).1 is Prepared,
    ensures
        replication_next(node_id, endpoints, r, event).0.prepared matches Some(p)
            && majority_accepted(p) && p.kind == RoundKind::Prepare && p.log_id == r.log_id
            && p.accepted[0] == node_id,
        r.goal == ReplicationGoal::Prepare,
{
    lemma_turn(node_id, endpoints, r, event);
}

} // verus!
