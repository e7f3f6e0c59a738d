//! What goes through where nothing goes wrong: replication, requests to the
//! leader, replaying a log, and starting a node.

use crate::appending::{
    append_next, append_start, AppendActionView, AppendEventView, AppendView,
};
use crate::forwarding::{
    forward_next, ForwardActionView, ForwardEventView, ForwardPhase, ForwardView,
};
use crate::ids::LogId;
use crate::network::{askable, round_step, ObservationView, RoundAction, RoundEvent, RoundView};
use crate::node_map::{has_node, node_value};
use crate::proposal::ProposalPhase;
use crate::raft_log::{
    replacement_verdict, suffix_verdict, ConsensusLogEntry, HardState,
};
use crate::replay::{
    replay_start, replay_step, Phase, ReplayAction, ReplayEvent, ReplayView, StateMark,
};
use crate::replication::{
    replication_next, ReplicationActionView, ReplicationEventView, ReplicationGoal,
    ReplicationPhase, ReplicationView,
};
use crate::runtime::{
    durable_verdict, members_verdict, misplaced_peer, opening_verdict, redirect, startup_fault,
    unknown_voter, DurableMembers, DurableState,
};
use crate::transport::{identity_verdict, TransportTlsIdentity};
use vstd::prelude::*;

verus! {

// ---------------------------------------------------------------------------
// Replication
// ---------------------------------------------------------------------------

/// A leader looks twice at the group before an entry is prepared, and goes on
/// only while it leads. The members that it saw first are those that apply the
/// entry, and those that it saw last prepare it.
pub proof fn replications_begin_on_the_leader(
    node_id: u64,
    endpoints: Seq<(u64, String)>,
    r: ReplicationView,
    o: ObservationView,
)
    ensures
        ({
            let asked = askable(o.voters + o.learners, node_id, endpoints);
            let (after, action) = replication_next(
                node_id,
                endpoints,
                r,
                ReplicationEventView::Observed(o),
            );
            &&& r.phase == ReplicationPhase::Observing && o.leader == node_id ==> {
                &&& action == ReplicationActionView::Observe
                &&& after.phase == ReplicationPhase::ObservingAgain
                &&& after.electorate matches Some((voters, _)) && voters == o.voters
                &&& after.log_id == r.log_id && after.goal == r.goal && after.result_known
                    == r.result_known
            }
            &&& r.phase == ReplicationPhase::ObservingAgain && o.leader == node_id && asked.len()
                > 0 ==> {
                &&& action == ReplicationActionView::AskPrepare(asked[0]) || action
                    == ReplicationActionView::Install(asked[0])
                &&& after.phase == ReplicationPhase::Preparing
                &&& after.round matches Some(round) && round.log_id == r.log_id && round.voters
                    == o.voters && round.accepted == seq![node_id] && round.targets.len()
                    == asked.len()
            }
            &&& o.leader != node_id ==> action is Fail
        }),
{
}

/// Once more than half of the voters prepared an entry, it is prepared, or goes
/// on to be applied by the members; and once more than half of the voters
/// applied it, it is acknowledged. Every member that a round is at is asked for
/// what the round is for, and a round that fails ends the replication.
pub proof fn rounds_carry_replications(
    node_id: u64,
    endpoints: Seq<(u64, String)>,
    r: ReplicationView,
    round: RoundView,
    answer: RoundEvent,
)
    requires
        r.round == Some(round),
        r.phase == ReplicationPhase::Preparing || r.phase == ReplicationPhase::Applying,
    ensures
        ({
            let step = round_step(round, answer).1;
            let (after, action) = replication_next(
                node_id,
                endpoints,
                r,
                ReplicationEventView::Answered(answer),
            );
            let preparing = r.phase == ReplicationPhase::Preparing;
            &&& step matches RoundAction::Ask(id) ==> action == if preparing {
                ReplicationActionView::AskPrepare(id)
            } else {
                ReplicationActionView::AskApply(id)
            }
            &&& step matches RoundAction::Install(id) ==> action == ReplicationActionView::Install(
                id,
            )
            &&& step == RoundAction::Finish(false) ==> action is Fail
            &&& step == RoundAction::Finish(true) && !preparing ==> action
                == ReplicationActionView::Acknowledge
            &&& step == RoundAction::Finish(true) && preparing && r.goal == ReplicationGoal::Prepare
                ==> action == ReplicationActionView::Prepared
            &&& step == RoundAction::Finish(true) && preparing && r.goal
                == ReplicationGoal::Acknowledge && !r.result_known ==> action is Fail
        }),
        ({
            let (after, action) = replication_next(
                node_id,
                endpoints,
                r,
                ReplicationEventView::Answered(answer),
            );
            round_step(round, answer).1 == RoundAction::Finish(true) && r.phase
                == ReplicationPhase::Preparing && r.goal == ReplicationGoal::Acknowledge
                && r.result_known ==> (r.electorate matches Some((voters, targets)) ==> {
                &&& targets.len() > 0 ==> (action == ReplicationActionView::AskApply(
                    targets[0].node_id,
                ) || action == ReplicationActionView::Install(targets[0].node_id)) && after.phase
                    == ReplicationPhase::Applying && (after.round matches Some(next) && next.log_id
                    == r.log_id && next.voters == voters && next.targets == targets && next.accepted
                    == seq![node_id])
                &&& targets.len() == 0 && voters.len() == 1 ==> action
                    == ReplicationActionView::Acknowledge
            })
        }),
{
}

/// What is appended begins with what is pending: a pending entry that the state
/// has not come to is applied, one that it stands at is replicated, and one that
/// it has passed is refused; without one the group is looked at.
pub proof fn appends_begin_with_the_pending_entry(
    node_id: u64,
    term: u64,
    pending: Option<(LogId, bool)>,
    same: bool,
    current: LogId,
)
    ensures
        ({
            let begun = append_start(node_id, term, pending, same, current);
            match pending {
                None => begun matches Ok((a, action)) && action == (AppendActionView::Observe {
                    cleared: false,
                }) && a.replication is None && a.proposal.phase == ProposalPhase::Observing
                    && a.proposal.node_id == node_id && a.proposal.term == term && a.proposal.same
                    == same,
                Some((id, known)) => {
                    &&& current == id ==> (begun matches Ok((a, action)) && action == (
                    AppendActionView::Observe { cleared: false }) && (a.replication matches Some(r)
                        && r.log_id == id && r.goal == ReplicationGoal::Acknowledge
                        && r.result_known == known) && a.proposal.same == same)
                    &&& current.term <= id.term && current.index < id.index ==> (begun matches Ok(
                        (a, action),
                    ) && action == AppendActionView::ApplyPending(id) && a.proposal.log_id == id
                        && a.proposal.same == same && a.result_known == known)
                    &&& current.term >= id.term && current.index > id.index ==> begun is Err
                },
            }
        }),
{
}

/// An entry that is appended on the leader is prepared, then applied to the
/// local state, then replicated, and then acknowledged, each once the step
/// before it is done.
pub proof fn appends_go_through(
    node_id: u64,
    endpoints: Seq<(u64, String)>,
    a: AppendView,
    event: AppendEventView,
)
    ensures
        ({
            let (after, action) = append_next(node_id, endpoints, a, event);
            let phase = a.proposal.phase;
            &&& a.replication is None && phase == ProposalPhase::Observing && (event matches
                AppendEventView::Observed { seen, last } && seen.leader == a.proposal.node_id
                && last.index < u64::MAX) ==> {
                &&& action is Observe
                &&& after.proposal.log_id.index == event->last.index + 1
                &&& after.replication matches Some(r) && r.goal == ReplicationGoal::Prepare
                    && r.log_id == after.proposal.log_id
            }
            &&& a.replication is None && phase == ProposalPhase::Applying && event
                == AppendEventView::Done ==> {
                &&& action is Observe
                &&& after.replication matches Some(r) && r.goal == ReplicationGoal::Acknowledge
                    && r.log_id == a.proposal.log_id && r.result_known
            }
            &&& a.replication is None && phase == ProposalPhase::ReapplyingPending && event
                == AppendEventView::Done ==> {
                &&& action is Observe
                &&& after.replication matches Some(r) && r.goal == ReplicationGoal::Acknowledge
                    && r.log_id == a.proposal.log_id
            }
        }),
{
}

/// Whether a step of a replication is taken.
pub open spec fn steps_to(
    node_id: u64,
    endpoints: Seq<(u64, String)>,
    r: ReplicationView,
    answer: RoundEvent,
    action: ReplicationActionView,
) -> bool {
    replication_next(node_id, endpoints, r, ReplicationEventView::Answered(answer)).1 == action
}

/// What comes of the replication of an entry that is appended: a prepared entry
/// is applied, a replicated one is acknowledged, a pending one is acknowledged
/// where it is what was proposed, and an entry that was applied and could not be
/// replicated is rolled back.
pub proof fn replications_carry_appends(
    node_id: u64,
    endpoints: Seq<(u64, String)>,
    a: AppendView,
    r: ReplicationView,
    answer: RoundEvent,
    id: u64,
)
    requires
        a.replication == Some(r),
    ensures
        ({
            let (after, action) = append_next(
                node_id,
                endpoints,
                a,
                AppendEventView::Answered(answer),
            );
            let phase = a.proposal.phase;
            &&& steps_to(node_id, endpoints, r, answer, ReplicationActionView::Prepared) && phase
                == ProposalPhase::Preparing ==> action == AppendActionView::Apply(
                a.proposal.log_id,
            )
            &&& steps_to(node_id, endpoints, r, answer, ReplicationActionView::Acknowledge) && phase
                == ProposalPhase::Replicating ==> action == AppendActionView::Acknowledge
            &&& steps_to(node_id, endpoints, r, answer, ReplicationActionView::Acknowledge) && phase
                == ProposalPhase::ReplicatingPending ==> action == if a.proposal.same {
                AppendActionView::Acknowledge
            } else {
                AppendActionView::Observe { cleared: true }
            }
            &&& steps_to(node_id, endpoints, r, answer, ReplicationActionView::AskPrepare(id))
                ==> action == AppendActionView::AskPrepare(id)
            &&& steps_to(node_id, endpoints, r, answer, ReplicationActionView::AskApply(id))
                ==> action == AppendActionView::AskApply(id)
            &&& steps_to(node_id, endpoints, r, answer, ReplicationActionView::Install(id))
                ==> action == AppendActionView::Install(id)
            &&& (replication_next(
                node_id,
                endpoints,
                r,
                ReplicationEventView::Answered(answer),
            ).1 is Fail) && phase == ProposalPhase::Replicating ==> action
                == AppendActionView::Rollback
        }),
{
}

// ---------------------------------------------------------------------------
// Requests to the leader
// ---------------------------------------------------------------------------

/// A write that this node takes as the leader is done; a read, and whatever
/// another node takes, is done once the local state is read at the confirmed
/// position or beyond it, and fails where it is not there.
pub proof fn taken_requests_are_done(f: ForwardView, cursor: Option<LogId>, applied: LogId)
    ensures
        ({
            let (after, action) = forward_next(f, ForwardEventView::Accepted(cursor));
            let (_, end) = forward_next(after, ForwardEventView::Applied(applied));
            let there = match cursor {
                None => true,
                Some(c) => applied.index > c.index || applied == c,
            };
            &&& f.phase == ForwardPhase::Trying && f.write ==> action == ForwardActionView::Done
            &&& (f.phase == ForwardPhase::Trying && !f.write) || f.phase == ForwardPhase::Asking ==> {
                &&& action == ForwardActionView::ReadState
                &&& there ==> end == ForwardActionView::Done
                &&& !there ==> end is Fail
            }
        }),
{
}

/// A node that does not lead asks the leader that it was told of, or else the
/// one that it knows; and it follows a redirection to any node that it has not
/// asked, three nodes at most.
pub proof fn requests_follow_the_leader(
    f: ForwardView,
    named: Option<u64>,
    known: Option<u64>,
)
    ensures
        f.phase == ForwardPhase::Trying ==> follows(
            f,
            if named is Some {
                named
            } else {
                known
            },
            forward_next(f, ForwardEventView::NotLeader { named, known }),
        ),
        f.phase == ForwardPhase::Asking ==> follows(
            f,
            named,
            forward_next(f, ForwardEventView::Redirected(named)),
        ),
{
}

/// Whether a request went on to a node, where there is one to go on to.
pub open spec fn follows(
    f: ForwardView,
    target: Option<u64>,
    after: (ForwardView, ForwardActionView),
) -> bool {
    let can = f.gateway && f.visited.len() < 3 && target is Some && !f.visited.contains(target->0);
    &&& can ==> after.1 == ForwardActionView::Ask(target->0) && after.0.visited == f.visited.push(
        target->0,
    ) && after.0.phase == ForwardPhase::Asking && after.0.write == f.write && after.0.gateway
    &&& !can ==> after.1 is Fail
}

/// The search for the leader goes on exactly to a node that it is told of and
/// has not asked, while it has asked fewer than three.
pub proof fn searches_go_on(visited: Seq<u64>, target: Option<u64>)
    ensures
        redirect(visited, target) matches Ok(node) ==> target == Some(node),
        redirect(visited, target) is Ok <==> visited.len() < 3 && target is Some
            && !visited.contains(target->0),
{
}

// ---------------------------------------------------------------------------
// Replaying a log
// ---------------------------------------------------------------------------

/// A state can be brought up to its log exactly where it is healthy and of the
/// log's cluster, its position is a valid one, and it lies between the hard
/// cursor and the commit index, with the hard cursor's term where it is there.
pub proof fn fitting_states_are_replayed(hard: HardState, mark: StateMark)
    requires
        hard.commit_index < u64::MAX,
    ensures
        replay_start(hard, mark) is Ok <==> {
            &&& mark.healthy
            &&& mark.cluster_id@ == hard.cluster_id@
            &&& mark.cluster_incarnation == hard.cluster_incarnation
            &&& (mark.last_applied.index == 0) == (mark.last_applied.term == 0)
            &&& hard.last_applied.index <= mark.last_applied.index <= hard.commit_index
            &&& hard.last_applied.index == mark.last_applied.index ==> hard.last_applied.term
                == mark.last_applied.term
        },
        replay_start(hard, mark) matches Ok((r, action)) ==> {
            &&& mark.last_applied.index > hard.last_applied.index ==> action == ReplayAction::Read(
                (hard.last_applied.index + 1) as u64,
                mark.last_applied.index,
            )
            &&& mark.last_applied.index == hard.last_applied.index && mark.last_applied.index
                < hard.commit_index ==> action == ReplayAction::Read(
                (mark.last_applied.index + 1) as u64,
                hard.commit_index,
            )
            &&& mark.last_applied.index == hard.last_applied.index && mark.last_applied.index
                == hard.commit_index ==> (action matches ReplayAction::Done(p)
                && p.entries_applied == 0 && !p.reconciled_hard_cursor)
        },
{
}

/// The entries behind the state are applied one after the other: each is applied
/// and then marked, and with the last one the replay is done and says how many
/// there were.
pub proof fn entries_are_replayed(r: ReplayView, mark: StateMark, hard: HardState)
    requires
        r.phase == Phase::Applying,
        0 <= r.next < r.pending.len(),
        0 <= r.applied < usize::MAX,
        mark.healthy,
        mark.cluster_id@ == r.hard.cluster_id@,
        mark.cluster_incarnation == r.hard.cluster_incarnation,
        mark.last_applied == r.pending[r.next],
        mark.last_applied.index < u64::MAX,
        r.next + 1 < r.pending.len() ==> r.pending[r.next + 1].index == r.pending[r.next].index + 1,
    ensures
        ({
            let marked = replay_step(r, ReplayEvent::Applied(mark));
            &&& marked matches Some(Ok((m, action))) && action == ReplayAction::Mark(
                r.pending[r.next],
            ) && {
                let next = replay_step(m, ReplayEvent::Marked(hard));
                if r.next + 1 < r.pending.len() {
                    next matches Some(Ok((n, action))) && action == ReplayAction::Apply(
                        r.pending[r.next + 1],
                    ) && n.cursor == r.pending[r.next] && n.applied == r.applied + 1
                } else {
                    next matches Some(Ok((n, action))) && (action matches ReplayAction::Done(p)
                        && p.entries_applied == r.applied + 1 && p.reconciled_hard_cursor
                        == r.reconciled) && n.cursor == r.pending[r.next]
                }
            }
        }),
{
}

/// The entries that were read are applied from the first on, where they are as
/// many as are committed and not applied.
pub proof fn committed_entries_are_taken(r: ReplayView, ids: Vec<LogId>)
    requires
        r.phase == Phase::ReadingRange,
        r.cursor.index < r.hard.commit_index,
        r.hard.commit_index - r.cursor.index <= usize::MAX,
        ids@.len() > 0 ==> ids@[0].index == r.cursor.index + 1,
    ensures
        ids@.len() == r.hard.commit_index - r.cursor.index ==> (replay_step(
            r,
            ReplayEvent::Read(ids),
        ) matches Some(Ok((n, action))) && action == ReplayAction::Apply(ids@[0]) && n.pending
            == ids@ && n.next == 0),
        ids@.len() != r.hard.commit_index - r.cursor.index ==> (replay_step(
            r,
            ReplayEvent::Read(ids),
        ) matches Some(Err(_))),
{
}

// ---------------------------------------------------------------------------
// The log
// ---------------------------------------------------------------------------

/// Whether entries may follow a term at an index: of the log's cluster, with
/// indexes that follow one another and terms that never fall, none of them zero
/// or higher than the current term.
pub open spec fn may_follow(
    state: HardState,
    from: int,
    prior: u64,
    entries: Seq<ConsensusLogEntry>,
) -> bool {
    forall|i: int|
        0 <= i < entries.len() ==> {
            let e = #[trigger] entries[i];
            &&& e.cluster_id@ == state.cluster_id@
            &&& e.cluster_incarnation == state.cluster_incarnation
            &&& e.log_id.index == from + i
            &&& 0 < e.log_id.term <= state.current_term
            &&& prior <= e.log_id.term
            &&& i > 0 ==> entries[i - 1].log_id.term <= e.log_id.term
        }
}

proof fn lemma_following_entries(
    state: HardState,
    from: int,
    prior: u64,
    entries: Seq<ConsensusLogEntry>,
)
    requires
        may_follow(state, from, prior, entries),
        0 <= from,
        from + entries.len() <= u64::MAX,
    ensures
        replacement_verdict(state, from, prior, entries) is Ok,
    decreases entries.len(),
{
    if entries.len() > 0 {
        let e = entries[0];
        let rest = entries.drop_first();
        assert(e == entries[0]);
        assert forall|i: int| 0 <= i < rest.len() implies {
            let x = #[trigger] rest[i];
            &&& x.cluster_id@ == state.cluster_id@
            &&& x.cluster_incarnation == state.cluster_incarnation
            &&& x.log_id.index == from + 1 + i
            &&& 0 < x.log_id.term <= state.current_term
            &&& e.log_id.term <= x.log_id.term
            &&& i > 0 ==> rest[i - 1].log_id.term <= x.log_id.term
        } by {
            assert(rest[i] == entries[i + 1]);
            if i > 0 {
                assert(rest[i - 1] == entries[i]);
            }
            lemma_terms_rise(state, from, prior, entries, i + 1);
        }
        lemma_following_entries(state, from + 1, e.log_id.term, rest);
    }
}

proof fn lemma_terms_rise(
    state: HardState,
    from: int,
    prior: u64,
    entries: Seq<ConsensusLogEntry>,
    i: int,
)
    requires
        may_follow(state, from, prior, entries),
        0 <= i < entries.len(),
    ensures
        entries[0].log_id.term <= entries[i].log_id.term,
    decreases i,
{
    if i > 0 {
        lemma_terms_rise(state, from, prior, entries, i - 1);
        assert(entries[i - 1].log_id.term <= entries[i].log_id.term);
    }
}

/// An uncommitted end of a log is replaced by every list of entries that may
/// follow the entry before it: behind what was purged by the term of that, and
/// elsewhere by the term of the entry that is found there.
pub proof fn following_entries_are_taken(
    state: HardState,
    from_index: u64,
    found: Option<u64>,
    entries: Seq<ConsensusLogEntry>,
    prior: u64,
)
    requires
        from_index > state.commit_index,
        from_index > state.purged_through.index,
        from_index + entries.len() <= u64::MAX,
        from_index == state.purged_through.index + 1 ==> prior == state.purged_through.term,
        from_index != state.purged_through.index + 1 ==> found == Some(prior),
        may_follow(state, from_index as int, prior, entries),
    ensures
        suffix_verdict(state, from_index, found, entries) is Ok,
{
    if entries.len() > 0 {
        assert(entries[0].log_id.index == from_index);
        lemma_following_entries(state, from_index as int, prior, entries);
    }
}

// ---------------------------------------------------------------------------
// Starting a node
// ---------------------------------------------------------------------------

/// A node starts exactly where it is to initialize and finds nothing, or is not
/// to and finds a commit cursor, or finds no members and may be given some by
/// its peers.
pub proof fn nodes_start_on_fitting_state(
    initialize: bool,
    found: DurableState,
    authenticated: bool,
)
    ensures
        startup_fault(initialize, found, authenticated) is None <==> if initialize {
            !found.state_initialized && !found.committed && !found.log_nonempty
        } else {
            found.committed || (authenticated && !found.state_initialized)
        },
{
}

proof fn lemma_known_voters(
    id: TransportTlsIdentity,
    node_id: u64,
    voters: Seq<(u64, String)>,
    i: int,
)
    requires
        0 <= i <= voters.len(),
    ensures
        unknown_voter(id, node_id, voters, i) is None <==> forall|k: int|
            i <= k < voters.len() ==> (#[trigger] voters[k]).0 == node_id || has_node(
                id.peers@,
                voters[k].0,
            ),
    decreases voters.len() - i,
{
    if i < voters.len() {
        lemma_known_voters(id, node_id, voters, i + 1);
        if voters[i].0 != node_id && !has_node(id.peers@, voters[i].0) {
            assert(!(voters[i].0 == node_id || has_node(id.peers@, voters[i].0)));
        }
    }
}

/// A node of an authenticated group is opened exactly where its transport is
/// its own and complete, three or five voters are listed, all of them the node
/// or its peers and at their peers' addresses, it listens on a port, and only
/// the first voter is to initialize.
pub proof fn fitting_nodes_are_opened(
    node_id: u64,
    cluster_id: Seq<u8>,
    cluster_incarnation: u64,
    initialize: bool,
    id: TransportTlsIdentity,
    voters: Seq<(u64, String)>,
    listen_port: u16,
)
    ensures
        opening_verdict(
            node_id,
            cluster_id,
            cluster_incarnation,
            initialize,
            id,
            voters,
            listen_port,
        ) is Ok <==> {
            &&& id.node_id == node_id && id.cluster_id@ == cluster_id && id.cluster_incarnation
                == cluster_incarnation
            &&& identity_verdict(id) is Ok
            &&& voters.len() == 3 || voters.len() == 5
            &&& listen_port > 0
            &&& forall|k: int|
                0 <= k < voters.len() ==> (#[trigger] voters[k]).0 == node_id || has_node(
                    id.peers@,
                    voters[k].0,
                )
            &&& forall|i: int|
                0 <= i < id.peers@.len() && has_node(voters, (#[trigger] id.peers@[i]).0)
                    ==> node_value(voters, id.peers@[i].0)->0@ == id.peers@[i].1.endpoint@
            &&& initialize ==> node_id == voters[0].0
        },
{
    lemma_known_voters(id, node_id, voters, 0);
    if misplaced_peer(id.peers@, voters) {
        let i = choose|i: int|
            0 <= i < id.peers@.len() && has_node(voters, (#[trigger] id.peers@[i]).0) && node_value(
                voters,
                id.peers@[i].0,
            )->0@ != id.peers@[i].1.endpoint@;
        assert(has_node(voters, id.peers@[i].0));
    }
}

proof fn lemma_durable_members(
    node_id: u64,
    id: TransportTlsIdentity,
    nodes: Seq<(u64, String)>,
    i: int,
)
    requires
        0 <= i <= nodes.len(),
    ensures
        members_verdict(node_id, id, nodes, i) is Ok <==> forall|k: int|
            i <= k < nodes.len() ==> (#[trigger] nodes[k]).0 == node_id || (has_node(
                id.peers@,
                nodes[k].0,
            ) && nodes[k].1@ == node_value(id.peers@, nodes[k].0)->0.endpoint@),
    decreases nodes.len() - i,
{
    if i < nodes.len() {
        lemma_durable_members(node_id, id, nodes, i + 1);
        if members_verdict(node_id, id, nodes, i) is Err && members_verdict(
            node_id,
            id,
            nodes,
            i + 1,
        ) is Ok {
            assert(!(nodes[i].0 == node_id || (has_node(id.peers@, nodes[i].0) && nodes[i].1@
                == node_value(id.peers@, nodes[i].0)->0.endpoint@)));
        }
    }
}

/// Members that are found in durable state are accepted exactly where they are
/// the node alone, without peers, or where with peers the node is among them
/// and every other one is a peer at its address.
pub proof fn fitting_members_are_accepted(
    node_id: u64,
    stored: Option<DurableMembers>,
    id: Option<TransportTlsIdentity>,
)
    ensures
        durable_verdict(node_id, stored, id) is Ok <==> node_id != 0 && match (stored, id) {
            (None, _) => true,
            (Some(m), None) => m.voters@ == seq![node_id] && m.learners@.len() == 0,
            (Some(m), Some(id)) => has_node(m.nodes@, node_id) && forall|k: int|
                0 <= k < m.nodes@.len() ==> (#[trigger] m.nodes@[k]).0 == node_id || (has_node(
                    id.peers@,
                    m.nodes@[k].0,
                ) && m.nodes@[k].1@ == node_value(id.peers@, m.nodes@[k].0)->0.endpoint@),
        },
{
    if let (Some(m), Some(id)) = (stored, id) {
        lemma_durable_members(node_id, id, m.nodes@, 0);
    }
}

} // verus!
