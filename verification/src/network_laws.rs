//! What a group of peers gets done: which requests are taken, which entries are
//! applied, who leads, and how an entry comes to be acknowledged.

use crate::command::ReplicatedCommandV1;
use crate::ids::LogId;
use crate::network::{
    answer_to, askable, authority_verdict, bootstrap_verdict, may_lead, observation_error,
    reachable, round_start, round_step, well, HeldState, NetworkConsensus, PeerAnswerView,
    PeerIdentity, PeerQuestion, PeerStatus, RoundAction, RoundEvent, RoundKind, RoundPhase,
    RoundView, Target,
};
use crate::node_map::has_node;
use crate::proposal::{proposal_step, Proposal, ProposalAction, ProposalEvent, ProposalPhase};
use crate::reading::{read_next, ReadActionView, ReadEventView, ReadPhase};
use vstd::prelude::*;

verus! {

// ---------------------------------------------------------------------------
// Requests
// ---------------------------------------------------------------------------

/// A request is taken exactly from a member, voter or learner, of the node's
/// own cluster and incarnation.
pub proof fn members_are_heard(node: NetworkConsensus, who: PeerIdentity)
    ensures
        node.request_verdict(who) is Ok <==> who.cluster_id@ == node.cluster_id@
            && who.cluster_incarnation == node.cluster_incarnation && (exists|i: int|
            0 <= i < (node.voters@ + node.learners@).len() && #[trigger] (node.voters@
                + node.learners@)[i] == who.from),
{
    let all = node.voters@ + node.learners@;
    if node.voters@.contains(who.from) {
        let i = choose|i: int| 0 <= i < node.voters@.len() && node.voters@[i] == who.from;
        assert(all[i] == who.from);
    }
    if node.learners@.contains(who.from) {
        let i = choose|i: int| 0 <= i < node.learners@.len() && node.learners@[i] == who.from;
        assert(all[node.voters@.len() + i] == who.from);
    }
    if exists|i: int| 0 <= i < all.len() && #[trigger] all[i] == who.from {
        let i = choose|i: int| 0 <= i < all.len() && #[trigger] all[i] == who.from;
        if i < node.voters@.len() {
            assert(node.voters@[i] == who.from);
        } else {
            assert(node.learners@[i - node.voters@.len()] == who.from);
        }
    }
}

/// A member applies an entry for its leader exactly where its state has come at
/// least to the entry before it; where entries are missing it says which it
/// expects, and for another node than the leader it applies nothing.
pub proof fn followers_apply_the_next_entry(
    from: u64,
    leader_id: u64,
    log_id: LogId,
    healthy: bool,
    current: LogId,
)
    ensures
        ({
            let answer = answer_to(
                from,
                PeerQuestion::Apply { leader_id, log_id },
                healthy,
                current,
            );
            &&& answer == PeerAnswerView::Apply(log_id) <==> from == leader_id && log_id.index
                <= current.index + 1
            &&& from == leader_id && log_id.index > current.index + 1 ==> answer == (
            PeerAnswerView::NeedCatchUp {
                expected: LogId { term: current.term, index: (current.index + 1) as u64 },
                actual: log_id,
            })
            &&& from != leader_id ==> answer is Error
        }),
{
}

/// A healthy member prepares an entry exactly where its state has come at least
/// to the entry before it; where entries are missing it says which it expects,
/// and an unhealthy one prepares nothing.
pub proof fn followers_prepare_the_next_entry(
    from: u64,
    log_id: LogId,
    healthy: bool,
    current: LogId,
)
    ensures
        ({
            let answer = answer_to(from, PeerQuestion::Prepare { log_id }, healthy, current);
            &&& answer == PeerAnswerView::Prepared <==> healthy && log_id.index <= current.index
                + 1
            &&& healthy && log_id.index > current.index + 1 ==> answer == (
            PeerAnswerView::NeedCatchUp {
                expected: LogId { term: current.term, index: (current.index + 1) as u64 },
                actual: log_id,
            })
            &&& !healthy ==> answer is Error
        }),
{
}

/// Fed by one leader with the entries behind its state one after the other, a
/// member applies every one of them.
pub proof fn followers_apply_in_log_order(
    leader: u64,
    healthy: bool,
    start: LogId,
    entries: Seq<LogId>,
    k: int,
)
    requires
        forall|i: int|
            0 <= i < entries.len() ==> (#[trigger] entries[i]).index == start.index + 1 + i,
        0 <= k < entries.len(),
    ensures
        ({
            let current = if k == 0 {
                start
            } else {
                entries[k - 1]
            };
            answer_to(
                leader,
                PeerQuestion::Apply { leader_id: leader, log_id: entries[k] },
                healthy,
                current,
            ) == PeerAnswerView::Apply(entries[k])
        }),
{
    if k > 0 {
        assert(entries[k - 1].index == start.index + k);
    }
    assert(entries[k].index == start.index + 1 + k);
}

/// Every other question is answered as what it is; a snapshot is installed for
/// the leader that it names and for no other node, and a proposal goes on for
/// the node that made it.
pub proof fn questions_are_answered(from: u64, healthy: bool, current: LogId, leader_id: u64)
    ensures
        answer_to(from, PeerQuestion::Ping, healthy, current) == PeerAnswerView::Pong,
        answer_to(from, PeerQuestion::Status, healthy, current) == PeerAnswerView::Status,
        answer_to(from, PeerQuestion::ReadBarrier, healthy, current) == PeerAnswerView::Barrier,
        answer_to(from, PeerQuestion::Snapshot, healthy, current) == PeerAnswerView::Snapshot,
        answer_to(from, PeerQuestion::Propose, healthy, current) == PeerAnswerView::Propose(from),
        answer_to(from, PeerQuestion::Install { leader_id }, healthy, current)
            == PeerAnswerView::Install <==> from == leader_id,
        from != leader_id ==> answer_to(
            from,
            PeerQuestion::Install { leader_id },
            healthy,
            current,
        ) is Error,
{
}

/// A command that belongs to an origin may be appended exactly by the node of
/// that origin, and any other command by every member.
pub proof fn commands_are_appended_for_their_node(requester: u64, command: ReplicatedCommandV1)
    ensures
        authority_verdict(requester, command) is Ok <==> match command {
            ReplicatedCommandV1::ActivateOrigin(a) => requester == a.origin.node_id,
            ReplicatedCommandV1::CommitTransaction(c) => requester == c.request_id.origin.node_id,
            ReplicatedCommandV1::SchemaChange(c) => requester == c.request_id.origin.node_id,
            ReplicatedCommandV1::Noop => true,
            ReplicatedCommandV1::Membership { .. } => true,
        },
{
}

/// A group is bootstrapped exactly by its first voter, and only where nothing
/// was ever applied or is held.
pub proof fn first_voters_bootstrap_empty_groups(
    node_id: u64,
    voters: Seq<u64>,
    held: HeldState,
)
    ensures
        bootstrap_verdict(node_id, voters, held) is Ok <==> voters.len() > 0 && node_id == voters[0]
            && held.last_applied.term == 0 && held.last_applied.index == 0 && held.db_epoch == 0
            && held.entries + held.origins + held.tables == 0,
{
}

// ---------------------------------------------------------------------------
// The leader
// ---------------------------------------------------------------------------

proof fn lemma_reachable(voters: Seq<u64>, statuses: Seq<PeerStatus>)
    ensures
        reachable(voters, statuses) == statuses.filter(
            |s: PeerStatus| voters.contains(s.node_id),
        ).len(),
    decreases statuses.len(),
{
    reveal(Seq::filter);
    if statuses.len() > 0 {
        lemma_reachable(voters, statuses.drop_last());
    }
}

/// A group is led exactly where it has voters, none of them zero and none of
/// them a learner too, and more than half as many statuses of voters came in.
pub proof fn majorities_are_led(
    voters: Seq<u64>,
    learners: Seq<u64>,
    statuses: Seq<PeerStatus>,
)
    ensures
        observation_error(voters, learners, statuses) is None <==> {
            &&& voters.len() > 0
            &&& !voters.contains(0)
            &&& forall|id: u64| #[trigger] voters.contains(id) ==> !learners.contains(id)
            &&& 2 * statuses.filter(|s: PeerStatus| voters.contains(s.node_id)).len()
                > voters.len()
        },
{
    lemma_reachable(voters, statuses);
    if forall|id: u64| #[trigger] voters.contains(id) ==> !learners.contains(id) {
        assert(!crate::members::overlap(voters, learners));
    } else {
        let id = choose|id: u64| #[trigger] voters.contains(id) && learners.contains(id);
        assert(crate::members::overlap(voters, learners));
    }
}

/// The leader is a voter whose status came in, and of the voters' statuses none
/// is ahead of it: none has a higher index, none at the same index a higher
/// term, and none at the same position a lower number.
pub proof fn leaders_are_the_freshest(
    voters: Seq<u64>,
    statuses: Seq<PeerStatus>,
    leader: u64,
    log_id: LogId,
    k: int,
)
    requires
        may_lead(voters, statuses, leader, log_id),
        0 <= k < statuses.len(),
        voters.contains(statuses[k].node_id),
    ensures
        voters.contains(leader),
        exists|i: int|
            0 <= i < statuses.len() && (#[trigger] statuses[i]).node_id == leader
                && statuses[i].last_applied == log_id,
        ({
            let other = statuses[k].last_applied;
            ||| other.index < log_id.index
            ||| other.index == log_id.index && other.term < log_id.term
            ||| other.index == log_id.index && other.term == log_id.term && leader
                <= statuses[k].node_id
        }),
{
}

/// Of the statuses that others sent exactly those count that say that their
/// member is well.
pub proof fn unwell_members_do_not_count(statuses: Seq<PeerStatus>)
    ensures
        well(statuses) == statuses.filter(|s: PeerStatus| s.healthy),
    decreases statuses.len(),
{
    reveal(Seq::filter);
    if statuses.len() > 0 {
        unwell_members_do_not_count(statuses.drop_last());
    }
}

/// Exactly the other members with a known address are asked, in order.
pub proof fn others_with_an_address_are_asked(
    ids: Seq<u64>,
    node_id: u64,
    endpoints: Seq<(u64, String)>,
)
    ensures
        askable(ids, node_id, endpoints) == ids.filter(
            |id: u64| id != node_id && has_node(endpoints, id),
        ),
    decreases ids.len(),
{
    reveal(Seq::filter);
    if ids.len() > 0 {
        others_with_an_address_are_asked(ids.drop_last(), node_id, endpoints);
    }
}

// ---------------------------------------------------------------------------
// Rounds
// ---------------------------------------------------------------------------

/// Whether a member that is known to stand at a position misses entries before
/// one that it is to prepare or apply.
pub open spec fn misses_entries(kind: RoundKind, last: Option<LogId>, log_id: LogId) -> bool {
    match last {
        None => false,
        Some(last) => last.index + 1 < log_id.index && (kind == RoundKind::Apply ==> last.term
            <= log_id.term),
    }
}

/// A round begins with the node itself as the one that accepted, and at the
/// first member.
pub proof fn rounds_begin_with_the_node(
    kind: RoundKind,
    log_id: LogId,
    node_id: u64,
    voters: Seq<u64>,
    targets: Seq<Target>,
)
    ensures
        ({
            let (r, action) = round_start(kind, log_id, node_id, voters, targets);
            &&& r.kind == kind && r.log_id == log_id && r.voters == voters && r.targets == targets
            &&& r.at == 0
            &&& r.accepted == seq![node_id]
            &&& targets.len() == 0 ==> action == RoundAction::Finish(2 * 1 > voters.len())
            &&& targets.len() > 0 ==> action == if misses_entries(
                kind,
                targets[0].last_applied,
                log_id,
            ) {
                RoundAction::Install(targets[0].node_id)
            } else {
                RoundAction::Ask(targets[0].node_id)
            }
        }),
{
}

/// Whether a round went on from a member: to the next one, which is asked, or
/// repaired first where it misses entries, or to its end, which is a success
/// exactly where more than half of the voters accepted.
pub open spec fn goes_on(
    r: RoundView,
    after: (RoundView, RoundAction),
    accepted: Seq<u64>,
) -> bool {
    &&& after.0.at == r.at + 1
    &&& after.0.accepted == accepted
    &&& after.0.kind == r.kind && after.0.log_id == r.log_id && after.0.voters == r.voters
        && after.0.targets == r.targets
    &&& r.at + 1 >= r.targets.len() ==> after.1 == RoundAction::Finish(
        2 * accepted.len() > r.voters.len(),
    )
    &&& r.at + 1 < r.targets.len() ==> after.1 == if misses_entries(
        r.kind,
        r.targets[r.at + 1].last_applied,
        r.log_id,
    ) {
        RoundAction::Install(r.targets[r.at + 1].node_id)
    } else {
        RoundAction::Ask(r.targets[r.at + 1].node_id)
    }
}

/// A member that accepts is counted where it is a voter; one that refuses is
/// passed over. One that misses entries gets a snapshot and is asked again, but
/// while an entry is only prepared it is passed over; and one on which a
/// snapshot was installed is asked.
pub proof fn rounds_go_from_member_to_member(r: RoundView, event: RoundEvent)
    requires
        0 <= r.at < r.targets.len(),
    ensures
        ({
            let after = round_step(r, event);
            let id = r.targets[r.at].node_id;
            let asking = r.phase == RoundPhase::Asking || r.phase == RoundPhase::AskingAgain;
            let waiting = r.phase == RoundPhase::Repairing || r.phase == RoundPhase::CatchingUp;
            let with_it = if r.voters.contains(id) {
                r.accepted.push(id)
            } else {
                r.accepted
            };
            &&& asking && event == RoundEvent::Accepted ==> goes_on(r, after, with_it)
            &&& asking && event == RoundEvent::Refused ==> goes_on(r, after, r.accepted)
            &&& r.phase == RoundPhase::Asking && event == RoundEvent::NeedCatchUp ==> if r.kind
                == RoundKind::Apply {
                after.1 == RoundAction::Install(id) && after.0.at == r.at && after.0.accepted
                    == r.accepted && after.0.phase == RoundPhase::CatchingUp
            } else {
                goes_on(r, after, r.accepted)
            }
            &&& waiting && event == RoundEvent::Installed(true) ==> after.1 == RoundAction::Ask(id)
                && after.0.at == r.at && after.0.accepted == r.accepted && (after.0.phase
                == RoundPhase::Asking || after.0.phase == RoundPhase::AskingAgain)
            &&& waiting && event == RoundEvent::Installed(false) ==> goes_on(
                r,
                after,
                r.accepted,
            )
        }),
{
}

// ---------------------------------------------------------------------------
// Proposals
// ---------------------------------------------------------------------------

/// A proposal of the leader to which nothing happens goes through: it takes the
/// position behind the state, in no lower term than the state's and its own,
/// and that entry is prepared, applied and replicated in this order, and then
/// acknowledged.
pub proof fn proposals_go_through(p: Proposal, last: LogId)
    requires
        p.phase == ProposalPhase::Observing,
        last.index < u64::MAX,
    ensures
        ({
            let (p1, a1) = proposal_step(p, ProposalEvent::Leader(p.node_id, last));
            let (p2, a2) = proposal_step(p1, ProposalEvent::Done(true));
            let (p3, a3) = proposal_step(p2, ProposalEvent::Done(true));
            let (_, a4) = proposal_step(p3, ProposalEvent::Done(true));
            let id = p1.log_id;
            &&& id.index == last.index + 1
            &&& id.term >= p.term && id.term >= last.term && (id.term == p.term || id.term
                == last.term)
            &&& a1 == ProposalAction::Prepare(id)
            &&& a2 == ProposalAction::Apply(id)
            &&& a3 == ProposalAction::Replicate(id)
            &&& a4 == ProposalAction::Acknowledge
        }),
{
}

/// A pending entry is applied and replicated first; where it is what is
/// proposed that is all, and else the group is looked at for a new position.
pub proof fn pending_entries_go_first(p: Proposal)
    requires
        p.phase == ProposalPhase::ReapplyingPending,
    ensures
        ({
            let (p1, a1) = proposal_step(p, ProposalEvent::Done(true));
            let (p2, a2) = proposal_step(p1, ProposalEvent::Done(true));
            &&& a1 == ProposalAction::ReplicatePending(p.log_id)
            &&& p.same ==> a2 == ProposalAction::Acknowledge
            &&& !p.same ==> a2 == ProposalAction::Observe && p2.phase == ProposalPhase::Observing
            &&& proposal_step(p, ProposalEvent::Done(false)).1 == ProposalAction::Fail(true)
            &&& proposal_step(p1, ProposalEvent::Done(false)).1 == ProposalAction::Fail(true)
        }),
{
}

/// A proposal gives up where another node leads or too few members prepared its
/// entry, and then nothing stays pending.
pub proof fn unprepared_proposals_leave_nothing(p: Proposal, leader: u64, last: LogId)
    ensures
        p.phase == ProposalPhase::Observing && leader != p.node_id ==> proposal_step(
            p,
            ProposalEvent::Leader(leader, last),
        ).1 == ProposalAction::Fail(false),
        p.phase == ProposalPhase::Preparing || p.phase == ProposalPhase::Applying ==> proposal_step(
            p,
            ProposalEvent::Done(false),
        ).1 == ProposalAction::Fail(false),
{
}

// ---------------------------------------------------------------------------
// Reads
// ---------------------------------------------------------------------------

/// On the leader a read goes by the leader's own position, and on another node
/// by the position that the leader says; it is served at once where the local
/// state has come there.
pub proof fn reads_at_the_barrier_are_served(
    node_id: u64,
    endpoints: Seq<(u64, String)>,
    leader: u64,
    barrier: LogId,
    local: LogId,
)
    requires
        local.index >= barrier.index,
    ensures
        ({
            let (phase, action) = read_next(
                node_id,
                endpoints,
                ReadPhase::Observing,
                ReadEventView::Observed { leader, log_id: barrier },
            );
            &&& leader == node_id ==> action == ReadActionView::ReadLocal && read_next(
                node_id,
                endpoints,
                phase,
                ReadEventView::Stands(local),
            ).1 == ReadActionView::Serve
            &&& leader != node_id && has_node(endpoints, leader) ==> action is AskBarrier && {
                let (asked, next) = read_next(
                    node_id,
                    endpoints,
                    phase,
                    ReadEventView::Barrier(barrier),
                );
                next == ReadActionView::ReadLocal && read_next(
                    node_id,
                    endpoints,
                    asked,
                    ReadEventView::Stands(local),
                ).1 == ReadActionView::Serve
            }
            &&& leader != node_id && !has_node(endpoints, leader) ==> action is Fail
        }),
{
}

/// A node that is behind the barrier fetches the leader's state, installs it
/// where it is not older than its own, and serves the read once it has come to
/// the barrier; where it has not, the read fails.
pub proof fn reads_behind_the_barrier_catch_up(
    node_id: u64,
    endpoints: Seq<(u64, String)>,
    barrier: LogId,
    local: LogId,
    snapshot: LogId,
    synced: LogId,
)
    requires
        local.index < barrier.index,
    ensures
        ({
            let next = |phase: ReadPhase, event: ReadEventView|
                read_next(node_id, endpoints, phase, event);
            let (p1, a1) = next(
                ReadPhase::ReadingLocal { leads: false, barrier },
                ReadEventView::Stands(local),
            );
            let (p2, a2) = next(p1, ReadEventView::Snapshot(snapshot));
            let (p3, a3) = next(p2, ReadEventView::Stands(local));
            let (p4, a4) = next(p3, ReadEventView::Installed);
            let (_, a5) = next(p4, ReadEventView::Stands(synced));
            &&& a1 == ReadActionView::FetchSnapshot
            &&& a2 == ReadActionView::ReadLocal
            &&& snapshot.index < local.index ==> a3 is Fail
            &&& snapshot.index >= local.index ==> a3 == ReadActionView::Install && a4
                == ReadActionView::ReadLocal && if synced.index >= barrier.index {
                a5 == ReadActionView::Serve
            } else {
                a5 is Fail
            }
        }),
{
}

} // verus!
