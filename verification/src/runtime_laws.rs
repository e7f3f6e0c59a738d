//! How a node comes up, serves its requests and goes down, and how a group in
//! memory counts its members.

use crate::cluster::{
    has_quorum, healthy_count, healthy_ids, highest, ids_where, leads, log_before, voter_count,
    votes, Replica,
};
use crate::ids::LogId;
use crate::runtime::{at_cursor, settings_fault, RuntimeOperation};
use crate::runtime_machine::{
    is_starting, next, ActionView, AnswerView, EventView, RuntimePhase, RuntimeRequest, RuntimeView,
};
use vstd::prelude::*;

verus! {

// ---------------------------------------------------------------------------
// Coming up
// ---------------------------------------------------------------------------

/// The actions of a runtime on events, one after another.
pub open spec fn actions(r: RuntimeView, events: Seq<EventView>) -> Seq<ActionView>
    decreases events.len(),
{
    if events.len() == 0 {
        Seq::empty()
    } else {
        let (later, action) = next(r, events[0]);
        seq![action] + actions(later, events.drop_first())
    }
}

/// So many steps that went well.
pub open spec fn went_well(count: nat) -> Seq<EventView> {
    Seq::new(count, |i: int| EventView::Done(false))
}

proof fn lemma_step(r: RuntimeView, count: nat)
    requires
        count > 0,
    ensures
        actions(r, went_well(count)) == seq![next(r, EventView::Done(false)).1] + actions(
            next(r, EventView::Done(false)).0,
            went_well((count - 1) as nat),
        ),
{
    assert(went_well(count)[0] == EventView::Done(false));
    assert(went_well(count).drop_first() =~= went_well((count - 1) as nat));
}

/// A node alone that starts a group opens its log and its node, makes itself
/// the only member, waits until it leads, and reports.
#[verifier::spinoff_prover]
pub proof fn single_nodes_come_up(r: RuntimeView)
    requires
        r.phase == RuntimePhase::ReadingCommitted,
        !r.authenticated,
        r.initialize,
        !r.state_initialized,
    ensures
        actions(r, went_well(7)) == seq![
            ActionView::ReadLogState,
            ActionView::Configure,
            ActionView::OpenNode,
            ActionView::Initialize,
            ActionView::AwaitLeadership,
            ActionView::ReportStarted,
            ActionView::AwaitRequest,
        ],
{
    let done = EventView::Done(false);
    let (r1, _) = next(r, done);
    let (r2, _) = next(r1, done);
    let (r3, _) = next(r2, done);
    let (r4, _) = next(r3, done);
    let (r5, _) = next(r4, done);
    let (r6, _) = next(r5, done);
    let (r7, _) = next(r6, done);
    lemma_step(r, 7);
    lemma_step(r1, 6);
    lemma_step(r2, 5);
    lemma_step(r3, 4);
    lemma_step(r4, 3);
    lemma_step(r5, 2);
    lemma_step(r6, 1);
    assert(actions(r7, went_well(0)) == Seq::<ActionView>::empty());
}

/// A node with peers binds its address before it opens anything, connects its
/// peers, opens its node, and serves before it reports; the one that starts the
/// group makes its members and waits until it leads.
#[verifier::spinoff_prover]
pub proof fn nodes_with_peers_come_up(r: RuntimeView)
    requires
        r.phase == RuntimePhase::ReadingCommitted,
        r.authenticated,
        !r.state_initialized,
    ensures
        actions(r, went_well(9)) == seq![
            ActionView::ReadLogState,
            ActionView::Bind,
            ActionView::Configure,
            ActionView::ConnectPeers,
            ActionView::OpenNode,
            ActionView::MakeService,
            ActionView::ReadServerTls,
            ActionView::ConfigureServer,
            ActionView::StartServer,
        ],
        r.initialize ==> actions(r, went_well(13)) == actions(r, went_well(9)) + seq![
            ActionView::Initialize,
            ActionView::AwaitLeadership,
            ActionView::ReportStarted,
            ActionView::AwaitRequest,
        ],
        !r.initialize ==> actions(r, went_well(11)) == actions(r, went_well(9)) + seq![
            ActionView::ReportStarted,
            ActionView::AwaitRequest,
        ],
{
    let done = EventView::Done(false);
    let (r1, _) = next(r, done);
    let (r2, _) = next(r1, done);
    let (r3, _) = next(r2, done);
    let (r4, _) = next(r3, done);
    let (r5, _) = next(r4, done);
    let (r6, _) = next(r5, done);
    let (r7, _) = next(r6, done);
    let (r8, _) = next(r7, done);
    let (r9, _) = next(r8, done);
    lemma_nine(r, 0);
    assert(actions(r9, went_well(0)) == Seq::<ActionView>::empty());
    if r.initialize {
        lemma_nine(r, 4);
        let (s1, _) = next(r9, done);
        let (s2, _) = next(s1, done);
        let (s3, _) = next(s2, done);
        let (s4, _) = next(s3, done);
        lemma_step(r9, 4);
        lemma_step(s1, 3);
        lemma_step(s2, 2);
        lemma_step(s3, 1);
        assert(actions(s4, went_well(0)) == Seq::<ActionView>::empty());
        assert(actions(r9, went_well(4)) =~= seq![
            ActionView::Initialize,
            ActionView::AwaitLeadership,
            ActionView::ReportStarted,
            ActionView::AwaitRequest,
        ]);
    } else {
        lemma_nine(r, 2);
        let (s1, _) = next(r9, done);
        let (s2, _) = next(s1, done);
        lemma_step(r9, 2);
        lemma_step(s1, 1);
        assert(actions(s2, went_well(0)) == Seq::<ActionView>::empty());
        assert(actions(r9, went_well(2)) =~= seq![
            ActionView::ReportStarted,
            ActionView::AwaitRequest,
        ]);
    }
}

#[verifier::spinoff_prover]
proof fn lemma_nine(r: RuntimeView, more: nat)
    requires
        r.phase == RuntimePhase::ReadingCommitted,
        r.authenticated,
        !r.state_initialized,
    ensures
        ({
            let done = EventView::Done(false);
            let (r1, _) = next(r, done);
            let (r2, _) = next(r1, done);
            let (r3, _) = next(r2, done);
            let (r4, _) = next(r3, done);
            let (r5, _) = next(r4, done);
            let (r6, _) = next(r5, done);
            let (r7, _) = next(r6, done);
            let (r8, _) = next(r7, done);
            let (r9, _) = next(r8, done);
            &&& actions(r, went_well(9 + more)) == seq![
                ActionView::ReadLogState,
                ActionView::Bind,
                ActionView::Configure,
                ActionView::ConnectPeers,
                ActionView::OpenNode,
                ActionView::MakeService,
                ActionView::ReadServerTls,
                ActionView::ConfigureServer,
                ActionView::StartServer,
            ] + actions(r9, went_well(more))
            &&& r9.phase == RuntimePhase::StartingServer
            &&& r9.initialize == r.initialize && r9.authenticated
        }),
{
    let done = EventView::Done(false);
    let (r1, _) = next(r, done);
    let (r2, _) = next(r1, done);
    let (r3, _) = next(r2, done);
    let (r4, _) = next(r3, done);
    let (r5, _) = next(r4, done);
    let (r6, _) = next(r5, done);
    let (r7, _) = next(r6, done);
    let (r8, _) = next(r7, done);
    let (r9, _) = next(r8, done);
    lemma_step(r, 9 + more);
    lemma_step(r1, 8 + more);
    lemma_step(r2, 7 + more);
    lemma_step(r3, 6 + more);
    lemma_step(r4, 5 + more);
    lemma_step(r5, 4 + more);
    lemma_step(r6, 3 + more);
    lemma_step(r7, 2 + more);
    lemma_step(r8, 1 + more);
}

/// Whether a failure has to shut the node down.
pub open spec fn shuts_down(r: RuntimeView, text: Seq<char>) -> bool {
    next(r, EventView::Failed(text)).1 matches ActionView::ReportFailed { shut_down_node, .. }
        && shut_down_node
}

/// Whether a failure has to stop the server.
pub open spec fn stops_server(r: RuntimeView, text: Seq<char>) -> bool {
    next(r, EventView::Failed(text)).1 matches ActionView::ReportFailed { stop_server, .. }
        && stop_server
}

/// A node that fails while it comes up reports it and is done. It shuts down
/// the node exactly where it was opened, and stops the server exactly where it
/// was started.
pub proof fn failed_starts_are_undone(r: RuntimeView, text: Seq<char>, found: bool)
    requires
        is_starting(r.phase),
    ensures
        next(r, EventView::Failed(text)).1 is ReportFailed,
        next(r, EventView::TimedOut).1 is ReportFailed,
        next(r, EventView::Failed(text)).0.phase == RuntimePhase::Finished,
        next(r, EventView::TimedOut).0.phase == RuntimePhase::Finished,
        r.phase == RuntimePhase::ReadingCommitted ==> !shuts_down(r, text) && !stops_server(r, text),
        ({
            let (later, _) = next(r, EventView::Done(found));
            is_starting(later.phase) ==> {
                &&& shuts_down(later, text) == (shuts_down(r, text) || r.phase
                    == RuntimePhase::OpeningNode)
                &&& stops_server(later, text) == (stops_server(r, text) || (r.phase
                    == RuntimePhase::StartingServer && r.authenticated))
            }
        }),
{
}

// ---------------------------------------------------------------------------
// Requests
// ---------------------------------------------------------------------------

/// The work of a request that is one operation.
pub open spec fn work_of(request: RuntimeRequest) -> Option<RuntimeOperation> {
    match request {
        RuntimeRequest::Write => Some(RuntimeOperation::Write),
        RuntimeRequest::ReadBarrier => Some(RuntimeOperation::ReadBarrier),
        RuntimeRequest::ChangeMembership => Some(RuntimeOperation::MembershipChange),
        RuntimeRequest::Checkpoint => Some(RuntimeOperation::Checkpoint),
        _ => None,
    }
}

/// A request is performed and answered, and the next one is awaited. What is
/// done is said to be done, and what was refused is answered with the reason.
pub proof fn requests_are_performed(
    r: RuntimeView,
    request: RuntimeRequest,
    outcome: EventView,
    sent: EventView,
)
    requires
        r.phase == RuntimePhase::Waiting,
        work_of(request) is Some,
    ensures
        ({
            let (at_work, work) = next(r, EventView::Request(request));
            let (answering, answer) = next(at_work, outcome);
            let (back, wait) = next(answering, sent);
            &&& work == ActionView::Perform(work_of(request)->0)
            &&& answer is Answer
            &&& outcome is Done <==> answer->Answer_0 is Done
            &&& outcome matches EventView::Refused(e) ==> answer->Answer_0 == AnswerView::Failed(e)
            &&& answer->Answer_0 is Done || answer->Answer_0 is Failed
            &&& wait == ActionView::AwaitRequest
            &&& back == r
        }),
{
}

/// Who waits for a position is answered once the state has come as far in its
/// term.
pub proof fn positions_are_awaited(r: RuntimeView, log_id: LogId, applied: LogId, sent: EventView)
    requires
        r.phase == RuntimePhase::Waiting,
    ensures
        ({
            let (waiting, wait) = next(r, EventView::Request(RuntimeRequest::WaitApplied(log_id)));
            let (answering, answer) = next(waiting, EventView::Applied(applied));
            let (back, again) = next(answering, sent);
            &&& wait == ActionView::AwaitApplied(log_id)
            &&& answer == ActionView::Answer(AnswerView::Done) <==> (applied.term > log_id.term || (
            applied.term == log_id.term && applied.index >= log_id.index))
            &&& answer is Answer
            &&& again == ActionView::AwaitRequest
            &&& back == r
        }),
{
}

/// A status is read whether or not a quorum answers, and says which it was.
pub proof fn statuses_tell_the_quorum(
    r: RuntimeView,
    probed: EventView,
    found: bool,
    sent: EventView,
)
    requires
        r.phase == RuntimePhase::Waiting,
    ensures
        ({
            let (probing, probe) = next(r, EventView::Request(RuntimeRequest::Status));
            let (reading, read) = next(probing, probed);
            let (answering, answer) = next(reading, EventView::Done(found));
            let (back, again) = next(answering, sent);
            &&& probe == ActionView::Perform(RuntimeOperation::ReadBarrier)
            &&& read == ActionView::Perform(RuntimeOperation::StatusRead)
            &&& answer == ActionView::Answer(AnswerView::Status { quorum: probed is Done })
            &&& again == ActionView::AwaitRequest
            &&& back == r
        }),
{
}

/// A node goes down with a last checkpoint; whatever comes of it, the server is
/// stopped and then the node, and who asked for it is told last.
pub proof fn nodes_go_down_in_order(
    r: RuntimeView,
    saved: EventView,
    stopped: EventView,
    down: EventView,
)
    requires
        r.phase == RuntimePhase::Waiting,
    ensures
        ({
            let (a, checkpoint) = next(r, EventView::Request(RuntimeRequest::Shutdown));
            let (b, stop) = next(a, saved);
            let (c, shut) = next(b, stopped);
            let (d, answer) = next(c, down);
            &&& checkpoint == ActionView::Perform(RuntimeOperation::ShutdownCheckpoint)
            &&& stop == ActionView::StopServer
            &&& shut == ActionView::ShutDownNode
            &&& answer == ActionView::Answer(AnswerView::Done)
            &&& d.phase == RuntimePhase::Finished
        }),
        ({
            let (a, checkpoint) = next(r, EventView::Closed);
            let (b, stop) = next(a, saved);
            let (c, shut) = next(b, stopped);
            let (d, end) = next(c, down);
            &&& checkpoint == ActionView::Perform(RuntimeOperation::Checkpoint)
            &&& stop == ActionView::StopServer
            &&& shut == ActionView::ShutDownNode
            &&& end == ActionView::Finish
            &&& d.phase == RuntimePhase::Finished
        }),
{
}

/// Settings are sound exactly where an election waits longer than a heartbeat
/// takes, for a time that is to be drawn from a range, and a message carries an
/// entry at least.
pub proof fn sound_settings_are_taken(heartbeat: u64, low: u64, high: u64, payload: Option<u64>)
    ensures
        settings_fault(heartbeat, low, high, payload) is None <==> heartbeat < low && low < high
            && (payload matches Some(n) ==> n > 0),
{
}

/// A state stands at a cursor that it has passed, or reached in the same term.
pub proof fn states_stand_at_what_they_applied(applied: LogId, cursor: LogId)
    ensures
        applied == cursor ==> at_cursor(applied, cursor),
        applied.index > cursor.index ==> at_cursor(applied, cursor),
        applied.index < cursor.index ==> !at_cursor(applied, cursor),
        applied.index == cursor.index && applied.term != cursor.term ==> !at_cursor(applied, cursor),
{
}

// ---------------------------------------------------------------------------
// Groups in memory
// ---------------------------------------------------------------------------

/// A group has a quorum exactly where more than half of its voters are healthy;
/// learners do not count.
pub proof fn healthy_majorities_are_quorums(replicas: Seq<Replica>)
    ensures
        ({
            let voters = replicas.filter(|r: Replica| !r.learner);
            let healthy = replicas.filter(|r: Replica| r.healthy && !r.learner);
            has_quorum(replicas) <==> 2 * healthy.len() > voters.len()
        }),
{
    lemma_counts(replicas);
}

proof fn lemma_counts(replicas: Seq<Replica>)
    ensures
        voter_count(replicas) == replicas.filter(|r: Replica| !r.learner).len(),
        healthy_count(replicas) == replicas.filter(|r: Replica| r.healthy && !r.learner).len(),
    decreases replicas.len(),
{
    reveal(Seq::filter);
    if replicas.len() > 0 {
        lemma_counts(replicas.drop_last());
    }
}

/// The leader is the healthy voter with the lowest number, and there is one
/// where any voter is healthy.
pub proof fn lowest_healthy_voters_lead(replicas: Seq<Replica>, id: u64)
    ensures
        leads(replicas, id) <==> {
            &&& exists|i: int|
                0 <= i < replicas.len() && (#[trigger] replicas[i]).id == id && replicas[i].healthy
                    && !replicas[i].learner
            &&& forall|i: int|
                0 <= i < replicas.len() && (#[trigger] replicas[i]).id < id ==> !replicas[i].healthy
                    || replicas[i].learner
        },
{
    if leads(replicas, id) {
        let i = choose|i: int|
            0 <= i < replicas.len() && votes(#[trigger] replicas[i]) && replicas[i].id == id;
        assert(replicas[i].id == id && replicas[i].healthy && !replicas[i].learner);
        assert forall|k: int|
            0 <= k < replicas.len() && (#[trigger] replicas[k]).id < id implies !replicas[k].healthy
            || replicas[k].learner by {
            assert(votes(replicas[k]) ==> id <= replicas[k].id);
        }
    }
}

/// Those that take part are the healthy members, learners among them, and the
/// voters and the learners of a status are its members, each in their order.
pub proof fn members_are_listed(replicas: Seq<Replica>, learner: bool)
    ensures
        healthy_ids(replicas) == replicas.filter(|r: Replica| r.healthy).map_values(
            |r: Replica| r.id,
        ),
        ids_where(replicas, learner) == replicas.filter(
            |r: Replica| r.learner == learner,
        ).map_values(|r: Replica| r.id),
    decreases replicas.len(),
{
    reveal(Seq::filter);
    if replicas.len() == 0 {
        assert(healthy_ids(replicas) =~= replicas.filter(|r: Replica| r.healthy).map_values(
            |r: Replica| r.id,
        ));
        assert(ids_where(replicas, learner) =~= replicas.filter(
            |r: Replica| r.learner == learner,
        ).map_values(|r: Replica| r.id));
    } else {
        let front = replicas.drop_last();
        members_are_listed(front, learner);
        let id = |r: Replica| r.id;
        let (h, l) = (|r: Replica| r.healthy, |r: Replica| r.learner == learner);
        assert(front.filter(h).push(replicas.last()).map_values(id) =~= front.filter(h).map_values(
            id,
        ).push(replicas.last().id));
        assert(front.filter(l).push(replicas.last()).map_values(id) =~= front.filter(l).map_values(
            id,
        ).push(replicas.last().id));
    }
}

/// The log of a new group reaches as far as the furthest of its members.
pub proof fn groups_begin_where_the_furthest_stands(indexes: Seq<u64>)
    ensures
        forall|i: int| 0 <= i < indexes.len() ==> #[trigger] indexes[i] <= highest(indexes),
        indexes.len() > 0 ==> indexes.contains(highest(indexes)),
        indexes.len() == 0 ==> highest(indexes) == 0,
    decreases indexes.len(),
{
    if indexes.len() > 0 {
        let front = indexes.drop_last();
        groups_begin_where_the_furthest_stands(front);
        assert forall|i: int| 0 <= i < indexes.len() implies #[trigger] indexes[i] <= highest(
            indexes,
        ) by {
            if i < indexes.len() - 1 {
                assert(front[i] == indexes[i]);
            }
        }
        if highest(indexes) == indexes.last() {
            assert(indexes[indexes.len() - 1] == highest(indexes));
        } else if front.len() > 0 {
            let i = choose|i: int| 0 <= i < front.len() && front[i] == highest(front);
            assert(indexes[i] == highest(indexes));
        } else {
            assert(indexes.last() == 0);
        }
    }
}

/// A later term goes before every index, and within a term the index decides.
pub proof fn terms_go_before_indexes(a: LogId, b: LogId)
    ensures
        a.term < b.term ==> log_before(a, b) && !log_before(b, a),
        a.term == b.term ==> (log_before(a, b) <==> a.index < b.index),
        !log_before(a, b) && !log_before(b, a) <==> a == b,
{
}

} // verus!
