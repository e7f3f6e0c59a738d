//! A read that sees every acknowledged write: the leader's position first, then
//! the local state, which is brought up to it where it lags.

use crate::command::ReplicatedCommandV1;
use crate::error::{ChorusError, ChorusErrorView};
use crate::ids::LogId;
use crate::network::{
    accept_leader_snapshot, authority_verdict, authorize, barrier_reached, needs_sync,
    read_allowed, NetResult, NetworkConsensus, Route,
};
use crate::node_map::{has_node, node_value};
use vstd::prelude::*;
use vstd::string::*;

verus! {

/// What a read asks for next.
#[derive(Clone, Debug)]
pub enum ReadAction {
    /// Find out who leads, and where the leader stands.
    Observe,
    /// Ask the leader, at that address, for its barrier.
    AskBarrier(String),
    /// See where the local state stands.
    ReadLocal,
    /// Fetch a snapshot of the leader's state.
    FetchSnapshot,
    /// Install the snapshot that was fetched.
    Install,
    /// Read the local state.
    Serve,
    Fail(ChorusError),
}

/// What happened.
#[derive(Clone, Debug)]
pub enum ReadEvent {
    /// A majority has that leader, which stands there.
    Observed { leader: u64, log_id: LogId },
    /// The leader's barrier.
    Barrier(LogId),
    /// The local state stands there.
    Stands(LogId),
    /// A snapshot of the leader's state at a position.
    Snapshot(LogId),
    /// The snapshot was installed.
    Installed,
    /// The leader answered with an error.
    Answered(String),
    /// The leader answered something else.
    Strange,
    /// A call or the store failed.
    Failed(ChorusError),
}

/// Where a read stands.
#[derive(Clone, Copy, Debug, PartialEq, Eq, Structural)]
pub enum ReadPhase {
    Observing,
    AskingBarrier,
    /// The local state is compared with the barrier; the flag tells whether
    /// this node leads.
    ReadingLocal { leads: bool, barrier: LogId },
    Fetching { barrier: LogId },
    /// The local state is compared with a snapshot.
    Comparing { barrier: LogId, snapshot: LogId },
    Installing { barrier: LogId },
    /// The local state is compared with the barrier once more.
    ReadingSynced { barrier: LogId },
    Finished,
}

/// A read that is under way on a node.
pub struct Reading {
    phase: ReadPhase,
}

impl View for Reading {
    type V = ReadPhase;

    closed spec fn view(&self) -> ReadPhase {
        self.phase
    }
}

/// What a [`ReadAction`] says.
pub enum ReadActionView {
    Observe,
    AskBarrier(Seq<char>),
    ReadLocal,
    FetchSnapshot,
    Install,
    Serve,
    Fail(ChorusErrorView),
}

impl View for ReadAction {
    type V = ReadActionView;

    open spec fn view(&self) -> ReadActionView {
        match self {
            ReadAction::Observe => ReadActionView::Observe,
            ReadAction::AskBarrier(endpoint) => ReadActionView::AskBarrier(endpoint@),
            ReadAction::ReadLocal => ReadActionView::ReadLocal,
            ReadAction::FetchSnapshot => ReadActionView::FetchSnapshot,
            ReadAction::Install => ReadActionView::Install,
            ReadAction::Serve => ReadActionView::Serve,
            ReadAction::Fail(e) => ReadActionView::Fail(e@),
        }
    }
}

/// What a [`ReadEvent`] says.
pub enum ReadEventView {
    Observed { leader: u64, log_id: LogId },
    Barrier(LogId),
    Stands(LogId),
    Snapshot(LogId),
    Installed,
    Answered(Seq<char>),
    Strange,
    Failed(ChorusErrorView),
}

impl View for ReadEvent {
    type V = ReadEventView;

    open spec fn view(&self) -> ReadEventView {
        match self {
            ReadEvent::Observed { leader, log_id } => ReadEventView::Observed {
                leader: *leader,
                log_id: *log_id,
            },
            ReadEvent::Barrier(id) => ReadEventView::Barrier(*id),
            ReadEvent::Stands(id) => ReadEventView::Stands(*id),
            ReadEvent::Snapshot(id) => ReadEventView::Snapshot(*id),
            ReadEvent::Installed => ReadEventView::Installed,
            ReadEvent::Answered(text) => ReadEventView::Answered(text@),
            ReadEvent::Strange => ReadEventView::Strange,
            ReadEvent::Failed(e) => ReadEventView::Failed(e@),
        }
    }
}

/// What comes next: where the read stands, and what it asks for.
pub type ReadTurn = (ReadPhase, ReadActionView);

/// The read failed.
pub open spec fn read_fails(e: ChorusErrorView) -> ReadTurn {
    (ReadPhase::Finished, ReadActionView::Fail(e))
}

/// What the local state is compared with.
pub open spec fn to_local(leads: bool, barrier: LogId) -> ReadTurn {
    (ReadPhase::ReadingLocal { leads, barrier }, ReadActionView::ReadLocal)
}

/// What comes of knowing who leads.
pub open spec fn read_observed(
    node_id: u64,
    endpoints: Seq<(u64, String)>,
    leader: u64,
    log_id: LogId,
) -> ReadTurn {
    if leader == node_id {
        to_local(true, log_id)
    } else if !has_node(endpoints, leader) {
        read_fails(ChorusErrorView::Consensus("leader endpoint is missing"@))
    } else {
        (
            ReadPhase::AskingBarrier,
            ReadActionView::AskBarrier(node_value(endpoints, leader)->0@),
        )
    }
}

/// What comes of an answer of the leader's that is not what was asked for.
pub open spec fn read_misanswered(phase: ReadPhase, answer: Option<Seq<char>>) -> ReadTurn {
    match (phase, answer) {
        (ReadPhase::AskingBarrier, Some(text)) => read_fails(ChorusErrorView::Consensus(text)),
        (ReadPhase::AskingBarrier, None) => read_fails(
            ChorusErrorView::Protocol("invalid read barrier response"@),
        ),
        (ReadPhase::Fetching { .. }, _) => read_fails(
            ChorusErrorView::Protocol("invalid snapshot response"@),
        ),
        _ => read_fails(ChorusErrorView::Consensus("unexpected answer"@)),
    }
}

/// What comes of knowing where the local state stands.
pub open spec fn read_stands(phase: ReadPhase, local: LogId) -> ReadTurn {
    match phase {
        ReadPhase::ReadingLocal { leads, barrier } => if local.index >= barrier.index {
            (ReadPhase::Finished, ReadActionView::Serve)
        } else if leads {
            (ReadPhase::ReadingSynced { barrier }, ReadActionView::ReadLocal)
        } else {
            (ReadPhase::Fetching { barrier }, ReadActionView::FetchSnapshot)
        },
        ReadPhase::Comparing { barrier, snapshot } => if snapshot.index < local.index {
            read_fails(ChorusErrorView::Consensus("leader snapshot is older than local state"@))
        } else {
            (ReadPhase::Installing { barrier }, ReadActionView::Install)
        },
        ReadPhase::ReadingSynced { barrier } => if local.index < barrier.index {
            read_fails(ChorusErrorView::Consensus("local state did not catch up to read barrier"@))
        } else {
            (ReadPhase::Finished, ReadActionView::Serve)
        },
        _ => read_fails(ChorusErrorView::Consensus("unexpected answer"@)),
    }
}

/// What happens next in a read on a node.
pub open spec fn read_next(
    node_id: u64,
    endpoints: Seq<(u64, String)>,
    phase: ReadPhase,
    event: ReadEventView,
) -> ReadTurn {
    match event {
        ReadEventView::Failed(e) => read_fails(e),
        ReadEventView::Answered(text) => read_misanswered(phase, Some(text)),
        ReadEventView::Strange => read_misanswered(phase, None),
        ReadEventView::Stands(local) => read_stands(phase, local),
        ReadEventView::Observed { leader, log_id } => if phase == ReadPhase::Observing {
            read_observed(node_id, endpoints, leader, log_id)
        } else {
            read_fails(ChorusErrorView::Consensus("unexpected answer"@))
        },
        ReadEventView::Barrier(barrier) => if phase == ReadPhase::AskingBarrier {
            to_local(false, barrier)
        } else {
            read_fails(ChorusErrorView::Consensus("unexpected answer"@))
        },
        ReadEventView::Snapshot(snapshot) => match phase {
            ReadPhase::Fetching { barrier } => (
                ReadPhase::Comparing { barrier, snapshot },
                ReadActionView::ReadLocal,
            ),
            _ => read_fails(ChorusErrorView::Consensus("unexpected answer"@)),
        },
        ReadEventView::Installed => match phase {
            ReadPhase::Installing { barrier } => (
                ReadPhase::ReadingSynced { barrier },
                ReadActionView::ReadLocal,
            ),
            _ => read_fails(ChorusErrorView::Consensus("unexpected answer"@)),
        },
    }
}

impl Reading {
    fn turn(&mut self, phase: ReadPhase, action: ReadAction) -> (same: ReadAction)
        ensures
            (final(self)@, same@) == (phase, action@),
    {
        self.phase = phase;
        action
    }

    fn fail(&mut self, e: ChorusError) -> (action: ReadAction)
        ensures
            (final(self)@, action@) == read_fails(e@),
    {
        self.turn(ReadPhase::Finished, ReadAction::Fail(e))
    }

    fn misanswered(&mut self, answer: Option<String>) -> (action: ReadAction)
        ensures
            (final(self)@, action@) == read_misanswered(
                old(self)@,
                crate::error::optional_text(answer),
            ),
    {
        match (self.phase, answer) {
            (ReadPhase::AskingBarrier, Some(text)) => self.fail(ChorusError::Consensus(text)),
            (ReadPhase::AskingBarrier, None) => self.fail(
                ChorusError::protocol("invalid read barrier response"),
            ),
            (ReadPhase::Fetching { .. }, _) => self.fail(
                ChorusError::protocol("invalid snapshot response"),
            ),
            _ => self.fail(ChorusError::consensus("unexpected answer")),
        }
    }

    fn stands(&mut self, local: LogId) -> (action: ReadAction)
        ensures
            (final(self)@, action@) == read_stands(old(self)@, local),
    {
        match self.phase {
            ReadPhase::ReadingLocal { leads, barrier } => if !needs_sync(local, barrier) {
                self.turn(ReadPhase::Finished, ReadAction::Serve)
            } else if leads {
                self.turn(ReadPhase::ReadingSynced { barrier }, ReadAction::ReadLocal)
            } else {
                self.turn(ReadPhase::Fetching { barrier }, ReadAction::FetchSnapshot)
            },
            ReadPhase::Comparing { barrier, snapshot } => {
                match accept_leader_snapshot(snapshot, local) {
                    Ok(()) => self.turn(ReadPhase::Installing { barrier }, ReadAction::Install),
                    Err(e) => self.fail(e),
                }
            },
            ReadPhase::ReadingSynced { barrier } => match barrier_reached(local, barrier) {
                Ok(()) => self.turn(ReadPhase::Finished, ReadAction::Serve),
                Err(e) => self.fail(e),
            },
            _ => self.fail(ChorusError::consensus("unexpected answer")),
        }
    }

    /// Takes what happened, and says what to do next.
    pub fn step(&mut self, node: &NetworkConsensus, event: ReadEvent) -> (action: ReadAction)
        ensures
            (final(self)@, action@) == read_next(
                node.node_id,
                node.endpoints@,
                old(self)@,
                event@,
            ),
    {
        match (self.phase, event) {
            (_, ReadEvent::Failed(e)) => self.fail(e),
            (_, ReadEvent::Answered(text)) => self.misanswered(Some(text)),
            (_, ReadEvent::Strange) => self.misanswered(None),
            (_, ReadEvent::Stands(local)) => self.stands(local),
            (ReadPhase::Observing, ReadEvent::Observed { leader, log_id }) => {
                match node.route(leader) {
                    Ok(Route::Local) => self.turn(
                        ReadPhase::ReadingLocal { leads: true, barrier: log_id },
                        ReadAction::ReadLocal,
                    ),
                    Ok(Route::Forward(endpoint)) => self.turn(
                        ReadPhase::AskingBarrier,
                        ReadAction::AskBarrier(endpoint),
                    ),
                    Err(e) => self.fail(e),
                }
            },
            (ReadPhase::AskingBarrier, ReadEvent::Barrier(barrier)) => self.turn(
                ReadPhase::ReadingLocal { leads: false, barrier },
                ReadAction::ReadLocal,
            ),
            (ReadPhase::Fetching { barrier }, ReadEvent::Snapshot(snapshot)) => self.turn(
                ReadPhase::Comparing { barrier, snapshot },
                ReadAction::ReadLocal,
            ),
            (ReadPhase::Installing { barrier }, ReadEvent::Installed) => self.turn(
                ReadPhase::ReadingSynced { barrier },
                ReadAction::ReadLocal,
            ),
            _ => self.fail(ChorusError::consensus("unexpected answer")),
        }
    }
}

impl NetworkConsensus {
    /// Begins a read; none begins while an entry is neither acknowledged nor
    /// given up.
    pub fn read_barrier(&self, pending: bool) -> (begun: NetResult<(Reading, ReadAction)>)
        ensures
            match begun {
                Ok(b) => !pending && b.0@ == ReadPhase::Observing && b.1@
                    == ReadActionView::Observe,
                Err(e) => pending && e@ == ChorusErrorView::Consensus(
                    "an unacknowledged proposal is awaiting quorum recovery"@,
                ),
            },
    {
        match read_allowed(pending) {
            Ok(()) => Ok((Reading { phase: ReadPhase::Observing }, ReadAction::Observe)),
            Err(e) => Err(e),
        }
    }

    /// Decides where a command that a node proposes goes: to this node, if it
    /// leads, or on to the leader. `observed` tells who leads.
    pub fn append_from(
        &self,
        requester: u64,
        command: &ReplicatedCommandV1,
        observed: NetResult<u64>,
    ) -> (route: NetResult<Route>)
        ensures
            match (authority_verdict(requester, *command), observed) {
                (Err(refusal), _) => route matches Err(e) && e@ == refusal,
                (Ok(()), Err(unknown)) => route matches Err(e) && e@ == unknown@,
                (Ok(()), Ok(leader)) => match route {
                    Ok(Route::Local) => leader == self.node_id,
                    Ok(Route::Forward(endpoint)) => leader != self.node_id && has_node(
                        self.endpoints@,
                        leader,
                    ) && endpoint@ == node_value(self.endpoints@, leader)->0@,
                    Err(e) => leader != self.node_id && !has_node(self.endpoints@, leader) && e@
                        == ChorusErrorView::Consensus("leader endpoint is missing"@),
                },
            },
    {
        match authorize(requester, command) {
            Ok(()) => {},
            Err(e) => {
                return Err(e);
            },
        }
        match observed {
            Ok(leader) => self.route(leader),
            Err(e) => Err(e),
        }
    }
}

// ---------------------------------------------------------------------------
// Laws
// ---------------------------------------------------------------------------

/// The position that a read waits for, once it is known.
pub open spec fn barrier_of(phase: ReadPhase) -> Option<LogId> {
    match phase {
        ReadPhase::ReadingLocal { barrier, .. } => Some(barrier),
        ReadPhase::Fetching { barrier } => Some(barrier),
        ReadPhase::Comparing { barrier, .. } => Some(barrier),
        ReadPhase::Installing { barrier } => Some(barrier),
        ReadPhase::ReadingSynced { barrier } => Some(barrier),
        _ => None,
    }
}

/// A read is served only by a local state that has come to the barrier.
pub proof fn reads_reach_the_barrier(
    node_id: u64,
    endpoints: Seq<(u64, String)>,
    phase: ReadPhase,
    event: ReadEventView,
)
    requires
        read_next(node_id, endpoints, phase, event).1 is Serve,
    ensures
        barrier_of(phase) matches Some(barrier) && (event matches ReadEventView::Stands(local)
            && local.index >= barrier.index),
{
}

/// The barrier of a read is the position of a leader, as this node saw it where
/// it leads or as the leader said it; it does not change from then on.
pub proof fn barriers_are_the_leaders(
    node_id: u64,
    endpoints: Seq<(u64, String)>,
    phase: ReadPhase,
    event: ReadEventView,
)
    requires
        barrier_of(read_next(node_id, endpoints, phase, event).0) is Some,
    ensures
        ({
            let barrier = barrier_of(read_next(node_id, endpoints, phase, event).0);
            match barrier_of(phase) {
                Some(b) => barrier == Some(b),
                None => event == (ReadEventView::Observed { leader: node_id, log_id: barrier->0 })
                    || (phase == ReadPhase::AskingBarrier && event == ReadEventView::Barrier(
                    barrier->0,
                )),
            }
        }),
{
}

/// The local state never gives way to an older one.
pub proof fn states_do_not_go_back(
    node_id: u64,
    endpoints: Seq<(u64, String)>,
    phase: ReadPhase,
    event: ReadEventView,
)
    requires
        read_next(node_id, endpoints, phase, event).1 is Install,
    ensures
        phase matches ReadPhase::Comparing { snapshot, .. } && (event matches ReadEventView::Stands(
            local,
        ) && local.index <= snapshot.index),
{
}

} // verus!
