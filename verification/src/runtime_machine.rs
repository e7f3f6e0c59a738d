//! The life of a replication runtime: how it starts, what it does with the
//! requests that reach it, and how it stops.

use crate::cluster::log_before;
use crate::error::{ChorusError, ChorusErrorView};
use crate::ids::LogId;
use crate::runtime::{
    applied_at_least, operation_timed_out, startup_decision, startup_fault, timeout_text,
    waits_for_own_leadership, DurableState, RuntimeOperation,
};
use crate::text::{joined, joined3, owned};
use vstd::prelude::*;
use vstd::string::*;

verus! {

/// What a request is answered.
#[derive(Clone, Debug)]
pub enum RuntimeAnswer {
    /// What was asked for was done.
    Done,
    /// The status of the node, with whether a quorum was reached.
    Status { quorum: bool },
    Failed(ChorusError),
}

/// What the runtime asks for next.
#[derive(Clone, Debug)]
pub enum RuntimeAction {
    /// Read the commit cursor of the log.
    ReadCommitted,
    /// Find out whether the log has entries, or had some.
    ReadLogState,
    /// Bind the listener that peers connect to.
    Bind,
    /// Check the settings of the node.
    Configure,
    /// Make the connections to the peers.
    ConnectPeers,
    /// Open the node on its log and its state.
    OpenNode,
    /// Make the service that answers peers.
    MakeService,
    /// Read the server's certificate and key.
    ReadServerTls,
    /// Set the server up with them.
    ConfigureServer,
    /// Start the server.
    StartServer,
    /// Give the group its first members.
    Initialize,
    /// Wait until this node leads.
    AwaitLeadership,
    /// Report that the runtime has started.
    ReportStarted,
    /// Report that it has not, after stopping what runs.
    ReportFailed { text: String, stop_server: bool, shut_down_node: bool },
    /// Wait for a request.
    AwaitRequest,
    /// Carry out an operation within its time.
    Perform(RuntimeOperation),
    /// Wait until the state has come to an index, and see where it stands.
    AwaitApplied(LogId),
    /// Answer the request.
    Answer(RuntimeAnswer),
    /// Stop the server, if it runs.
    StopServer,
    /// Shut the node down.
    ShutDownNode,
    /// Nothing more is done.
    Finish,
}

/// What a request asks for.
#[derive(Clone, Copy, Debug, PartialEq, Eq, Structural)]
pub enum RuntimeRequest {
    Write,
    ReadBarrier,
    WaitApplied(LogId),
    Status,
    ChangeMembership,
    Checkpoint,
    Shutdown,
}

/// What happened.
#[derive(Clone, Debug)]
pub enum RuntimeEvent {
    /// The step was done; the flag is what was found, where something was
    /// looked for.
    Done(bool),
    /// The step failed, for a reason that was reported as a text.
    Failed(String),
    /// The operation was refused.
    Refused(ChorusError),
    TimedOut,
    /// The state has been applied up to here.
    Applied(LogId),
    Request(RuntimeRequest),
    /// No more requests can come, or the server stopped by itself.
    Closed,
}

/// Where a runtime stands.
#[derive(Clone, Copy, Debug, PartialEq, Eq, Structural)]
pub enum RuntimePhase {
    ReadingCommitted,
    ReadingLogState,
    Binding,
    Configuring,
    ConnectingPeers,
    OpeningNode,
    MakingService,
    ReadingServerTls,
    ConfiguringServer,
    StartingServer,
    Initializing,
    AwaitingLeadership,
    Reporting,
    Waiting,
    Performing(RuntimeOperation),
    /// The state must come to a position.
    AwaitingApplied(LogId),
    ProbingStatus,
    /// The durable cursor is read; the flag tells whether a quorum was reached.
    ReadingStatus(bool),
    Answering,
    /// The checkpoint before the end; the flag tells whether a request waits
    /// for the end.
    LastCheckpoint(bool),
    StoppingServer(bool),
    ShuttingDown(bool),
    Finished,
}

/// A runtime that is under way.
pub struct Runtime {
    authenticated: bool,
    initialize: bool,
    state_initialized: bool,
    committed: bool,
    listen: String,
    phase: RuntimePhase,
}

/// What a [`Runtime`] holds.
#[verifier::ext_equal]
pub struct RuntimeView {
    /// Whether the node has authenticated peers.
    pub authenticated: bool,
    /// Whether it was asked to start a group.
    pub initialize: bool,
    /// Whether its state names members.
    pub state_initialized: bool,
    /// Whether its log has a commit cursor.
    pub committed: bool,
    /// The address that peers connect to.
    pub listen: Seq<char>,
    pub phase: RuntimePhase,
}

/// What a [`RuntimeAnswer`] says.
pub enum AnswerView {
    Done,
    Status { quorum: bool },
    Failed(ChorusErrorView),
}

impl View for RuntimeAnswer {
    type V = AnswerView;

    open spec fn view(&self) -> AnswerView {
        match self {
            RuntimeAnswer::Done => AnswerView::Done,
            RuntimeAnswer::Status { quorum } => AnswerView::Status { quorum: *quorum },
            RuntimeAnswer::Failed(e) => AnswerView::Failed(e@),
        }
    }
}

/// What a [`RuntimeAction`] says.
pub enum ActionView {
    ReadCommitted,
    ReadLogState,
    Bind,
    Configure,
    ConnectPeers,
    OpenNode,
    MakeService,
    ReadServerTls,
    ConfigureServer,
    StartServer,
    Initialize,
    AwaitLeadership,
    ReportStarted,
    ReportFailed { text: Seq<char>, stop_server: bool, shut_down_node: bool },
    AwaitRequest,
    Perform(RuntimeOperation),
    AwaitApplied(LogId),
    Answer(AnswerView),
    StopServer,
    ShutDownNode,
    Finish,
}

/// What a [`RuntimeEvent`] says.
pub enum EventView {
    Done(bool),
    Failed(Seq<char>),
    Refused(ChorusErrorView),
    TimedOut,
    Applied(LogId),
    Request(RuntimeRequest),
    Closed,
}

impl View for RuntimeAction {
    type V = ActionView;

    open spec fn view(&self) -> ActionView {
        match self {
            RuntimeAction::ReadCommitted => ActionView::ReadCommitted,
            RuntimeAction::ReadLogState => ActionView::ReadLogState,
            RuntimeAction::Bind => ActionView::Bind,
            RuntimeAction::Configure => ActionView::Configure,
            RuntimeAction::ConnectPeers => ActionView::ConnectPeers,
            RuntimeAction::OpenNode => ActionView::OpenNode,
            RuntimeAction::MakeService => ActionView::MakeService,
            RuntimeAction::ReadServerTls => ActionView::ReadServerTls,
            RuntimeAction::ConfigureServer => ActionView::ConfigureServer,
            RuntimeAction::StartServer => ActionView::StartServer,
            RuntimeAction::Initialize => ActionView::Initialize,
            RuntimeAction::AwaitLeadership => ActionView::AwaitLeadership,
            RuntimeAction::ReportStarted => ActionView::ReportStarted,
            RuntimeAction::ReportFailed { text, stop_server, shut_down_node } => {
                ActionView::ReportFailed {
                    text: text@,
                    stop_server: *stop_server,
                    shut_down_node: *shut_down_node,
                }
            },
            RuntimeAction::AwaitRequest => ActionView::AwaitRequest,
            RuntimeAction::Perform(operation) => ActionView::Perform(*operation),
            RuntimeAction::AwaitApplied(log_id) => ActionView::AwaitApplied(*log_id),
            RuntimeAction::Answer(answer) => ActionView::Answer(answer@),
            RuntimeAction::StopServer => ActionView::StopServer,
            RuntimeAction::ShutDownNode => ActionView::ShutDownNode,
            RuntimeAction::Finish => ActionView::Finish,
        }
    }
}

impl View for RuntimeEvent {
    type V = EventView;

    open spec fn view(&self) -> EventView {
        match self {
            RuntimeEvent::Done(found) => EventView::Done(*found),
            RuntimeEvent::Failed(text) => EventView::Failed(text@),
            RuntimeEvent::Refused(e) => EventView::Refused(e@),
            RuntimeEvent::TimedOut => EventView::TimedOut,
            RuntimeEvent::Applied(log_id) => EventView::Applied(*log_id),
            RuntimeEvent::Request(request) => EventView::Request(*request),
            RuntimeEvent::Closed => EventView::Closed,
        }
    }
}

impl View for Runtime {
    type V = RuntimeView;

    closed spec fn view(&self) -> RuntimeView {
        RuntimeView {
            authenticated: self.authenticated,
            initialize: self.initialize,
            state_initialized: self.state_initialized,
            committed: self.committed,
            listen: self.listen@,
            phase: self.phase,
        }
    }
}

// ---------------------------------------------------------------------------
// The steps
// ---------------------------------------------------------------------------

/// A phase with the action that it waits for.
pub open spec fn go(r: RuntimeView, phase: RuntimePhase, action: ActionView) -> (
    RuntimeView,
    ActionView,
) {
    (RuntimeView { phase, ..r }, action)
}

/// Whether the node is open in a phase of the start.
pub open spec fn node_is_open(phase: RuntimePhase) -> bool {
    match phase {
        RuntimePhase::MakingService => true,
        RuntimePhase::ReadingServerTls => true,
        RuntimePhase::ConfiguringServer => true,
        RuntimePhase::StartingServer => true,
        RuntimePhase::Initializing => true,
        RuntimePhase::AwaitingLeadership => true,
        _ => false,
    }
}

/// Whether the server runs in a phase of the start.
pub open spec fn server_runs(phase: RuntimePhase, authenticated: bool) -> bool {
    authenticated && (phase == RuntimePhase::Initializing || phase
        == RuntimePhase::AwaitingLeadership)
}

/// The start failed: what runs is stopped, and the fault is reported.
pub open spec fn fails(r: RuntimeView, text: Seq<char>) -> (RuntimeView, ActionView) {
    go(
        r,
        RuntimePhase::Finished,
        ActionView::ReportFailed {
            text,
            stop_server: server_runs(r.phase, r.authenticated),
            shut_down_node: node_is_open(r.phase),
        },
    )
}

/// What is reported where a step of the start fails.
pub open spec fn failure_text(r: RuntimeView, fault: Seq<char>) -> Seq<char> {
    match r.phase {
        RuntimePhase::ReadingCommitted => "could not read OpenRaft commit state: "@ + fault,
        RuntimePhase::ReadingLogState => "could not read OpenRaft log state: "@ + fault,
        RuntimePhase::Binding => "could not bind authenticated OpenRaft listener "@ + r.listen
            + ": "@ + fault,
        RuntimePhase::OpeningNode => "could not open OpenRaft node: "@ + fault,
        RuntimePhase::ConfiguringServer => {
            "could not configure authenticated OpenRaft TLS server: "@ + fault
        },
        RuntimePhase::Initializing => "OpenRaft initialization failed: "@ + fault,
        RuntimePhase::AwaitingLeadership => "OpenRaft leader startup failed: "@ + fault,
        _ => fault,
    }
}

/// What comes once the node has its members, or had them.
pub open spec fn to_leadership(r: RuntimeView) -> (RuntimeView, ActionView) {
    if !r.authenticated || r.initialize {
        go(r, RuntimePhase::AwaitingLeadership, ActionView::AwaitLeadership)
    } else {
        go(r, RuntimePhase::Reporting, ActionView::ReportStarted)
    }
}

/// What comes once the node is open and its server runs, if it has one.
pub open spec fn to_members(r: RuntimeView) -> (RuntimeView, ActionView) {
    if r.initialize {
        go(r, RuntimePhase::Initializing, ActionView::Initialize)
    } else {
        to_leadership(r)
    }
}

/// The last things that a runtime does; `answered` where a request waits for
/// them.
pub open spec fn to_end(r: RuntimeView, answered: bool) -> (RuntimeView, ActionView) {
    go(
        r,
        RuntimePhase::LastCheckpoint(answered),
        ActionView::Perform(
            if answered {
                RuntimeOperation::ShutdownCheckpoint
            } else {
                RuntimeOperation::Checkpoint
            },
        ),
    )
}

/// What a request leads to.
pub open spec fn asked(r: RuntimeView, request: RuntimeRequest) -> (RuntimeView, ActionView) {
    match request {
        RuntimeRequest::Write => go(
            r,
            RuntimePhase::Performing(RuntimeOperation::Write),
            ActionView::Perform(RuntimeOperation::Write),
        ),
        RuntimeRequest::ReadBarrier => go(
            r,
            RuntimePhase::Performing(RuntimeOperation::ReadBarrier),
            ActionView::Perform(RuntimeOperation::ReadBarrier),
        ),
        RuntimeRequest::WaitApplied(log_id) => go(
            r,
            RuntimePhase::AwaitingApplied(log_id),
            ActionView::AwaitApplied(log_id),
        ),
        RuntimeRequest::Status => go(
            r,
            RuntimePhase::ProbingStatus,
            ActionView::Perform(RuntimeOperation::ReadBarrier),
        ),
        RuntimeRequest::ChangeMembership => go(
            r,
            RuntimePhase::Performing(RuntimeOperation::MembershipChange),
            ActionView::Perform(RuntimeOperation::MembershipChange),
        ),
        RuntimeRequest::Checkpoint => go(
            r,
            RuntimePhase::Performing(RuntimeOperation::Checkpoint),
            ActionView::Perform(RuntimeOperation::Checkpoint),
        ),
        RuntimeRequest::Shutdown => to_end(r, true),
    }
}

/// What a step of the start that was done leads to.
pub open spec fn started(r: RuntimeView, found: bool) -> (RuntimeView, ActionView) {
    match r.phase {
        RuntimePhase::ReadingCommitted => go(
            RuntimeView { committed: found, ..r },
            RuntimePhase::ReadingLogState,
            ActionView::ReadLogState,
        ),
        RuntimePhase::ReadingLogState => {
            let state = DurableState {
                state_initialized: r.state_initialized,
                committed: r.committed,
                log_nonempty: found,
            };
            match startup_fault(r.initialize, state, r.authenticated) {
                Some(text) => fails(r, text),
                None => if r.authenticated {
                    go(r, RuntimePhase::Binding, ActionView::Bind)
                } else {
                    go(r, RuntimePhase::Configuring, ActionView::Configure)
                },
            }
        },
        RuntimePhase::Binding => go(r, RuntimePhase::Configuring, ActionView::Configure),
        RuntimePhase::Configuring => if r.authenticated {
            go(r, RuntimePhase::ConnectingPeers, ActionView::ConnectPeers)
        } else {
            go(r, RuntimePhase::OpeningNode, ActionView::OpenNode)
        },
        RuntimePhase::ConnectingPeers => go(r, RuntimePhase::OpeningNode, ActionView::OpenNode),
        RuntimePhase::OpeningNode => if r.authenticated {
            go(r, RuntimePhase::MakingService, ActionView::MakeService)
        } else {
            to_members(r)
        },
        RuntimePhase::MakingService => go(
            r,
            RuntimePhase::ReadingServerTls,
            ActionView::ReadServerTls,
        ),
        RuntimePhase::ReadingServerTls => go(
            r,
            RuntimePhase::ConfiguringServer,
            ActionView::ConfigureServer,
        ),
        RuntimePhase::ConfiguringServer => go(
            r,
            RuntimePhase::StartingServer,
            ActionView::StartServer,
        ),
        RuntimePhase::StartingServer => to_members(r),
        RuntimePhase::Initializing => to_leadership(r),
        _ => go(r, RuntimePhase::Reporting, ActionView::ReportStarted),
    }
}

/// Whether a runtime has not started yet.
pub open spec fn is_starting(phase: RuntimePhase) -> bool {
    match phase {
        RuntimePhase::ReadingCommitted => true,
        RuntimePhase::ReadingLogState => true,
        RuntimePhase::Binding => true,
        RuntimePhase::Configuring => true,
        RuntimePhase::ConnectingPeers => true,
        RuntimePhase::OpeningNode => true,
        RuntimePhase::MakingService => true,
        RuntimePhase::ReadingServerTls => true,
        RuntimePhase::ConfiguringServer => true,
        RuntimePhase::StartingServer => true,
        RuntimePhase::Initializing => true,
        RuntimePhase::AwaitingLeadership => true,
        _ => false,
    }
}

/// What a step of the start leads to.
pub open spec fn start_step(r: RuntimeView, event: EventView) -> (RuntimeView, ActionView) {
    match event {
        EventView::Done(found) => started(r, found),
        EventView::Failed(fault) => fails(r, failure_text(r, fault)),
        EventView::TimedOut => if r.phase == RuntimePhase::Initializing {
            fails(r, "OpenRaft initialization timed out"@)
        } else {
            fails(r, failure_text(r, "timed out"@))
        },
        _ => fails(r, failure_text(r, "interrupted"@)),
    }
}

/// The answer to an operation, by what came of it.
pub open spec fn operation_answer(operation: RuntimeOperation, event: EventView) -> AnswerView {
    match event {
        EventView::Done(_) => AnswerView::Done,
        EventView::Refused(e) => AnswerView::Failed(e),
        EventView::Failed(text) => AnswerView::Failed(ChorusErrorView::Consensus(text)),
        EventView::TimedOut => AnswerView::Failed(
            ChorusErrorView::Consensus(timeout_text(operation)),
        ),
        _ => AnswerView::Failed(ChorusErrorView::Consensus("interrupted"@)),
    }
}

/// The answer to a request that waits for a position, by where the state
/// stands.
pub open spec fn applied_answer(log_id: LogId, event: EventView) -> AnswerView {
    match event {
        EventView::Applied(applied) => if log_before(applied, log_id) {
            AnswerView::Failed(
                ChorusErrorView::Consensus("state machine applied index has an unexpected term"@),
            )
        } else {
            AnswerView::Done
        },
        EventView::Refused(e) => AnswerView::Failed(e),
        EventView::Failed(text) => AnswerView::Failed(ChorusErrorView::Consensus(text)),
        _ => AnswerView::Failed(ChorusErrorView::Consensus("interrupted"@)),
    }
}

/// The answer to a request for the status, by what came of reading the durable
/// cursor.
pub open spec fn status_answer(quorum: bool, event: EventView) -> AnswerView {
    match event {
        EventView::Done(_) => AnswerView::Status { quorum },
        EventView::Failed(text) => AnswerView::Failed(
            ChorusErrorView::Storage("could not read durable OpenRaft status: "@ + text),
        ),
        _ => operation_answer(RuntimeOperation::StatusRead, event),
    }
}

/// What happens next. A request is answered whatever came of it; a status
/// request goes on to read the durable cursor whatever the probe gave. The
/// runtime ends with a checkpoint, then stops its server and its node,
/// whatever came of any of these.
pub open spec fn next(r: RuntimeView, event: EventView) -> (RuntimeView, ActionView) {
    if is_starting(r.phase) {
        start_step(r, event)
    } else {
        match r.phase {
            RuntimePhase::Reporting => go(r, RuntimePhase::Waiting, ActionView::AwaitRequest),
            RuntimePhase::Waiting => match event {
                EventView::Request(request) => asked(r, request),
                EventView::Closed => to_end(r, false),
                _ => go(r, RuntimePhase::Waiting, ActionView::AwaitRequest),
            },
            RuntimePhase::Performing(operation) => go(
                r,
                RuntimePhase::Answering,
                ActionView::Answer(operation_answer(operation, event)),
            ),
            RuntimePhase::AwaitingApplied(log_id) => go(
                r,
                RuntimePhase::Answering,
                ActionView::Answer(applied_answer(log_id, event)),
            ),
            RuntimePhase::ProbingStatus => go(
                r,
                RuntimePhase::ReadingStatus(event is Done),
                ActionView::Perform(RuntimeOperation::StatusRead),
            ),
            RuntimePhase::ReadingStatus(quorum) => go(
                r,
                RuntimePhase::Answering,
                ActionView::Answer(status_answer(quorum, event)),
            ),
            RuntimePhase::Answering => go(r, RuntimePhase::Waiting, ActionView::AwaitRequest),
            RuntimePhase::LastCheckpoint(answered) => go(
                r,
                RuntimePhase::StoppingServer(answered),
                ActionView::StopServer,
            ),
            RuntimePhase::StoppingServer(answered) => go(
                r,
                RuntimePhase::ShuttingDown(answered),
                ActionView::ShutDownNode,
            ),
            RuntimePhase::ShuttingDown(answered) => if answered {
                go(r, RuntimePhase::Finished, ActionView::Answer(AnswerView::Done))
            } else {
                go(r, RuntimePhase::Finished, ActionView::Finish)
            },
            _ => go(r, RuntimePhase::Finished, ActionView::Finish),
        }
    }
}

// ---------------------------------------------------------------------------
// The machine
// ---------------------------------------------------------------------------

fn answer_operation(operation: RuntimeOperation, event: RuntimeEvent) -> (answer: RuntimeAnswer)
    ensures
        answer@ == operation_answer(operation, event@),
{
    match event {
        RuntimeEvent::Done(_) => RuntimeAnswer::Done,
        RuntimeEvent::Refused(e) => RuntimeAnswer::Failed(e),
        RuntimeEvent::Failed(text) => RuntimeAnswer::Failed(ChorusError::Consensus(text)),
        RuntimeEvent::TimedOut => RuntimeAnswer::Failed(operation_timed_out(operation)),
        _ => RuntimeAnswer::Failed(ChorusError::consensus("interrupted")),
    }
}

fn answer_applied(log_id: LogId, event: RuntimeEvent) -> (answer: RuntimeAnswer)
    ensures
        answer@ == applied_answer(log_id, event@),
{
    match event {
        RuntimeEvent::Applied(applied) => match applied_at_least(applied, log_id) {
            Ok(()) => RuntimeAnswer::Done,
            Err(e) => RuntimeAnswer::Failed(e),
        },
        RuntimeEvent::Refused(e) => RuntimeAnswer::Failed(e),
        RuntimeEvent::Failed(text) => RuntimeAnswer::Failed(ChorusError::Consensus(text)),
        _ => RuntimeAnswer::Failed(ChorusError::consensus("interrupted")),
    }
}

fn answer_status(quorum: bool, event: RuntimeEvent) -> (answer: RuntimeAnswer)
    ensures
        answer@ == status_answer(quorum, event@),
{
    match event {
        RuntimeEvent::Done(_) => RuntimeAnswer::Status { quorum },
        RuntimeEvent::Failed(text) => RuntimeAnswer::Failed(
            ChorusError::Storage(
                joined("could not read durable OpenRaft status: ", text.as_str()),
            ),
        ),
        event => answer_operation(RuntimeOperation::StatusRead, event),
    }
}

impl Runtime {
    /// A runtime that has done nothing yet.
    pub fn start(authenticated: bool, initialize: bool, state_initialized: bool, listen: &str) -> (begun:
        (Runtime, RuntimeAction))
        ensures
            begun.0@ == (RuntimeView {
                authenticated,
                initialize,
                state_initialized,
                committed: false,
                listen: listen@,
                phase: RuntimePhase::ReadingCommitted,
            }),
            begun.1@ == ActionView::ReadCommitted,
    {
        (
            Runtime {
                authenticated,
                initialize,
                state_initialized,
                committed: false,
                listen: owned(listen),
                phase: RuntimePhase::ReadingCommitted,
            },
            RuntimeAction::ReadCommitted,
        )
    }

    fn turn(&mut self, phase: RuntimePhase, action: RuntimeAction) -> (same: RuntimeAction)
        ensures
            (final(self)@, same@) == go(old(self)@, phase, action@),
    {
        self.phase = phase;
        action
    }

    fn fail(&mut self, text: String) -> (action: RuntimeAction)
        ensures
            (final(self)@, action@) == fails(old(self)@, text@),
    {
        let shut_down_node = match self.phase {
            RuntimePhase::MakingService => true,
            RuntimePhase::ReadingServerTls => true,
            RuntimePhase::ConfiguringServer => true,
            RuntimePhase::StartingServer => true,
            RuntimePhase::Initializing => true,
            RuntimePhase::AwaitingLeadership => true,
            _ => false,
        };
        let stop_server = self.authenticated && match self.phase {
            RuntimePhase::Initializing => true,
            RuntimePhase::AwaitingLeadership => true,
            _ => false,
        };
        self.turn(
            RuntimePhase::Finished,
            RuntimeAction::ReportFailed { text, stop_server, shut_down_node },
        )
    }

    fn describe(&self, fault: &str) -> (text: String)
        ensures
            text@ == failure_text(self@, fault@),
    {
        match self.phase {
            RuntimePhase::ReadingCommitted => joined(
                "could not read OpenRaft commit state: ",
                fault,
            ),
            RuntimePhase::ReadingLogState => joined("could not read OpenRaft log state: ", fault),
            RuntimePhase::Binding => {
                let mut text = joined3(
                    "could not bind authenticated OpenRaft listener ",
                    self.listen.as_str(),
                    ": ",
                );
                text.append(fault);
                text
            },
            RuntimePhase::OpeningNode => joined("could not open OpenRaft node: ", fault),
            RuntimePhase::ConfiguringServer => joined(
                "could not configure authenticated OpenRaft TLS server: ",
                fault,
            ),
            RuntimePhase::Initializing => joined("OpenRaft initialization failed: ", fault),
            RuntimePhase::AwaitingLeadership => joined("OpenRaft leader startup failed: ", fault),
            _ => owned(fault),
        }
    }

    fn await_leadership(&mut self) -> (action: RuntimeAction)
        ensures
            (final(self)@, action@) == to_leadership(old(self)@),
    {
        if waits_for_own_leadership(self.initialize, self.authenticated) {
            self.turn(RuntimePhase::AwaitingLeadership, RuntimeAction::AwaitLeadership)
        } else {
            self.turn(RuntimePhase::Reporting, RuntimeAction::ReportStarted)
        }
    }

    fn give_members(&mut self) -> (action: RuntimeAction)
        ensures
            (final(self)@, action@) == to_members(old(self)@),
    {
        if self.initialize {
            self.turn(RuntimePhase::Initializing, RuntimeAction::Initialize)
        } else {
            self.await_leadership()
        }
    }

    fn decide_start(&mut self, log_nonempty: bool) -> (action: RuntimeAction)
        requires
            old(self)@.phase == RuntimePhase::ReadingLogState,
        ensures
            (final(self)@, action@) == started(old(self)@, log_nonempty),
    {
        let state = DurableState {
            state_initialized: self.state_initialized,
            committed: self.committed,
            log_nonempty,
        };
        match startup_decision(self.initialize, state, self.authenticated) {
            Err(text) => self.fail(text),
            Ok(()) => {
                if self.authenticated {
                    self.turn(RuntimePhase::Binding, RuntimeAction::Bind)
                } else {
                    self.turn(RuntimePhase::Configuring, RuntimeAction::Configure)
                }
            },
        }
    }

    fn go_on(&mut self, found: bool) -> (action: RuntimeAction)
        requires
            is_starting(old(self)@.phase),
        ensures
            (final(self)@, action@) == started(old(self)@, found),
    {
        match self.phase {
            RuntimePhase::ReadingCommitted => {
                self.committed = found;
                self.turn(RuntimePhase::ReadingLogState, RuntimeAction::ReadLogState)
            },
            RuntimePhase::ReadingLogState => self.decide_start(found),
            RuntimePhase::Binding => self.turn(
                RuntimePhase::Configuring,
                RuntimeAction::Configure,
            ),
            RuntimePhase::Configuring => if self.authenticated {
                self.turn(RuntimePhase::ConnectingPeers, RuntimeAction::ConnectPeers)
            } else {
                self.turn(RuntimePhase::OpeningNode, RuntimeAction::OpenNode)
            },
            RuntimePhase::ConnectingPeers => self.turn(
                RuntimePhase::OpeningNode,
                RuntimeAction::OpenNode,
            ),
            RuntimePhase::OpeningNode => if self.authenticated {
                self.turn(RuntimePhase::MakingService, RuntimeAction::MakeService)
            } else {
                self.give_members()
            },
            RuntimePhase::MakingService => self.turn(
                RuntimePhase::ReadingServerTls,
                RuntimeAction::ReadServerTls,
            ),
            RuntimePhase::ReadingServerTls => self.turn(
                RuntimePhase::ConfiguringServer,
                RuntimeAction::ConfigureServer,
            ),
            RuntimePhase::ConfiguringServer => self.turn(
                RuntimePhase::StartingServer,
                RuntimeAction::StartServer,
            ),
            RuntimePhase::StartingServer => self.give_members(),
            RuntimePhase::Initializing => self.await_leadership(),
            _ => self.turn(RuntimePhase::Reporting, RuntimeAction::ReportStarted),
        }
    }

    fn step_start(&mut self, event: RuntimeEvent) -> (action: RuntimeAction)
        requires
            is_starting(old(self)@.phase),
        ensures
            (final(self)@, action@) == start_step(old(self)@, event@),
    {
        match event {
            RuntimeEvent::Done(found) => self.go_on(found),
            RuntimeEvent::Failed(fault) => {
                let text = self.describe(fault.as_str());
                self.fail(text)
            },
            RuntimeEvent::TimedOut => {
                let initializing = match self.phase {
                    RuntimePhase::Initializing => true,
                    _ => false,
                };
                let text = if initializing {
                    owned("OpenRaft initialization timed out")
                } else {
                    self.describe("timed out")
                };
                self.fail(text)
            },
            _ => {
                let text = self.describe("interrupted");
                self.fail(text)
            },
        }
    }

    fn end(&mut self, answered: bool) -> (action: RuntimeAction)
        ensures
            (final(self)@, action@) == to_end(old(self)@, answered),
    {
        let operation = if answered {
            RuntimeOperation::ShutdownCheckpoint
        } else {
            RuntimeOperation::Checkpoint
        };
        self.turn(RuntimePhase::LastCheckpoint(answered), RuntimeAction::Perform(operation))
    }

    fn take_request(&mut self, request: RuntimeRequest) -> (action: RuntimeAction)
        ensures
            (final(self)@, action@) == asked(old(self)@, request),
    {
        match request {
            RuntimeRequest::Write => self.turn(
                RuntimePhase::Performing(RuntimeOperation::Write),
                RuntimeAction::Perform(RuntimeOperation::Write),
            ),
            RuntimeRequest::ReadBarrier => self.turn(
                RuntimePhase::Performing(RuntimeOperation::ReadBarrier),
                RuntimeAction::Perform(RuntimeOperation::ReadBarrier),
            ),
            RuntimeRequest::WaitApplied(log_id) => self.turn(
                RuntimePhase::AwaitingApplied(log_id),
                RuntimeAction::AwaitApplied(log_id),
            ),
            RuntimeRequest::Status => self.turn(
                RuntimePhase::ProbingStatus,
                RuntimeAction::Perform(RuntimeOperation::ReadBarrier),
            ),
            RuntimeRequest::ChangeMembership => self.turn(
                RuntimePhase::Performing(RuntimeOperation::MembershipChange),
                RuntimeAction::Perform(RuntimeOperation::MembershipChange),
            ),
            RuntimeRequest::Checkpoint => self.turn(
                RuntimePhase::Performing(RuntimeOperation::Checkpoint),
                RuntimeAction::Perform(RuntimeOperation::Checkpoint),
            ),
            RuntimeRequest::Shutdown => self.end(true),
        }
    }

    /// Takes what happened, and says what to do next.
    pub fn step(&mut self, event: RuntimeEvent) -> (action: RuntimeAction)
        ensures
            (final(self)@, action@) == next(old(self)@, event@),
    {
        match self.phase {
            RuntimePhase::Reporting => self.turn(
                RuntimePhase::Waiting,
                RuntimeAction::AwaitRequest,
            ),
            RuntimePhase::Waiting => match event {
                RuntimeEvent::Request(request) => self.take_request(request),
                RuntimeEvent::Closed => self.end(false),
                _ => self.turn(RuntimePhase::Waiting, RuntimeAction::AwaitRequest),
            },
            RuntimePhase::Performing(operation) => self.turn(
                RuntimePhase::Answering,
                RuntimeAction::Answer(answer_operation(operation, event)),
            ),
            RuntimePhase::AwaitingApplied(log_id) => self.turn(
                RuntimePhase::Answering,
                RuntimeAction::Answer(answer_applied(log_id, event)),
            ),
            RuntimePhase::ProbingStatus => {
                let quorum = match event {
                    RuntimeEvent::Done(_) => true,
                    _ => false,
                };
                self.turn(
                    RuntimePhase::ReadingStatus(quorum),
                    RuntimeAction::Perform(RuntimeOperation::StatusRead),
                )
            },
            RuntimePhase::ReadingStatus(quorum) => self.turn(
                RuntimePhase::Answering,
                RuntimeAction::Answer(answer_status(quorum, event)),
            ),
            RuntimePhase::Answering => self.turn(
                RuntimePhase::Waiting,
                RuntimeAction::AwaitRequest,
            ),
            RuntimePhase::LastCheckpoint(answered) => self.turn(
                RuntimePhase::StoppingServer(answered),
                RuntimeAction::StopServer,
            ),
            RuntimePhase::StoppingServer(answered) => self.turn(
                RuntimePhase::ShuttingDown(answered),
                RuntimeAction::ShutDownNode,
            ),
            RuntimePhase::ShuttingDown(answered) => if answered {
                self.turn(RuntimePhase::Finished, RuntimeAction::Answer(RuntimeAnswer::Done))
            } else {
                self.turn(RuntimePhase::Finished, RuntimeAction::Finish)
            },
            RuntimePhase::Finished => self.turn(RuntimePhase::Finished, RuntimeAction::Finish),
            _ => self.step_start(event),
        }
    }
}

// ---------------------------------------------------------------------------
// Laws
// ---------------------------------------------------------------------------

/// A runtime opens its node only on durable state that it may start on: the
/// step behind reading the log's state is a failure wherever it may not.
pub proof fn nodes_open_on_sound_state(r: RuntimeView, log_nonempty: bool)
    requires
        r.phase == RuntimePhase::ReadingLogState,
        startup_fault(
            r.initialize,
            DurableState {
                state_initialized: r.state_initialized,
                committed: r.committed,
                log_nonempty,
            },
            r.authenticated,
        ) is Some,
    ensures
        next(r, EventView::Done(log_nonempty)).1 is ReportFailed,
        next(r, EventView::Done(log_nonempty)).0.phase == RuntimePhase::Finished,
{
}

/// A start that fails leaves nothing behind: a node that is open is shut down,
/// and a server that runs is stopped.
pub proof fn failed_starts_clean_up(r: RuntimeView, fault: Seq<char>)
    requires
        is_starting(r.phase),
    ensures
        next(r, EventView::Failed(fault)).1 matches ActionView::ReportFailed {
            stop_server,
            shut_down_node,
            ..
        } && shut_down_node == node_is_open(r.phase) && stop_server == server_runs(
            r.phase,
            r.authenticated,
        ),
        next(r, EventView::Failed(fault)).0.phase == RuntimePhase::Finished,
{
}

/// No request is waited for before the start was reported.
pub proof fn requests_follow_the_start(r: RuntimeView, event: EventView)
    requires
        is_starting(r.phase),
    ensures
        is_starting(next(r, event).0.phase) || next(r, event).0.phase == RuntimePhase::Reporting
            || next(r, event).0.phase == RuntimePhase::Finished,
        !(next(r, event).1 is AwaitRequest),
        !(next(r, event).1 is Perform),
{
}

/// Every request is answered, whatever comes of it, and the next one is then
/// waited for.
pub proof fn requests_are_answered(
    r: RuntimeView,
    request: RuntimeRequest,
    a: EventView,
    b: EventView,
    c: EventView,
)
    requires
        r.phase == RuntimePhase::Waiting,
        request != RuntimeRequest::Shutdown,
    ensures
        ({
            let begun = next(r, EventView::Request(request));
            let first = next(begun.0, a);
            let second = next(first.0, b);
            let third = next(second.0, c);
            if request == RuntimeRequest::Status {
                second.1 is Answer && third.1 is AwaitRequest
            } else {
                first.1 is Answer && second.1 is AwaitRequest
            }
        }),
{
}

/// A status says that a quorum was reached only where the barrier before it
/// went through.
pub proof fn statuses_claim_no_quorum(r: RuntimeView, probe: EventView, read: EventView)
    requires
        r.phase == RuntimePhase::ProbingStatus,
        next(next(r, probe).0, read).1 == ActionView::Answer(AnswerView::Status { quorum: true }),
    ensures
        probe is Done,
{
}

/// A runtime that ends takes a checkpoint, stops its server and shuts its node
/// down, in this order and whatever happens on the way.
pub proof fn ends_are_orderly(r: RuntimeView, a: EventView, b: EventView, c: EventView)
    requires
        r.phase == RuntimePhase::Waiting,
    ensures
        ({
            let first = next(r, EventView::Closed);
            let second = next(first.0, a);
            let third = next(second.0, b);
            let last = next(third.0, c);
            &&& first.1 == ActionView::Perform(RuntimeOperation::Checkpoint)
            &&& second.1 is StopServer
            &&& third.1 is ShutDownNode
            &&& last.1 is Finish
            &&& last.0.phase == RuntimePhase::Finished
        }),
{
}

} // verus!
