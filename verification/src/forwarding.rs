//! A request that a follower takes to the leader: the local node first, then
//! node by node to whom the others point, and last the local state.

use crate::error::{ChorusError, ChorusErrorView};
use crate::ids::LogId;
use crate::runtime::{
    at_cursor, forwarded_refusal, redirect, snapshot_after_read_cursor, Redirects,
};
use vstd::prelude::*;
use vstd::string::*;

verus! {

/// What a forwarded request asks for next.
#[derive(Clone, Debug)]
pub enum ForwardAction {
    /// Try the local node.
    Local,
    /// Ask this node, as the leader.
    Ask(u64),
    /// See how far the local state has come.
    ReadState,
    /// The request is done.
    Done,
    Fail(ChorusError),
}

/// What happened.
#[derive(Clone, Debug)]
pub enum ForwardEvent {
    /// The request was done up to a log position; a read may have none.
    Accepted(Option<LogId>),
    /// The local node does not lead: whom it named as the leader, and whom its
    /// metrics show.
    NotLeader { named: Option<u64>, known: Option<u64> },
    /// The node that was asked does not lead; it may know who does.
    Redirected(Option<u64>),
    /// The leader refused the request.
    Refused(String),
    /// The node did not answer.
    Faulted(String),
    /// The local state has come this far.
    Applied(LogId),
    /// The local state cannot be read.
    Unreadable(String),
}

/// Where a forwarded request stands.
#[derive(Clone, Copy, Debug, PartialEq, Eq, Structural)]
pub enum ForwardPhase {
    Trying,
    Asking,
    /// The local state must have come to a position.
    Checking(Option<LogId>),
    Finished,
}

/// A request that is under way.
pub struct Forwarding {
    write: bool,
    gateway: bool,
    redirects: Option<Redirects>,
    phase: ForwardPhase,
}

/// What a [`Forwarding`] holds.
#[verifier::ext_equal]
pub struct ForwardView {
    /// Whether the request is a write.
    pub write: bool,
    /// Whether other nodes can be asked.
    pub gateway: bool,
    /// The nodes that were asked.
    pub visited: Seq<u64>,
    pub phase: ForwardPhase,
}

impl View for Forwarding {
    type V = ForwardView;

    closed spec fn view(&self) -> ForwardView {
        ForwardView {
            write: self.write,
            gateway: self.gateway,
            visited: match self.redirects {
                Some(r) => r@,
                None => Seq::empty(),
            },
            phase: self.phase,
        }
    }
}

/// What a [`ForwardAction`] says.
pub enum ForwardActionView {
    Local,
    Ask(u64),
    ReadState,
    Done,
    Fail(ChorusErrorView),
}

impl View for ForwardAction {
    type V = ForwardActionView;

    open spec fn view(&self) -> ForwardActionView {
        match self {
            ForwardAction::Local => ForwardActionView::Local,
            ForwardAction::Ask(node) => ForwardActionView::Ask(*node),
            ForwardAction::ReadState => ForwardActionView::ReadState,
            ForwardAction::Done => ForwardActionView::Done,
            ForwardAction::Fail(e) => ForwardActionView::Fail(e@),
        }
    }
}

/// What a [`ForwardEvent`] says.
pub enum ForwardEventView {
    Accepted(Option<LogId>),
    NotLeader { named: Option<u64>, known: Option<u64> },
    Redirected(Option<u64>),
    Refused(Seq<char>),
    Faulted(Seq<char>),
    Applied(LogId),
    Unreadable(Seq<char>),
}

impl View for ForwardEvent {
    type V = ForwardEventView;

    open spec fn view(&self) -> ForwardEventView {
        match self {
            ForwardEvent::Accepted(id) => ForwardEventView::Accepted(*id),
            ForwardEvent::NotLeader { named, known } => ForwardEventView::NotLeader {
                named: *named,
                known: *known,
            },
            ForwardEvent::Redirected(leader) => ForwardEventView::Redirected(*leader),
            ForwardEvent::Refused(text) => ForwardEventView::Refused(text@),
            ForwardEvent::Faulted(text) => ForwardEventView::Faulted(text@),
            ForwardEvent::Applied(id) => ForwardEventView::Applied(*id),
            ForwardEvent::Unreadable(text) => ForwardEventView::Unreadable(text@),
        }
    }
}

/// The request failed.
pub open spec fn forward_fails(f: ForwardView, e: ChorusErrorView) -> (
    ForwardView,
    ForwardActionView,
) {
    (ForwardView { phase: ForwardPhase::Finished, ..f }, ForwardActionView::Fail(e))
}

/// Another node is asked, where one may be.
pub open spec fn to_leader(f: ForwardView, target: Option<u64>) -> (ForwardView, ForwardActionView) {
    if !f.gateway {
        forward_fails(
            f,
            ChorusErrorView::Consensus("OpenRaft has no authenticated follower gateway"@),
        )
    } else {
        match redirect(f.visited, target) {
            Err(e) => forward_fails(f, e),
            Ok(leader) => (
                ForwardView {
                    visited: f.visited.push(leader),
                    phase: ForwardPhase::Asking,
                    ..f
                },
                ForwardActionView::Ask(leader),
            ),
        }
    }
}

/// The local state is looked at.
pub open spec fn to_check(f: ForwardView, cursor: Option<LogId>) -> (ForwardView, ForwardActionView) {
    (ForwardView { phase: ForwardPhase::Checking(cursor), ..f }, ForwardActionView::ReadState)
}

/// The request is done.
pub open spec fn forward_done(f: ForwardView) -> (ForwardView, ForwardActionView) {
    (ForwardView { phase: ForwardPhase::Finished, ..f }, ForwardActionView::Done)
}

/// What keeps the local state from serving what was confirmed, if anything.
pub open spec fn cursor_fault(applied: LogId, cursor: Option<LogId>) -> Option<ChorusErrorView> {
    match cursor {
        None => None,
        Some(c) => if at_cursor(applied, c) {
            None
        } else {
            Some(
                ChorusErrorView::Consensus(
                    "local state does not match the confirmed OpenRaft read cursor"@,
                ),
            )
        },
    }
}

/// What happens next. A write that the local node takes is done; everything
/// else is done only once the local state has come to the position that was
/// confirmed.
pub open spec fn forward_next(f: ForwardView, event: ForwardEventView) -> (
    ForwardView,
    ForwardActionView,
) {
    match (f.phase, event) {
        (ForwardPhase::Finished, _) => forward_fails(
            f,
            ChorusErrorView::Consensus("the request is over"@),
        ),
        (_, ForwardEventView::Faulted(text)) => forward_fails(f, ChorusErrorView::Consensus(text)),
        (ForwardPhase::Trying, ForwardEventView::Accepted(cursor)) => if f.write {
            forward_done(f)
        } else {
            to_check(f, cursor)
        },
        (ForwardPhase::Asking, ForwardEventView::Accepted(cursor)) => to_check(f, cursor),
        (ForwardPhase::Trying, ForwardEventView::NotLeader { named, known }) => to_leader(
            f,
            if named is Some {
                named
            } else {
                known
            },
        ),
        (ForwardPhase::Asking, ForwardEventView::Redirected(target)) => to_leader(f, target),
        (ForwardPhase::Asking, ForwardEventView::Refused(reason)) => forward_fails(
            f,
            ChorusErrorView::Consensus(
                (if f.write {
                    "OpenRaft leader rejected forwarded write: "@
                } else {
                    "OpenRaft leader rejected forwarded read barrier: "@
                }) + reason,
            ),
        ),
        (ForwardPhase::Checking(_), ForwardEventView::Unreadable(text)) => forward_fails(
            f,
            ChorusErrorView::Storage(text),
        ),
        (ForwardPhase::Checking(cursor), ForwardEventView::Applied(applied)) => match cursor_fault(
            applied,
            cursor,
        ) {
            Some(e) => forward_fails(f, e),
            None => forward_done(f),
        },
        _ => forward_fails(f, ChorusErrorView::Consensus("unexpected answer"@)),
    }
}

impl Forwarding {
    /// A request that has not been tried.
    pub fn start(write: bool, gateway: bool) -> (begun: (Forwarding, ForwardAction))
        ensures
            begun.0@ == (ForwardView {
                write,
                gateway,
                visited: Seq::empty(),
                phase: ForwardPhase::Trying,
            }),
            begun.1@ == ForwardActionView::Local,
            begun.0.wf(),
    {
        let redirects = match Redirects::start(gateway) {
            Ok(redirects) => Some(redirects),
            Err(_) => None,
        };
        (
            Forwarding { write, gateway, redirects, phase: ForwardPhase::Trying },
            ForwardAction::Local,
        )
    }

    /// Whether the machine can ask other nodes exactly where it has a gateway.
    pub closed spec fn wf(&self) -> bool {
        self.redirects is Some <==> self.gateway
    }

    fn fail(&mut self, e: ChorusError) -> (action: ForwardAction)
        requires
            old(self).wf(),
        ensures
            final(self).wf(),
            (final(self)@, action@) == forward_fails(old(self)@, e@),
    {
        self.phase = ForwardPhase::Finished;
        ForwardAction::Fail(e)
    }

    fn finish(&mut self) -> (action: ForwardAction)
        requires
            old(self).wf(),
        ensures
            final(self).wf(),
            (final(self)@, action@) == forward_done(old(self)@),
    {
        self.phase = ForwardPhase::Finished;
        ForwardAction::Done
    }

    fn check(&mut self, cursor: Option<LogId>) -> (action: ForwardAction)
        requires
            old(self).wf(),
        ensures
            final(self).wf(),
            (final(self)@, action@) == to_check(old(self)@, cursor),
    {
        self.phase = ForwardPhase::Checking(cursor);
        ForwardAction::ReadState
    }

    fn ask(&mut self, target: Option<u64>) -> (action: ForwardAction)
        requires
            old(self).wf(),
        ensures
            final(self).wf(),
            (final(self)@, action@) == to_leader(old(self)@, target),
    {
        let ghost before = self@;
        let mut redirects = match self.redirects.take() {
            Some(redirects) => redirects,
            None => {
                return self.fail(
                    ChorusError::consensus("OpenRaft has no authenticated follower gateway"),
                );
            },
        };
        let found = redirects.next(target);
        self.redirects = Some(redirects);
        match found {
            Err(e) => self.fail(e),
            Ok(leader) => {
                self.phase = ForwardPhase::Asking;
                ForwardAction::Ask(leader)
            },
        }
    }

    /// Takes what happened, and says what to do next.
    pub fn step(&mut self, event: ForwardEvent) -> (action: ForwardAction)
        requires
            old(self).wf(),
        ensures
            final(self).wf(),
            (final(self)@, action@) == forward_next(old(self)@, event@),
    {
        match (self.phase, event) {
            (ForwardPhase::Finished, _) => self.fail(
                ChorusError::consensus("the request is over"),
            ),
            (_, ForwardEvent::Faulted(text)) => self.fail(ChorusError::Consensus(text)),
            (ForwardPhase::Trying, ForwardEvent::Accepted(cursor)) => if self.write {
                self.finish()
            } else {
                self.check(cursor)
            },
            (ForwardPhase::Asking, ForwardEvent::Accepted(cursor)) => self.check(cursor),
            (ForwardPhase::Trying, ForwardEvent::NotLeader { named, known }) => {
                let target = if named.is_some() {
                    named
                } else {
                    known
                };
                self.ask(target)
            },
            (ForwardPhase::Asking, ForwardEvent::Redirected(target)) => self.ask(target),
            (ForwardPhase::Asking, ForwardEvent::Refused(reason)) => {
                let e = forwarded_refusal(self.write, reason.as_str());
                self.fail(e)
            },
            (ForwardPhase::Checking(_), ForwardEvent::Unreadable(text)) => self.fail(
                ChorusError::Storage(text),
            ),
            (ForwardPhase::Checking(cursor), ForwardEvent::Applied(applied)) => {
                match snapshot_after_read_cursor(applied, cursor) {
                    Ok(()) => self.finish(),
                    Err(e) => self.fail(e),
                }
            },
            _ => self.fail(ChorusError::consensus("unexpected answer")),
        }
    }
}

/// A request that other nodes took is done only once the local state has come
/// to the position that they confirmed: a client reads its own writes.
pub proof fn forwarded_requests_are_seen_locally(f: ForwardView, event: ForwardEventView)
    requires
        f.phase != ForwardPhase::Trying || !f.write,
        forward_next(f, event).1 is Done,
    ensures
        f.phase matches ForwardPhase::Checking(cursor) && (event matches ForwardEventView::Applied(
            applied,
        ) && (cursor matches Some(c) ==> at_cursor(applied, c))),
{
}

/// A request asks no node twice, and at most three.
pub proof fn forwarding_ends(f: ForwardView, event: ForwardEventView)
    requires
        f.visited.no_duplicates(),
        forward_next(f, event).1 is Ask,
    ensures
        forward_next(f, event).0.visited.no_duplicates(),
        forward_next(f, event).0.visited.len() <= 3,
{
    let target = match event {
        ForwardEventView::Redirected(target) => target,
        ForwardEventView::NotLeader { named, known } => if named is Some {
            named
        } else {
            known
        },
        _ => None,
    };
    crate::runtime::redirects_end(f.visited, target);
}

} // verus!
