//! Recovery: applying committed entries to the state machine, in order and
//! each once, and moving the hard cursor only behind the state.

use crate::error::{ChorusError, ChorusErrorView};
use crate::ids::LogId;
use crate::raft_log::{HardState, LogVerdict};
use crate::text::{digits, digits_text, joined3, same_bytes};
use vstd::prelude::*;
use vstd::string::*;

verus! {

type LogResult<T> = std::result::Result<T, ChorusError>;

/// What a replay did.
#[derive(Clone, Copy, Debug, PartialEq, Eq, Structural)]
pub struct ReplayProgress {
    /// Whether the hard cursor was moved to state that had been applied before.
    pub reconciled_hard_cursor: bool,
    /// The number of entries that were applied.
    pub entries_applied: usize,
}

/// What is known of the state machine at one moment.
#[derive(Clone, Copy, Debug)]
pub struct StateMark {
    pub healthy: bool,
    pub cluster_id: [u8; 16],
    pub cluster_incarnation: u64,
    pub last_applied: LogId,
}

/// Whether the state machine belongs to the log and can be used.
pub open spec fn mark_verdict(mark: StateMark, hard: HardState) -> LogVerdict {
    if !mark.healthy {
        Err(ChorusErrorView::Storage("state store is unhealthy during consensus replay"@))
    } else if mark.cluster_id@ != hard.cluster_id@ || mark.cluster_incarnation
        != hard.cluster_incarnation {
        Err(
            ChorusErrorView::Protocol("state store identity does not match consensus hard state"@),
        )
    } else {
        Ok(())
    }
}

/// Whether a check came out as `verdict` says.
pub open spec fn log_comes_out(verdict: LogVerdict, result: LogResult<()>) -> bool {
    match result {
        Ok(()) => verdict == Ok::<(), ChorusErrorView>(()),
        Err(e) => verdict == Err::<(), ChorusErrorView>(e@),
    }
}

/// Checks that the state machine belongs to the log and can be used.
pub fn validated_snapshot(mark: &StateMark, hard: &HardState) -> (result: LogResult<()>)
    ensures
        log_comes_out(mark_verdict(*mark, *hard), result),
{
    if !mark.healthy {
        return Err(ChorusError::storage("state store is unhealthy during consensus replay"));
    }
    if !same_bytes(mark.cluster_id.as_slice(), hard.cluster_id.as_slice())
        || mark.cluster_incarnation != hard.cluster_incarnation {
        return Err(
            ChorusError::protocol("state store identity does not match consensus hard state"),
        );
    }
    Ok(())
}

/// How the cursor of the state may stand to the hard state.
pub open spec fn cursor_verdict(hard: HardState, cursor: LogId) -> LogVerdict {
    if (cursor.index == 0) != (cursor == LogId::zero()) || (cursor.index != 0 && cursor.term == 0) {
        Err(ChorusErrorView::Protocol("state store has an invalid applied LogId"@))
    } else if cursor.index > hard.commit_index {
        Err(ChorusErrorView::Protocol("state cursor is ahead of the durable commit index"@))
    } else if hard.last_applied.index > cursor.index {
        Err(ChorusErrorView::Protocol("hard applied cursor is ahead of durable state"@))
    } else if hard.last_applied.index == cursor.index && hard.last_applied != cursor {
        Err(ChorusErrorView::Protocol("hard and state applied cursors disagree on term"@))
    } else {
        Ok(())
    }
}

/// Checks how the cursor of the state stands to the hard state.
pub fn validate_cursor_relation(hard: &HardState, state_cursor: LogId) -> (result: LogResult<()>)
    ensures
        log_comes_out(cursor_verdict(*hard, state_cursor), result),
{
    if (state_cursor.index == 0) != (state_cursor.index == 0 && state_cursor.term == 0) || (
    state_cursor.index != 0 && state_cursor.term == 0) {
        return Err(ChorusError::protocol("state store has an invalid applied LogId"));
    }
    if state_cursor.index > hard.commit_index {
        return Err(ChorusError::protocol("state cursor is ahead of the durable commit index"));
    }
    if hard.last_applied.index > state_cursor.index {
        return Err(ChorusError::protocol("hard applied cursor is ahead of durable state"));
    }
    if hard.last_applied.index == state_cursor.index && !(hard.last_applied == state_cursor) {
        return Err(ChorusError::protocol("hard and state applied cursors disagree on term"));
    }
    Ok(())
}

/// Whether the entries that were read of a span of the log end it at the
/// cursor of the state.
pub open spec fn span_verdict(start: u64, cursor: LogId, ids: Seq<LogId>) -> LogVerdict {
    if cursor.index - start + 1 > usize::MAX {
        Err(ChorusErrorView::Limit("reconciliation range is too large"@))
    } else if ids.len() != cursor.index - start + 1 || ids.last() != cursor {
        Err(
            ChorusErrorView::Protocol(
                "state cursor does not match a contiguous committed log span"@,
            ),
        )
    } else {
        Ok(())
    }
}

/// Checks the entries that were read of a span of the log.
pub fn validate_committed_span(start: u64, final_cursor: LogId, ids: &[LogId]) -> (result:
    LogResult<()>)
    requires
        0 < start <= final_cursor.index,
    ensures
        log_comes_out(span_verdict(start, final_cursor, ids@), result),
{
    let count: u64 = final_cursor.index - start + 1;
    if count > usize::MAX as u64 {
        return Err(ChorusError::limit("reconciliation range is too large"));
    }
    if ids.len() as u64 != count || !(ids[ids.len() - 1] == final_cursor) {
        return Err(
            ChorusError::protocol("state cursor does not match a contiguous committed log span"),
        );
    }
    Ok(())
}

/// What a replay asks for next.
#[derive(Clone, Copy, Debug, PartialEq, Eq, Structural)]
pub enum ReplayAction {
    /// Read the committed entries from an index to another.
    Read(u64, u64),
    /// Move the hard cursor, and read the hard state again.
    Mark(LogId),
    /// Apply an entry to the state, and see where the state stands.
    Apply(LogId),
    /// Nothing more is to be done.
    Done(ReplayProgress),
}

/// What happened.
pub enum ReplayEvent {
    /// The log positions of the entries that were read.
    Read(Vec<LogId>),
    /// The cursor was moved; the hard state is this now.
    Marked(HardState),
    /// The entry was applied; the state is this now.
    Applied(StateMark),
}

/// Where a replay stands.
#[derive(Clone, Copy, Debug, PartialEq, Eq, Structural)]
pub enum Phase {
    ReadingSpan,
    MarkingSpan,
    ReadingRange,
    Applying,
    MarkingEntry,
    Finished,
}

/// A replay that is under way.
pub struct Replay {
    hard: HardState,
    cursor: LogId,
    reconciled: bool,
    pending: Vec<LogId>,
    next: usize,
    applied: usize,
    phase: Phase,
}

/// What a [`Replay`] holds.
pub struct ReplayView {
    /// The hard state, as it was last read.
    pub hard: HardState,
    /// How far the state has been applied.
    pub cursor: LogId,
    pub reconciled: bool,
    /// The entries that are to be applied.
    pub pending: Seq<LogId>,
    /// The first of them that has not been applied.
    pub next: int,
    pub applied: int,
    pub phase: Phase,
}

impl View for Replay {
    type V = ReplayView;

    closed spec fn view(&self) -> ReplayView {
        ReplayView {
            hard: self.hard,
            cursor: self.cursor,
            reconciled: self.reconciled,
            pending: self.pending@,
            next: self.next as int,
            applied: self.applied as int,
            phase: self.phase,
        }
    }
}

/// The position as it is shown in errors.
pub open spec fn log_id_text(id: LogId) -> Seq<char> {
    "LogId { term: "@ + digits(id.term as nat) + ", index: "@ + digits(id.index as nat) + " }"@
}

fn show_log_id(id: LogId) -> (text: String)
    ensures
        text@ == log_id_text(id),
{
    let mut text = joined3("LogId { term: ", digits_text(id.term).as_str(), ", index: ");
    text.append(digits_text(id.index).as_str());
    text.append(" }");
    text
}

/// What comes next for a replay, or the error that ends it.
pub type ReplayOutcome = std::result::Result<(ReplayView, ReplayAction), ChorusErrorView>;

/// The replay is over.
pub open spec fn finished(r: ReplayView) -> ReplayOutcome {
    Ok(
        (
            ReplayView { phase: Phase::Finished, ..r },
            ReplayAction::Done(
                ReplayProgress {
                    reconciled_hard_cursor: r.reconciled,
                    entries_applied: r.applied as usize,
                },
            ),
        ),
    )
}

/// What comes after the hard cursor stands where the state stands: reading the
/// entries that are committed and not applied, where there are any.
pub open spec fn to_range(r: ReplayView) -> ReplayOutcome {
    if r.cursor.index == r.hard.commit_index {
        finished(r)
    } else if r.cursor.index == u64::MAX {
        Err(ChorusErrorView::Limit("state-machine index exhausted"@))
    } else {
        Ok(
            (
                ReplayView { phase: Phase::ReadingRange, ..r },
                ReplayAction::Read((r.cursor.index + 1) as u64, r.hard.commit_index),
            ),
        )
    }
}

/// What comes after an entry: the next one, where there is one.
pub open spec fn to_entry(r: ReplayView) -> ReplayOutcome {
    if r.next >= r.pending.len() {
        finished(r)
    } else if r.cursor.index == u64::MAX {
        Err(ChorusErrorView::Limit("state-machine index exhausted"@))
    } else if r.pending[r.next].index != r.cursor.index + 1 {
        Err(
            ChorusErrorView::Storage(
                "committed replay expected index "@ + digits((r.cursor.index + 1) as nat)
                    + ", got "@ + digits(r.pending[r.next].index as nat),
            ),
        )
    } else {
        Ok(
            (
                ReplayView { phase: Phase::Applying, ..r },
                ReplayAction::Apply(r.pending[r.next]),
            ),
        )
    }
}

/// How a replay begins.
pub open spec fn replay_start(hard: HardState, mark: StateMark) -> ReplayOutcome {
    let r = ReplayView {
        hard,
        cursor: mark.last_applied,
        reconciled: false,
        pending: Seq::empty(),
        next: 0,
        applied: 0,
        phase: Phase::Finished,
    };
    match mark_verdict(mark, hard) {
        Err(e) => Err(e),
        Ok(()) => match cursor_verdict(hard, mark.last_applied) {
            Err(e) => Err(e),
            Ok(()) => if mark.last_applied.index > hard.last_applied.index {
                Ok(
                    (
                        ReplayView { phase: Phase::ReadingSpan, ..r },
                        ReplayAction::Read(
                            (hard.last_applied.index + 1) as u64,
                            mark.last_applied.index,
                        ),
                    ),
                )
            } else {
                to_range(r)
            },
        },
    }
}

/// The number of entries that are committed and not applied, where it can be
/// counted.
pub open spec fn range_verdict(hard: HardState, cursor: LogId, len: nat) -> LogVerdict {
    if cursor.index > hard.commit_index || hard.commit_index - cursor.index > usize::MAX {
        Err(ChorusErrorView::Limit("committed replay range is too large"@))
    } else if len != hard.commit_index - cursor.index {
        Err(ChorusErrorView::Storage("committed replay range is not contiguous"@))
    } else {
        Ok(())
    }
}

/// How a replay goes on after an event; `None` where it did not ask for it.
pub open spec fn replay_step(r: ReplayView, event: ReplayEvent) -> Option<ReplayOutcome> {
    match (r.phase, event) {
        (Phase::ReadingSpan, ReplayEvent::Read(ids)) => Some(
            match span_verdict((r.hard.last_applied.index + 1) as u64, r.cursor, ids@) {
                Err(e) => Err(e),
                Ok(()) => Ok(
                    (
                        ReplayView { phase: Phase::MarkingSpan, ..r },
                        ReplayAction::Mark(r.cursor),
                    ),
                ),
            },
        ),
        (Phase::MarkingSpan, ReplayEvent::Marked(hard)) => Some(
            to_range(ReplayView { hard, reconciled: true, ..r }),
        ),
        (Phase::ReadingRange, ReplayEvent::Read(ids)) => Some(
            match range_verdict(r.hard, r.cursor, ids@.len()) {
                Err(e) => Err(e),
                Ok(()) => to_entry(ReplayView { pending: ids@, next: 0, ..r }),
            },
        ),
        (Phase::Applying, ReplayEvent::Applied(mark)) => Some(
            match mark_verdict(mark, r.hard) {
                Err(e) => Err(e),
                Ok(()) => if mark.last_applied != r.pending[r.next] {
                    Err(
                        ChorusErrorView::Storage(
                            "state store reported applied cursor "@ + log_id_text(mark.last_applied)
                                + " after entry "@ + log_id_text(r.pending[r.next]),
                        ),
                    )
                } else {
                    Ok(
                        (
                            ReplayView { phase: Phase::MarkingEntry, ..r },
                            ReplayAction::Mark(r.pending[r.next]),
                        ),
                    )
                },
            },
        ),
        (Phase::MarkingEntry, ReplayEvent::Marked(_)) => Some(
            to_entry(
                ReplayView {
                    cursor: r.pending[r.next],
                    next: r.next + 1,
                    applied: r.applied + 1,
                    ..r
                },
            ),
        ),
        _ => None,
    }
}

/// Whether a replay and what it asks for are as `outcome` says.
pub open spec fn replay_is(
    outcome: ReplayOutcome,
    r: ReplayView,
    action: LogResult<ReplayAction>,
) -> bool {
    match action {
        Ok(a) => outcome == Ok::<_, ChorusErrorView>((r, a)),
        Err(e) => outcome == Err::<(ReplayView, ReplayAction), _>(e@),
    }
}

impl Replay {
    /// What a replay keeps from step to step.
    pub open spec fn sound(self) -> bool {
        let r = self@;
        &&& 0 <= r.next <= r.pending.len()
        &&& r.applied == r.next
        &&& r.phase == Phase::ReadingSpan ==> r.hard.last_applied.index < r.cursor.index
        &&& (r.phase == Phase::Applying || r.phase == Phase::MarkingEntry) ==> r.next
            < r.pending.len() && r.pending[r.next].index == r.cursor.index + 1
        &&& r.phase == Phase::ReadingSpan || r.phase == Phase::MarkingSpan || r.phase
            == Phase::ReadingRange ==> r.pending.len() == 0
    }

    fn finish(&mut self) -> (action: LogResult<ReplayAction>)
        requires
            old(self).sound(),
        ensures
            final(self).sound(),
            replay_is(finished(old(self)@), final(self)@, action),
    {
        self.phase = Phase::Finished;
        Ok(
            ReplayAction::Done(
                ReplayProgress {
                    reconciled_hard_cursor: self.reconciled,
                    entries_applied: self.applied,
                },
            ),
        )
    }

    fn ask_range(&mut self) -> (action: LogResult<ReplayAction>)
        requires
            old(self).sound(),
            old(self)@.pending.len() == 0,
        ensures
            final(self).sound(),
            replay_is(to_range(old(self)@), final(self)@, action),
    {
        if self.cursor.index == self.hard.commit_index {
            return self.finish();
        }
        if self.cursor.index == u64::MAX {
            self.phase = Phase::Finished;
            return Err(ChorusError::limit("state-machine index exhausted"));
        }
        self.phase = Phase::ReadingRange;
        Ok(ReplayAction::Read(self.cursor.index + 1, self.hard.commit_index))
    }

    fn ask_entry(&mut self) -> (action: LogResult<ReplayAction>)
        requires
            0 <= old(self)@.next <= old(self)@.pending.len(),
            old(self)@.applied == old(self)@.next,
        ensures
            final(self).sound(),
            replay_is(to_entry(old(self)@), final(self)@, action),
    {
        let ghost before = self@;
        if self.next >= self.pending.len() {
            self.phase = Phase::Finished;
            return Ok(
                ReplayAction::Done(
                    ReplayProgress {
                        reconciled_hard_cursor: self.reconciled,
                        entries_applied: self.applied,
                    },
                ),
            );
        }
        if self.cursor.index == u64::MAX {
            self.phase = Phase::Finished;
            return Err(ChorusError::limit("state-machine index exhausted"));
        }
        let expected: u64 = self.cursor.index + 1;
        let id = self.pending[self.next];
        if id.index != expected {
            self.phase = Phase::Finished;
            let mut text = joined3(
                "committed replay expected index ",
                digits_text(expected).as_str(),
                ", got ",
            );
            text.append(digits_text(id.index).as_str());
            return Err(ChorusError::Storage(text));
        }
        self.phase = Phase::Applying;
        Ok(ReplayAction::Apply(id))
    }

    /// Begins a replay: the state must belong to the log, and its cursor may
    /// be ahead of the hard cursor but never behind it.
    pub fn start(hard: HardState, mark: StateMark) -> (begun: LogResult<(Replay, ReplayAction)>)
        ensures
            match begun {
                Ok(b) => replay_start(hard, mark) == Ok::<_, ChorusErrorView>((b.0@, b.1))
                    && b.0.sound(),
                Err(e) => replay_start(hard, mark) == Err::<(ReplayView, ReplayAction), _>(e@),
            },
    {
        match validated_snapshot(&mark, &hard) {
            Ok(()) => {},
            Err(e) => {
                return Err(e);
            },
        }
        match validate_cursor_relation(&hard, mark.last_applied) {
            Ok(()) => {},
            Err(e) => {
                return Err(e);
            },
        }
        let mut replay = Replay {
            hard,
            cursor: mark.last_applied,
            reconciled: false,
            pending: Vec::new(),
            next: 0,
            applied: 0,
            phase: Phase::Finished,
        };
        if mark.last_applied.index > hard.last_applied.index {
            replay.phase = Phase::ReadingSpan;
            let action = ReplayAction::Read(hard.last_applied.index + 1, mark.last_applied.index);
            return Ok((replay, action));
        }
        match replay.ask_range() {
            Ok(action) => Ok((replay, action)),
            Err(e) => Err(e),
        }
    }

    /// Goes on after an event that was asked for.
    pub fn step(&mut self, event: ReplayEvent) -> (action: LogResult<ReplayAction>)
        requires
            old(self).sound(),
            replay_step(old(self)@, event) is Some,
        ensures
            final(self).sound(),
            replay_is(replay_step(old(self)@, event)->0, final(self)@, action),
    {
        match event {
            ReplayEvent::Read(ids) => {
                if self.phase == Phase::ReadingSpan {
                    match validate_committed_span(
                        self.hard.last_applied.index + 1,
                        self.cursor,
                        ids.as_slice(),
                    ) {
                        Ok(()) => {
                            self.phase = Phase::MarkingSpan;
                            Ok(ReplayAction::Mark(self.cursor))
                        },
                        Err(e) => {
                            self.phase = Phase::Finished;
                            Err(e)
                        },
                    }
                } else {
                    if self.cursor.index > self.hard.commit_index || self.hard.commit_index
                        - self.cursor.index > usize::MAX as u64 {
                        self.phase = Phase::Finished;
                        return Err(ChorusError::limit("committed replay range is too large"));
                    }
                    if ids.len() as u64 != self.hard.commit_index - self.cursor.index {
                        self.phase = Phase::Finished;
                        return Err(ChorusError::storage("committed replay range is not contiguous"));
                    }
                    self.pending = ids;
                    self.next = 0;
                    self.ask_entry()
                }
            },
            ReplayEvent::Marked(hard) => {
                if self.phase == Phase::MarkingSpan {
                    self.hard = hard;
                    self.reconciled = true;
                    self.ask_range()
                } else {
                    assert(self.next < self.pending.len());
                    self.cursor = self.pending[self.next];
                    self.next = self.next + 1;
                    self.applied = self.applied + 1;
                    self.ask_entry()
                }
            },
            ReplayEvent::Applied(mark) => {
                let id = self.pending[self.next];
                match validated_snapshot(&mark, &self.hard) {
                    Ok(()) => {},
                    Err(e) => {
                        self.phase = Phase::Finished;
                        return Err(e);
                    },
                }
                if !(mark.last_applied == id) {
                    self.phase = Phase::Finished;
                    let mut text = joined3(
                        "state store reported applied cursor ",
                        show_log_id(mark.last_applied).as_str(),
                        " after entry ",
                    );
                    text.append(show_log_id(id).as_str());
                    return Err(ChorusError::Storage(text));
                }
                self.phase = Phase::MarkingEntry;
                Ok(ReplayAction::Mark(id))
            },
        }
    }
}

/// The hard cursor is moved only to where the state has been applied: to the
/// cursor of the state, or to an entry after the state reported it as applied.
pub proof fn marks_follow_applies(r: ReplayView, event: ReplayEvent)
    requires
        replay_step(r, event) is Some,
        replay_step(r, event)->0 is Ok,
        replay_step(r, event)->0->Ok_0.1 is Mark,
    ensures
        ({
            let id = replay_step(r, event)->0->Ok_0.1->Mark_0;
            ||| id == r.cursor
            ||| event matches ReplayEvent::Applied(mark) && mark.last_applied == id
        }),
{
}

/// Entries are applied in the order of their indexes, each once: the entry
/// that is applied next has the index behind the cursor, and the cursor moves
/// on to it before another is applied.
pub proof fn applies_follow_the_cursor(r: ReplayView, event: ReplayEvent)
    requires
        replay_step(r, event) is Some,
        replay_step(r, event)->0 is Ok,
        replay_step(r, event)->0->Ok_0.1 is Apply,
        r.phase == Phase::MarkingEntry ==> r.pending[r.next].index == r.cursor.index + 1,
    ensures
        ({
            let (after, action) = replay_step(r, event)->0->Ok_0;
            &&& action->Apply_0.index == after.cursor.index + 1
            &&& after.cursor.index == r.cursor.index || after.cursor.index == r.cursor.index + 1
            &&& r.phase == Phase::MarkingEntry ==> after.cursor.index == r.cursor.index + 1
        }),
{
}

} // verus!
