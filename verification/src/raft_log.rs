//! The durable part of consensus: hard state, log entries, how an uncommitted
//! suffix may be replaced, and what is ready for release.

use crate::command::ReplicatedCommandV1;
use crate::error::{ChorusError, ChorusErrorView};
use crate::ids::LogId;
use crate::text::same_bytes;
use crate::transport::all_zero;
use vstd::prelude::*;

verus! {

/// What a node must remember across restarts.
#[derive(Clone, Copy, Debug, PartialEq, Eq)]
pub struct HardState {
    pub cluster_id: [u8; 16],
    pub cluster_incarnation: u64,
    pub current_term: u64,
    pub voted_for: Option<u64>,
    pub commit_index: u64,
    pub last_applied: LogId,
    pub purged_through: LogId,
}

/// One entry of the log.
#[derive(Clone, Debug, PartialEq, Eq)]
pub struct ConsensusLogEntry {
    pub cluster_id: [u8; 16],
    pub cluster_incarnation: u64,
    pub log_id: LogId,
    pub command: ReplicatedCommandV1,
}

/// Makes an entry of the log.
pub fn entry(
    cluster_id: [u8; 16],
    cluster_incarnation: u64,
    term: u64,
    index: u64,
    command: ReplicatedCommandV1,
) -> (e: ConsensusLogEntry)
    ensures
        e == (ConsensusLogEntry {
            cluster_id,
            cluster_incarnation,
            log_id: LogId { term, index },
            command,
        }),
{
    ConsensusLogEntry { cluster_id, cluster_incarnation, log_id: LogId { term, index }, command }
}

// ---------------------------------------------------------------------------
// Readiness
// ---------------------------------------------------------------------------

/// Whether something can be done, or why not.
#[derive(Clone, Copy, Debug, PartialEq, Eq)]
pub enum Capability {
    Ready,
    Blocked(&'static str),
}

impl Capability {
    pub fn is_ready(self) -> (ready: bool)
        ensures
            ready == (self is Ready),
    {
        match self {
            Capability::Ready => true,
            Capability::Blocked(_) => false,
        }
    }
}

/// What the storage boundary can do. The runtime, the transport and elections
/// are reported as blocked until they are there.
#[derive(Clone, Copy, Debug, PartialEq, Eq)]
pub struct ReadinessReport {
    pub identity_bound_hard_state: Capability,
    pub term_vote_persistence: Capability,
    pub committed_range_replay: Capability,
    pub uncommitted_suffix_replacement: Capability,
    pub committed_truncation_rejection: Capability,
    pub membership_persistence: Capability,
    pub snapshot_payload_io: Capability,
    pub state_machine_atomic_apply: Capability,
    pub openraft_runtime: Capability,
    pub network_transport: Capability,
    pub elections_and_quorum: Capability,
}

/// Whether a capability is ready, or blocked for that reason.
pub open spec fn ready_or(capability: Capability, ready: bool, reason: Seq<char>) -> bool {
    if ready {
        capability is Ready
    } else {
        capability matches Capability::Blocked(why) && why@ == reason
    }
}

/// Whether hard state is bound to a cluster.
pub open spec fn identity_bound(state: HardState) -> bool {
    state.cluster_id@ != Seq::new(16, |i: int| 0u8) && state.cluster_incarnation != 0
}

impl ReadinessReport {
    /// Reports on a log with that hard state, whose committed entries could be
    /// read or not.
    pub fn for_log(state: &HardState, committed_readable: bool) -> (report: ReadinessReport)
        ensures
            ready_or(
                report.identity_bound_hard_state,
                identity_bound(*state),
                "durable hard state has no nonzero identity"@,
            ),
            ready_or(
                report.term_vote_persistence,
                state.current_term > 0 || state.voted_for is None,
                "hard-state vote is inconsistent with its term"@,
            ),
            ready_or(
                report.committed_range_replay,
                committed_readable,
                "committed range or replay is not readable"@,
            ),
            report.uncommitted_suffix_replacement is Ready,
            report.committed_truncation_rejection is Ready,
            ready_or(
                report.membership_persistence,
                false,
                "membership is not persisted as OpenRaft-compatible hard state"@,
            ),
            ready_or(
                report.snapshot_payload_io,
                false,
                "only a snapshot marker exists; snapshot payload IO is absent"@,
            ),
            ready_or(
                report.state_machine_atomic_apply,
                false,
                "the facade does not provide atomic state-machine application"@,
            ),
            ready_or(
                report.openraft_runtime,
                false,
                "actual OpenRaft storage traits/runtime integration are absent"@,
            ),
            ready_or(
                report.network_transport,
                false,
                "consensus transport and peer authentication are absent"@,
            ),
            ready_or(
                report.elections_and_quorum,
                false,
                "elections, quorum commitment, and membership are absent"@,
            ),
    {
        assert(state.cluster_id@.len() == 16);
        ReadinessReport {
            identity_bound_hard_state: if !all_zero(state.cluster_id.as_slice())
                && state.cluster_incarnation != 0 {
                Capability::Ready
            } else {
                Capability::Blocked("durable hard state has no nonzero identity")
            },
            term_vote_persistence: if state.current_term > 0 || state.voted_for.is_none() {
                Capability::Ready
            } else {
                Capability::Blocked("hard-state vote is inconsistent with its term")
            },
            committed_range_replay: if committed_readable {
                Capability::Ready
            } else {
                Capability::Blocked("committed range or replay is not readable")
            },
            uncommitted_suffix_replacement: Capability::Ready,
            committed_truncation_rejection: Capability::Ready,
            membership_persistence: Capability::Blocked(
                "membership is not persisted as OpenRaft-compatible hard state",
            ),
            snapshot_payload_io: Capability::Blocked(
                "only a snapshot marker exists; snapshot payload IO is absent",
            ),
            state_machine_atomic_apply: Capability::Blocked(
                "the facade does not provide atomic state-machine application",
            ),
            openraft_runtime: Capability::Blocked(
                "actual OpenRaft storage traits/runtime integration are absent",
            ),
            network_transport: Capability::Blocked(
                "consensus transport and peer authentication are absent",
            ),
            elections_and_quorum: Capability::Blocked(
                "elections, quorum commitment, and membership are absent",
            ),
        }
    }

    /// Whether the five durable operations are ready.
    pub open spec fn durable(self) -> bool {
        self.identity_bound_hard_state is Ready && self.term_vote_persistence is Ready
            && self.committed_range_replay is Ready && self.uncommitted_suffix_replacement is Ready
            && self.committed_truncation_rejection is Ready
    }

    /// Whether everything is ready.
    pub open spec fn complete(self) -> bool {
        self.durable() && self.membership_persistence is Ready && self.snapshot_payload_io is Ready
            && self.state_machine_atomic_apply is Ready && self.openraft_runtime is Ready
            && self.network_transport is Ready && self.elections_and_quorum is Ready
    }

    pub fn durable_primitives_ready(&self) -> (ready: bool)
        ensures
            ready == self.durable(),
    {
        self.identity_bound_hard_state.is_ready() && self.term_vote_persistence.is_ready()
            && self.committed_range_replay.is_ready()
            && self.uncommitted_suffix_replacement.is_ready()
            && self.committed_truncation_rejection.is_ready()
    }

    pub fn release_ready(&self) -> (ready: bool)
        ensures
            ready == self.complete(),
    {
        self.durable_primitives_ready() && self.membership_persistence.is_ready()
            && self.snapshot_payload_io.is_ready() && self.state_machine_atomic_apply.is_ready()
            && self.openraft_runtime.is_ready() && self.network_transport.is_ready()
            && self.elections_and_quorum.is_ready()
    }
}

/// No report on a log says that it is ready for release.
pub proof fn no_log_is_release_ready(report: ReadinessReport)
    requires
        ready_or(
            report.openraft_runtime,
            false,
            "actual OpenRaft storage traits/runtime integration are absent"@,
        ),
    ensures
        !report.complete(),
{
}

// ---------------------------------------------------------------------------
// Replacing an uncommitted suffix
// ---------------------------------------------------------------------------

/// Where the term of the entry before a replacement is found.
#[derive(Clone, Copy, Debug, PartialEq, Eq, Structural)]
pub enum Predecessor {
    /// Nothing is put in place of the suffix.
    NotNeeded,
    /// The term of the last entry that is in a snapshot.
    Known(u64),
    /// The term of the log's entry at that index.
    At(u64),
}

/// Where the term of the predecessor is found, or why the suffix from an index
/// on may not be replaced by entries whose first has that index.
pub open spec fn predecessor_of(
    state: HardState,
    from_index: u64,
    first_index: Option<u64>,
) -> std::result::Result<Predecessor, ChorusErrorView> {
    if from_index <= state.commit_index || from_index <= state.purged_through.index {
        Err(ChorusErrorView::Protocol("cannot replace a committed or snapshotted suffix"@))
    } else {
        match first_index {
            None => Ok(Predecessor::NotNeeded),
            Some(first) => if first != from_index {
                Err(ChorusErrorView::Protocol("replacement suffix does not start at from_index"@))
            } else if from_index == state.purged_through.index + 1 {
                Ok(Predecessor::Known(state.purged_through.term))
            } else {
                Ok(Predecessor::At((from_index - 1) as u64))
            },
        }
    }
}

/// Finds out where the term of the predecessor of a replacement is found.
pub fn replacement_predecessor(state: &HardState, from_index: u64, first_index: Option<u64>) -> (place:
    std::result::Result<Predecessor, ChorusError>)
    ensures
        match place {
            Ok(p) => predecessor_of(*state, from_index, first_index) == Ok::<_, ChorusErrorView>(p),
            Err(e) => predecessor_of(*state, from_index, first_index) == Err::<Predecessor, _>(e@),
        },
{
    if from_index <= state.commit_index || from_index <= state.purged_through.index {
        return Err(ChorusError::protocol("cannot replace a committed or snapshotted suffix"));
    }
    match first_index {
        None => Ok(Predecessor::NotNeeded),
        Some(first) => {
            if first != from_index {
                return Err(
                    ChorusError::protocol("replacement suffix does not start at from_index"),
                );
            }
            if from_index - 1 == state.purged_through.index {
                Ok(Predecessor::Known(state.purged_through.term))
            } else {
                Ok(Predecessor::At(from_index - 1))
            }
        },
    }
}

/// The term of the predecessor that was read, or the error where the log has
/// none.
pub fn read_predecessor(term: Option<u64>) -> (result: std::result::Result<u64, ChorusError>)
    ensures
        match result {
            Ok(t) => term == Some(t),
            Err(e) => term is None && e@ == ChorusErrorView::Storage(
                "replacement predecessor is missing from durable log"@,
            ),
        },
{
    match term {
        Some(t) => Ok(t),
        None => Err(ChorusError::storage("replacement predecessor is missing from durable log")),
    }
}

/// What a check says: nothing, or an error.
pub type LogVerdict = std::result::Result<(), ChorusErrorView>;

/// The first thing that is wrong with the entries of a replacement, the next
/// of which must have the index `expected` and a term not below `prior`.
pub open spec fn replacement_verdict(
    state: HardState,
    expected: int,
    prior: u64,
    entries: Seq<ConsensusLogEntry>,
) -> LogVerdict
    decreases entries.len(),
{
    if entries.len() == 0 {
        Ok(())
    } else {
        let e = entries[0];
        if e.cluster_id@ != state.cluster_id@ || e.cluster_incarnation
            != state.cluster_incarnation {
            Err(
                ChorusErrorView::Protocol("replacement entry identity does not match hard state"@),
            )
        } else if e.log_id.index != expected {
            Err(ChorusErrorView::Protocol("replacement suffix contains a gap"@))
        } else if e.log_id.term == 0 || e.log_id.term > state.current_term {
            Err(
                ChorusErrorView::Protocol("replacement entry term is not covered by hard state"@),
            )
        } else if e.log_id.term < prior {
            Err(ChorusErrorView::Protocol("replacement suffix term regressed"@))
        } else if expected == u64::MAX {
            Err(ChorusErrorView::Limit("replacement index exhausted"@))
        } else {
            replacement_verdict(state, expected + 1, e.log_id.term, entries.drop_first())
        }
    }
}

/// Checks the entries of a replacement whose predecessor has that term.
#[verifier::loop_isolation(false)]
pub fn validate_replacement_identity(
    state: &HardState,
    previous_term: u64,
    entries: &[ConsensusLogEntry],
) -> (result: std::result::Result<(), ChorusError>)
    requires
        entries@.len() > 0,
    ensures
        match result {
            Ok(()) => replacement_verdict(
                *state,
                entries@[0].log_id.index as int,
                previous_term,
                entries@,
            ) is Ok,
            Err(e) => replacement_verdict(
                *state,
                entries@[0].log_id.index as int,
                previous_term,
                entries@,
            ) == Err::<(), _>(e@),
        },
{
    let mut expected: u64 = entries[0].log_id.index;
    let mut prior: u64 = previous_term;
    let mut i: usize = 0;
    assert(entries@.subrange(0, entries@.len() as int) == entries@);
    while i < entries.len()
        invariant
            i <= entries@.len(),
            replacement_verdict(
                *state,
                expected as int,
                prior,
                entries@.subrange(i as int, entries@.len() as int),
            ) == replacement_verdict(
                *state,
                entries@[0].log_id.index as int,
                previous_term,
                entries@,
            ),
        decreases entries@.len() - i,
    {
        let ghost rest = entries@.subrange(i as int, entries@.len() as int);
        assert(rest[0] == entries@[i as int]);
        assert(rest.drop_first() == entries@.subrange(i + 1, entries@.len() as int));
        let e = &entries[i];
        if !same_bytes(e.cluster_id.as_slice(), state.cluster_id.as_slice())
            || e.cluster_incarnation != state.cluster_incarnation {
            return Err(
                ChorusError::protocol("replacement entry identity does not match hard state"),
            );
        }
        if e.log_id.index != expected {
            return Err(ChorusError::protocol("replacement suffix contains a gap"));
        }
        if e.log_id.term == 0 || e.log_id.term > state.current_term {
            return Err(
                ChorusError::protocol("replacement entry term is not covered by hard state"),
            );
        }
        if e.log_id.term < prior {
            return Err(ChorusError::protocol("replacement suffix term regressed"));
        }
        expected = match expected.checked_add(1) {
            Some(next) => next,
            None => {
                return Err(ChorusError::limit("replacement index exhausted"));
            },
        };
        prior = e.log_id.term;
        i += 1;
    }
    Ok(())
}

/// Whether the suffix from an index on may give way to those entries; `found`
/// is the term of the log's entry before them, where it has one.
pub open spec fn suffix_verdict(
    state: HardState,
    from_index: u64,
    found: Option<u64>,
    entries: Seq<ConsensusLogEntry>,
) -> LogVerdict {
    let first = if entries.len() == 0 {
        None
    } else {
        Some(entries[0].log_id.index)
    };
    match predecessor_of(state, from_index, first) {
        Err(e) => Err(e),
        Ok(Predecessor::NotNeeded) => Ok(()),
        Ok(Predecessor::Known(term)) => replacement_verdict(
            state,
            from_index as int,
            term,
            entries,
        ),
        Ok(Predecessor::At(_)) => match found {
            None => Err(
                ChorusErrorView::Storage("replacement predecessor is missing from durable log"@),
            ),
            Some(term) => replacement_verdict(state, from_index as int, term, entries),
        },
    }
}

/// Checks that the suffix from an index on may be cut off and give way to other
/// entries. `found` is the term of the log's entry before it, where it has one.
pub fn replace_uncommitted_suffix(
    state: &HardState,
    from_index: u64,
    found: Option<u64>,
    replacement: &[ConsensusLogEntry],
) -> (result: std::result::Result<(), ChorusError>)
    ensures
        match result {
            Ok(()) => suffix_verdict(*state, from_index, found, replacement@) is Ok,
            Err(e) => suffix_verdict(*state, from_index, found, replacement@) == Err::<(), _>(e@),
        },
{
    let first = if replacement.len() == 0 {
        None
    } else {
        Some(replacement[0].log_id.index)
    };
    match replacement_predecessor(state, from_index, first) {
        Err(e) => Err(e),
        Ok(Predecessor::NotNeeded) => Ok(()),
        Ok(Predecessor::Known(term)) => validate_replacement_identity(state, term, replacement),
        Ok(Predecessor::At(_)) => match read_predecessor(found) {
            Err(e) => Err(e),
            Ok(term) => validate_replacement_identity(state, term, replacement),
        },
    }
}

/// The entries of a replacement that is let through continue the log: their
/// indexes follow one another, their terms never fall, start no lower than the
/// predecessor's and end no higher than the current term.
pub proof fn replacements_continue_the_log(
    state: HardState,
    expected: int,
    prior: u64,
    entries: Seq<ConsensusLogEntry>,
    i: int,
)
    requires
        replacement_verdict(state, expected, prior, entries) is Ok,
        0 <= i < entries.len(),
    ensures
        entries[i].log_id.index == expected + i,
        entries[i].cluster_id@ == state.cluster_id@,
        entries[i].cluster_incarnation == state.cluster_incarnation,
        prior <= entries[i].log_id.term <= state.current_term,
        i > 0 ==> entries[i - 1].log_id.term <= entries[i].log_id.term,
    decreases entries.len(),
{
    if i > 0 {
        let rest = entries.drop_first();
        replacements_continue_the_log(state, expected + 1, entries[0].log_id.term, rest, i - 1);
        assert(rest[i - 1] == entries[i]);
        if i > 1 {
            assert(rest[i - 2] == entries[i - 1]);
        }
    }
}

/// A replacement never touches a committed entry or one in a snapshot, and its
/// entries take the indexes from the first replaced one on.
pub proof fn replacements_spare_committed(
    state: HardState,
    from_index: u64,
    found: Option<u64>,
    entries: Seq<ConsensusLogEntry>,
)
    requires
        suffix_verdict(state, from_index, found, entries) is Ok,
    ensures
        from_index > state.commit_index,
        from_index > state.purged_through.index,
        forall|i: int|
            0 <= i < entries.len() ==> (#[trigger] entries[i]).log_id.index == from_index + i,
{
    if entries.len() > 0 {
        let prior = if from_index == state.purged_through.index + 1 {
            state.purged_through.term
        } else {
            found->0
        };
        assert forall|i: int| 0 <= i < entries.len() implies (#[trigger] entries[i]).log_id.index
            == from_index + i by {
            replacements_continue_the_log(state, from_index as int, prior, entries, i);
        }
    }
}

} // verus!
