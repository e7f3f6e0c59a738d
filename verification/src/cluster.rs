//! A cluster in one process: quorum, leader, and appending an entry to every
//! healthy replica or to none.

use crate::error::{ChorusError, ChorusErrorView};
use crate::ids::LogId;
use vstd::prelude::*;

verus! {

type ClusterResult<T> = std::result::Result<T, ChorusError>;

/// What a node knows of consensus.
#[derive(Clone, Debug)]
pub struct ConsensusStatus {
    pub node_id: u64,
    pub leader_id: Option<u64>,
    pub term: u64,
    pub commit_index: u64,
    pub applied_index: u64,
    pub quorum: bool,
    pub voters: Vec<u64>,
    pub learners: Vec<u64>,
}

/// One member of the cluster.
#[derive(Clone, Copy, Debug, PartialEq, Eq, Structural)]
pub struct Replica {
    pub id: u64,
    pub healthy: bool,
    pub learner: bool,
}

/// The number of members from which votes count.
pub open spec fn voter_count(replicas: Seq<Replica>) -> nat
    decreases replicas.len(),
{
    if replicas.len() == 0 {
        0
    } else {
        voter_count(replicas.drop_last()) + if replicas.last().learner {
            0nat
        } else {
            1nat
        }
    }
}

/// The number of members that can vote now.
pub open spec fn healthy_count(replicas: Seq<Replica>) -> nat
    decreases replicas.len(),
{
    if replicas.len() == 0 {
        0
    } else {
        healthy_count(replicas.drop_last()) + if votes(replicas.last()) {
            1nat
        } else {
            0nat
        }
    }
}

/// Whether a member can vote now.
pub open spec fn votes(r: Replica) -> bool {
    r.healthy && !r.learner
}

/// Whether more than half of the voters can vote now.
pub open spec fn has_quorum(replicas: Seq<Replica>) -> bool {
    healthy_count(replicas) > voter_count(replicas) / 2
}

/// The leader: the lowest number among the members that can vote now.
pub open spec fn leads(replicas: Seq<Replica>, id: u64) -> bool {
    (exists|i: int| 0 <= i < replicas.len() && votes(#[trigger] replicas[i]) && replicas[i].id == id)
        && forall|i: int|
        0 <= i < replicas.len() && votes(#[trigger] replicas[i]) ==> id <= replicas[i].id
}

/// The numbers of the healthy members, in their order.
pub open spec fn healthy_ids(replicas: Seq<Replica>) -> Seq<u64>
    decreases replicas.len(),
{
    if replicas.len() == 0 {
        Seq::empty()
    } else if replicas.last().healthy {
        healthy_ids(replicas.drop_last()).push(replicas.last().id)
    } else {
        healthy_ids(replicas.drop_last())
    }
}

/// The numbers of the members that are learners, or that are not.
pub open spec fn ids_where(replicas: Seq<Replica>, learner: bool) -> Seq<u64>
    decreases replicas.len(),
{
    if replicas.len() == 0 {
        Seq::empty()
    } else if replicas.last().learner == learner {
        ids_where(replicas.drop_last(), learner).push(replicas.last().id)
    } else {
        ids_where(replicas.drop_last(), learner)
    }
}

/// Where the first member with a number stands.
pub open spec fn first_with(replicas: Seq<Replica>, id: u64, at: int) -> bool {
    0 <= at < replicas.len() && replicas[at].id == id && forall|k: int|
        0 <= k < at ==> (#[trigger] replicas[k]).id != id
}

/// The members of a cluster and how far its log reaches.
pub struct InMemoryCluster {
    pub replicas: Vec<Replica>,
    pub term: u64,
    pub next_index: u64,
}

/// An entry that is being appended.
#[derive(Clone, Debug, PartialEq, Eq)]
pub struct ClusterAppend {
    pub log_id: LogId,
    pub previous_index: u64,
    /// The members that take part, in the order in which they apply.
    pub participants: Vec<u64>,
    /// How many of them have applied the entry.
    pub applied: usize,
}

/// What an append asks for next.
#[derive(Clone, Copy, Debug, PartialEq, Eq, Structural)]
pub enum AppendAction {
    /// Let a member apply the entry.
    Apply(u64),
    /// Every participant has applied the entry.
    Done,
}

/// The highest of some indexes; zero where there are none.
pub open spec fn highest(indexes: Seq<u64>) -> u64
    decreases indexes.len(),
{
    if indexes.len() == 0 {
        0
    } else if indexes.last() > highest(indexes.drop_last()) {
        indexes.last()
    } else {
        highest(indexes.drop_last())
    }
}

impl InMemoryCluster {
    /// A cluster of healthy voters, whose log reaches as far as the furthest
    /// of the given applied indexes.
    pub fn new(ids: &[u64], applied: &[u64]) -> (cluster: InMemoryCluster)
        ensures
            cluster.term == 1,
            cluster.next_index == highest(applied@),
            cluster.replicas@ == Seq::new(
                ids@.len(),
                |i: int| Replica { id: ids@[i], healthy: true, learner: false },
            ),
    {
        let mut next_index: u64 = 0;
        let mut i: usize = 0;
        assert(applied@.subrange(0, 0) == Seq::<u64>::empty());
        while i < applied.len()
            invariant
                i <= applied@.len(),
                next_index == highest(applied@.subrange(0, i as int)),
            decreases applied@.len() - i,
        {
            assert(applied@.subrange(0, i + 1).drop_last() == applied@.subrange(0, i as int));
            if applied[i] > next_index {
                next_index = applied[i];
            }
            i += 1;
        }
        assert(applied@.subrange(0, i as int) == applied@);
        let mut replicas: Vec<Replica> = Vec::new();
        let mut k: usize = 0;
        while k < ids.len()
            invariant
                k <= ids@.len(),
                replicas@ == Seq::new(
                    k as nat,
                    |i: int| Replica { id: ids@[i], healthy: true, learner: false },
                ),
            decreases ids@.len() - k,
        {
            replicas.push(Replica { id: ids[k], healthy: true, learner: false });
            k += 1;
            assert(replicas@ =~= Seq::new(
                k as nat,
                |i: int| Replica { id: ids@[i], healthy: true, learner: false },
            ));
        }
        InMemoryCluster { replicas, term: 1, next_index }
    }

    fn find(&self, id: u64) -> (at: Option<usize>)
        ensures
            match at {
                Some(i) => first_with(self.replicas@, id, i as int),
                None => forall|k: int|
                    0 <= k < self.replicas@.len() ==> (#[trigger] self.replicas@[k]).id != id,
            },
    {
        let mut i: usize = 0;
        while i < self.replicas.len()
            invariant
                i <= self.replicas@.len(),
                forall|k: int| 0 <= k < i ==> (#[trigger] self.replicas@[k]).id != id,
            decreases self.replicas@.len() - i,
        {
            if self.replicas[i].id == id {
                return Some(i);
            }
            i += 1;
        }
        None
    }

    /// Marks a member as healthy or not; a number that no member has changes
    /// nothing.
    pub fn set_healthy(&mut self, node_id: u64, healthy: bool)
        ensures
            final(self).term == old(self).term,
            final(self).next_index == old(self).next_index,
            forall|at: int|
                #[trigger] first_with(old(self).replicas@, node_id, at) ==> final(self).replicas@
                    == old(self).replicas@.update(
                    at,
                    Replica { healthy, ..old(self).replicas@[at] },
                ),
            (forall|k: int|
                0 <= k < old(self).replicas@.len() ==> (#[trigger] old(self).replicas@[k]).id
                    != node_id) ==> final(self).replicas@ == old(self).replicas@,
    {
        if let Some(i) = self.find(node_id) {
            let r = self.replicas[i];
            self.replicas.set(i, Replica { id: r.id, healthy, learner: r.learner });
        }
    }

    /// Makes a learner a voter; a number that no member has changes nothing.
    pub fn promote(&mut self, node_id: u64)
        ensures
            final(self).term == old(self).term,
            final(self).next_index == old(self).next_index,
            forall|at: int|
                #[trigger] first_with(old(self).replicas@, node_id, at) ==> final(self).replicas@
                    == old(self).replicas@.update(
                    at,
                    Replica { learner: false, ..old(self).replicas@[at] },
                ),
            (forall|k: int|
                0 <= k < old(self).replicas@.len() ==> (#[trigger] old(self).replicas@[k]).id
                    != node_id) ==> final(self).replicas@ == old(self).replicas@,
    {
        if let Some(i) = self.find(node_id) {
            let r = self.replicas[i];
            self.replicas.set(i, Replica { id: r.id, healthy: r.healthy, learner: false });
        }
    }

    pub fn quorum(&self) -> (quorum: bool)
        ensures
            quorum == has_quorum(self.replicas@),
    {
        let mut voters: usize = 0;
        let mut healthy: usize = 0;
        let mut i: usize = 0;
        assert(self.replicas@.subrange(0, 0) == Seq::<Replica>::empty());
        while i < self.replicas.len()
            invariant
                i <= self.replicas@.len(),
                voters == voter_count(self.replicas@.subrange(0, i as int)),
                healthy == healthy_count(self.replicas@.subrange(0, i as int)),
                voters <= i,
                healthy <= i,
            decreases self.replicas@.len() - i,
        {
            let ghost wider = self.replicas@.subrange(0, i + 1);
            assert(wider.drop_last() == self.replicas@.subrange(0, i as int));
            assert(wider.last() == self.replicas@[i as int]);
            let r = self.replicas[i];
            if !r.learner {
                voters += 1;
                if r.healthy {
                    healthy += 1;
                }
            }
            i += 1;
        }
        assert(self.replicas@.subrange(0, i as int) == self.replicas@);
        healthy > voters / 2
    }

    fn lowest_voter(&self) -> (id: Option<u64>)
        ensures
            match id {
                Some(id) => leads(self.replicas@, id),
                None => forall|i: int|
                    0 <= i < self.replicas@.len() ==> !votes(#[trigger] self.replicas@[i]),
            },
    {
        let mut best: Option<u64> = None;
        let mut i: usize = 0;
        while i < self.replicas.len()
            invariant
                i <= self.replicas@.len(),
                best is None ==> forall|k: int|
                    0 <= k < i ==> !votes(#[trigger] self.replicas@[k]),
                best matches Some(id) ==> (exists|k: int|
                    0 <= k < i && votes(#[trigger] self.replicas@[k]) && self.replicas@[k].id
                        == id) && forall|k: int|
                    0 <= k < i && votes(#[trigger] self.replicas@[k]) ==> id
                        <= self.replicas@[k].id,
            decreases self.replicas@.len() - i,
        {
            let r = self.replicas[i];
            if r.healthy && !r.learner {
                assert(votes(self.replicas@[i as int]));
                match best {
                    Some(id) => {
                        if r.id < id {
                            best = Some(r.id);
                        }
                    },
                    None => {
                        best = Some(r.id);
                    },
                }
            }
            i += 1;
        }
        best
    }

    /// The leader, where there is a quorum: the lowest number that can vote.
    pub fn leader(&self) -> (leader: Option<u64>)
        ensures
            has_quorum(self.replicas@) ==> leader is Some && leads(self.replicas@, leader->0),
            !has_quorum(self.replicas@) ==> leader is None,
    {
        if !self.quorum() {
            return None;
        }
        let id = self.lowest_voter();
        proof {
            if id is None {
                lemma_none_vote(self.replicas@);
            }
        }
        id
    }

    fn healthy_members(&self) -> (ids: Vec<u64>)
        ensures
            ids@ == healthy_ids(self.replicas@),
    {
        let mut ids: Vec<u64> = Vec::new();
        let mut i: usize = 0;
        assert(self.replicas@.subrange(0, 0) == Seq::<Replica>::empty());
        while i < self.replicas.len()
            invariant
                i <= self.replicas@.len(),
                ids@ == healthy_ids(self.replicas@.subrange(0, i as int)),
            decreases self.replicas@.len() - i,
        {
            assert(self.replicas@.subrange(0, i + 1).drop_last() == self.replicas@.subrange(
                0,
                i as int,
            ));
            if self.replicas[i].healthy {
                ids.push(self.replicas[i].id);
            }
            i += 1;
        }
        assert(self.replicas@.subrange(0, i as int) == self.replicas@);
        ids
    }

    fn members_where(&self, learner: bool) -> (ids: Vec<u64>)
        ensures
            ids@ == ids_where(self.replicas@, learner),
    {
        let mut ids: Vec<u64> = Vec::new();
        let mut i: usize = 0;
        assert(self.replicas@.subrange(0, 0) == Seq::<Replica>::empty());
        while i < self.replicas.len()
            invariant
                i <= self.replicas@.len(),
                ids@ == ids_where(self.replicas@.subrange(0, i as int), learner),
            decreases self.replicas@.len() - i,
        {
            assert(self.replicas@.subrange(0, i + 1).drop_last() == self.replicas@.subrange(
                0,
                i as int,
            ));
            if self.replicas[i].learner == learner {
                ids.push(self.replicas[i].id);
            }
            i += 1;
        }
        assert(self.replicas@.subrange(0, i as int) == self.replicas@);
        ids
    }

    /// Begins to append an entry behind the last one, where there is a quorum.
    pub fn append(&mut self) -> (append: ClusterResult<ClusterAppend>)
        ensures
            final(self).replicas@ == old(self).replicas@,
            final(self).term == old(self).term,
            match append {
                Ok(a) => {
                    &&& has_quorum(old(self).replicas@)
                    &&& final(self).next_index == if old(self).next_index == u64::MAX {
                        u64::MAX as int
                    } else {
                        old(self).next_index + 1
                    }
                    &&& a.log_id == (LogId { term: old(self).term, index: final(self).next_index })
                    &&& a.previous_index == old(self).next_index
                    &&& a.participants@ == healthy_ids(old(self).replicas@)
                    &&& a.applied == 0
                },
                Err(e) => {
                    &&& !has_quorum(old(self).replicas@)
                    &&& final(self).next_index == old(self).next_index
                    &&& e@ == ChorusErrorView::Consensus("no majority is reachable"@)
                },
            },
    {
        if !self.quorum() {
            return Err(ChorusError::consensus("no majority is reachable"));
        }
        let previous_index = self.next_index;
        self.next_index = self.next_index.saturating_add(1);
        let participants = self.healthy_members();
        Ok(
            ClusterAppend {
                log_id: LogId { term: self.term, index: self.next_index },
                previous_index,
                participants,
                applied: 0,
            },
        )
    }

    /// Takes an append back after a participant could not apply the entry.
    /// Every participant has to go back to where it stood before; the log
    /// reaches no further than before.
    pub fn abort(&mut self, append: ClusterAppend) -> (rollback: Vec<u64>)
        ensures
            final(self).replicas@ == old(self).replicas@,
            final(self).term == old(self).term,
            final(self).next_index == append.previous_index,
            rollback@ == append.participants@,
    {
        self.next_index = append.previous_index;
        append.participants
    }

    /// What a member knows of the cluster. `applied_index` is how far its own
    /// state has come.
    pub fn status(&self, node_id: u64, applied_index: u64) -> (status: ConsensusStatus)
        ensures
            status.node_id == node_id,
            has_quorum(self.replicas@) ==> status.leader_id is Some && leads(
                self.replicas@,
                status.leader_id->0,
            ),
            !has_quorum(self.replicas@) ==> status.leader_id is None,
            status.term == self.term,
            status.commit_index == self.next_index,
            status.applied_index == applied_index,
            status.quorum == has_quorum(self.replicas@),
            status.voters@ == ids_where(self.replicas@, false),
            status.learners@ == ids_where(self.replicas@, true),
    {
        ConsensusStatus {
            node_id,
            leader_id: self.leader(),
            term: self.term,
            commit_index: self.next_index,
            applied_index,
            quorum: self.quorum(),
            voters: self.members_where(false),
            learners: self.members_where(true),
        }
    }

    /// Whether a member can be used.
    pub open spec fn usable(self, node_id: u64) -> bool {
        exists|i: int|
            0 <= i < self.replicas@.len() && (#[trigger] self.replicas@[i]).id == node_id
                && self.replicas@[i].healthy
    }

    /// Refuses a member that cannot be used.
    pub fn local_store_if_healthy(&self, node_id: u64) -> (result: ClusterResult<()>)
        ensures
            match result {
                Ok(()) => self.usable(node_id),
                Err(e) => !self.usable(node_id) && e@ == ChorusErrorView::Consensus(
                    "node unavailable"@,
                ),
            },
    {
        let mut i: usize = 0;
        while i < self.replicas.len()
            invariant
                i <= self.replicas@.len(),
                forall|k: int|
                    0 <= k < i ==> !((#[trigger] self.replicas@[k]).id == node_id
                        && self.replicas@[k].healthy),
            decreases self.replicas@.len() - i,
        {
            if self.replicas[i].id == node_id && self.replicas[i].healthy {
                return Ok(());
            }
            i += 1;
        }
        Err(ChorusError::consensus("node unavailable"))
    }

    /// Finds the member that a reader at `node_id` must have caught up with:
    /// the leader.
    pub fn read_barrier(&self, node_id: u64) -> (leader: ClusterResult<u64>)
        ensures
            match leader {
                Ok(id) => has_quorum(self.replicas@) && self.usable(node_id) && leads(
                    self.replicas@,
                    id,
                ),
                Err(e) => if !has_quorum(self.replicas@) {
                    e@ == ChorusErrorView::Consensus("no quorum"@)
                } else {
                    !self.usable(node_id) && e@ == ChorusErrorView::Consensus("node unavailable"@)
                },
            },
    {
        if !self.quorum() {
            return Err(ChorusError::consensus("no quorum"));
        }
        match self.local_store_if_healthy(node_id) {
            Ok(()) => {},
            Err(e) => {
                return Err(e);
            },
        }
        match self.leader() {
            Some(id) => Ok(id),
            None => Err(ChorusError::consensus("no leader is reachable")),
        }
    }
}

proof fn lemma_none_vote(replicas: Seq<Replica>)
    requires
        forall|i: int| 0 <= i < replicas.len() ==> !votes(#[trigger] replicas[i]),
    ensures
        healthy_count(replicas) == 0,
    decreases replicas.len(),
{
    if replicas.len() > 0 {
        let front = replicas.drop_last();
        assert forall|i: int| 0 <= i < front.len() implies !votes(#[trigger] front[i]) by {
            assert(front[i] == replicas[i]);
        }
        lemma_none_vote(front);
        assert(!votes(replicas[replicas.len() - 1]));
    }
}

impl ClusterAppend {
    /// The member that applies the entry next, after `self.applied` others.
    pub fn next(&self) -> (action: AppendAction)
        ensures
            action == if self.applied < self.participants@.len() {
                AppendAction::Apply(self.participants@[self.applied as int])
            } else {
                AppendAction::Done
            },
    {
        if self.applied < self.participants.len() {
            AppendAction::Apply(self.participants[self.applied])
        } else {
            AppendAction::Done
        }
    }

    /// Notes that the next member has applied the entry.
    pub fn applied_one(&mut self)
        requires
            old(self).applied < old(self).participants@.len(),
        ensures
            final(self).applied == old(self).applied + 1,
            final(self).participants@ == old(self).participants@,
            final(self).log_id == old(self).log_id,
            final(self).previous_index == old(self).previous_index,
    {
        assert(self.applied < self.participants.len());
        self.applied = self.applied + 1;
    }
}

/// Whether one log position stands before another: by term, and within a term
/// by index.
pub open spec fn log_before(a: LogId, b: LogId) -> bool {
    a.term < b.term || (a.term == b.term && a.index < b.index)
}

/// Tests whether a member is behind another: it must then take over the
/// other's state, or it cannot be read.
pub fn is_behind(member: LogId, leader: LogId) -> (behind: bool)
    ensures
        behind == log_before(member, leader),
{
    member.term < leader.term || (member.term == leader.term && member.index < leader.index)
}

/// Refuses a member that is still behind the leader.
pub fn caught_up(member: LogId, leader: LogId) -> (result: ClusterResult<()>)
    ensures
        match result {
            Ok(()) => !log_before(member, leader),
            Err(e) => log_before(member, leader) && e@ == ChorusErrorView::Consensus(
                "replica lagging"@,
            ),
        },
{
    if is_behind(member, leader) {
        return Err(ChorusError::consensus("replica lagging"));
    }
    Ok(())
}

/// Refuses a state that has not come as far as a position.
pub fn wait_applied(applied: LogId, log_id: LogId) -> (result: ClusterResult<()>)
    ensures
        match result {
            Ok(()) => applied.index >= log_id.index,
            Err(e) => applied.index < log_id.index && e@ == ChorusErrorView::Consensus(
                "replica lagging"@,
            ),
        },
{
    if applied.index >= log_id.index {
        Ok(())
    } else {
        Err(ChorusError::consensus("replica lagging"))
    }
}

/// A cluster of one node, which leads while it has its quorum.
#[derive(Clone, Copy, Debug, PartialEq, Eq, Structural)]
pub struct StandaloneConsensus {
    pub node_id: u64,
    pub leader: bool,
    pub term: u64,
}

impl StandaloneConsensus {
    pub fn new(node_id: u64) -> (c: StandaloneConsensus)
        ensures
            c == (StandaloneConsensus { node_id, leader: true, term: 1 }),
    {
        StandaloneConsensus { node_id, leader: true, term: 1 }
    }

    pub fn set_quorum(&mut self, available: bool)
        ensures
            *final(self) == (StandaloneConsensus { leader: available, ..*old(self) }),
    {
        self.leader = available;
    }

    /// Refuses to read without a quorum.
    pub fn read_barrier(&self) -> (result: ClusterResult<()>)
        ensures
            match result {
                Ok(()) => self.leader,
                Err(e) => !self.leader && e@ == ChorusErrorView::Consensus("no quorum"@),
            },
    {
        if !self.leader {
            return Err(ChorusError::consensus("no quorum"));
        }
        Ok(())
    }

    /// The position of the next entry, where there is a quorum.
    pub fn submit(&self, last_applied: LogId) -> (log_id: ClusterResult<LogId>)
        requires
            last_applied.index < u64::MAX,
        ensures
            match log_id {
                Ok(id) => self.leader && id == (LogId {
                    term: self.term,
                    index: (last_applied.index + 1) as u64,
                }),
                Err(e) => !self.leader && e@ == ChorusErrorView::Consensus("no quorum"@),
            },
    {
        if !self.leader {
            return Err(ChorusError::consensus("no quorum"));
        }
        Ok(LogId { term: self.term, index: last_applied.index + 1 })
    }

    /// The position at which an origin is activated, or none where it is
    /// active already.
    pub fn activate_origin(&self, already_active: bool, last_applied: LogId) -> (log_id: Option<
        LogId,
    >)
        requires
            last_applied.index < u64::MAX,
        ensures
            log_id == if already_active {
                None::<LogId>
            } else {
                Some(LogId { term: self.term, index: (last_applied.index + 1) as u64 })
            },
    {
        if already_active {
            return None;
        }
        Some(LogId { term: self.term, index: last_applied.index + 1 })
    }

    /// Refuses a state that has not come as far as a position.
    pub fn wait_applied(&self, applied: LogId, log_id: LogId) -> (result: ClusterResult<()>)
        ensures
            match result {
                Ok(()) => applied.index >= log_id.index,
                Err(e) => applied.index < log_id.index && e@ == ChorusErrorView::Consensus(
                    "state machine has not caught up"@,
                ),
            },
    {
        if applied.index >= log_id.index {
            Ok(())
        } else {
            Err(ChorusError::consensus("state machine has not caught up"))
        }
    }

    pub fn status(&self, last_applied: LogId) -> (status: ConsensusStatus)
        ensures
            status.node_id == self.node_id,
            status.leader_id == if self.leader {
                Some(self.node_id)
            } else {
                None
            },
            status.term == self.term,
            status.commit_index == last_applied.index,
            status.applied_index == last_applied.index,
            status.quorum == self.leader,
            status.voters@ == seq![self.node_id],
            status.learners@ == Seq::<u64>::empty(),
    {
        let mut voters: Vec<u64> = Vec::new();
        voters.push(self.node_id);
        ConsensusStatus {
            node_id: self.node_id,
            leader_id: if self.leader {
                Some(self.node_id)
            } else {
                None
            },
            term: self.term,
            commit_index: last_applied.index,
            applied_index: last_applied.index,
            quorum: self.leader,
            voters,
            learners: Vec::new(),
        }
    }
}

/// A cluster has one leader at most.
pub proof fn one_leader(replicas: Seq<Replica>, a: u64, b: u64)
    requires
        leads(replicas, a),
        leads(replicas, b),
    ensures
        a == b,
{
}

/// Fewer than a majority of voters is never a quorum: where at least half of
/// the voters cannot vote, the cluster neither reads nor appends.
pub proof fn minority_is_no_quorum(replicas: Seq<Replica>)
    ensures
        2 * healthy_count(replicas) <= voter_count(replicas) ==> !has_quorum(replicas),
        2 * healthy_count(replicas) > voter_count(replicas) ==> has_quorum(replicas),
{
}

} // verus!
