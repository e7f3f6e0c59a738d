//! Which changes of the members are planned: every bounded one, and no other.

use crate::error::ChorusErrorView;
use crate::members::overlap;
use crate::membership::{
    membership_plan, sole, steps_of, ChangeMembershipIntent, CurrentView, MembershipPlan,
    MembershipStep,
};
use vstd::prelude::*;

verus! {

/// Whether a request can be looked at: it names members, none of them zero and
/// none twice, to the leader, while one configuration is in force.
pub open spec fn may_be_asked(cur: CurrentView, voters: Seq<u64>, learners: Seq<u64>) -> bool {
    &&& voters.len() > 0
    &&& (voters + learners).no_duplicates()
    &&& !(voters + learners).contains(0)
    &&& cur.leader == Some(cur.node_id)
    &&& cur.configurations == 1
}

/// What an operator says that is to change, where it is exactly this change.
pub open spec fn fits_intent(intent: Option<ChangeMembershipIntent>, plan: MembershipPlan) -> bool {
    match intent {
        None => true,
        Some(ChangeMembershipIntent::AddLearner { node_id }) => plan == MembershipPlan::AddLearner(
            node_id,
        ),
        Some(ChangeMembershipIntent::ReplaceVoter { promoted, demoted }) => plan
            == MembershipPlan::ReplaceVoter(promoted, demoted),
        Some(ChangeMembershipIntent::RemoveLearner { node_id }) => plan
            == MembershipPlan::RemoveLearner(node_id),
    }
}

proof fn lemma_askable(voters: Seq<u64>, learners: Seq<u64>)
    requires
        (voters + learners).no_duplicates(),
        !(voters + learners).contains(0),
    ensures
        voters.no_duplicates(),
        learners.no_duplicates(),
        !voters.contains(0),
        !learners.contains(0),
        !overlap(voters, learners),
{
    let all = voters + learners;
    let n = voters.len() as int;
    assert forall|i: int, j: int|
        0 <= i < voters.len() && 0 <= j < voters.len() && i != j implies voters[i]
        != voters[j] by {
        assert(all[i] != all[j]);
    }
    assert forall|i: int, j: int|
        0 <= i < learners.len() && 0 <= j < learners.len() && i != j implies learners[i]
        != learners[j] by {
        assert(all[n + i] != all[n + j]);
    }
    if voters.contains(0) {
        let i = choose|i: int| 0 <= i < voters.len() && voters[i] == 0;
        assert(all[i] == 0);
    }
    if learners.contains(0) {
        let i = choose|i: int| 0 <= i < learners.len() && learners[i] == 0;
        assert(all[n + i] == 0);
    }
    if overlap(voters, learners) {
        let id = choose|id: u64| #[trigger] voters.contains(id) && learners.contains(id);
        let i = choose|i: int| 0 <= i < voters.len() && voters[i] == id;
        let j = choose|j: int| 0 <= j < learners.len() && learners[j] == id;
        assert(all[i] == all[n + j]);
    }
}

proof fn lemma_only_one(s: Set<u64>, x: u64)
    requires
        forall|y: u64| s.contains(y) <==> y == x,
    ensures
        s.finite(),
        s.len() == 1,
        sole(s) == x,
{
    assert(s =~= Set::empty().insert(x));
    assert(s.contains(x));
}

proof fn lemma_none(s: Set<u64>)
    requires
        forall|y: u64| !s.contains(y),
    ensures
        s.finite(),
        s.len() == 0,
{
    assert(s =~= Set::empty());
}

/// In a group of three or five voters every learner that is listed in the
/// manifest may take the place of every voter that does not lead, and that
/// voter then stays as a learner.
pub proof fn voters_are_replaced(
    cur: CurrentView,
    voters: Seq<u64>,
    learners: Seq<u64>,
    authorized: Set<u64>,
    intent: Option<ChangeMembershipIntent>,
    up: u64,
    down: u64,
)
    requires
        cur.voters.finite(),
        cur.voters.disjoint(cur.learners),
        may_be_asked(cur, voters, learners),
        cur.voters.len() == 3 || cur.voters.len() == 5,
        cur.learners.contains(up),
        authorized.contains(up),
        cur.voters.contains(down),
        down != cur.node_id,
        forall|x: u64|
            voters.contains(x) <==> (x == up || (x != down && #[trigger] cur.voters.contains(x))),
        forall|x: u64|
            learners.contains(x) <==> (x == down || (x != up && #[trigger] cur.learners.contains(
                x,
            ))),
        fits_intent(intent, MembershipPlan::ReplaceVoter(up, down)),
    ensures
        membership_plan(cur, voters, learners, authorized, intent) == Ok::<_, ChorusErrorView>(
            MembershipPlan::ReplaceVoter(up, down),
        ),
{
    lemma_askable(voters, learners);
    let (rv, rl) = (voters.to_set(), learners.to_set());
    assert(!cur.voters.contains(up)) by {
        if cur.voters.contains(up) {
            assert(cur.voters.intersect(cur.learners).contains(up));
        }
    }
    assert forall|x: u64| rv.contains(x) == voters.contains(x) by {}
    assert(rv =~= cur.voters.remove(down).insert(up)) by {
        assert forall|x: u64| rv.contains(x) == cur.voters.remove(down).insert(up).contains(x) by {
            assert(cur.voters.contains(x) || !cur.voters.contains(x));
        }
    }
    assert(rl =~= cur.learners.remove(up).insert(down)) by {
        assert forall|x: u64|
            rl.contains(x) == cur.learners.remove(up).insert(down).contains(x) by {
            assert(cur.learners.contains(x) || !cur.learners.contains(x));
        }
    }
    assert(rv.len() == cur.voters.len());
    let promoted = rv.difference(cur.voters);
    let demoted = cur.voters.difference(rv);
    lemma_only_one(promoted, up);
    lemma_only_one(demoted, down);
    assert(rv.contains(up) && !cur.voters.contains(up));
    assert(up != 0) by {
        assert(voters.contains(up));
    }
    assert(down != 0) by {
        assert(learners.contains(down));
    }
    assert(up != down);
}

/// Every node that is listed in the manifest and is no member yet may be added
/// as a learner.
pub proof fn learners_are_added(
    cur: CurrentView,
    voters: Seq<u64>,
    learners: Seq<u64>,
    authorized: Set<u64>,
    intent: Option<ChangeMembershipIntent>,
    id: u64,
)
    requires
        may_be_asked(cur, voters, learners),
        authorized.contains(id),
        !cur.voters.contains(id),
        !cur.learners.contains(id),
        forall|x: u64| voters.contains(x) <==> #[trigger] cur.voters.contains(x),
        forall|x: u64|
            learners.contains(x) <==> (x == id || #[trigger] cur.learners.contains(x)),
        fits_intent(intent, MembershipPlan::AddLearner(id)),
    ensures
        membership_plan(cur, voters, learners, authorized, intent) == Ok::<_, ChorusErrorView>(
            MembershipPlan::AddLearner(id),
        ),
{
    lemma_askable(voters, learners);
    let (rv, rl) = (voters.to_set(), learners.to_set());
    assert(rv =~= cur.voters) by {
        assert forall|x: u64| rv.contains(x) == cur.voters.contains(x) by {
            assert(rv.contains(x) == voters.contains(x));
        }
    }
    assert(rl =~= cur.learners.insert(id)) by {
        assert forall|x: u64| rl.contains(x) == cur.learners.insert(id).contains(x) by {
            assert(rl.contains(x) == learners.contains(x));
            assert(cur.learners.contains(x) || !cur.learners.contains(x));
        }
    }
    let removed = cur.learners.difference(rl);
    let added = rl.difference(cur.learners);
    lemma_none(removed);
    lemma_only_one(added, id);
    assert(rl.contains(id));
    assert(rl != cur.learners);
}

/// In a group of three or five voters every learner may be removed.
pub proof fn learners_are_removed(
    cur: CurrentView,
    voters: Seq<u64>,
    learners: Seq<u64>,
    authorized: Set<u64>,
    intent: Option<ChangeMembershipIntent>,
    id: u64,
)
    requires
        may_be_asked(cur, voters, learners),
        cur.voters.len() == 3 || cur.voters.len() == 5,
        cur.learners.contains(id),
        forall|x: u64| voters.contains(x) <==> #[trigger] cur.voters.contains(x),
        forall|x: u64|
            learners.contains(x) <==> (x != id && #[trigger] cur.learners.contains(x)),
        fits_intent(intent, MembershipPlan::RemoveLearner(id)),
    ensures
        membership_plan(cur, voters, learners, authorized, intent) == Ok::<_, ChorusErrorView>(
            MembershipPlan::RemoveLearner(id),
        ),
{
    lemma_askable(voters, learners);
    let (rv, rl) = (voters.to_set(), learners.to_set());
    assert(rv =~= cur.voters) by {
        assert forall|x: u64| rv.contains(x) == cur.voters.contains(x) by {
            assert(rv.contains(x) == voters.contains(x));
        }
    }
    assert(rl =~= cur.learners.remove(id)) by {
        assert forall|x: u64| rl.contains(x) == cur.learners.remove(id).contains(x) by {
            assert(rl.contains(x) == learners.contains(x));
            assert(cur.learners.contains(x) || !cur.learners.contains(x));
        }
    }
    let removed = cur.learners.difference(rl);
    let added = rl.difference(cur.learners);
    lemma_none(added);
    lemma_only_one(removed, id);
    assert(!rl.contains(id));
    assert(rl != cur.learners);
}

/// A change that has been made already is met by looking whether it is
/// published, and for a learner by waiting for it once more.
pub proof fn changes_made_already_are_met(
    cur: CurrentView,
    voters: Seq<u64>,
    learners: Seq<u64>,
    authorized: Set<u64>,
    intent: ChangeMembershipIntent,
)
    requires
        may_be_asked(cur, voters, learners),
        forall|x: u64| voters.contains(x) <==> #[trigger] cur.voters.contains(x),
        forall|x: u64| learners.contains(x) <==> #[trigger] cur.learners.contains(x),
    ensures
        ({
            let plan = membership_plan(cur, voters, learners, authorized, Some(intent));
            match intent {
                ChangeMembershipIntent::AddLearner { node_id } => cur.learners.contains(node_id)
                    && authorized.contains(node_id) ==> plan == Ok::<_, ChorusErrorView>(
                    MembershipPlan::RetryLearner(node_id),
                ),
                ChangeMembershipIntent::ReplaceVoter { promoted, demoted } => promoted != demoted
                    && cur.voters.contains(promoted) && cur.learners.contains(demoted) ==> plan
                    == Ok::<_, ChorusErrorView>(MembershipPlan::Verify),
                ChangeMembershipIntent::RemoveLearner { node_id } => !cur.voters.contains(node_id)
                    && !cur.learners.contains(node_id) ==> plan == Ok::<_, ChorusErrorView>(
                    MembershipPlan::Verify,
                ),
            }
        }),
{
    lemma_askable(voters, learners);
    let (rv, rl) = (voters.to_set(), learners.to_set());
    assert(rv =~= cur.voters) by {
        assert forall|x: u64| rv.contains(x) == cur.voters.contains(x) by {
            assert(rv.contains(x) == voters.contains(x));
        }
    }
    assert(rl =~= cur.learners) by {
        assert forall|x: u64| rl.contains(x) == cur.learners.contains(x) by {
            assert(rl.contains(x) == learners.contains(x));
        }
    }
    if let ChangeMembershipIntent::AddLearner { node_id } = intent {
        if cur.learners.contains(node_id) {
            assert(learners.contains(node_id));
            assert(!cur.voters.contains(node_id)) by {
                if cur.voters.contains(node_id) {
                    assert(voters.contains(node_id));
                    assert(overlap(voters, learners));
                }
            }
            assert(cur.learners.insert(node_id) =~= cur.learners);
        }
    }
    if let ChangeMembershipIntent::ReplaceVoter { promoted, demoted } = intent {
        if cur.voters.contains(promoted) && cur.learners.contains(demoted) {
            assert(voters.contains(promoted) && learners.contains(demoted));
            if cur.voters.contains(demoted) {
                assert(voters.contains(demoted));
                assert(overlap(voters, learners));
            }
            if cur.learners.contains(promoted) {
                assert(learners.contains(promoted));
                assert(overlap(voters, learners));
            }
        }
    }
}

/// A plan is carried out by what its name says: a learner that is added or
/// waited for catches up, one that is removed goes, a replaced voter gives way
/// only behind a learner that has caught up, and what was to come about is
/// looked at in the end.
pub proof fn plans_are_carried_out(plan: MembershipPlan)
    ensures
        match plan {
            MembershipPlan::Nothing => steps_of(plan).len() == 0,
            MembershipPlan::Verify => steps_of(plan) == seq![MembershipStep::Verify],
            MembershipPlan::RetryLearner(id) => steps_of(plan).contains(
                MembershipStep::CatchUp(id),
            ) && !steps_of(plan).contains(MembershipStep::ChangeVoters),
            MembershipPlan::AddLearner(id) => steps_of(plan).contains(MembershipStep::CatchUp(id))
                && !steps_of(plan).contains(MembershipStep::ChangeVoters),
            MembershipPlan::RemoveLearner(id) => steps_of(plan).contains(
                MembershipStep::Remove(id),
            ) && !steps_of(plan).contains(MembershipStep::ChangeVoters),
            MembershipPlan::ReplaceVoter(up, _) => steps_of(plan).len() >= 2 && steps_of(plan)[0]
                == MembershipStep::CatchUp(up) && steps_of(plan)[1]
                == MembershipStep::ChangeVoters,
        },
        plan != MembershipPlan::Nothing ==> steps_of(plan).len() > 0 && steps_of(plan).last()
            == MembershipStep::Verify,
{
    let steps = steps_of(plan);
    match plan {
        MembershipPlan::RetryLearner(id) => {
            assert(steps[0] == MembershipStep::CatchUp(id));
        },
        MembershipPlan::AddLearner(id) => {
            assert(steps[0] == MembershipStep::CatchUp(id));
        },
        MembershipPlan::RemoveLearner(id) => {
            assert(steps[0] == MembershipStep::Remove(id));
        },
        _ => {},
    }
}

/// What a plan makes of the members: it changes one node at most, keeps the
/// number of voters, brings in only nodes that are listed in the manifest, and
/// never takes the vote of the leader.
pub open spec fn makes(
    plan: MembershipPlan,
    cur: CurrentView,
    voters: Set<u64>,
    learners: Set<u64>,
    authorized: Set<u64>,
) -> bool {
    match plan {
        MembershipPlan::Nothing | MembershipPlan::Verify => voters == cur.voters && learners
            == cur.learners,
        MembershipPlan::AddLearner(id) | MembershipPlan::RetryLearner(id) => voters == cur.voters
            && learners == cur.learners.insert(id) && authorized.contains(id),
        MembershipPlan::RemoveLearner(id) => voters == cur.voters && cur.learners.contains(id)
            && learners == cur.learners.remove(id) && (cur.voters.len() == 3 || cur.voters.len()
            == 5),
        MembershipPlan::ReplaceVoter(up, down) => {
            &&& cur.voters.len() == 3 || cur.voters.len() == 5
            &&& cur.learners.contains(up) && !cur.voters.contains(up) && authorized.contains(up)
            &&& cur.voters.contains(down) && down != cur.node_id
            &&& voters == cur.voters.remove(down).insert(up)
            &&& learners == cur.learners.remove(up).insert(down)
        },
    }
}

proof fn lemma_sole(s: Set<u64>)
    requires
        s.finite(),
        s.len() == 1,
    ensures
        s.contains(sole(s)),
        forall|x: u64| #[trigger] s.contains(x) ==> x == sole(s),
{
    Set::lemma_is_singleton(s);
    let x = s.choose();
    assert(s.contains(x));
}

proof fn lemma_lost_none(s: Set<u64>)
    requires
        s.finite(),
        s.len() == 0,
    ensures
        forall|x: u64| !#[trigger] s.contains(x),
{
    s.lemma_len0_is_empty();
}

/// Every request that is granted could be looked at, and asks for exactly what
/// its plan makes of the members; where an operator said what is to change,
/// a learner that is added or removed is theirs.
pub proof fn granted_changes_are_bounded(
    cur: CurrentView,
    voters: Seq<u64>,
    learners: Seq<u64>,
    authorized: Set<u64>,
    intent: Option<ChangeMembershipIntent>,
)
    requires
        cur.voters.finite(),
        cur.learners.finite(),
    ensures
        membership_plan(cur, voters, learners, authorized, intent) matches Ok(plan) ==> {
            &&& may_be_asked(cur, voters, learners)
            &&& makes(plan, cur, voters.to_set(), learners.to_set(), authorized)
            &&& intent matches Some(ChangeMembershipIntent::AddLearner { node_id }) ==> (plan
                == MembershipPlan::AddLearner(node_id) || plan == MembershipPlan::RetryLearner(
                node_id,
            ))
            &&& intent matches Some(ChangeMembershipIntent::RemoveLearner { node_id }) ==> (plan
                == MembershipPlan::RemoveLearner(node_id) || plan == MembershipPlan::Verify)
        },
{
    if let Ok(plan) = membership_plan(cur, voters, learners, authorized, intent) {
        let all = voters + learners;
        let n = voters.len() as int;
        assert(all.no_duplicates()) by {
            assert forall|i: int, j: int|
                0 <= i < all.len() && 0 <= j < all.len() && i != j implies all[i] != all[j] by {
                if i < n && j >= n {
                    assert(voters.contains(all[i]));
                    assert(learners.contains(learners[j - n]));
                } else if j < n && i >= n {
                    assert(voters.contains(all[j]));
                    assert(learners.contains(learners[i - n]));
                }
            }
        }
        assert(!all.contains(0)) by {
            if all.contains(0) {
                let i = choose|i: int| 0 <= i < all.len() && all[i] == 0;
                if i < n {
                    assert(voters[i] == 0);
                } else {
                    assert(learners[i - n] == 0);
                }
            }
        }
        let (rv, rl) = (voters.to_set(), learners.to_set());
        vstd::seq_lib::seq_to_set_is_finite(voters);
        vstd::seq_lib::seq_to_set_is_finite(learners);
        if rv != cur.voters {
            let promoted = rv.difference(cur.voters);
            let demoted = cur.voters.difference(rv);
            if promoted.len() == 1 && demoted.len() == 1 {
                lemma_sole(promoted);
                lemma_sole(demoted);
                let (up, down) = (sole(promoted), sole(demoted));
                assert forall|x: u64| rv.contains(x) == cur.voters.remove(down).insert(
                    up,
                ).contains(x) by {
                    assert(promoted.contains(x) == (rv.contains(x) && !cur.voters.contains(x)));
                    assert(demoted.contains(x) == (cur.voters.contains(x) && !rv.contains(x)));
                }
                assert(rv =~= cur.voters.remove(down).insert(up));
            }
        } else {
            let removed = cur.learners.difference(rl);
            let added = rl.difference(cur.learners);
            if removed.len() == 1 {
                lemma_sole(removed);
            }
            if added.len() == 1 {
                lemma_sole(added);
            }
            if rl.len() == 1 {
                lemma_sole(rl);
            }
            if removed.len() == 0 {
                lemma_lost_none(removed);
            }
            if added.len() == 0 {
                lemma_lost_none(added);
            }
            assert forall|x: u64| true implies removed.contains(x) == (cur.learners.contains(x)
                && !#[trigger] rl.contains(x)) && added.contains(x) == (rl.contains(x)
                && !cur.learners.contains(x)) by {}
            match plan {
                MembershipPlan::AddLearner(id) => {
                    assert(rl =~= cur.learners.insert(id));
                },
                MembershipPlan::RetryLearner(id) => {
                    assert(rl =~= cur.learners.insert(id));
                },
                MembershipPlan::RemoveLearner(id) => {
                    assert(rl =~= cur.learners.remove(id));
                },
                _ => {
                    assert(rl =~= cur.learners);
                },
            }
            if let Some(ChangeMembershipIntent::AddLearner { node_id }) = intent {
                if rl != cur.learners {
                    assert(added.contains(node_id)) by {
                        if cur.learners.contains(node_id) {
                            assert(cur.learners.insert(node_id) =~= cur.learners);
                        }
                    }
                }
            }
            if let Some(ChangeMembershipIntent::RemoveLearner { node_id }) = intent {
                if rl != cur.learners {
                    assert(removed.contains(node_id)) by {
                        if !cur.learners.contains(node_id) {
                            assert(cur.learners.remove(node_id) =~= cur.learners);
                        }
                    }
                }
            }
        }
        assert(may_be_asked(cur, voters, learners));
        assert(makes(plan, cur, rv, rl, authorized));
    }
}

} // verus!
