//! Bounded changes of a live membership: one learner more, one voter replaced
//! by a learner, or one learner less.

use crate::error::{ChorusError, ChorusErrorView};
use crate::members::{has_id, ids_overlap, overlap, sorted_list_is_unique, sorted_unique, sorts, lemma_ascends};
use crate::node_map::{has_node, NodeMap};
use crate::snapshot::ascends;
use crate::text::{digits, digits_text, joined, joined3, owned};
use vstd::prelude::*;
use vstd::string::*;

verus! {

type ChangeResult<T> = std::result::Result<T, ChorusError>;

/// What an operator wants to change.
#[derive(Clone, Copy, Debug, PartialEq, Eq, Structural)]
pub enum ChangeMembershipIntent {
    AddLearner { node_id: u64 },
    ReplaceVoter { promoted: u64, demoted: u64 },
    RemoveLearner { node_id: u64 },
}

/// What has to be done for a change.
#[derive(Clone, Copy, Debug, PartialEq, Eq, Structural)]
pub enum MembershipPlan {
    /// Nothing at all.
    Nothing,
    /// The members are as requested; only look whether they are published.
    Verify,
    /// Wait again for a learner to catch up.
    RetryLearner(u64),
    /// Add a learner and wait for it to catch up.
    AddLearner(u64),
    /// Remove a learner.
    RemoveLearner(u64),
    /// Wait for a learner to catch up, and put it in the place of a voter.
    ReplaceVoter(u64, u64),
}

/// The members of a group as its leader sees them.
pub struct CurrentMembers {
    pub voters: Vec<u64>,
    pub learners: Vec<u64>,
    pub node_id: u64,
    pub leader: Option<u64>,
    /// The number of configurations that are in force; one where no change is
    /// under way.
    pub configurations: usize,
}

/// What a [`CurrentMembers`] holds.
pub struct CurrentView {
    pub voters: Set<u64>,
    pub learners: Set<u64>,
    pub node_id: u64,
    pub leader: Option<u64>,
    pub configurations: nat,
}

impl View for CurrentMembers {
    type V = CurrentView;

    open spec fn view(&self) -> CurrentView {
        CurrentView {
            voters: self.voters@.to_set(),
            learners: self.learners@.to_set(),
            node_id: self.node_id,
            leader: self.leader,
            configurations: self.configurations as nat,
        }
    }
}

/// An error of consensus.
pub open spec fn consensus_error<T>(message: Seq<char>) -> std::result::Result<T, ChorusErrorView> {
    Err(ChorusErrorView::Consensus(message))
}

/// An error of consensus about a node.
pub open spec fn node_error<T>(
    before: Seq<char>,
    node: u64,
    after: Seq<char>,
) -> std::result::Result<T, ChorusErrorView> {
    consensus_error(before + digits(node as nat) + after)
}

fn node_fault(before: &str, node: u64, after: &str) -> (error: ChorusError)
    ensures
        error@ == ChorusErrorView::Consensus(before@ + digits(node as nat) + after@),
{
    ChorusError::Consensus(joined3(before, digits_text(node).as_str(), after))
}

/// What a check says: nothing, or an error.
pub type ChangeVerdict = std::result::Result<(), ChorusErrorView>;

/// Whether a request fits what the operator wants to change.
pub open spec fn intent_verdict(
    intent: ChangeMembershipIntent,
    cur_voters: Set<u64>,
    cur_learners: Set<u64>,
    req_voters: Set<u64>,
    req_learners: Set<u64>,
) -> ChangeVerdict {
    let unchanged = req_voters == cur_voters && req_learners == cur_learners;
    match intent {
        ChangeMembershipIntent::AddLearner { node_id } => if cur_voters.contains(node_id) {
            node_error("learner "@, node_id, " is already a voter"@)
        } else if req_voters != cur_voters || (req_learners != cur_learners.insert(node_id) && !(
        cur_learners.contains(node_id) && req_learners == cur_learners)) {
            consensus_error("add-learner intent does not match the requested one-node delta"@)
        } else {
            Ok(())
        },
        ChangeMembershipIntent::ReplaceVoter { promoted, demoted } => if promoted == 0 || demoted
            == 0 || promoted == demoted {
            consensus_error("voter replacement intent has invalid node ids"@)
        } else if !(cur_voters.contains(promoted) && !cur_voters.contains(demoted)
            && cur_learners.contains(demoted) && !cur_learners.contains(promoted) && unchanged) && (
        req_voters != cur_voters.remove(demoted).insert(promoted) || req_learners
            != cur_learners.remove(promoted).insert(demoted)) {
            consensus_error(
                "voter replacement intent does not match the requested one-for-one delta"@,
            )
        } else {
            Ok(())
        },
        ChangeMembershipIntent::RemoveLearner { node_id } => if !(!cur_voters.contains(node_id)
            && !cur_learners.contains(node_id) && unchanged) && (req_voters != cur_voters
            || req_learners != cur_learners.remove(node_id)) {
            consensus_error("learner removal intent does not match the requested one-node delta"@)
        } else {
            Ok(())
        },
    }
}

/// The one element of a set that has one.
pub open spec fn sole(s: Set<u64>) -> u64 {
    choose|x: u64| s.contains(x)
}

/// How one voter is replaced, or why it is not.
pub open spec fn replacement_plan(
    cur: CurrentView,
    req_voters: Set<u64>,
    req_learners: Set<u64>,
    authorized: Set<u64>,
) -> std::result::Result<MembershipPlan, ChorusErrorView> {
    let promoted = req_voters.difference(cur.voters);
    let demoted = cur.voters.difference(req_voters);
    if !(cur.voters.len() == 3 || cur.voters.len() == 5) || req_voters.len() != cur.voters.len() {
        consensus_error("voter replacement must preserve an existing 3- or 5-voter set"@)
    } else if promoted.len() != 1 || demoted.len() != 1 {
        consensus_error(
            "bounded voter replacement requires exactly one promotion and one demotion"@,
        )
    } else if !cur.learners.contains(sole(promoted)) {
        node_error("replacement voter "@, sole(promoted), " is not a current learner"@)
    } else if cur.leader == Some(sole(demoted)) {
        consensus_error(
            "bounded voter replacement cannot demote the current leader without leader transfer"@,
        )
    } else if req_learners != cur.learners.remove(sole(promoted)).insert(sole(demoted)) {
        consensus_error(
            "voter replacement must retain the demoted voter and every other learner"@,
        )
    } else if !authorized.contains(sole(promoted)) {
        node_error(
            "replacement voter "@,
            sole(promoted),
            " is absent from the signed peer manifest"@,
        )
    } else {
        Ok(MembershipPlan::ReplaceVoter(sole(promoted), sole(demoted)))
    }
}

/// How the learners are changed while the voters stay, or why they are not.
pub open spec fn learner_plan(
    cur: CurrentView,
    req_learners: Set<u64>,
    authorized: Set<u64>,
) -> std::result::Result<MembershipPlan, ChorusErrorView> {
    let removed = cur.learners.difference(req_learners);
    let added = req_learners.difference(cur.learners);
    if removed.len() > 0 {
        if added.len() > 0 {
            consensus_error("bounded membership cannot add and remove learners in one request"@)
        } else if removed.len() != 1 {
            consensus_error("bounded membership removes exactly one learner per request"@)
        } else if !(cur.voters.len() == 3 || cur.voters.len() == 5) {
            consensus_error("learner removal must preserve an existing 3- or 5-voter set"@)
        } else {
            Ok(MembershipPlan::RemoveLearner(sole(removed)))
        }
    } else if added.len() == 0 && req_learners.len() == 0 {
        Ok(MembershipPlan::Nothing)
    } else if added.len() == 0 && req_learners.len() > 1 {
        consensus_error("bounded membership cannot revalidate multiple learners"@)
    } else if added.len() > 1 {
        consensus_error("bounded membership adds exactly one learner per request"@)
    } else {
        let target = if added.len() == 1 {
            sole(added)
        } else {
            sole(req_learners)
        };
        if !authorized.contains(target) {
            node_error("learner "@, target, " is absent from the signed peer manifest"@)
        } else {
            Ok(MembershipPlan::AddLearner(target))
        }
    }
}

/// How a request is met by the members as they are, or why it is not.
pub open spec fn membership_plan(
    cur: CurrentView,
    voters: Seq<u64>,
    learners: Seq<u64>,
    authorized: Set<u64>,
    intent: Option<ChangeMembershipIntent>,
) -> std::result::Result<MembershipPlan, ChorusErrorView> {
    let (req_voters, req_learners) = (voters.to_set(), learners.to_set());
    if voters.contains(0) || learners.contains(0) {
        consensus_error("OpenRaft membership node ids must be nonzero"@)
    } else if !voters.no_duplicates() || !learners.no_duplicates() {
        consensus_error("OpenRaft membership request contains duplicate node ids"@)
    } else if voters.len() == 0 || overlap(voters, learners) {
        consensus_error("OpenRaft voter set must be nonempty and voters/learners must be disjoint"@)
    } else if cur.leader != Some(cur.node_id) {
        consensus_error("OpenRaft membership changes must be submitted to the current leader"@)
    } else if cur.configurations != 1 {
        consensus_error("OpenRaft membership is still joint; wait for recovery before another change"@)
    } else if intent is Some && intent_verdict(
        intent->0,
        cur.voters,
        cur.learners,
        req_voters,
        req_learners,
    ) is Err {
        Err(
            intent_verdict(intent->0, cur.voters, cur.learners, req_voters, req_learners)->Err_0,
        )
    } else if intent is Some && req_voters == cur.voters && req_learners == cur.learners {
        match intent->0 {
            ChangeMembershipIntent::AddLearner { node_id } => if authorized.contains(node_id) {
                Ok(MembershipPlan::RetryLearner(node_id))
            } else {
                node_error("learner "@, node_id, " is absent from the signed peer manifest"@)
            },
            _ => Ok(MembershipPlan::Verify),
        }
    } else if req_voters != cur.voters {
        replacement_plan(cur, req_voters, req_learners, authorized)
    } else {
        learner_plan(cur, req_learners, authorized)
    }
}

// ---------------------------------------------------------------------------
// Sets as sorted lists
// ---------------------------------------------------------------------------

proof fn lemma_sorted_no_duplicates(s: Seq<u64>)
    requires
        ascends(s),
    ensures
        s.no_duplicates(),
        s.to_set().len() == s.len(),
{
    assert forall|i: int, j: int| 0 <= i < s.len() && 0 <= j < s.len() && i != j implies s[i]
        != s[j] by {
        if i < j {
            lemma_ascends(s, i, j);
        } else {
            lemma_ascends(s, j, i);
        }
    }
    s.unique_seq_to_set();
}

proof fn lemma_sorts(sorted: Seq<u64>, ids: Seq<u64>)
    requires
        sorts(sorted, ids),
    ensures
        sorted.to_set() == ids.to_set(),
        sorted.len() == ids.len() <==> ids.no_duplicates(),
        sorted.len() == ids.to_set().len(),
{
    lemma_sorted_no_duplicates(sorted);
    assert(sorted.to_set() =~= ids.to_set()) by {
        assert forall|x: u64| sorted.to_set().contains(x) == ids.to_set().contains(x) by {
            assert(sorted.contains(x) <==> ids.contains(x));
        }
    }
    if ids.no_duplicates() {
        ids.unique_seq_to_set();
    }
    if sorted.len() == ids.len() {
        ids.lemma_no_dup_set_cardinality();
    }
}

fn same_set(a: &Vec<u64>, b: &Vec<u64>) -> (same: bool)
    requires
        ascends(a@),
        ascends(b@),
    ensures
        same == (a@.to_set() == b@.to_set()),
{
    let mut i: usize = 0;
    if a.len() != b.len() {
        proof {
            lemma_sorted_no_duplicates(a@);
            lemma_sorted_no_duplicates(b@);
        }
        return false;
    }
    while i < a.len()
        invariant
            a@.len() == b@.len(),
            ascends(a@),
            ascends(b@),
            i <= a@.len(),
            forall|k: int| 0 <= k < i ==> a@[k] == b@[k],
        decreases a@.len() - i,
    {
        if a[i] != b[i] {
            proof {
                if a@.to_set() == b@.to_set() {
                    assert forall|x: u64| #[trigger] a@.contains(x) <==> b@.contains(x) by {
                        assert(a@.to_set().contains(x) <==> b@.to_set().contains(x));
                    }
                    sorted_list_is_unique(a@, b@);
                }
            }
            return false;
        }
        i += 1;
    }
    assert(a@ =~= b@);
    true
}

// The numbers of one list that another has not.
fn minus(a: &Vec<u64>, b: &Vec<u64>) -> (d: Vec<u64>)
    requires
        ascends(a@),
    ensures
        ascends(d@),
        d@.to_set() == a@.to_set().difference(b@.to_set()),
        d@.len() == a@.to_set().difference(b@.to_set()).len(),
        d@.len() > 0 ==> a@.to_set().difference(b@.to_set()).contains(d@[0]),
        d@.len() == 1 ==> sole(a@.to_set().difference(b@.to_set())) == d@[0],
{
    let mut d: Vec<u64> = Vec::new();
    let mut i: usize = 0;
    while i < a.len()
        invariant
            ascends(a@),
            i <= a@.len(),
            ascends(d@),
            d@.len() > 0 ==> i > 0 && d@.last() <= a@[i - 1],
            forall|x: u64|
                #[trigger] d@.contains(x) <==> a@.subrange(0, i as int).contains(x) && !b@.contains(
                    x,
                ),
        decreases a@.len() - i,
    {
        let ghost before = d@;
        let ghost front = a@.subrange(0, i as int);
        let ghost wider = a@.subrange(0, i + 1);
        let id: u64 = a[i];
        assert(wider == front.push(id));
        if i > 0 {
            assert(a@[i - 1] < a@[i - 1 + 1]);
        }
        if !has_id(b.as_slice(), id) {
            d.push(id);
            assert forall|k: int| 0 <= k < d@.len() - 1 implies (#[trigger] d@[k]) < d@[k + 1] by {
                if k + 1 < before.len() {
                    assert(before[k] < before[k + 1]);
                }
            }
        }
        assert forall|x: u64| #[trigger] d@.contains(x) <==> wider.contains(x) && !b@.contains(
            x,
        ) by {
            assert(before.contains(x) <==> front.contains(x) && !b@.contains(x));
            if front.contains(x) {
                let k = choose|k: int| 0 <= k < front.len() && front[k] == x;
                assert(wider[k] == x);
            }
            assert(wider[i as int] == id);
            if before.contains(x) {
                let k = choose|k: int| 0 <= k < before.len() && before[k] == x;
                assert(d@[k] == x);
            }
            if !b@.contains(id) {
                assert(d@[d@.len() - 1] == id);
            }
        }
        i += 1;
    }
    proof {
        assert(a@.subrange(0, i as int) == a@);
        lemma_sorted_no_duplicates(d@);
        let diff = a@.to_set().difference(b@.to_set());
        assert(d@.to_set() =~= diff) by {
            assert forall|x: u64| d@.to_set().contains(x) == diff.contains(x) by {
                assert(d@.contains(x) <==> a@.contains(x) && !b@.contains(x));
            }
        }
        if d@.len() > 0 {
            assert(d@.to_set().contains(d@[0]));
        }
        if d@.len() == 1 {
            let x = sole(diff);
            assert(diff.contains(d@[0]));
            assert(diff.contains(x));
            assert(d@.contains(x));
        }
    }
    d
}

// A set with one number more and another less.
fn exchanged(ids: &Vec<u64>, out: Option<u64>, into: Option<u64>) -> (changed: Vec<u64>)
    ensures
        ascends(changed@),
        changed@.to_set() == ({
            let fewer = match out {
                Some(x) => ids@.to_set().remove(x),
                None => ids@.to_set(),
            };
            match into {
                Some(x) => fewer.insert(x),
                None => fewer,
            }
        }),
{
    let mut list: Vec<u64> = Vec::new();
    let mut i: usize = 0;
    while i < ids.len()
        invariant
            i <= ids@.len(),
            forall|x: u64|
                #[trigger] list@.contains(x) <==> ids@.subrange(0, i as int).contains(x) && out
                    != Some(x),
        decreases ids@.len() - i,
    {
        let ghost before = list@;
        let ghost front = ids@.subrange(0, i as int);
        let ghost wider = ids@.subrange(0, i + 1);
        let id: u64 = ids[i];
        assert(wider == front.push(id));
        let dropped = match out {
            Some(x) => x == id,
            None => false,
        };
        if !dropped {
            list.push(id);
        }
        assert forall|x: u64| #[trigger] list@.contains(x) <==> wider.contains(x) && out != Some(
            x,
        ) by {
            assert(before.contains(x) <==> front.contains(x) && out != Some(x));
            if front.contains(x) {
                let k = choose|k: int| 0 <= k < front.len() && front[k] == x;
                assert(wider[k] == x);
            }
            assert(wider[i as int] == id);
            if before.contains(x) {
                let k = choose|k: int| 0 <= k < before.len() && before[k] == x;
                assert(list@[k] == x);
            }
            if !dropped {
                assert(list@[list@.len() - 1] == id);
            }
        }
        i += 1;
    }
    assert(ids@.subrange(0, i as int) == ids@);
    let ghost kept = list@;
    if let Some(x) = into {
        list.push(x);
    }
    let changed = sorted_unique(list.as_slice());
    proof {
        let fewer = match out {
            Some(x) => ids@.to_set().remove(x),
            None => ids@.to_set(),
        };
        let all = match into {
            Some(x) => fewer.insert(x),
            None => fewer,
        };
        assert(changed@.to_set() =~= all) by {
            assert forall|x: u64| changed@.to_set().contains(x) == all.contains(x) by {
                assert(changed@.contains(x) <==> list@.contains(x));
                assert(kept.contains(x) <==> ids@.contains(x) && out != Some(x));
                if into == Some(x) {
                    assert(list@[list@.len() - 1] == x);
                }
                if kept.contains(x) {
                    let k = choose|k: int| 0 <= k < kept.len() && kept[k] == x;
                    assert(list@[k] == x);
                }
                if list@.contains(x) && into != Some(x) {
                    let k = choose|k: int| 0 <= k < list@.len() && list@[k] == x;
                    assert(kept[k] == x);
                }
            }
        }
    }
    changed
}

/// Whether a check came out as `verdict` says.
pub open spec fn change_comes_out(verdict: ChangeVerdict, result: ChangeResult<()>) -> bool {
    match result {
        Ok(()) => verdict == Ok::<(), ChorusErrorView>(()),
        Err(e) => verdict == Err::<(), ChorusErrorView>(e@),
    }
}

/// Checks that a request fits what the operator wants to change. All four
/// lists stand in strictly ascending order.
pub fn validate_membership_intent(
    intent: &ChangeMembershipIntent,
    current_voters: &Vec<u64>,
    current_learners: &Vec<u64>,
    requested_voters: &Vec<u64>,
    requested_learners: &Vec<u64>,
) -> (result: ChangeResult<()>)
    requires
        ascends(current_voters@),
        ascends(current_learners@),
        ascends(requested_voters@),
        ascends(requested_learners@),
    ensures
        change_comes_out(
            intent_verdict(
                *intent,
                current_voters@.to_set(),
                current_learners@.to_set(),
                requested_voters@.to_set(),
                requested_learners@.to_set(),
            ),
            result,
        ),
{
    let same_voters = same_set(requested_voters, current_voters);
    let same_learners = same_set(requested_learners, current_learners);
    match intent {
        ChangeMembershipIntent::AddLearner { node_id } => {
            let id: u64 = *node_id;
            if has_id(current_voters.as_slice(), id) {
                return Err(node_fault("learner ", id, " is already a voter"));
            }
            let expected = exchanged(current_learners, None, Some(id));
            if !same_voters || (!same_set(requested_learners, &expected) && !(has_id(
                current_learners.as_slice(),
                id,
            ) && same_learners)) {
                return Err(
                    ChorusError::consensus(
                        "add-learner intent does not match the requested one-node delta",
                    ),
                );
            }
        },
        ChangeMembershipIntent::ReplaceVoter { promoted, demoted } => {
            let up: u64 = *promoted;
            let down: u64 = *demoted;
            if up == 0 || down == 0 || up == down {
                return Err(
                    ChorusError::consensus("voter replacement intent has invalid node ids"),
                );
            }
            let already = has_id(current_voters.as_slice(), up) && !has_id(
                current_voters.as_slice(),
                down,
            ) && has_id(current_learners.as_slice(), down) && !has_id(
                current_learners.as_slice(),
                up,
            ) && same_voters && same_learners;
            let voters = exchanged(current_voters, Some(down), Some(up));
            let learners = exchanged(current_learners, Some(up), Some(down));
            if !already && (!same_set(requested_voters, &voters) || !same_set(
                requested_learners,
                &learners,
            )) {
                return Err(
                    ChorusError::consensus(
                        "voter replacement intent does not match the requested one-for-one delta",
                    ),
                );
            }
        },
        ChangeMembershipIntent::RemoveLearner { node_id } => {
            let id: u64 = *node_id;
            let already = !has_id(current_voters.as_slice(), id) && !has_id(
                current_learners.as_slice(),
                id,
            ) && same_voters && same_learners;
            let learners = exchanged(current_learners, Some(id), None);
            if !already && (!same_voters || !same_set(requested_learners, &learners)) {
                return Err(
                    ChorusError::consensus(
                        "learner removal intent does not match the requested one-node delta",
                    ),
                );
            }
        },
    }
    Ok(())
}

/// The numbers of a table.
pub open spec fn nodes_of(list: Seq<(u64, String)>) -> Set<u64> {
    Set::new(|id: u64| has_node(list, id))
}

/// Whether a plan came out as `plan` says.
pub open spec fn plan_comes_out(
    plan: std::result::Result<MembershipPlan, ChorusErrorView>,
    result: ChangeResult<MembershipPlan>,
) -> bool {
    match result {
        Ok(p) => plan == Ok::<MembershipPlan, ChorusErrorView>(p),
        Err(e) => plan == Err::<MembershipPlan, ChorusErrorView>(e@),
    }
}

fn replace_one_voter(
    current: &CurrentMembers,
    voters: &Vec<u64>,
    learners: &Vec<u64>,
    authorized: &NodeMap<String>,
) -> (plan: ChangeResult<MembershipPlan>)
    requires
        ascends(current.voters@),
        ascends(current.learners@),
        ascends(voters@),
        ascends(learners@),
    ensures
        plan_comes_out(
            replacement_plan(
                current@,
                voters@.to_set(),
                learners@.to_set(),
                nodes_of(authorized@),
            ),
            plan,
        ),
{
    proof {
        lemma_sorted_no_duplicates(current.voters@);
        lemma_sorted_no_duplicates(voters@);
    }
    if !(current.voters.len() == 3 || current.voters.len() == 5) || voters.len()
        != current.voters.len() {
        return Err(
            ChorusError::consensus("voter replacement must preserve an existing 3- or 5-voter set"),
        );
    }
    let promoted = minus(voters, &current.voters);
    let demoted = minus(&current.voters, voters);
    if promoted.len() != 1 || demoted.len() != 1 {
        return Err(
            ChorusError::consensus(
                "bounded voter replacement requires exactly one promotion and one demotion",
            ),
        );
    }
    let up: u64 = promoted[0];
    let down: u64 = demoted[0];
    if !has_id(current.learners.as_slice(), up) {
        return Err(node_fault("replacement voter ", up, " is not a current learner"));
    }
    let leads = match current.leader {
        Some(leader) => leader == down,
        None => false,
    };
    if leads {
        return Err(
            ChorusError::consensus(
                "bounded voter replacement cannot demote the current leader without leader transfer",
            ),
        );
    }
    let expected = exchanged(&current.learners, Some(up), Some(down));
    if !same_set(learners, &expected) {
        return Err(
            ChorusError::consensus(
                "voter replacement must retain the demoted voter and every other learner",
            ),
        );
    }
    if !authorized.contains(up) {
        return Err(
            node_fault("replacement voter ", up, " is absent from the signed peer manifest"),
        );
    }
    Ok(MembershipPlan::ReplaceVoter(up, down))
}

fn change_learners(
    current: &CurrentMembers,
    learners: &Vec<u64>,
    authorized: &NodeMap<String>,
) -> (plan: ChangeResult<MembershipPlan>)
    requires
        ascends(current.voters@),
        ascends(current.learners@),
        ascends(learners@),
    ensures
        plan_comes_out(
            learner_plan(current@, learners@.to_set(), nodes_of(authorized@)),
            plan,
        ),
{
    proof {
        lemma_sorted_no_duplicates(current.voters@);
        lemma_sorted_no_duplicates(learners@);
    }
    let removed = minus(&current.learners, learners);
    let added = minus(learners, &current.learners);
    if removed.len() > 0 {
        if added.len() > 0 {
            return Err(
                ChorusError::consensus(
                    "bounded membership cannot add and remove learners in one request",
                ),
            );
        }
        if removed.len() != 1 {
            return Err(
                ChorusError::consensus("bounded membership removes exactly one learner per request"),
            );
        }
        if !(current.voters.len() == 3 || current.voters.len() == 5) {
            return Err(
                ChorusError::consensus(
                    "learner removal must preserve an existing 3- or 5-voter set",
                ),
            );
        }
        return Ok(MembershipPlan::RemoveLearner(removed[0]));
    }
    if added.len() == 0 && learners.len() == 0 {
        return Ok(MembershipPlan::Nothing);
    }
    if added.len() == 0 && learners.len() > 1 {
        return Err(
            ChorusError::consensus("bounded membership cannot revalidate multiple learners"),
        );
    }
    if added.len() > 1 {
        return Err(
            ChorusError::consensus("bounded membership adds exactly one learner per request"),
        );
    }
    let target: u64 = if added.len() == 1 {
        added[0]
    } else {
        learners[0]
    };
    proof {
        if added@.len() == 0 {
            let s = learners@.to_set();
            assert(learners@.contains(learners@[0]));
            assert(s.contains(learners@[0]));
            assert(s.contains(sole(s)));
            assert(learners@.contains(sole(s)));
        }
    }
    if !authorized.contains(target) {
        return Err(node_fault("learner ", target, " is absent from the signed peer manifest"));
    }
    Ok(MembershipPlan::AddLearner(target))
}

/// Plans a change of the members: at most one node changes its role, and
/// everything else is refused.
pub fn apply_bounded_membership_change(
    current: &CurrentMembers,
    voters: &[u64],
    learners: &[u64],
    authorized: &NodeMap<String>,
    intent: Option<ChangeMembershipIntent>,
) -> (plan: ChangeResult<MembershipPlan>)
    requires
        ascends(current.voters@),
        ascends(current.learners@),
    ensures
        plan_comes_out(
            membership_plan(current@, voters@, learners@, nodes_of(authorized@), intent),
            plan,
        ),
{
    if has_id(voters, 0) || has_id(learners, 0) {
        return Err(ChorusError::consensus("OpenRaft membership node ids must be nonzero"));
    }
    let req_voters = sorted_unique(voters);
    let req_learners = sorted_unique(learners);
    proof {
        lemma_sorts(req_voters@, voters@);
        lemma_sorts(req_learners@, learners@);
    }
    if req_voters.len() != voters.len() || req_learners.len() != learners.len() {
        return Err(
            ChorusError::consensus("OpenRaft membership request contains duplicate node ids"),
        );
    }
    if voters.len() == 0 || ids_overlap(voters, learners) {
        return Err(
            ChorusError::consensus(
                "OpenRaft voter set must be nonempty and voters/learners must be disjoint",
            ),
        );
    }
    let leads = match current.leader {
        Some(leader) => leader == current.node_id,
        None => false,
    };
    if !leads {
        return Err(
            ChorusError::consensus(
                "OpenRaft membership changes must be submitted to the current leader",
            ),
        );
    }
    if current.configurations != 1 {
        return Err(
            ChorusError::consensus(
                "OpenRaft membership is still joint; wait for recovery before another change",
            ),
        );
    }
    let same_voters = same_set(&req_voters, &current.voters);
    let same_learners = same_set(&req_learners, &current.learners);
    if let Some(wanted) = intent {
        match validate_membership_intent(
            &wanted,
            &current.voters,
            &current.learners,
            &req_voters,
            &req_learners,
        ) {
            Ok(()) => {},
            Err(e) => {
                return Err(e);
            },
        }
        if same_voters && same_learners {
            return match wanted {
                ChangeMembershipIntent::AddLearner { node_id } => {
                    if authorized.contains(node_id) {
                        Ok(MembershipPlan::RetryLearner(node_id))
                    } else {
                        Err(
                            node_fault(
                                "learner ",
                                node_id,
                                " is absent from the signed peer manifest",
                            ),
                        )
                    }
                },
                _ => Ok(MembershipPlan::Verify),
            };
        }
    }
    if !same_voters {
        return replace_one_voter(current, &req_voters, &req_learners, authorized);
    }
    change_learners(current, &req_learners, authorized)
}

/// Checks that the members that are published are those that were requested,
/// and that no change is under way.
pub fn verify_uniform_membership(
    observed: &CurrentMembers,
    voters: &[u64],
    learners: &[u64],
) -> (result: ChangeResult<()>)
    requires
        ascends(observed.voters@),
        ascends(observed.learners@),
    ensures
        change_comes_out(
            if observed.configurations != 1 || observed@.voters != voters@.to_set()
                || observed@.learners != learners@.to_set() {
                consensus_error(
                    "OpenRaft did not publish the requested uniform exact membership"@,
                )
            } else {
                Ok(())
            },
            result,
        ),
{
    let req_voters = sorted_unique(voters);
    let req_learners = sorted_unique(learners);
    proof {
        lemma_sorts(req_voters@, voters@);
        lemma_sorts(req_learners@, learners@);
    }
    if observed.configurations != 1 || !same_set(&observed.voters, &req_voters) || !same_set(
        &observed.learners,
        &req_learners,
    ) {
        return Err(
            ChorusError::consensus(
                "OpenRaft did not publish the requested uniform exact membership",
            ),
        );
    }
    Ok(())
}

/// Every planned change is bounded: a replacement keeps three or five voters,
/// takes in a learner, spares the leader and keeps the voter that it puts out
/// as a learner; every other plan leaves the voters as they are, and adds or
/// removes one learner at most.
pub proof fn planned_changes_are_bounded(
    cur: CurrentView,
    voters: Seq<u64>,
    learners: Seq<u64>,
    authorized: Set<u64>,
    intent: Option<ChangeMembershipIntent>,
)
    requires
        cur.voters.finite(),
        cur.learners.finite(),
        membership_plan(cur, voters, learners, authorized, intent) is Ok,
    ensures
        match membership_plan(cur, voters, learners, authorized, intent)->Ok_0 {
            MembershipPlan::ReplaceVoter(up, down) => {
                &&& voters.to_set().len() == cur.voters.len()
                &&& cur.voters.len() == 3 || cur.voters.len() == 5
                &&& cur.learners.contains(up) && authorized.contains(up)
                &&& cur.voters.contains(down) && cur.leader != Some(down)
                &&& learners.to_set() == cur.learners.remove(up).insert(down)
            },
            MembershipPlan::RemoveLearner(id) => {
                &&& voters.to_set() == cur.voters
                &&& learners.to_set() == cur.learners.remove(id)
                &&& cur.learners.contains(id)
            },
            MembershipPlan::AddLearner(id) => {
                &&& voters.to_set() == cur.voters
                &&& learners.to_set() == cur.learners.insert(id)
                &&& authorized.contains(id)
            },
            MembershipPlan::RetryLearner(_) => voters.to_set() == cur.voters && learners.to_set()
                == cur.learners,
            MembershipPlan::Verify => voters.to_set() == cur.voters && learners.to_set()
                == cur.learners,
            MembershipPlan::Nothing => voters.to_set() == cur.voters && learners.to_set()
                == cur.learners,
        },
{
    broadcast use vstd::seq_lib::seq_to_set_is_finite;

    let (rv, rl) = (voters.to_set(), learners.to_set());
    let removed = cur.learners.difference(rl);
    let added = rl.difference(cur.learners);
    let promoted = rv.difference(cur.voters);
    let demoted = cur.voters.difference(rv);
    match membership_plan(cur, voters, learners, authorized, intent)->Ok_0 {
        MembershipPlan::ReplaceVoter(up, down) => {
            lemma_sole(demoted);
            assert(demoted.contains(down));
        },
        MembershipPlan::RemoveLearner(id) => {
            lemma_sole(removed);
            lemma_empty(added);
            assert(rl =~= cur.learners.remove(id)) by {
                assert forall|x: u64| rl.contains(x) == cur.learners.remove(id).contains(x) by {
                    assert(!added.contains(x));
                    if removed.contains(x) {
                        lemma_only(removed, x);
                    }
                }
            }
        },
        MembershipPlan::AddLearner(id) => {
            lemma_empty(removed);
            if added.len() == 1 {
                lemma_sole(added);
                assert(rl =~= cur.learners.insert(id)) by {
                    assert forall|x: u64| rl.contains(x) == cur.learners.insert(id).contains(x) by {
                        assert(!removed.contains(x));
                        if added.contains(x) {
                            lemma_only(added, x);
                        }
                    }
                }
            } else {
                lemma_empty(added);
                lemma_sole(rl);
                assert(rl =~= cur.learners.insert(id)) by {
                    assert forall|x: u64| rl.contains(x) == cur.learners.insert(id).contains(x) by {
                        assert(!removed.contains(x));
                        assert(!added.contains(x));
                        assert(!added.contains(id));
                    }
                }
            }
        },
        MembershipPlan::Nothing => {
            lemma_empty(removed);
            lemma_empty(added);
            assert(rl =~= cur.learners) by {
                assert forall|x: u64| rl.contains(x) == cur.learners.contains(x) by {
                    assert(!removed.contains(x));
                    assert(!added.contains(x));
                }
            }
        },
        _ => {},
    }
}

proof fn lemma_empty(s: Set<u64>)
    requires
        s.finite(),
        s.len() == 0,
    ensures
        forall|x: u64| !s.contains(x),
{
    assert forall|x: u64| !s.contains(x) by {
        if s.contains(x) {
            assert(s.remove(x).len() == s.len() - 1);
        }
    }
}

proof fn lemma_sole(s: Set<u64>)
    requires
        s.finite(),
        s.len() == 1,
    ensures
        s.contains(sole(s)),
{
    if forall|x: u64| !s.contains(x) {
        assert(s =~= Set::empty());
    }
}

proof fn lemma_only(s: Set<u64>, x: u64)
    requires
        s.finite(),
        s.len() == 1,
        s.contains(x),
    ensures
        sole(s) == x,
{
    lemma_sole(s);
    let y = sole(s);
    if y != x {
        assert(s.remove(x).contains(y));
        assert(s.remove(x).len() == 0);
        lemma_empty(s.remove(x));
    }
}

// ---------------------------------------------------------------------------
// Carrying a change out
// ---------------------------------------------------------------------------

/// One thing that is done for a change.
#[derive(Clone, Copy, Debug, PartialEq, Eq, Structural)]
pub enum MembershipStep {
    /// Add a node as a learner, and wait until it has caught up.
    CatchUp(u64),
    /// Take a node out of the group.
    Remove(u64),
    /// Put the requested voters in force, and keep the others as learners.
    ChangeVoters,
    /// See whether the requested members are in force.
    Verify,
}

/// What is done for a change, in order. A learner has caught up before it
/// votes, and the outcome is looked at last.
pub open spec fn steps_of(plan: MembershipPlan) -> Seq<MembershipStep> {
    match plan {
        MembershipPlan::Nothing => Seq::empty(),
        MembershipPlan::Verify => seq![MembershipStep::Verify],
        MembershipPlan::RetryLearner(id) => {
            seq![MembershipStep::CatchUp(id), MembershipStep::Verify]
        },
        MembershipPlan::AddLearner(id) => {
            seq![MembershipStep::CatchUp(id), MembershipStep::Verify]
        },
        MembershipPlan::RemoveLearner(id) => {
            seq![MembershipStep::Remove(id), MembershipStep::Verify]
        },
        MembershipPlan::ReplaceVoter(promoted, _) => {
            seq![
                MembershipStep::CatchUp(promoted),
                MembershipStep::ChangeVoters,
                MembershipStep::Verify,
            ]
        },
    }
}

/// Lists what is done for a change.
pub fn membership_steps(plan: MembershipPlan) -> (steps: Vec<MembershipStep>)
    ensures
        steps@ == steps_of(plan),
{
    let mut steps: Vec<MembershipStep> = Vec::new();
    match plan {
        MembershipPlan::Nothing => {},
        MembershipPlan::Verify => {
            steps.push(MembershipStep::Verify);
        },
        MembershipPlan::RetryLearner(id) => {
            steps.push(MembershipStep::CatchUp(id));
            steps.push(MembershipStep::Verify);
        },
        MembershipPlan::AddLearner(id) => {
            steps.push(MembershipStep::CatchUp(id));
            steps.push(MembershipStep::Verify);
        },
        MembershipPlan::RemoveLearner(id) => {
            steps.push(MembershipStep::Remove(id));
            steps.push(MembershipStep::Verify);
        },
        MembershipPlan::ReplaceVoter(promoted, _) => {
            steps.push(MembershipStep::CatchUp(promoted));
            steps.push(MembershipStep::ChangeVoters);
            steps.push(MembershipStep::Verify);
        },
    }
    assert(steps@ =~= steps_of(plan));
    steps
}

/// What is reported where a step of a change fails.
pub open spec fn step_failure(plan: MembershipPlan, step: MembershipStep, fault: Seq<char>) -> Seq<
    char,
> {
    match (plan, step) {
        (MembershipPlan::RetryLearner(id), MembershipStep::CatchUp(_)) => "OpenRaft learner "@
            + digits(id as nat) + " catch-up retry failed: "@ + fault,
        (MembershipPlan::ReplaceVoter(_, _), MembershipStep::CatchUp(_)) => {
            "OpenRaft replacement learner catch-up failed: "@ + fault
        },
        (_, MembershipStep::CatchUp(_)) => "OpenRaft add learner failed: "@ + fault,
        (_, MembershipStep::Remove(id)) => "OpenRaft learner "@ + digits(id as nat)
            + " removal failed: "@ + fault,
        (_, MembershipStep::ChangeVoters) => "OpenRaft voter replacement failed: "@ + fault,
        (_, MembershipStep::Verify) => fault,
    }
}

/// The error of a step of a change that failed.
pub fn membership_step_failed(plan: MembershipPlan, step: MembershipStep, fault: &str) -> (error:
    ChorusError)
    ensures
        error@ == ChorusErrorView::Consensus(step_failure(plan, step, fault@)),
{
    let text = match (plan, step) {
        (MembershipPlan::RetryLearner(id), MembershipStep::CatchUp(_)) => {
            let mut text = joined3(
                "OpenRaft learner ",
                digits_text(id).as_str(),
                " catch-up retry failed: ",
            );
            text.append(fault);
            text
        },
        (MembershipPlan::ReplaceVoter(_, _), MembershipStep::CatchUp(_)) => joined(
            "OpenRaft replacement learner catch-up failed: ",
            fault,
        ),
        (_, MembershipStep::CatchUp(_)) => joined("OpenRaft add learner failed: ", fault),
        (_, MembershipStep::Remove(id)) => {
            let mut text = joined3(
                "OpenRaft learner ",
                digits_text(id).as_str(),
                " removal failed: ",
            );
            text.append(fault);
            text
        },
        (_, MembershipStep::ChangeVoters) => joined("OpenRaft voter replacement failed: ", fault),
        (_, MembershipStep::Verify) => owned(fault),
    };
    ChorusError::Consensus(text)
}

/// No node comes to vote before it has caught up.
pub proof fn voters_have_caught_up(plan: MembershipPlan)
    requires
        steps_of(plan).contains(MembershipStep::ChangeVoters),
    ensures
        plan matches MembershipPlan::ReplaceVoter(promoted, _) && steps_of(plan)[0]
            == MembershipStep::CatchUp(promoted),
        steps_of(plan).last() == MembershipStep::Verify,
{
}

} // verus!
