//! Sets of node numbers as sorted lists.

use crate::snapshot::ascends;
use vstd::prelude::*;

verus! {

/// Whether a list has a number.
pub fn has_id(ids: &[u64], id: u64) -> (found: bool)
    ensures
        found == ids@.contains(id),
{
    let mut i: usize = 0;
    while i < ids.len()
        invariant
            i <= ids@.len(),
            forall|k: int| 0 <= k < i ==> ids@[k] != id,
        decreases ids@.len() - i,
    {
        if ids[i] == id {
            assert(ids@.contains(id));
            return true;
        }
        i += 1;
    }
    false
}

/// A copy of a list of numbers.
pub fn copy_ids(ids: &[u64]) -> (copy: Vec<u64>)
    ensures
        copy@ == ids@,
{
    vstd::slice::slice_to_vec(ids)
}

/// Whether two lists have a number in common.
pub open spec fn overlap(a: Seq<u64>, b: Seq<u64>) -> bool {
    exists|id: u64| #[trigger] a.contains(id) && b.contains(id)
}

/// Tests whether two lists have a number in common.
pub fn ids_overlap(a: &[u64], b: &[u64]) -> (found: bool)
    ensures
        found == overlap(a@, b@),
{
    let mut i: usize = 0;
    while i < a.len()
        invariant
            i <= a@.len(),
            forall|k: int| 0 <= k < i ==> !b@.contains(#[trigger] a@[k]),
        decreases a@.len() - i,
    {
        if has_id(b, a[i]) {
            assert(a@.contains(a@[i as int]));
            return true;
        }
        i += 1;
    }
    assert(!overlap(a@, b@)) by {
        if overlap(a@, b@) {
            let id = choose|id: u64| #[trigger] a@.contains(id) && b@.contains(id);
            let k = choose|k: int| 0 <= k < a@.len() && a@[k] == id;
            assert(!b@.contains(a@[k]));
        }
    }
    false
}

/// Whether a list holds the same numbers as another, in strictly ascending
/// order.
pub open spec fn sorts(sorted: Seq<u64>, ids: Seq<u64>) -> bool {
    ascends(sorted) && forall|id: u64| #[trigger] sorted.contains(id) <==> ids.contains(id)
}

pub proof fn lemma_ascends(ids: Seq<u64>, i: int, j: int)
    requires
        ascends(ids),
        0 <= i < j < ids.len(),
    ensures
        ids[i] < ids[j],
    decreases j - i,
{
    assert(ids[i] < ids[i + 1]);
    if i + 1 < j {
        lemma_ascends(ids, i + 1, j);
    }
}

/// A set of numbers has one list in strictly ascending order.
pub proof fn sorted_list_is_unique(a: Seq<u64>, b: Seq<u64>)
    requires
        ascends(a),
        ascends(b),
        forall|id: u64| #[trigger] a.contains(id) <==> b.contains(id),
    ensures
        a == b,
    decreases a.len(),
{
    if a.len() == 0 {
        if b.len() > 0 {
            assert(b.contains(b[0]));
            assert(a.contains(b[0]));
        }
        assert(a == b);
    } else {
        assert(a.contains(a.last()));
        assert(b.contains(a.last()));
        let j = choose|j: int| 0 <= j < b.len() && b[j] == a.last();
        assert(b.contains(b.last()));
        assert(a.contains(b.last()));
        let i = choose|i: int| 0 <= i < a.len() && a[i] == b.last();
        if i < a.len() - 1 {
            lemma_ascends(a, i, a.len() - 1);
        }
        if j < b.len() - 1 {
            lemma_ascends(b, j, b.len() - 1);
        }
        assert(a.last() == b.last());
        let (fa, fb) = (a.drop_last(), b.drop_last());
        assert forall|k: int| 0 <= k < fa.len() - 1 implies (#[trigger] fa[k]) < fa[k + 1] by {
            assert(a[k] < a[k + 1]);
        }
        assert forall|k: int| 0 <= k < fb.len() - 1 implies (#[trigger] fb[k]) < fb[k + 1] by {
            assert(b[k] < b[k + 1]);
        }
        assert forall|id: u64| #[trigger] fa.contains(id) <==> fb.contains(id) by {
            lemma_front(a, id);
            lemma_front(b, id);
        }
        sorted_list_is_unique(fa, fb);
        assert(a == fa.push(a.last()));
        assert(b == fb.push(b.last()));
    }
}

proof fn lemma_front(a: Seq<u64>, id: u64)
    requires
        ascends(a),
        a.len() > 0,
    ensures
        a.drop_last().contains(id) <==> a.contains(id) && id != a.last(),
{
    let f = a.drop_last();
    if f.contains(id) {
        let k = choose|k: int| 0 <= k < f.len() && f[k] == id;
        assert(a[k] == id);
        lemma_ascends(a, k, a.len() - 1);
    }
    if a.contains(id) && id != a.last() {
        let k = choose|k: int| 0 <= k < a.len() && a[k] == id;
        assert(f[k] == id);
    }
}

fn place_id(sorted: &mut Vec<u64>, id: u64)
    requires
        ascends(old(sorted)@),
    ensures
        ascends(final(sorted)@),
        forall|x: u64| #[trigger] final(sorted)@.contains(x) <==> old(sorted)@.contains(x) || x == id,
{
    let ghost before = sorted@;
    let mut at: usize = 0;
    while at < sorted.len() && sorted[at] < id
        invariant
            sorted@ == before,
            at <= before.len(),
            forall|k: int| 0 <= k < at ==> before[k] < id,
        decreases before.len() - at,
    {
        at += 1;
    }
    if at < sorted.len() && sorted[at] == id {
        assert(before.contains(id));
        return ;
    }
    sorted.insert(at, id);
    let ghost wider = sorted@;
    assert(wider == before.insert(at as int, id));
    assert forall|k: int| 0 <= k < wider.len() - 1 implies (#[trigger] wider[k]) < wider[k + 1] by {
        if k + 1 < at {
            assert(before[k] < before[k + 1]);
        } else if k > at {
            assert(before[k - 1] < before[k - 1 + 1]);
        }
    }
    assert forall|x: u64| #[trigger] wider.contains(x) <==> before.contains(x) || x == id by {
        if before.contains(x) {
            let k = choose|k: int| 0 <= k < before.len() && before[k] == x;
            assert(wider[if k < at {
                k
            } else {
                k + 1
            }] == x);
        }
        assert(wider[at as int] == id);
        if wider.contains(x) && x != id {
            let k = choose|k: int| 0 <= k < wider.len() && wider[k] == x;
            assert(before[if k < at {
                k
            } else {
                k - 1
            }] == x);
        }
    }
}

/// The numbers of a list in strictly ascending order, each once.
pub fn sorted_unique(ids: &[u64]) -> (sorted: Vec<u64>)
    ensures
        sorts(sorted@, ids@),
{
    let mut sorted: Vec<u64> = Vec::new();
    let mut i: usize = 0;
    while i < ids.len()
        invariant
            i <= ids@.len(),
            ascends(sorted@),
            forall|x: u64|
                #[trigger] sorted@.contains(x) <==> ids@.subrange(0, i as int).contains(x),
        decreases ids@.len() - i,
    {
        let ghost front = ids@.subrange(0, i as int);
        let ghost before = sorted@;
        place_id(&mut sorted, ids[i]);
        i += 1;
        let ghost wider = ids@.subrange(0, i as int);
        assert(wider == front.push(ids@[i - 1]));
        assert forall|x: u64| #[trigger] sorted@.contains(x) <==> wider.contains(x) by {
            assert(wider.contains(x) <==> front.contains(x) || x == ids@[i - 1]) by {
                if front.contains(x) {
                    let k = choose|k: int| 0 <= k < front.len() && front[k] == x;
                    assert(wider[k] == x);
                }
                assert(wider[i - 1] == ids@[i - 1]);
            }
            assert(before.contains(x) <==> front.contains(x));
        }
    }
    assert(ids@.subrange(0, i as int) == ids@);
    sorted
}

} // verus!
