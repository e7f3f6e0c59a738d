//! Stable sorting by an order that the items bring along.

use vstd::prelude::*;

verus! {

/// Items that an order ranks: of two items at most one stands before the
/// other, and where `b` does not stand before `a` nor `c` before `b`, `c` does
/// not stand before `a`.
pub trait Ranked: Sized {
    /// Whether `self` must stand before `other`.
    spec fn before(self, other: Self) -> bool;

    proof fn never_both_ways(a: Self, b: Self)
        requires
            a.before(b),
        ensures
            !b.before(a),
    ;

    proof fn order_carries_over(a: Self, b: Self, c: Self)
        requires
            !b.before(a),
            !c.before(b),
        ensures
            !c.before(a),
    ;
}

/// Values whose views are ranked.
pub trait SortItem: View where Self::V: Ranked {
    /// Tests the order.
    fn is_before(&self, other: &Self) -> (before: bool)
        ensures
            before == self@.before(other@),
    ;
}

/// The views of a sequence of values.
pub open spec fn views<T: View>(items: Seq<T>) -> Seq<T::V> {
    items.map_values(|item: T| item@)
}

/// The place of an item behind all those that it need not precede, counted
/// from the end of a sorted sequence.
pub open spec fn slot<T: Ranked>(sorted: Seq<T>, item: T) -> int
    decreases sorted.len(),
{
    if sorted.len() > 0 && item.before(sorted.last()) {
        slot(sorted.drop_last(), item)
    } else {
        sorted.len() as int
    }
}

/// A sorted sequence with one more item, behind those that rank with it.
pub open spec fn with_item<T: Ranked>(sorted: Seq<T>, item: T) -> Seq<T> {
    sorted.insert(slot(sorted, item), item)
}

/// The items of a sequence in order; items that rank together keep their
/// order.
pub open spec fn in_order<T: Ranked>(items: Seq<T>) -> Seq<T>
    decreases items.len(),
{
    if items.len() == 0 {
        items
    } else {
        with_item(in_order(items.drop_last()), items.last())
    }
}

/// Whether no item stands behind one that it must precede.
pub open spec fn is_sorted<T: Ranked>(items: Seq<T>) -> bool {
    forall|i: int, j: int|
        0 <= i < j < items.len() ==> !(#[trigger] items[j]).before(#[trigger] items[i])
}

proof fn lemma_slot<T: Ranked>(sorted: Seq<T>, item: T)
    requires
        is_sorted(sorted),
    ensures
        0 <= slot(sorted, item) <= sorted.len(),
        forall|i: int| slot(sorted, item) <= i < sorted.len() ==> item.before(#[trigger] sorted[i]),
        forall|i: int|
            0 <= i < slot(sorted, item) ==> !item.before(#[trigger] sorted[i]),
    decreases sorted.len(),
{
    if sorted.len() > 0 && item.before(sorted.last()) {
        let front = sorted.drop_last();
        assert forall|i: int, j: int| 0 <= i < j < front.len() implies !(
        #[trigger] front[j]).before(#[trigger] front[i]) by {
            assert(front[i] == sorted[i] && front[j] == sorted[j]);
        }
        lemma_slot(front, item);
        assert forall|i: int| slot(sorted, item) <= i < sorted.len() implies item.before(
            #[trigger] sorted[i],
        ) by {
            if i < front.len() {
                assert(front[i] == sorted[i]);
            }
        }
        assert forall|i: int| 0 <= i < slot(sorted, item) implies !item.before(
            #[trigger] sorted[i],
        ) by {
            assert(front[i] == sorted[i]);
        }
    } else {
        assert forall|i: int| 0 <= i < sorted.len() implies !item.before(#[trigger] sorted[i]) by {
            if i < sorted.len() - 1 {
                assert(!sorted[sorted.len() - 1].before(sorted[i]));
                T::order_carries_over(sorted[i], sorted.last(), item);
            }
        }
    }
}

proof fn lemma_with_item<T: Ranked>(sorted: Seq<T>, item: T)
    requires
        is_sorted(sorted),
    ensures
        is_sorted(with_item(sorted, item)),
        with_item(sorted, item).len() == sorted.len() + 1,
        with_item(sorted, item).to_multiset() == sorted.to_multiset().insert(item),
{
    lemma_slot(sorted, item);
    let at = slot(sorted, item);
    let wider = with_item(sorted, item);
    assert forall|i: int, j: int| 0 <= i < j < wider.len() implies !(#[trigger] wider[j]).before(
        #[trigger] wider[i],
    ) by {
        if j < at {
            assert(wider[i] == sorted[i] && wider[j] == sorted[j]);
        } else if j == at {
            assert(wider[i] == sorted[i] && wider[j] == item);
        } else if i == at {
            assert(wider[i] == item && wider[j] == sorted[j - 1]);
            T::never_both_ways(item, sorted[j - 1]);
        } else if i < at {
            assert(wider[i] == sorted[i] && wider[j] == sorted[j - 1]);
        } else {
            assert(wider[i] == sorted[i - 1] && wider[j] == sorted[j - 1]);
        }
    }
    sorted.to_multiset_ensures();
    assert(sorted.insert(at, item).to_multiset() == sorted.to_multiset().insert(item)) by {
        vstd::seq_lib::to_multiset_insert(sorted, at, item);
    }
}

/// Sorting keeps the items, each as often as it occurs, and puts them in
/// order.
pub proof fn sorting_permutes<T: Ranked>(items: Seq<T>)
    ensures
        is_sorted(in_order(items)),
        in_order(items).len() == items.len(),
        in_order(items).to_multiset() == items.to_multiset(),
    decreases items.len(),
{
    if items.len() > 0 {
        let front = items.drop_last();
        sorting_permutes(front);
        lemma_with_item(in_order(front), items.last());
        front.to_multiset_ensures();
        assert(items == front.push(items.last()));
    }
}

/// A sequence that is in order is left as it is.
pub proof fn sorting_keeps_sorted<T: Ranked>(items: Seq<T>)
    requires
        is_sorted(items),
    ensures
        in_order(items) == items,
    decreases items.len(),
{
    if items.len() > 0 {
        let front = items.drop_last();
        assert forall|i: int, j: int| 0 <= i < j < front.len() implies !(
        #[trigger] front[j]).before(#[trigger] front[i]) by {
            assert(front[i] == items[i] && front[j] == items[j]);
        }
        sorting_keeps_sorted(front);
        if front.len() > 0 {
            assert(!items[items.len() - 1].before(items[items.len() - 2]));
            assert(front.last() == items[items.len() - 2]);
        }
        assert(front.insert(front.len() as int, items.last()) == items);
    }
}

/// Whether those of the items that rank together are the same.
pub open spec fn ranks_tell_apart<T: Ranked>(items: Seq<T>) -> bool {
    forall|a: T, b: T|
        items.contains(a) && items.contains(b) && !(#[trigger] a.before(b)) && !b.before(a) ==> a
            == b
}

// Two sorted sequences of the same items are the same sequence.
proof fn lemma_sorted_unique<T: Ranked>(a: Seq<T>, b: Seq<T>)
    requires
        is_sorted(a),
        is_sorted(b),
        a.to_multiset() == b.to_multiset(),
        ranks_tell_apart(a),
    ensures
        a == b,
    decreases a.len(),
{
    a.to_multiset_ensures();
    b.to_multiset_ensures();
    assert(a.len() == b.len());
    if a.len() == 0 {
        assert(a == b);
    } else {
        assert(a.contains(a.last()));
        assert(b.contains(b.last()));
        assert(a.to_multiset().count(a.last()) > 0);
        assert(b.to_multiset().count(b.last()) > 0);
        assert(b.contains(a.last()));
        assert(a.contains(b.last()));
        let j = choose|j: int| 0 <= j < b.len() && b[j] == a.last();
        let i = choose|i: int| 0 <= i < a.len() && a[i] == b.last();
        if i < a.len() - 1 && j < b.len() - 1 {
            assert(!a[a.len() - 1].before(a[i]));
            assert(!b[b.len() - 1].before(b[j]));
        }
        assert(a.last() == b.last());
        let (fa, fb) = (a.drop_last(), b.drop_last());
        assert(a == fa.push(a.last()));
        assert(b == fb.push(b.last()));
        fa.to_multiset_ensures();
        fb.to_multiset_ensures();
        assert(fa.to_multiset() =~= a.to_multiset().remove(a.last()));
        assert(fb.to_multiset() =~= b.to_multiset().remove(b.last()));
        assert forall|x: int, y: int| 0 <= x < y < fa.len() implies !(#[trigger] fa[y]).before(
            #[trigger] fa[x],
        ) by {
            assert(fa[x] == a[x] && fa[y] == a[y]);
        }
        assert forall|x: int, y: int| 0 <= x < y < fb.len() implies !(#[trigger] fb[y]).before(
            #[trigger] fb[x],
        ) by {
            assert(fb[x] == b[x] && fb[y] == b[y]);
        }
        assert forall|x: T| fa.contains(x) implies a.contains(x) by {
            let k = choose|k: int| 0 <= k < fa.len() && fa[k] == x;
            assert(a[k] == x);
        }
        lemma_sorted_unique(fa, fb);
    }
}

/// Where items that rank together are the same, the order in which the items
/// were given does not matter.
pub proof fn sorting_forgets_order<T: Ranked>(a: Seq<T>, b: Seq<T>)
    requires
        a.to_multiset() == b.to_multiset(),
        ranks_tell_apart(a),
    ensures
        in_order(a) == in_order(b),
{
    sorting_permutes(a);
    sorting_permutes(b);
    a.to_multiset_ensures();
    in_order(a).to_multiset_ensures();
    assert forall|x: T| in_order(a).contains(x) implies a.contains(x) by {
        assert(a.to_multiset().count(x) > 0);
    }
    lemma_sorted_unique(in_order(a), in_order(b));
}

/// Puts an item into a sorted vector, behind those that rank with it.
pub fn insert_sorted<T: SortItem>(sorted: &mut Vec<T>, item: T) where T::V: Ranked
    requires
        is_sorted(views(old(sorted)@)),
    ensures
        views(final(sorted)@) == with_item(views(old(sorted)@), item@),
        is_sorted(views(final(sorted)@)),
{
    let mut at: usize = sorted.len();
    let ghost all = views(sorted@);
    assert(all.subrange(0, at as int) == all);
    while at > 0 && item.is_before(&sorted[at - 1])
        invariant
            all == views(sorted@),
            at <= sorted@.len(),
            slot(all.subrange(0, at as int), item@) == slot(all, item@),
        decreases at,
    {
        assert(all.subrange(0, at as int).drop_last() == all.subrange(0, at - 1));
        at -= 1;
    }
    proof {
        assert(slot(all, item@) == at);
        lemma_with_item(all, item@);
    }
    sorted.insert(at, item);
    assert(views(sorted@) == all.insert(at as int, item@));
}

/// Sorts a vector; items that rank together keep their order.
pub fn sort<T: SortItem>(items: Vec<T>) -> (sorted: Vec<T>) where T::V: Ranked
    ensures
        views(sorted@) == in_order(views(items@)),
        is_sorted(views(sorted@)),
{
    let ghost all = items@;
    let mut rest = items;
    let mut moved: Vec<T> = Vec::new();
    // The items are moved over from the end, which turns them round.
    while rest.len() > 0
        invariant
            rest@ + moved@.reverse() == all,
        decreases rest@.len(),
    {
        let ghost (r, m) = (rest@, moved@);
        match rest.pop() {
            Some(item) => {
                moved.push(item);
                assert(moved@.reverse() == seq![item] + m.reverse());
                assert(r == rest@.push(item));
                assert(rest@ + moved@.reverse() == r + m.reverse());
            },
            None => {},
        }
    }
    assert(moved@.reverse() == all);
    let mut sorted: Vec<T> = Vec::new();
    assert(views(all.subrange(0, 0)) == Seq::<T::V>::empty());
    assert(views(sorted@) == Seq::<T::V>::empty());
    while moved.len() > 0
        invariant
            moved@.len() <= all.len(),
            views(sorted@) == in_order(views(all.subrange(0, all.len() - moved@.len()))),
            is_sorted(views(sorted@)),
            moved@.reverse() == all.subrange(all.len() - moved@.len(), all.len() as int),
        decreases moved@.len(),
    {
        let ghost m = moved@;
        let ghost done = all.len() - moved@.len();
        match moved.pop() {
            Some(item) => {
                assert(item == m.reverse()[0]);
                assert(item == all[done]);
                assert(moved@.reverse() == m.reverse().drop_first());
                let ghost wider = views(all.subrange(0, done + 1));
                assert(wider.drop_last() == views(all.subrange(0, done)));
                assert(wider.last() == item@);
                assert(m.reverse().drop_first() == all.subrange(done + 1, all.len() as int));
                insert_sorted(&mut sorted, item);
            },
            None => {},
        }
    }
    assert(all.subrange(0, all.len() as int) == all);
    sorted
}

} // verus!
