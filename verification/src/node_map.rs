//! Tables of values by node number.

use vstd::prelude::*;

verus! {

/// Whether the numbers of a list stand in strictly ascending order.
pub open spec fn nodes_ascend<T>(list: Seq<(u64, T)>) -> bool {
    forall|i: int, j: int|
        0 <= i < j < list.len() ==> (#[trigger] list[i]).0 < (#[trigger] list[j]).0
}

/// Whether a list has a value for a number.
pub open spec fn has_node<T>(list: Seq<(u64, T)>, node: u64) -> bool {
    exists|i: int| 0 <= i < list.len() && (#[trigger] list[i]).0 == node
}

/// The place of a number in a list that has it.
pub open spec fn node_place<T>(list: Seq<(u64, T)>, node: u64) -> int {
    choose|i: int| 0 <= i < list.len() && (#[trigger] list[i]).0 == node
}

/// The value that a list has for a number, if any.
pub open spec fn node_value<T>(list: Seq<(u64, T)>, node: u64) -> Option<T> {
    if has_node(list, node) {
        Some(list[node_place(list, node)].1)
    } else {
        None
    }
}

pub proof fn lemma_node_at<T>(list: Seq<(u64, T)>, at: int)
    requires
        nodes_ascend(list),
        0 <= at < list.len(),
    ensures
        has_node(list, list[at].0),
        node_place(list, list[at].0) == at,
        node_value(list, list[at].0) == Some(list[at].1),
{
    let node = list[at].0;
    let i = node_place(list, node);
    assert(0 <= i < list.len() && list[i].0 == node);
    if i < at {
        assert(list[i].0 < list[at].0);
    } else if at < i {
        assert(list[at].0 < list[i].0);
    }
}

/// A table of values by node number, kept in the order of the numbers.
#[derive(Debug, PartialEq, Eq)]
pub struct NodeMap<T> {
    entries: Vec<(u64, T)>,
}

impl<T> View for NodeMap<T> {
    type V = Seq<(u64, T)>;

    closed spec fn view(&self) -> Seq<(u64, T)> {
        self.entries@
    }
}

impl<T> NodeMap<T> {
    #[verifier::type_invariant]
    spec fn in_order(self) -> bool {
        nodes_ascend(self.entries@)
    }

    pub fn new() -> (map: Self)
        ensures
            map@ == Seq::<(u64, T)>::empty(),
    {
        NodeMap { entries: Vec::new() }
    }

    /// The number of entries, whose numbers stand in strictly ascending order.
    pub fn len(&self) -> (len: usize)
        ensures
            len == self@.len(),
            nodes_ascend(self@),
    {
        proof {
            use_type_invariant(self);
        }
        self.entries.len()
    }

    pub fn at(&self, i: usize) -> (entry: &(u64, T))
        requires
            i < self@.len(),
        ensures
            *entry == self@[i as int],
    {
        &self.entries[i]
    }

    pub fn get(&self, node: u64) -> (value: Option<&T>)
        ensures
            match value {
                Some(v) => node_value(self@, node) == Some(*v),
                None => node_value(self@, node) is None,
            },
            nodes_ascend(self@),
    {
        proof {
            use_type_invariant(self);
        }
        let mut i: usize = 0;
        while i < self.entries.len()
            invariant
                nodes_ascend(self.entries@),
                i <= self.entries@.len(),
                forall|k: int| 0 <= k < i ==> (#[trigger] self.entries@[k]).0 != node,
            decreases self.entries@.len() - i,
        {
            if self.entries[i].0 == node {
                proof {
                    lemma_node_at(self.entries@, i as int);
                }
                return Some(&self.entries[i].1);
            }
            i += 1;
        }
        None
    }

    pub fn contains(&self, node: u64) -> (found: bool)
        ensures
            found == has_node(self@, node),
    {
        self.get(node).is_some()
    }

    /// Gives a number a value, in place of the one that it had.
    pub fn insert(&mut self, node: u64, value: T)
        ensures
            nodes_ascend(final(self)@),
            forall|n: u64|
                #[trigger] node_value(final(self)@, n) == if n == node {
                    Some(value)
                } else {
                    node_value(old(self)@, n)
                },
    {
        proof {
            use_type_invariant(&*self);
        }
        let ghost list = self.entries@;
        let mut at: usize = 0;
        while at < self.entries.len() && self.entries[at].0 < node
            invariant
                self.entries@ == list,
                at <= list.len(),
                forall|k: int| 0 <= k < at ==> (#[trigger] list[k]).0 < node,
            decreases list.len() - at,
        {
            at += 1;
        }
        let mut entries: Vec<(u64, T)> = Vec::new();
        std::mem::swap(&mut entries, &mut self.entries);
        let present = at < entries.len() && entries[at].0 == node;
        if present {
            let _old = entries.remove(at);
        }
        entries.insert(at, (node, value));
        proof {
            let wider = entries@;
            if present {
                assert(wider =~= list.update(at as int, (node, value)));
            } else {
                assert(wider =~= list.insert(at as int, (node, value)));
            }
            assert forall|i: int, j: int| 0 <= i < j < wider.len() implies (#[trigger] wider[i]).0
                < (#[trigger] wider[j]).0 by {
                if present {
                    assert(wider[i].0 == list[i].0 && wider[j].0 == list[j].0);
                } else {
                    let x = if i < at {
                        i
                    } else {
                        i - 1
                    };
                    let y = if j < at {
                        j
                    } else {
                        j - 1
                    };
                    if i != at {
                        assert(wider[i] == list[x]);
                    }
                    if j != at {
                        assert(wider[j] == list[y]);
                    }
                    if i == at {
                        assert(list[at as int].0 > node);
                        if y > at {
                            assert(list[at as int].0 < list[y].0);
                        }
                    }
                }
            }
            assert forall|n: u64| #[trigger] node_value(wider, n) == if n == node {
                Some(value)
            } else {
                node_value(list, n)
            } by {
                lemma_node_at(wider, at as int);
                if n != node {
                    if has_node(list, n) {
                        let k = node_place(list, n);
                        let i = if present || k < at {
                            k
                        } else {
                            k + 1
                        };
                        assert(wider[i] == list[k]);
                        lemma_node_at(wider, i);
                    } else if has_node(wider, n) {
                        let i = node_place(wider, n);
                        let k = if present || i < at {
                            i
                        } else {
                            i - 1
                        };
                        assert(wider[i] == list[k]);
                        assert(has_node(list, n));
                    }
                }
            }
        }
        self.entries = entries;
    }
}

} // verus!
