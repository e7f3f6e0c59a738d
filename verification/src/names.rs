//! Tables of values by name.

use crate::bytes::{compare_bytes, lex_less, lex_total, lex_transitive, Order};
use vstd::prelude::*;
use vstd::string::*;
use vstd::utf8::*;

verus! {

/// Whether one name stands before another: by their UTF-8 bytes.
pub open spec fn name_before(a: Seq<char>, b: Seq<char>) -> bool {
    lex_less(encode_utf8(a), encode_utf8(b))
}

/// Whether the names of a list stand in strictly ascending order.
pub open spec fn names_ascend<T>(list: Seq<(Seq<char>, T)>) -> bool {
    forall|i: int, j: int|
        0 <= i < j < list.len() ==> name_before((#[trigger] list[i]).0, (#[trigger] list[j]).0)
}

/// Whether a list has a value for a name.
pub open spec fn has_name<T>(list: Seq<(Seq<char>, T)>, name: Seq<char>) -> bool {
    exists|i: int| 0 <= i < list.len() && (#[trigger] list[i]).0 == name
}

/// The value that a list has for a name.
pub open spec fn value_of<T>(list: Seq<(Seq<char>, T)>, name: Seq<char>) -> T {
    list[choose|i: int| 0 <= i < list.len() && (#[trigger] list[i]).0 == name].1
}

/// The table that a list spells out.
pub open spec fn table_of<T>(list: Seq<(Seq<char>, T)>) -> Map<Seq<char>, T> {
    Map::new(|name: Seq<char>| has_name(list, name), |name: Seq<char>| value_of(list, name))
}

/// The names of a list.
pub open spec fn names_of<T>(list: Seq<(Seq<char>, T)>) -> Seq<Seq<char>> {
    list.map_values(|entry: (Seq<char>, T)| entry.0)
}

/// A table of values by name, kept in the order of the names.
#[derive(Debug, PartialEq, Eq)]
pub struct NameMap<T> {
    entries: Vec<(String, T)>,
}

impl<T> View for NameMap<T> {
    type V = Map<Seq<char>, T>;

    closed spec fn view(&self) -> Map<Seq<char>, T> {
        table_of(self.list())
    }
}

pub proof fn lemma_value<T>(list: Seq<(Seq<char>, T)>, at: int)
    requires
        names_ascend(list),
        0 <= at < list.len(),
    ensures
        has_name(list, list[at].0),
        value_of(list, list[at].0) == list[at].1,
{
    let name = list[at].0;
    let i = choose|i: int| 0 <= i < list.len() && (#[trigger] list[i]).0 == name;
    lex_total(encode_utf8(name), encode_utf8(name));
    if i < at {
        assert(name_before(list[i].0, list[at].0));
    } else if at < i {
        assert(name_before(list[at].0, list[i].0));
    }
}

proof fn lemma_names_differ(a: Seq<char>, b: Seq<char>)
    requires
        name_before(a, b),
    ensures
        a != b,
        !name_before(b, a),
{
    lex_total(encode_utf8(a), encode_utf8(b));
}

/// A table has one list: two lists in strictly ascending order that spell out
/// the same table are the same list.
pub proof fn list_is_unique<T>(a: Seq<(Seq<char>, T)>, b: Seq<(Seq<char>, T)>)
    requires
        names_ascend(a),
        names_ascend(b),
        table_of(a) == table_of(b),
    ensures
        a == b,
    decreases a.len(),
{
    if a.len() == 0 {
        if b.len() > 0 {
            assert(table_of(b).dom().contains(b[0].0));
            assert(table_of(a).dom().contains(b[0].0));
        }
        assert(a == b);
    } else {
        lemma_value(a, a.len() - 1);
        assert(table_of(a).dom().contains(a.last().0));
        assert(table_of(b).dom().contains(a.last().0));
        assert(b.len() > 0);
        lemma_value(b, b.len() - 1);
        assert(table_of(b).dom().contains(b.last().0));
        assert(table_of(a).dom().contains(b.last().0));
        let i = choose|i: int| 0 <= i < a.len() && (#[trigger] a[i]).0 == b.last().0;
        let j = choose|j: int| 0 <= j < b.len() && (#[trigger] b[j]).0 == a.last().0;
        if i < a.len() - 1 && j < b.len() - 1 {
            assert(name_before(a[i].0, a[a.len() - 1].0));
            assert(name_before(b[j].0, b[b.len() - 1].0));
            lemma_names_differ(a[i].0, a.last().0);
        }
        assert(a.last().0 == b.last().0);
        assert(table_of(a)[a.last().0] == a.last().1);
        assert(table_of(b)[b.last().0] == b.last().1);
        assert(a.last() == b.last());
        let (fa, fb) = (a.drop_last(), b.drop_last());
        lemma_front_table(a);
        lemma_front_table(b);
        list_is_unique(fa, fb);
        assert(a == fa.push(a.last()));
        assert(b == fb.push(b.last()));
    }
}

// Without its last name, a list spells out the table without that name.
pub proof fn lemma_front_table<T>(a: Seq<(Seq<char>, T)>)
    requires
        names_ascend(a),
        a.len() > 0,
    ensures
        names_ascend(a.drop_last()),
        table_of(a.drop_last()) == table_of(a).remove(a.last().0),
{
    let f = a.drop_last();
    assert forall|i: int, j: int| 0 <= i < j < f.len() implies name_before(
        (#[trigger] f[i]).0,
        (#[trigger] f[j]).0,
    ) by {
        assert(f[i] == a[i] && f[j] == a[j]);
    }
    let m = table_of(a).remove(a.last().0);
    assert forall|n: Seq<char>| has_name(f, n) == m.dom().contains(n) by {
        if has_name(f, n) {
            let i = choose|i: int| 0 <= i < f.len() && (#[trigger] f[i]).0 == n;
            assert(a[i].0 == n);
            assert(name_before(a[i].0, a[a.len() - 1].0));
            lemma_names_differ(a[i].0, a.last().0);
        }
        if has_name(a, n) && n != a.last().0 {
            let i = choose|i: int| 0 <= i < a.len() && (#[trigger] a[i]).0 == n;
            assert(f[i].0 == n);
        }
    }
    assert forall|n: Seq<char>| m.dom().contains(n) implies value_of(f, n) == m[n] by {
        assert(has_name(f, n));
        let i = choose|i: int| 0 <= i < f.len() && (#[trigger] f[i]).0 == n;
        assert(f[i] == a[i]);
        lemma_value(f, i);
        lemma_value(a, i);
    }
    assert(table_of(f) =~= m);
}

// A list has as many names as the table that it spells out.
proof fn lemma_table_len<T>(list: Seq<(Seq<char>, T)>)
    requires
        names_ascend(list),
    ensures
        table_of(list).dom().finite(),
        table_of(list).dom().len() == list.len(),
    decreases list.len(),
{
    if list.len() == 0 {
        assert(table_of(list).dom() =~= Set::empty());
    } else {
        lemma_front_table(list);
        lemma_table_len(list.drop_last());
        lemma_value(list, list.len() - 1);
        let front = table_of(list.drop_last());
        assert(table_of(list).dom() =~= front.dom().insert(list.last().0));
    }
}

impl<T> NameMap<T> {
    /// The names with their values, in the order of the names.
    pub closed spec fn list(self) -> Seq<(Seq<char>, T)> {
        self.entries@.map_values(|entry: (String, T)| (entry.0@, entry.1))
    }

    #[verifier::type_invariant]
    spec fn in_order(self) -> bool {
        names_ascend(self.list())
    }

    pub fn new() -> (map: Self)
        ensures
            map@ == Map::<Seq<char>, T>::empty(),
            map.list() == Seq::<(Seq<char>, T)>::empty(),
    {
        let map = NameMap { entries: Vec::new() };
        assert(map@ =~= Map::<Seq<char>, T>::empty());
        map
    }

    /// The number of names. The list spells the table out, with the names in
    /// strictly ascending order.
    pub fn len(&self) -> (len: usize)
        ensures
            len == self.list().len(),
            self@ == table_of(self.list()),
            names_ascend(self.list()),
            self@.dom().finite(),
            len == self@.dom().len(),
    {
        proof {
            use_type_invariant(self);
            lemma_table_len(self.list());
        }
        self.entries.len()
    }

    pub fn name_at(&self, at: usize) -> (name: &str)
        requires
            at < self.list().len(),
        ensures
            name@ == self.list()[at as int].0,
    {
        self.entries[at].0.as_str()
    }

    pub fn value_at(&self, at: usize) -> (value: &T)
        requires
            at < self.list().len(),
        ensures
            *value == self.list()[at as int].1,
    {
        &self.entries[at].1
    }

    // The first place whose name does not stand before the given one.
    fn place(&self, name: &str) -> (place: (usize, bool))
        ensures
            place.0 <= self.list().len(),
            place.1 == has_name(self.list(), name@),
            place.1 ==> place.0 < self.list().len() && self.list()[place.0 as int].0 == name@,
            forall|i: int| 0 <= i < place.0 ==> name_before((#[trigger] self.list()[i]).0, name@),
            !place.1 ==> forall|i: int|
                place.0 <= i < self.list().len() ==> name_before(
                    name@,
                    (#[trigger] self.list()[i]).0,
                ),
    {
        proof {
            use_type_invariant(self);
        }
        let ghost list = self.list();
        let mut at: usize = 0;
        while at < self.entries.len()
            invariant
                list == self.list(),
                names_ascend(list),
                at <= list.len(),
                list.len() == self.entries@.len(),
                forall|i: int| 0 <= i < at ==> name_before((#[trigger] list[i]).0, name@),
            decreases self.entries@.len() - at,
        {
            let order = compare_bytes(self.entries[at].0.as_str().as_bytes(), name.as_bytes());
            assert(list[at as int].0 == self.entries@[at as int].0@);
            match order {
                Order::Less => {},
                Order::Equal => {
                    proof {
                        encode_utf8_decode_utf8(list[at as int].0);
                        encode_utf8_decode_utf8(name@);
                        assert(list[at as int].0 == name@);
                        lemma_value(list, at as int);
                    }
                    return (at, true);
                },
                Order::Greater => {
                    proof {
                        assert forall|i: int| at <= i < list.len() implies name_before(
                            name@,
                            (#[trigger] list[i]).0,
                        ) by {
                            if i > at {
                                assert(name_before(list[at as int].0, list[i].0));
                                lex_transitive(
                                    encode_utf8(name@),
                                    encode_utf8(list[at as int].0),
                                    encode_utf8(list[i].0),
                                );
                            }
                        }
                        assert(!has_name(list, name@)) by {
                            if has_name(list, name@) {
                                let i = choose|i: int|
                                    0 <= i < list.len() && (#[trigger] list[i]).0 == name@;
                                lex_total(encode_utf8(name@), encode_utf8(name@));
                            }
                        }
                    }
                    return (at, false);
                },
            }
            at += 1;
        }
        proof {
            assert(!has_name(list, name@)) by {
                if has_name(list, name@) {
                    let i = choose|i: int| 0 <= i < list.len() && (#[trigger] list[i]).0 == name@;
                    lex_total(encode_utf8(name@), encode_utf8(name@));
                }
            }
        }
        (at, false)
    }

    pub fn contains_key(&self, name: &str) -> (found: bool)
        ensures
            found == self@.dom().contains(name@),
    {
        self.place(name).1
    }

    pub fn get(&self, name: &str) -> (value: Option<&T>)
        ensures
            value is Some <==> self@.dom().contains(name@),
            value matches Some(v) ==> *v == self@[name@],
    {
        let place = self.place(name);
        if place.1 {
            proof {
                use_type_invariant(self);
                lemma_value(self.list(), place.0 as int);
            }
            Some(&self.entries[place.0].1)
        } else {
            None
        }
    }

    /// Gives a name a value, in place of the one that it had.
    pub fn insert(&mut self, name: String, value: T)
        ensures
            final(self)@ == old(self)@.insert(name@, value),
    {
        proof {
            use_type_invariant(&*self);
        }
        let ghost list = self.list();
        let ghost old_map = self@;
        let place = self.place(name.as_str());
        let ghost key = name@;
        let mut entries: Vec<(String, T)> = Vec::new();
        std::mem::swap(&mut entries, &mut self.entries);
        if place.1 {
            let old_entry = entries.remove(place.0);
        }
        entries.insert(place.0, (name, value));
        let ghost wider = entries@.map_values(|entry: (String, T)| (entry.0@, entry.1));
        proof {
            if place.1 {
                assert(wider =~= list.update(place.0 as int, (key, value)));
            } else {
                assert(wider =~= list.insert(place.0 as int, (key, value)));
            }
            assert forall|i: int, j: int| 0 <= i < j < wider.len() implies name_before(
                (#[trigger] wider[i]).0,
                (#[trigger] wider[j]).0,
            ) by {
                if place.1 {
                    assert(wider[i].0 == list[i].0 && wider[j].0 == list[j].0);
                } else if j < place.0 {
                    assert(wider[i] == list[i] && wider[j] == list[j]);
                } else if j == place.0 {
                    assert(wider[i] == list[i]);
                } else if i == place.0 {
                    assert(wider[j] == list[j - 1]);
                } else if i < place.0 {
                    assert(wider[i] == list[i] && wider[j] == list[j - 1]);
                    assert(i < j - 1);
                } else {
                    assert(wider[i] == list[i - 1] && wider[j] == list[j - 1]);
                }
            }
            let new_map = old_map.insert(key, value);
            assert(table_of(wider) =~= new_map) by {
                assert forall|n: Seq<char>| has_name(wider, n) == new_map.dom().contains(n) by {
                    if has_name(wider, n) {
                        let i = choose|i: int| 0 <= i < wider.len() && (#[trigger] wider[i]).0 == n;
                        if i != place.0 {
                            let k = if place.1 || i < place.0 {
                                i
                            } else {
                                i - 1
                            };
                            assert(wider[i] == list[k]);
                            assert(has_name(list, n));
                        }
                    }
                    if has_name(list, n) {
                        let k = choose|k: int| 0 <= k < list.len() && (#[trigger] list[k]).0 == n;
                        let i = if place.1 || k < place.0 {
                            k
                        } else {
                            k + 1
                        };
                        assert(wider[i].0 == n);
                    }
                    assert(wider[place.0 as int].0 == key);
                }
                assert forall|n: Seq<char>| new_map.dom().contains(n) implies value_of(wider, n)
                    == new_map[n] by {
                    if n == key {
                        assert(wider[place.0 as int].0 == n);
                        lemma_value(wider, place.0 as int);
                    } else {
                        let k = choose|k: int| 0 <= k < list.len() && (#[trigger] list[k]).0 == n;
                        let i = if place.1 || k < place.0 {
                            k
                        } else {
                            k + 1
                        };
                        assert(wider[i] == list[k]);
                        lemma_value(wider, i);
                        lemma_value(list, k);
                    }
                }
            }
        }
        self.entries = entries;
    }

    /// Takes a name out of the table, with the value that it had.
    pub fn remove(&mut self, name: &str) -> (value: Option<T>)
        ensures
            final(self)@ == old(self)@.remove(name@),
            value is Some <==> old(self)@.dom().contains(name@),
            value matches Some(v) ==> v == old(self)@[name@],
    {
        proof {
            use_type_invariant(&*self);
        }
        let ghost list = self.list();
        let ghost old_map = self@;
        let place = self.place(name);
        if !place.1 {
            assert(old_map.remove(name@) =~= old_map);
            return None;
        }
        let mut entries: Vec<(String, T)> = Vec::new();
        std::mem::swap(&mut entries, &mut self.entries);
        let entry = entries.remove(place.0);
        let ghost fewer = entries@.map_values(|entry: (String, T)| (entry.0@, entry.1));
        proof {
            assert(fewer =~= list.remove(place.0 as int));
            lemma_value(list, place.0 as int);
            assert forall|i: int, j: int| 0 <= i < j < fewer.len() implies name_before(
                (#[trigger] fewer[i]).0,
                (#[trigger] fewer[j]).0,
            ) by {
                let x = if i < place.0 {
                    i
                } else {
                    i + 1
                };
                let y = if j < place.0 {
                    j
                } else {
                    j + 1
                };
                assert(fewer[i] == list[x] && fewer[j] == list[y]);
            }
            let new_map = old_map.remove(name@);
            assert(table_of(fewer) =~= new_map) by {
                assert forall|n: Seq<char>| has_name(fewer, n) == new_map.dom().contains(n) by {
                    if has_name(fewer, n) {
                        let i = choose|i: int| 0 <= i < fewer.len() && (#[trigger] fewer[i]).0 == n;
                        let x = if i < place.0 {
                            i
                        } else {
                            i + 1
                        };
                        assert(fewer[i] == list[x]);
                        if x < place.0 {
                            lemma_names_differ(list[x].0, list[place.0 as int].0);
                        } else {
                            lemma_names_differ(list[place.0 as int].0, list[x].0);
                        }
                    }
                    if has_name(list, n) && n != name@ {
                        let x = choose|x: int| 0 <= x < list.len() && (#[trigger] list[x]).0 == n;
                        let i = if x < place.0 {
                            x
                        } else {
                            x - 1
                        };
                        assert(fewer[i] == list[x]);
                    }
                }
                assert forall|n: Seq<char>| new_map.dom().contains(n) implies value_of(fewer, n)
                    == new_map[n] by {
                    let x = choose|x: int| 0 <= x < list.len() && (#[trigger] list[x]).0 == n;
                    let i = if x < place.0 {
                        x
                    } else {
                        x - 1
                    };
                    assert(fewer[i] == list[x]);
                    lemma_value(fewer, i);
                    lemma_value(list, x);
                }
            }
        }
        self.entries = entries;
        Some(entry.1)
    }
}

impl<T: Clone> Clone for NameMap<T> {
    fn clone(&self) -> (copy: Self)
        ensures
            names_of(copy.list()) == names_of(self.list()),
            forall|i: int|
                0 <= i < self.list().len() ==> cloned(
                    (#[trigger] self.list()[i]).1,
                    copy.list()[i].1,
                ),
    {
        proof {
            use_type_invariant(self);
        }
        let mut entries: Vec<(String, T)> = Vec::new();
        let mut i: usize = 0;
        while i < self.entries.len()
            invariant
                i <= self.entries@.len(),
                entries@.len() == i,
                forall|k: int| 0 <= k < i ==> (#[trigger] entries@[k]).0@ == self.entries@[k].0@,
                forall|k: int|
                    0 <= k < i ==> cloned(self.entries@[k].1, (#[trigger] entries@[k]).1),
            decreases self.entries@.len() - i,
        {
            entries.push((self.entries[i].0.clone(), self.entries[i].1.clone()));
            i += 1;
        }
        proof {
            let list = entries@.map_values(|entry: (String, T)| (entry.0@, entry.1));
            assert forall|i: int, j: int| 0 <= i < j < list.len() implies name_before(
                (#[trigger] list[i]).0,
                (#[trigger] list[j]).0,
            ) by {
                assert(list[i].0 == self.list()[i].0 && list[j].0 == self.list()[j].0);
            }
        }
        let copy = NameMap { entries };
        assert(names_of(copy.list()) =~= names_of(self.list()));
        copy
    }
}

} // verus!
