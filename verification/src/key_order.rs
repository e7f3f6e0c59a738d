//! The laws of the ordered keys: byte order is value order, descending keys
//! turn it round, composite keys go by their first difference, and the end of
//! a prefix range bounds it closely.

use crate::bytes::{
    be, be_keeps_order, be_reads_back, lemma_lex_blocks, lemma_lex_prefix, lemma_span,
    lex_irreflexive, lex_less, lex_total, starts_with,
};
use crate::datum::{float_place, in_bounds, is_canonical, DatumView};
use crate::key::{
    ascending_key, closed, complement, composite_key, is_variable, joined_key, key_payload, key_tag,
    next_prefix, value_key,
};
use vstd::prelude::*;

verus! {

/// Whether two byte strings differ at a place that both have.
pub open spec fn diverge(a: Seq<u8>, b: Seq<u8>) -> bool
    decreases a.len(),
{
    a.len() > 0 && b.len() > 0 && (a[0] != b[0] || diverge(a.drop_first(), b.drop_first()))
}

proof fn lemma_diverge_decides(a: Seq<u8>, b: Seq<u8>, x: Seq<u8>, y: Seq<u8>)
    requires
        diverge(a, b),
    ensures
        lex_less(a + x, b + y) == lex_less(a, b),
        diverge(a + x, b + y),
        a != b,
        lex_less(a, b) == !lex_less(b, a),
    decreases a.len(),
{
    assert((a + x).drop_first() == a.drop_first() + x);
    assert((b + y).drop_first() == b.drop_first() + y);
    if a[0] == b[0] {
        lemma_diverge_decides(a.drop_first(), b.drop_first(), x, y);
    }
}

proof fn lemma_complement_turns(a: Seq<u8>, b: Seq<u8>)
    requires
        diverge(a, b),
    ensures
        diverge(complement(a), complement(b)),
        lex_less(complement(a), complement(b)) == lex_less(b, a),
    decreases a.len(),
{
    assert(complement(a).drop_first() == complement(a.drop_first()));
    assert(complement(b).drop_first() == complement(b.drop_first()));
    if a[0] == b[0] {
        lemma_complement_turns(a.drop_first(), b.drop_first());
    }
}

proof fn lemma_same_length_diverge(a: Seq<u8>, b: Seq<u8>)
    requires
        a.len() == b.len(),
        a != b,
    ensures
        diverge(a, b),
    decreases a.len(),
{
    if a.len() == 0 {
        assert(a == b);
    } else if a[0] == b[0] {
        if a.drop_first() == b.drop_first() {
            assert(a == seq![a[0]] + a.drop_first());
            assert(b == seq![b[0]] + b.drop_first());
        }
        lemma_same_length_diverge(a.drop_first(), b.drop_first());
    }
}

proof fn lemma_prefix_diverge(p: Seq<u8>, a: Seq<u8>, b: Seq<u8>)
    ensures
        diverge(p + a, p + b) == diverge(a, b),
    decreases p.len(),
{
    if p.len() == 0 {
        assert(p + a == a);
        assert(p + b == b);
    } else {
        assert((p + a).drop_first() == p.drop_first() + a);
        assert((p + b).drop_first() == p.drop_first() + b);
        lemma_prefix_diverge(p.drop_first(), a, b);
    }
}

/// Closed byte strings stand in the order of what they close, and none begins
/// another.
pub proof fn closed_keeps_order(p: Seq<u8>, q: Seq<u8>)
    requires
        p != q,
    ensures
        diverge(closed(p), closed(q)),
        lex_less(closed(p), closed(q)) == lex_less(p, q),
    decreases p.len(),
{
    if p.len() == 0 && q.len() == 0 {
        assert(p == q);
    } else if p.len() == 0 {
        lemma_closed_empty(q);
    } else if q.len() == 0 {
        lemma_closed_empty(p);
    } else {
        let hp = if p[0] == 0 {
            seq![0u8, 255u8]
        } else {
            seq![p[0]]
        };
        let hq = if q[0] == 0 {
            seq![0u8, 255u8]
        } else {
            seq![q[0]]
        };
        assert(closed(p) == hp + closed(p.drop_first()));
        assert(closed(q) == hq + closed(q.drop_first()));
        if p[0] == q[0] {
            if p.drop_first() == q.drop_first() {
                assert(p == seq![p[0]] + p.drop_first());
                assert(q == seq![q[0]] + q.drop_first());
            }
            closed_keeps_order(p.drop_first(), q.drop_first());
            lemma_prefix_diverge(hp, closed(p.drop_first()), closed(q.drop_first()));
            lemma_lex_prefix(hp, closed(p.drop_first()), closed(q.drop_first()));
        } else {
            assert(closed(p)[0] == p[0]);
            assert(closed(q)[0] == q[0]);
        }
    }
}

proof fn lemma_closed_empty(q: Seq<u8>)
    requires
        q.len() > 0,
    ensures
        diverge(closed(Seq::empty()), closed(q)),
        diverge(closed(q), closed(Seq::empty())),
        lex_less(closed(Seq::empty()), closed(q)),
        !lex_less(closed(q), closed(Seq::empty())),
{
    let e = closed(Seq::<u8>::empty());
    let c = closed(q);
    assert(e == seq![0u8, 0u8]);
    let rest = closed(q.drop_first());
    if q[0] == 0 {
        assert(c == seq![0u8, 255u8] + rest);
        assert(c.drop_first()[0] == 255);
        assert(e.drop_first()[0] == 0);
        reveal_with_fuel(diverge, 3);
        reveal_with_fuel(lex_less, 3);
    } else {
        assert(c == seq![q[0]] + rest);
        assert(c[0] == q[0]);
    }
}

/// Two values that keys can tell apart by value: bounds are kept, and of two
/// JSON texts both are canonical.
pub open spec fn comparable(a: DatumView, b: DatumView) -> bool {
    in_bounds(a) && in_bounds(b) && (a is Jsonb && b is Jsonb ==> is_canonical(a) && is_canonical(
        b,
    ))
}

// The payloads of two values of one tag.
proof fn lemma_payload_order(a: DatumView, b: DatumView)
    requires
        comparable(a, b),
        key_tag(a) == key_tag(b),
        key_payload(a) is Ok,
        key_payload(b) is Ok,
    ensures
        lex_less(key_payload(a)->Ok_0, key_payload(b)->Ok_0) <==> a.before(b),
        key_payload(a)->Ok_0 == key_payload(b)->Ok_0 <==> a.same(b),
        !is_variable(a) ==> key_payload(a)->Ok_0.len() == key_payload(b)->Ok_0.len(),
{
    lemma_span();
    let (p, q) = (key_payload(a)->Ok_0, key_payload(b)->Ok_0);
    match a {
        DatumView::Null => {
            lex_irreflexive(p);
            lex_irreflexive(a.bytes_key());
        },
        DatumView::Boolean(v) => {
            reveal_with_fuel(lex_less, 2);
            lex_irreflexive(a.bytes_key());
        },
        DatumView::Float64(x) => {
            let y = b->Float64_0;
            let (m, n) = (crate::key::float_key_number(x), crate::key::float_key_number(y));
            lemma_float_key(x, y);
            be_keeps_order(m, n, 8);
            be_reads_back(m, 8);
            be_reads_back(n, 8);
            lex_irreflexive(a.bytes_key());
        },
        DatumView::Date(v) => {
            let w = b->Date_0;
            be_keeps_order((v + 0x8000_0000) as nat, (w + 0x8000_0000) as nat, 4);
            be_reads_back((v + 0x8000_0000) as nat, 4);
            be_reads_back((w + 0x8000_0000) as nat, 4);
            lex_irreflexive(a.bytes_key());
        },
        DatumView::Uuid(_) => {},
        DatumView::Text(_) => {},
        DatumView::Bytes(_) => {},
        DatumView::Jsonb(_) => {},
        _ => {
            let (m, n) = (
                (a.number_key() + 0x8000_0000_0000_0000) as nat,
                (b.number_key() + 0x8000_0000_0000_0000) as nat,
            );
            assert(p == be(m, 8));
            assert(q == be(n, 8));
            be_keeps_order(m, n, 8);
            be_reads_back(m, 8);
            be_reads_back(n, 8);
            lex_irreflexive(a.bytes_key());
        },
    }
}

proof fn lemma_float_key(x: nat, y: nat)
    requires
        x < 0x1_0000_0000_0000_0000,
        y < 0x1_0000_0000_0000_0000,
    ensures
        crate::key::float_key_number(x) < 0x1_0000_0000_0000_0000,
        crate::key::float_key_number(x) < crate::key::float_key_number(y) <==> float_place(x)
            < float_place(y),
        crate::key::float_key_number(x) == crate::key::float_key_number(y) <==> float_place(x)
            == float_place(y),
{
}

// The ascending keys of two values: equal for equal values, and otherwise
// ordered as the values are, at a place that both have.
proof fn lemma_ascending(a: DatumView, b: DatumView)
    requires
        comparable(a, b),
        key_payload(a) is Ok,
        key_payload(b) is Ok,
    ensures
        ({
            let (p, q) = (
                ascending_key(a, key_payload(a)->Ok_0),
                ascending_key(b, key_payload(b)->Ok_0),
            );
            &&& lex_less(p, q) <==> a.before(b)
            &&& p == q <==> a.same(b)
            &&& p != q ==> diverge(p, q)
        }),
{
    let (x, y) = (key_payload(a)->Ok_0, key_payload(b)->Ok_0);
    let (p, q) = (ascending_key(a, x), ascending_key(b, y));
    assert(p[0] == key_tag(a));
    assert(q[0] == key_tag(b));
    if key_tag(a) == key_tag(b) {
        lemma_payload_order(a, b);
        let tag = seq![key_tag(a)];
        if is_variable(a) {
            assert(p == tag + closed(x));
            assert(q == tag + closed(y));
            lemma_lex_prefix(tag, closed(x), closed(y));
            lemma_prefix_diverge(tag, closed(x), closed(y));
            if x != y {
                closed_keeps_order(x, y);
                lemma_diverge_decides(p, q, Seq::empty(), Seq::empty());
            } else {
                lex_irreflexive(p);
                lex_irreflexive(x);
            }
        } else {
            assert(p == tag + x);
            assert(q == tag + y);
            lemma_lex_prefix(tag, x, y);
            lemma_prefix_diverge(tag, x, y);
            if x != y {
                lemma_same_length_diverge(x, y);
                lemma_diverge_decides(p, q, Seq::empty(), Seq::empty());
            } else {
                lex_irreflexive(p);
            }
        }
    }
}

/// The keys of two values stand in the order of the values: ascending keys as
/// the values, descending keys the other way round; and values that are equal
/// share their key.
pub proof fn keys_stand_as_values(a: DatumView, b: DatumView, descending: bool)
    requires
        comparable(a, b),
        value_key(a, descending) is Ok,
        value_key(b, descending) is Ok,
    ensures
        ({
            let (p, q) = (value_key(a, descending)->Ok_0, value_key(b, descending)->Ok_0);
            &&& lex_less(p, q) <==> if descending {
                b.before(a)
            } else {
                a.before(b)
            }
            &&& p == q <==> a.same(b)
            &&& p != q ==> diverge(p, q)
        }),
{
    lemma_ascending(a, b);
    let (p, q) = (ascending_key(a, key_payload(a)->Ok_0), ascending_key(b, key_payload(b)->Ok_0));
    lex_total(p, q);
    lex_total(q, p);
    crate::datum::datum_order_is_total(a, b);
    if p != q {
        lemma_complement_turns(p, q);
        lemma_diverge_decides(complement(p), complement(q), Seq::empty(), Seq::empty());
    } else {
        lex_irreflexive(complement(p));
    }
}

/// Whether a list of values stands before another of the same length, by the
/// first place where they are not equal, each place in its own direction.
pub open spec fn list_before(a: Seq<DatumView>, b: Seq<DatumView>, descending: Seq<bool>) -> bool
    decreases a.len(),
{
    if a.len() == 0 {
        false
    } else if list_same(a.drop_last(), b.drop_last()) {
        if descending[a.len() - 1] {
            b.last().before(a.last())
        } else {
            a.last().before(b.last())
        }
    } else {
        list_before(a.drop_last(), b.drop_last(), descending)
    }
}

/// Whether two lists of values are equal place by place.
pub open spec fn list_same(a: Seq<DatumView>, b: Seq<DatumView>) -> bool {
    forall|i: int| 0 <= i < a.len() ==> (#[trigger] a[i]).same(b[i])
}

proof fn lemma_joined(a: Seq<DatumView>, b: Seq<DatumView>, descending: Seq<bool>)
    requires
        a.len() == b.len(),
        a.len() <= descending.len(),
        forall|i: int| 0 <= i < a.len() ==> comparable(#[trigger] a[i], b[i]),
        joined_key(a, descending) is Ok,
        joined_key(b, descending) is Ok,
    ensures
        ({
            let (p, q) = (joined_key(a, descending)->Ok_0, joined_key(b, descending)->Ok_0);
            &&& lex_less(p, q) <==> list_before(a, b, descending)
            &&& p == q <==> list_same(a, b)
            &&& p != q ==> diverge(p, q)
        }),
    decreases a.len(),
{
    let (p, q) = (joined_key(a, descending)->Ok_0, joined_key(b, descending)->Ok_0);
    if a.len() == 0 {
        lex_irreflexive(p);
    } else {
        let (fa, fb) = (a.drop_last(), b.drop_last());
        let (la, lb) = (a.last(), b.last());
        assert forall|i: int| 0 <= i < fa.len() implies comparable(#[trigger] fa[i], fb[i]) by {
            assert(fa[i] == a[i] && fb[i] == b[i]);
        }
        assert(comparable(a[a.len() - 1], b[b.len() - 1]));
        lemma_joined(fa, fb, descending);
        let d = descending[a.len() - 1];
        keys_stand_as_values(la, lb, d);
        let (x, y) = (joined_key(fa, descending)->Ok_0, joined_key(fb, descending)->Ok_0);
        let (u, v) = (value_key(la, d)->Ok_0, value_key(lb, d)->Ok_0);
        assert(p == x + u && q == y + v);
        assert(list_same(a, b) <==> list_same(fa, fb) && la.same(lb)) by {
            if list_same(a, b) {
                assert forall|i: int| 0 <= i < fa.len() implies (#[trigger] fa[i]).same(fb[i]) by {
                    assert(a[i].same(b[i]));
                }
                assert(a[a.len() - 1].same(b[a.len() - 1]));
            }
            if list_same(fa, fb) && la.same(lb) {
                assert forall|i: int| 0 <= i < a.len() implies (#[trigger] a[i]).same(b[i]) by {
                    if i < fa.len() {
                        assert(fa[i].same(fb[i]));
                    }
                }
            }
        }
        if x == y {
            lemma_lex_prefix(x, u, v);
            lemma_prefix_diverge(x, u, v);
            if u == v {
                assert(p == q);
            } else {
                lemma_diverge_decides(p, q, Seq::empty(), Seq::empty());
            }
        } else {
            lemma_diverge_decides(x, y, u, v);
            lemma_diverge_decides(p, q, Seq::empty(), Seq::empty());
        }
    }
}

/// Composite keys stand in the order of their lists of values: by the first
/// place where the lists are not equal, in the direction of that place.
pub proof fn composite_keys_stand_as_lists(
    a: Seq<DatumView>,
    b: Seq<DatumView>,
    descending: Seq<bool>,
)
    requires
        composite_key(a, descending) is Ok,
        composite_key(b, descending) is Ok,
        forall|i: int| 0 <= i < a.len() ==> comparable(#[trigger] a[i], b[i]),
    ensures
        lex_less(composite_key(a, descending)->Ok_0, composite_key(b, descending)->Ok_0)
            <==> list_before(a, b, descending),
        composite_key(a, descending)->Ok_0 == composite_key(b, descending)->Ok_0 <==> list_same(
            a,
            b,
        ),
{
    lemma_joined(a, b, descending);
}

/// Everything that begins with a prefix stands before the end of its range,
/// and every byte string before that end either stands before the prefix or
/// begins with it.
pub proof fn successor_ends_prefix_range(prefix: Seq<u8>, key: Seq<u8>)
    requires
        next_prefix(prefix) is Some,
    ensures
        lex_less(key, next_prefix(prefix)->0) <==> (lex_less(key, prefix) || starts_with(
            key,
            prefix,
        )),
    decreases prefix.len(),
{
    let end = next_prefix(prefix)->0;
    let front = prefix.drop_last();
    let last = prefix.last();
    let n = front.len() as int;
    assert(prefix == front + seq![last]);
    if key.len() <= n {
        // The key is no longer than the front.
        if last == 255 {
            successor_ends_prefix_range(front, key);
            lemma_short(key, front, last);
        } else {
            lemma_short(key, front, last);
            lemma_short(key, front, (last + 1) as u8);
            assert(end == front + seq![(last + 1) as u8]);
        }
    } else {
        let head = key.subrange(0, n);
        let tail = key.subrange(n, key.len() as int);
        assert(key == head + tail);
        lemma_lex_blocks(head, front, tail, seq![last]);
        assert(starts_with(key, prefix) <==> head == front && tail[0] == last) by {
            if starts_with(key, prefix) {
                assert(key.subrange(0, n + 1) == prefix);
                assert(head == prefix.subrange(0, n));
                assert(prefix.subrange(0, n) == front);
            }
            if head == front && tail[0] == last {
                assert(key.subrange(0, n + 1) == head + seq![last]);
            }
        }
        assert(lex_less(tail, seq![last]) <==> tail[0] < last) by {
            reveal_with_fuel(lex_less, 2);
        }
        if last == 255 {
            successor_ends_prefix_range(front, key);
            assert(starts_with(key, front) <==> head == front);
            assert(lex_less(key, front) == lex_less(head, front)) by {
                lemma_lex_blocks(head, front, tail, Seq::empty());
                assert(front + Seq::<u8>::empty() == front);
            }
        } else {
            let more = seq![(last + 1) as u8];
            assert(end == front + more);
            lemma_lex_blocks(head, front, tail, more);
            assert(lex_less(tail, more) <==> tail[0] < last + 1) by {
                reveal_with_fuel(lex_less, 2);
            }
        }
    }
}

// A key no longer than `front` stands to `front` and one more byte as it
// stands to `front`, but for `front` itself, which stands before.
proof fn lemma_short(key: Seq<u8>, front: Seq<u8>, last: u8)
    requires
        key.len() <= front.len(),
    ensures
        lex_less(key, front + seq![last]) <==> (lex_less(key, front) || starts_with(key, front)),
        !starts_with(key, front + seq![last]),
    decreases key.len(),
{
    let wider = front + seq![last];
    if key.len() == 0 {
        if front.len() == 0 {
            assert(starts_with(key, front)) by {
                assert(key.subrange(0, 0) == front);
            }
        }
    } else {
        assert(wider.drop_first() == front.drop_first() + seq![last]);
        lemma_short(key.drop_first(), front.drop_first(), last);
        if key[0] == front[0] {
            assert(starts_with(key, front) <==> starts_with(key.drop_first(), front.drop_first()))
                by {
                let k = key.drop_first();
                let f = front.drop_first();
                if starts_with(key, front) {
                    assert(key.subrange(0, front.len() as int) == key);
                    assert(k.subrange(0, f.len() as int) == k);
                }
                if starts_with(k, f) {
                    assert(k.subrange(0, f.len() as int) == k);
                    assert(key == seq![key[0]] + k);
                    assert(front == seq![front[0]] + f);
                    assert(key.subrange(0, front.len() as int) == front);
                }
            }
        } else {
            assert(!starts_with(key, front)) by {
                if starts_with(key, front) {
                    assert(key.subrange(0, front.len() as int)[0] == key[0]);
                }
            }
        }
    }
}

} // verus!
