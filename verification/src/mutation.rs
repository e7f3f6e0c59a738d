//! Changes to the store, their canonical bytes, and the digest of a request.

use crate::bytes::{
    be, be_reads_back, bytes_less, copy_bytes, lemma_span, lex_less, lex_total, lex_transitive,
    put_bytes, put_u32, put_u64,
};
use crate::error::{CodecError, CodecErrorView};
use crate::ids::{hash32, hash_of, RequestId};
use crate::sorting::{
    in_order, ranks_tell_apart, slot, sort, sorting_forgets_order, sorting_permutes, views, Ranked,
    SortItem,
};
use crate::text::same_bytes;
use vstd::prelude::*;

verus! {

/// Commands travel in the replicated log and are bounded.
pub const MAX_COMMAND_BYTES: usize = 4_194_304;

/// One change to the store.
#[derive(Clone, Debug, PartialEq, Eq)]
pub enum KvMutationV1 {
    Put { key: Vec<u8>, value: Vec<u8> },
    Delete { key: Vec<u8> },
}

/// What a [`KvMutationV1`] does.
pub enum MutationView {
    Put { key: Seq<u8>, value: Seq<u8> },
    Delete { key: Seq<u8> },
}

impl View for KvMutationV1 {
    type V = MutationView;

    open spec fn view(&self) -> MutationView {
        match self {
            KvMutationV1::Put { key, value } => MutationView::Put { key: key@, value: value@ },
            KvMutationV1::Delete { key } => MutationView::Delete { key: key@ },
        }
    }
}

impl MutationView {
    pub open spec fn key_bytes(self) -> Seq<u8> {
        match self {
            MutationView::Put { key, value } => key,
            MutationView::Delete { key } => key,
        }
    }
}

// Changes stand in the order of their keys; for one key, first the values that
// are put, in their order, and then the deletions.
impl Ranked for MutationView {
    open spec fn before(self, other: MutationView) -> bool {
        if self.key_bytes() != other.key_bytes() {
            lex_less(self.key_bytes(), other.key_bytes())
        } else {
            match (self, other) {
                (MutationView::Put { value: a, .. }, MutationView::Put { value: b, .. }) => {
                    lex_less(a, b)
                },
                (MutationView::Put { .. }, MutationView::Delete { .. }) => true,
                _ => false,
            }
        }
    }

    proof fn never_both_ways(a: MutationView, b: MutationView) {
        lex_total(a.key_bytes(), b.key_bytes());
        if a is Put && b is Put {
            lex_total(a->value, b->value);
        }
    }

    proof fn order_carries_over(a: MutationView, b: MutationView, c: MutationView) {
        let (x, y, z) = (a.key_bytes(), b.key_bytes(), c.key_bytes());
        lex_total(x, y);
        lex_total(y, z);
        lex_total(x, z);
        if x != z && lex_less(z, x) {
            if x != y && y != z {
                lex_transitive(z, x, y);
            }
        }
        if x == z && x != y {
            lex_transitive(x, y, z);
        }
        if x == y && y == z && a is Put && b is Put && c is Put {
            let (p, q, r) = (a->value, b->value, c->value);
            lex_total(p, q);
            lex_total(q, r);
            lex_total(p, r);
            if lex_less(r, p) && p != q {
                lex_transitive(r, p, q);
            }
        }
    }
}

impl SortItem for KvMutationV1 {
    fn is_before(&self, other: &KvMutationV1) -> (before: bool) {
        if !same_bytes(self.key(), other.key()) {
            return bytes_less(self.key(), other.key());
        }
        match (self, other) {
            (KvMutationV1::Put { value: a, .. }, KvMutationV1::Put { value: b, .. }) => bytes_less(
                a.as_slice(),
                b.as_slice(),
            ),
            (KvMutationV1::Put { .. }, KvMutationV1::Delete { .. }) => true,
            _ => false,
        }
    }
}

/// The bytes of one change: a tag, and the key and the value each behind its
/// length.
pub open spec fn frame(m: MutationView) -> Seq<u8> {
    match m {
        MutationView::Put { key, value } => seq![1u8] + be(key.len(), 4) + key + be(value.len(), 4)
            + value,
        MutationView::Delete { key } => seq![2u8] + be(key.len(), 4) + key,
    }
}

/// The bytes of some changes, one after the other.
pub open spec fn frames(ms: Seq<MutationView>) -> Seq<u8>
    decreases ms.len(),
{
    if ms.len() == 0 {
        Seq::empty()
    } else {
        frame(ms[0]) + frames(ms.drop_first())
    }
}

/// Whether the lengths of a change can be written.
pub open spec fn frameable(m: MutationView) -> bool {
    m.key_bytes().len() <= u32::MAX && (m matches MutationView::Put { value, .. } ==> value.len()
        <= u32::MAX)
}

type Outcome = std::result::Result<Seq<u8>, CodecErrorView>;

/// Some changes written behind the bytes that are there already, or the error
/// for the first that is too long or leads over the bound.
pub open spec fn framed(out: Seq<u8>, ms: Seq<MutationView>) -> Outcome
    decreases ms.len(),
{
    if ms.len() == 0 {
        Ok(out)
    } else if ms[0].key_bytes().len() > u32::MAX {
        Err(CodecErrorView::Limit("mutation key exceeds u32"@))
    } else if !frameable(ms[0]) {
        Err(CodecErrorView::Limit("mutation value exceeds u32"@))
    } else if (out + frame(ms[0])).len() > 4_194_304 {
        Err(CodecErrorView::Limit("canonical mutation payload exceeds 4 MiB"@))
    } else {
        framed(out + frame(ms[0]), ms.drop_first())
    }
}

/// The canonical bytes of some changes: their number, and the changes in
/// order.
pub open spec fn canonical_bytes(ms: Seq<MutationView>) -> Outcome {
    if ms.len() > u32::MAX {
        Err(CodecErrorView::Limit("too many mutations"@))
    } else {
        framed(be(ms.len(), 4), in_order(ms))
    }
}

impl KvMutationV1 {
    pub fn key(&self) -> (key: &[u8])
        ensures
            key@ == self@.key_bytes(),
    {
        match self {
            KvMutationV1::Put { key, .. } => key.as_slice(),
            KvMutationV1::Delete { key } => key.as_slice(),
        }
    }

    /// The length of the bytes of the change.
    pub fn encoded_len(&self) -> (len: usize)
        requires
            frame(self@).len() <= usize::MAX,
        ensures
            len == frame(self@).len(),
    {
        proof {
            crate::bytes::lemma_be_len(self@.key_bytes().len(), 4);
            if self@ is Put {
                crate::bytes::lemma_be_len(self@->value.len(), 4);
            }
        }
        match self {
            KvMutationV1::Put { key, value } => 1 + 4 + key.len() + 4 + value.len(),
            KvMutationV1::Delete { key } => 1 + 4 + key.len(),
        }
    }

    /// A copy of the change.
    pub fn copied(&self) -> (copy: KvMutationV1)
        ensures
            copy@ == self@,
    {
        match self {
            KvMutationV1::Put { key, value } => KvMutationV1::Put {
                key: copy_bytes(key.as_slice()),
                value: copy_bytes(value.as_slice()),
            },
            KvMutationV1::Delete { key } => KvMutationV1::Delete { key: copy_bytes(key.as_slice()) },
        }
    }
}

fn put_frame(out: &mut Vec<u8>, m: &KvMutationV1)
    requires
        frameable(m@),
    ensures
        final(out)@ == old(out)@ + frame(m@),
{
    match m {
        KvMutationV1::Put { key, value } => {
            out.push(1);
            put_u32(out, key.len() as u32);
            put_bytes(out, key.as_slice());
            put_u32(out, value.len() as u32);
            put_bytes(out, value.as_slice());
        },
        KvMutationV1::Delete { key } => {
            out.push(2);
            put_u32(out, key.len() as u32);
            put_bytes(out, key.as_slice());
        },
    }
    assert(out@ =~= old(out)@ + frame(m@));
}

/// The canonical bytes of some changes, which do not depend on the order in
/// which the changes are given.
#[verifier::loop_isolation(false)]
pub fn canonical_mutations(mutations: &[KvMutationV1]) -> (bytes: std::result::Result<
    Vec<u8>,
    CodecError,
>)
    ensures
        match bytes {
            Ok(b) => canonical_bytes(views(mutations@)) == Ok::<_, CodecErrorView>(b@),
            Err(e) => canonical_bytes(views(mutations@)) == Err::<Seq<u8>, _>(e@),
        },
{
    let ghost given = views(mutations@);
    if mutations.len() as u64 > 0xffff_ffff {
        return Err(CodecError::limit("too many mutations"));
    }
    let mut copies: Vec<KvMutationV1> = Vec::new();
    let mut i: usize = 0;
    while i < mutations.len()
        invariant
            i <= mutations@.len(),
            views(copies@) == given.subrange(0, i as int),
        decreases mutations@.len() - i,
    {
        let ghost before = copies@;
        let copy = mutations[i].copied();
        let ghost added = copy@;
        copies.push(copy);
        assert(views(copies@) == views(before).push(added));
        i += 1;
        assert(given.subrange(0, i as int) == given.subrange(0, i - 1).push(given[i - 1]));
    }
    assert(given.subrange(0, i as int) == given);
    let ordered = sort(copies);
    let ghost all = views(ordered@);
    let mut out: Vec<u8> = Vec::new();
    put_u32(&mut out, mutations.len() as u32);
    assert(out@ == be(given.len(), 4));
    let mut k: usize = 0;
    assert(all.subrange(0, all.len() as int) == all);
    while k < ordered.len()
        invariant
            k <= ordered@.len(),
            framed(out@, all.subrange(k as int, all.len() as int)) == canonical_bytes(given),
        decreases ordered@.len() - k,
    {
        let ghost rest = all.subrange(k as int, all.len() as int);
        assert(rest[0] == ordered@[k as int]@);
        assert(rest.drop_first() == all.subrange(k + 1, all.len() as int));
        let m = &ordered[k];
        if m.key().len() as u64 > 0xffff_ffff {
            return Err(CodecError::limit("mutation key exceeds u32"));
        }
        if let KvMutationV1::Put { value, .. } = m {
            if value.len() as u64 > 0xffff_ffff {
                return Err(CodecError::limit("mutation value exceeds u32"));
            }
        }
        put_frame(&mut out, m);
        if out.len() > MAX_COMMAND_BYTES {
            return Err(CodecError::limit("canonical mutation payload exceeds 4 MiB"));
        }
        k += 1;
    }
    Ok(out)
}

/// The canonical bytes of some changes depend only on which changes they are,
/// not on the order in which they are given.
pub proof fn canonical_bytes_forget_order(a: Seq<MutationView>, b: Seq<MutationView>)
    requires
        a.to_multiset() == b.to_multiset(),
    ensures
        canonical_bytes(a) == canonical_bytes(b),
{
    a.to_multiset_ensures();
    b.to_multiset_ensures();
    lemma_ranks_tell_apart(a);
    sorting_forgets_order(a, b);
}

proof fn lemma_ranks_tell_apart(ms: Seq<MutationView>)
    ensures
        ranks_tell_apart(ms),
{
    assert forall|a: MutationView, b: MutationView|
        ms.contains(a) && ms.contains(b) && !(#[trigger] a.before(b)) && !b.before(a) implies a
        == b by {
        lex_total(a.key_bytes(), b.key_bytes());
        if a is Put && b is Put {
            lex_total(a->value, b->value);
        }
    }
}

proof fn lemma_framed(out: Seq<u8>, ms: Seq<MutationView>)
    requires
        framed(out, ms) is Ok,
    ensures
        framed(out, ms)->Ok_0 == out + frames(ms),
        forall|i: int| 0 <= i < ms.len() ==> frameable(#[trigger] ms[i]),
    decreases ms.len(),
{
    if ms.len() == 0 {
        assert(out + frames(ms) == out);
    } else {
        let rest = ms.drop_first();
        lemma_framed(out + frame(ms[0]), rest);
        assert(out + frame(ms[0]) + frames(rest) == out + frames(ms));
        assert forall|i: int| 0 <= i < ms.len() implies frameable(#[trigger] ms[i]) by {
            if i > 0 {
                assert(ms[i] == rest[i - 1]);
            }
        }
    }
}

// A length and that many bytes can be read off the front.
proof fn lemma_part(a: Seq<u8>, b: Seq<u8>, x: Seq<u8>, y: Seq<u8>)
    requires
        a.len() <= u32::MAX,
        b.len() <= u32::MAX,
        be(a.len(), 4) + a + x == be(b.len(), 4) + b + y,
    ensures
        a == b,
        x == y,
{
    lemma_span();
    be_reads_back(a.len(), 4);
    be_reads_back(b.len(), 4);
    let l = be(a.len(), 4) + a + x;
    let r = be(b.len(), 4) + b + y;
    assert(l.subrange(0, 4) =~= be(a.len(), 4));
    assert(r.subrange(0, 4) =~= be(b.len(), 4));
    assert(l.subrange(4, 4 + a.len() as int) =~= a);
    assert(r.subrange(4, 4 + b.len() as int) =~= b);
    assert(l.subrange(4 + a.len() as int, l.len() as int) =~= x);
    assert(r.subrange(4 + b.len() as int, r.len() as int) =~= y);
}

// One change can be read off the front.
proof fn lemma_frame(m: MutationView, n: MutationView, x: Seq<u8>, y: Seq<u8>)
    requires
        frameable(m),
        frameable(n),
        frame(m) + x == frame(n) + y,
    ensures
        m == n,
        x == y,
{
    let l = frame(m) + x;
    let r = frame(n) + y;
    assert(l[0] == if m is Put {
        1u8
    } else {
        2u8
    });
    assert(r[0] == if n is Put {
        1u8
    } else {
        2u8
    });
    let lt = l.subrange(1, l.len() as int);
    let rt = r.subrange(1, r.len() as int);
    assert(lt == rt);
    let (p, q) = (m.key_bytes(), n.key_bytes());
    let u = if m is Put {
        be(m->value.len(), 4) + m->value + x
    } else {
        x
    };
    let v = if n is Put {
        be(n->value.len(), 4) + n->value + y
    } else {
        y
    };
    assert(lt =~= be(p.len(), 4) + p + u);
    assert(rt =~= be(q.len(), 4) + q + v);
    lemma_part(p, q, u, v);
    if m is Put {
        lemma_part(m->value, n->value, x, y);
    }
}

proof fn lemma_frames(a: Seq<MutationView>, b: Seq<MutationView>)
    requires
        a.len() == b.len(),
        forall|i: int| 0 <= i < a.len() ==> frameable(#[trigger] a[i]),
        forall|i: int| 0 <= i < b.len() ==> frameable(#[trigger] b[i]),
        frames(a) == frames(b),
    ensures
        a == b,
    decreases a.len(),
{
    if a.len() == 0 {
        assert(a == b);
    } else {
        let (ra, rb) = (a.drop_first(), b.drop_first());
        lemma_frame(a[0], b[0], frames(ra), frames(rb));
        assert forall|i: int| 0 <= i < ra.len() implies frameable(#[trigger] ra[i]) by {
            assert(ra[i] == a[i + 1]);
        }
        assert forall|i: int| 0 <= i < rb.len() implies frameable(#[trigger] rb[i]) by {
            assert(rb[i] == b[i + 1]);
        }
        lemma_frames(ra, rb);
        assert(a == seq![a[0]] + ra);
        assert(b == seq![b[0]] + rb);
    }
}

/// Changes with the same canonical bytes are the same changes, each as often:
/// no two keys and values can run into one another.
pub proof fn canonical_bytes_tell_apart(a: Seq<MutationView>, b: Seq<MutationView>)
    requires
        canonical_bytes(a) is Ok,
        canonical_bytes(a) == canonical_bytes(b),
    ensures
        a.to_multiset() == b.to_multiset(),
{
    let (x, y) = (in_order(a), in_order(b));
    sorting_permutes(a);
    sorting_permutes(b);
    lemma_framed(be(a.len(), 4), x);
    lemma_framed(be(b.len(), 4), y);
    lemma_span();
    be_reads_back(a.len(), 4);
    be_reads_back(b.len(), 4);
    let (l, r) = (be(a.len(), 4) + frames(x), be(b.len(), 4) + frames(y));
    assert(l.subrange(0, 4) =~= be(a.len(), 4));
    assert(r.subrange(0, 4) =~= be(b.len(), 4));
    assert(l.subrange(4, l.len() as int) =~= frames(x));
    assert(r.subrange(4, r.len() as int) =~= frames(y));
    lemma_frames(x, y);
}

/// The bytes that some changes take, each with its own lengths.
pub open spec fn total_len(ms: Seq<MutationView>) -> nat
    decreases ms.len(),
{
    if ms.len() == 0 {
        0
    } else {
        total_len(ms.drop_last()) + frame(ms.last()).len()
    }
}

proof fn lemma_total_first(ms: Seq<MutationView>)
    requires
        ms.len() > 0,
    ensures
        total_len(ms) == frame(ms[0]).len() + total_len(ms.drop_first()),
    decreases ms.len(),
{
    if ms.len() > 1 {
        lemma_total_first(ms.drop_last());
        assert(ms.drop_last().drop_first() == ms.drop_first().drop_last());
        assert(ms.drop_last()[0] == ms[0]);
        assert(ms.drop_first().last() == ms.last());
    } else {
        assert(ms.drop_last() == Seq::<MutationView>::empty());
        assert(ms.drop_first() == Seq::<MutationView>::empty());
    }
}

proof fn lemma_total_insert(ms: Seq<MutationView>, at: int, m: MutationView)
    requires
        0 <= at <= ms.len(),
    ensures
        total_len(ms.insert(at, m)) == total_len(ms) + frame(m).len(),
    decreases ms.len(),
{
    let wider = ms.insert(at, m);
    if at == ms.len() {
        assert(wider.drop_last() == ms);
    } else {
        assert(wider.drop_last() == ms.drop_last().insert(at, m));
        assert(wider.last() == ms.last());
        lemma_total_insert(ms.drop_last(), at, m);
    }
}

proof fn lemma_total_sorted(ms: Seq<MutationView>)
    ensures
        total_len(in_order(ms)) == total_len(ms),
    decreases ms.len(),
{
    if ms.len() > 0 {
        let front = ms.drop_last();
        lemma_total_sorted(front);
        sorting_permutes(front);
        lemma_slot_bounds(in_order(front), ms.last());
        lemma_total_insert(in_order(front), slot(in_order(front), ms.last()), ms.last());
    }
}

proof fn lemma_slot_bounds(sorted: Seq<MutationView>, m: MutationView)
    ensures
        0 <= slot(sorted, m) <= sorted.len(),
    decreases sorted.len(),
{
    if sorted.len() > 0 {
        lemma_slot_bounds(sorted.drop_last(), m);
    }
}

proof fn lemma_framed_len(out: Seq<u8>, ms: Seq<MutationView>)
    requires
        out.len() <= 4_194_304,
    ensures
        framed(out, ms) is Ok <==> out.len() + total_len(ms) <= 4_194_304,
        framed(out, ms) matches Ok(b) ==> b.len() == out.len() + total_len(ms),
        framed(out, ms) matches Err(e) ==> e is Limit,
    decreases ms.len(),
{
    if ms.len() > 0 {
        lemma_total_first(ms);
        crate::bytes::lemma_be_len(ms[0].key_bytes().len(), 4);
        if ms[0] is Put {
            crate::bytes::lemma_be_len(ms[0]->value.len(), 4);
        }
        if frameable(ms[0]) && (out + frame(ms[0])).len() <= 4_194_304 {
            lemma_framed_len(out + frame(ms[0]), ms.drop_first());
        }
    }
}

/// Changes have canonical bytes exactly where their number and their own bytes
/// take at most 4 MiB, and that is then the length of the canonical bytes;
/// where they have none, a limit is exceeded.
pub proof fn canonical_bytes_have_their_length(ms: Seq<MutationView>)
    ensures
        canonical_bytes(ms) is Ok <==> 4 + total_len(ms) <= 4_194_304,
        canonical_bytes(ms) matches Ok(b) ==> b.len() == 4 + total_len(ms),
        canonical_bytes(ms) matches Err(e) ==> e is Limit,
{
    crate::bytes::lemma_be_len(ms.len(), 4);
    lemma_total_sorted(ms);
    lemma_framed_len(be(ms.len(), 4), in_order(ms));
    lemma_total_bound(ms);
}

// Every change takes five bytes or more.
proof fn lemma_total_bound(ms: Seq<MutationView>)
    ensures
        total_len(ms) >= 5 * ms.len(),
    decreases ms.len(),
{
    if ms.len() > 0 {
        crate::bytes::lemma_be_len(ms.last().key_bytes().len(), 4);
        lemma_total_bound(ms.drop_last());
    }
}

// ---------------------------------------------------------------------------
// The digest of a request
// ---------------------------------------------------------------------------

/// The bytes that the digest of a request is made of.
pub open spec fn request_bytes(
    command_version: u8,
    request_id: RequestId,
    base_epoch: u64,
    payload: Seq<u8>,
) -> Seq<u8> {
    seq![command_version] + be(request_id.origin.node_id as nat, 8) + request_id.origin.boot_nonce@
        + be(request_id.sequence as nat, 8) + be(base_epoch as nat, 8) + be(payload.len(), 8)
        + payload
}

/// The digest of a request, which binds its version, its identity, the epoch
/// that it starts from and its payload.
pub fn payload_hash(
    command_version: u8,
    request_id: &RequestId,
    base_epoch: u64,
    payload: &[u8],
) -> (digest: [u8; 32])
    ensures
        digest@ == hash_of(request_bytes(command_version, *request_id, base_epoch, payload@)),
{
    let mut b: Vec<u8> = Vec::new();
    b.push(command_version);
    put_u64(&mut b, request_id.origin.node_id);
    put_bytes(&mut b, request_id.origin.boot_nonce.as_slice());
    put_u64(&mut b, request_id.sequence);
    put_u64(&mut b, base_epoch);
    put_u64(&mut b, payload.len() as u64);
    put_bytes(&mut b, payload);
    assert(b@ == request_bytes(command_version, *request_id, base_epoch, payload@));
    hash32(b.as_slice())
}

/// Requests of which digests are made of the same bytes are the same request.
pub proof fn request_bytes_tell_apart(
    v1: u8,
    id1: RequestId,
    e1: u64,
    p1: Seq<u8>,
    v2: u8,
    id2: RequestId,
    e2: u64,
    p2: Seq<u8>,
)
    requires
        request_bytes(v1, id1, e1, p1) == request_bytes(v2, id2, e2, p2),
    ensures
        v1 == v2,
        id1.origin.node_id == id2.origin.node_id,
        id1.origin.boot_nonce@ == id2.origin.boot_nonce@,
        id1.sequence == id2.sequence,
        e1 == e2,
        p1 == p2,
{
    lemma_span();
    let (l, r) = (request_bytes(v1, id1, e1, p1), request_bytes(v2, id2, e2, p2));
    be_reads_back(id1.origin.node_id as nat, 8);
    be_reads_back(id2.origin.node_id as nat, 8);
    be_reads_back(id1.sequence as nat, 8);
    be_reads_back(id2.sequence as nat, 8);
    be_reads_back(e1 as nat, 8);
    be_reads_back(e2 as nat, 8);
    crate::bytes::lemma_be_len(p1.len(), 8);
    crate::bytes::lemma_be_len(p2.len(), 8);
    assert(l[0] == v1 && r[0] == v2);
    assert(l.subrange(1, 9) =~= be(id1.origin.node_id as nat, 8));
    assert(r.subrange(1, 9) =~= be(id2.origin.node_id as nat, 8));
    assert(l.subrange(9, 25) =~= id1.origin.boot_nonce@);
    assert(r.subrange(9, 25) =~= id2.origin.boot_nonce@);
    assert(l.subrange(25, 33) =~= be(id1.sequence as nat, 8));
    assert(r.subrange(25, 33) =~= be(id2.sequence as nat, 8));
    assert(l.subrange(33, 41) =~= be(e1 as nat, 8));
    assert(r.subrange(33, 41) =~= be(e2 as nat, 8));
    assert(l.subrange(49, l.len() as int) =~= p1);
    assert(r.subrange(49, r.len() as int) =~= p2);
}

} // verus!
