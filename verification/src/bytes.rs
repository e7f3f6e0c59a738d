//! Byte strings: big-endian integers and the lexicographic order.

use vstd::prelude::*;

verus! {

// ---------------------------------------------------------------------------
// Big-endian integers
// ---------------------------------------------------------------------------

/// The `len` least significant bytes of a number, most significant first.
pub open spec fn be(value: nat, len: nat) -> Seq<u8>
    decreases len,
{
    if len == 0 {
        Seq::empty()
    } else {
        be(value / 256, (len - 1) as nat).push((value % 256) as u8)
    }
}

/// The number that a byte string writes, most significant byte first.
pub open spec fn be_value(bytes: Seq<u8>) -> nat
    decreases bytes.len(),
{
    if bytes.len() == 0 {
        0
    } else {
        be_value(bytes.drop_last()) * 256 + bytes.last() as nat
    }
}

/// The number of values that `len` bytes can hold.
pub open spec fn span(len: nat) -> nat
    decreases len,
{
    if len == 0 {
        1
    } else {
        256 * span((len - 1) as nat)
    }
}

/// The two's complement of a signed number in `len` bytes.
pub open spec fn wrapped(value: int, len: nat) -> nat {
    if value < 0 {
        (value + span(len)) as nat
    } else {
        value as nat
    }
}

/// The signed number whose two's complement in `len` bytes is `value`.
pub open spec fn signed(value: nat, len: nat) -> int {
    if 2 * value >= span(len) {
        value - span(len)
    } else {
        value as int
    }
}

pub proof fn lemma_span()
    ensures
        span(1) == 0x100,
        span(2) == 0x1_0000,
        span(4) == 0x1_0000_0000,
        span(8) == 0x1_0000_0000_0000_0000,
{
    reveal_with_fuel(span, 9);
}

pub proof fn lemma_be_len(value: nat, len: nat)
    ensures
        be(value, len).len() == len,
    decreases len,
{
    if len > 0 {
        lemma_be_len(value / 256, (len - 1) as nat);
    }
}

pub proof fn lemma_be_value_bound(bytes: Seq<u8>)
    ensures
        be_value(bytes) < span(bytes.len()),
    decreases bytes.len(),
{
    if bytes.len() > 0 {
        lemma_be_value_bound(bytes.drop_last());
    }
}

/// Reading a big-endian number gives back the number that was written.
pub proof fn be_reads_back(value: nat, len: nat)
    requires
        value < span(len),
    ensures
        be(value, len).len() == len,
        be_value(be(value, len)) == value,
    decreases len,
{
    if len > 0 {
        be_reads_back(value / 256, (len - 1) as nat);
        let bytes = be(value, len);
        assert(bytes.drop_last() == be(value / 256, (len - 1) as nat));
    }
}

/// Writing the number that a byte string holds gives back the byte string.
pub proof fn be_writes_back(bytes: Seq<u8>)
    ensures
        be(be_value(bytes), bytes.len()) == bytes,
    decreases bytes.len(),
{
    if bytes.len() > 0 {
        be_writes_back(bytes.drop_last());
        let value = be_value(bytes);
        assert(value / 256 == be_value(bytes.drop_last()));
        assert(value % 256 == bytes.last());
        assert(bytes.drop_last().push(bytes.last()) == bytes);
    }
}

/// Appends the `len` least significant bytes of a number.
pub fn put_be(out: &mut Vec<u8>, value: u64, len: usize)
    ensures
        final(out)@ == old(out)@ + be(value as nat, len as nat),
    decreases len,
{
    if len > 0 {
        put_be(out, value / 256, len - 1);
        out.push((value % 256) as u8);
    }
    assert(out@ == old(out)@ + be(value as nat, len as nat));
}

/// Reads a big-endian number of at most eight bytes.
pub fn read_be(bytes: &[u8]) -> (value: u64)
    requires
        bytes@.len() <= 8,
    ensures
        value == be_value(bytes@),
{
    let mut value: u64 = 0;
    let mut i: usize = 0;
    while i < bytes.len()
        invariant
            bytes@.len() <= 8,
            i <= bytes@.len(),
            value == be_value(bytes@.subrange(0, i as int)),
        decreases bytes@.len() - i,
    {
        let ghost wider = bytes@.subrange(0, i + 1);
        assert(wider.drop_last() == bytes@.subrange(0, i as int));
        assert(be_value(wider) == value * 256 + bytes@[i as int]);
        proof {
            lemma_be_value_bound(wider);
            reveal_with_fuel(span, 9);
            assert(span(wider.len()) <= 0x1_0000_0000_0000_0000);
        }
        value = value * 256 + bytes[i] as u64;
        i += 1;
    }
    assert(bytes@.subrange(0, i as int) == bytes@);
    value
}

pub fn put_u16(out: &mut Vec<u8>, value: u16)
    ensures
        final(out)@ == old(out)@ + be(value as nat, 2),
{
    put_be(out, value as u64, 2);
}

pub fn put_u32(out: &mut Vec<u8>, value: u32)
    ensures
        final(out)@ == old(out)@ + be(value as nat, 4),
{
    put_be(out, value as u64, 4);
}

pub fn put_u64(out: &mut Vec<u8>, value: u64)
    ensures
        final(out)@ == old(out)@ + be(value as nat, 8),
{
    put_be(out, value, 8);
}

/// The two's complement of a 64-bit signed number.
pub fn wrap_i64(value: i64) -> (bits: u64)
    ensures
        bits == wrapped(value as int, 8),
{
    proof {
        lemma_span();
    }
    if value >= 0 {
        value as u64
    } else {
        (value - i64::MIN) as u64 + 0x8000_0000_0000_0000
    }
}

/// The 64-bit signed number whose two's complement is `bits`.
pub fn unwrap_i64(bits: u64) -> (value: i64)
    ensures
        value == signed(bits as nat, 8),
{
    proof {
        lemma_span();
    }
    if bits < 0x8000_0000_0000_0000 {
        bits as i64
    } else {
        (bits - 0x8000_0000_0000_0000) as i64 + i64::MIN
    }
}

/// The two's complement of a 32-bit signed number.
pub fn wrap_i32(value: i32) -> (bits: u32)
    ensures
        bits == wrapped(value as int, 4),
{
    proof {
        lemma_span();
    }
    if value >= 0 {
        value as u32
    } else {
        (value - i32::MIN) as u32 + 0x8000_0000
    }
}

/// The 32-bit signed number whose two's complement is `bits`.
pub fn unwrap_i32(bits: u32) -> (value: i32)
    ensures
        value == signed(bits as nat, 4),
{
    proof {
        lemma_span();
    }
    if bits < 0x8000_0000 {
        bits as i32
    } else {
        (bits - 0x8000_0000) as i32 + i32::MIN
    }
}

/// The two's complement of a 16-bit signed number.
pub fn wrap_i16(value: i16) -> (bits: u16)
    ensures
        bits == wrapped(value as int, 2),
{
    proof {
        lemma_span();
    }
    if value >= 0 {
        value as u16
    } else {
        (value - i16::MIN) as u16 + 0x8000
    }
}

/// The 16-bit signed number whose two's complement is `bits`.
pub fn unwrap_i16(bits: u16) -> (value: i16)
    ensures
        value == signed(bits as nat, 2),
{
    proof {
        lemma_span();
    }
    if bits < 0x8000 {
        bits as i16
    } else {
        (bits - 0x8000) as i16 + i16::MIN
    }
}

/// Appends a slice of bytes.
pub fn put_bytes(out: &mut Vec<u8>, bytes: &[u8])
    ensures
        final(out)@ == old(out)@ + bytes@,
{
    out.extend_from_slice(bytes);
    assert(out@ =~= old(out)@ + bytes@);
}

/// A copy of a byte string.
pub fn copy_bytes(bytes: &[u8]) -> (copy: Vec<u8>)
    ensures
        copy@ == bytes@,
{
    vstd::slice::slice_to_vec(bytes)
}

/// Copies the first `N` bytes into an array.
pub fn array16(bytes: &[u8]) -> (out: [u8; 16])
    requires
        bytes@.len() == 16,
    ensures
        out@ == bytes@,
{
    let mut out: [u8; 16] = [0;16];
    let mut i: usize = 0;
    while i < 16
        invariant
            i <= 16,
            bytes@.len() == 16,
            out@.len() == 16,
            forall|k: int| 0 <= k < i ==> out@[k] == bytes@[k],
        decreases 16 - i,
    {
        out[i] = bytes[i];
        i += 1;
    }
    assert(out@ =~= bytes@);
    out
}

/// Copies thirty-two bytes into an array.
pub fn array32(bytes: &[u8]) -> (out: [u8; 32])
    requires
        bytes@.len() == 32,
    ensures
        out@ == bytes@,
{
    let mut out: [u8; 32] = [0;32];
    let mut i: usize = 0;
    while i < 32
        invariant
            i <= 32,
            bytes@.len() == 32,
            out@.len() == 32,
            forall|k: int| 0 <= k < i ==> out@[k] == bytes@[k],
        decreases 32 - i,
    {
        out[i] = bytes[i];
        i += 1;
    }
    assert(out@ =~= bytes@);
    out
}

// ---------------------------------------------------------------------------
// Lexicographic order
// ---------------------------------------------------------------------------

/// Whether one byte string stands before another in the lexicographic order.
pub open spec fn lex_less(a: Seq<u8>, b: Seq<u8>) -> bool
    decreases a.len(),
{
    if b.len() == 0 {
        false
    } else if a.len() == 0 {
        true
    } else if a[0] != b[0] {
        a[0] < b[0]
    } else {
        lex_less(a.drop_first(), b.drop_first())
    }
}

/// Whether `prefix` begins `bytes`.
pub open spec fn starts_with(bytes: Seq<u8>, prefix: Seq<u8>) -> bool {
    prefix.len() <= bytes.len() && bytes.subrange(0, prefix.len() as int) == prefix
}

/// No byte string stands before itself.
pub proof fn lex_irreflexive(a: Seq<u8>)
    ensures
        !lex_less(a, a),
    decreases a.len(),
{
    if a.len() > 0 {
        lex_irreflexive(a.drop_first());
    }
}

/// Of two different byte strings exactly one stands before the other.
pub proof fn lex_total(a: Seq<u8>, b: Seq<u8>)
    ensures
        a != b ==> (lex_less(a, b) <==> !lex_less(b, a)),
        lex_less(a, b) ==> a != b,
    decreases a.len(),
{
    if a.len() > 0 && b.len() > 0 && a[0] == b[0] {
        lex_total(a.drop_first(), b.drop_first());
        assert(a == seq![a[0]] + a.drop_first());
        assert(b == seq![b[0]] + b.drop_first());
    } else if a.len() == 0 && b.len() == 0 {
        assert(a == b);
    }
    if a == b {
        lex_irreflexive(a);
    }
}

/// The lexicographic order is transitive.
pub proof fn lex_transitive(a: Seq<u8>, b: Seq<u8>, c: Seq<u8>)
    requires
        lex_less(a, b),
        lex_less(b, c),
    ensures
        lex_less(a, c),
    decreases a.len(),
{
    if a.len() > 0 && b.len() > 0 && c.len() > 0 && a[0] == b[0] && b[0] == c[0] {
        lex_transitive(a.drop_first(), b.drop_first(), c.drop_first());
    }
}

/// The byte at which two byte strings first differ decides their order.
pub proof fn lemma_lex_at(a: Seq<u8>, b: Seq<u8>, i: int)
    requires
        0 <= i <= a.len(),
        i < b.len(),
        a.subrange(0, i) == b.subrange(0, i),
        i == a.len() || a[i] < b[i],
    ensures
        lex_less(a, b),
        !lex_less(b, a),
    decreases i,
{
    if i > 0 {
        assert(a[0] == a.subrange(0, i)[0]);
        assert(b[0] == b.subrange(0, i)[0]);
        assert(a.drop_first().subrange(0, i - 1) == a.subrange(0, i).drop_first());
        assert(b.drop_first().subrange(0, i - 1) == b.subrange(0, i).drop_first());
        lemma_lex_at(a.drop_first(), b.drop_first(), i - 1);
    }
}

/// A shared beginning leaves the order to the rest.
pub proof fn lemma_lex_prefix(p: Seq<u8>, a: Seq<u8>, b: Seq<u8>)
    ensures
        lex_less(p + a, p + b) == lex_less(a, b),
    decreases p.len(),
{
    if p.len() == 0 {
        assert(p + a == a);
        assert(p + b == b);
    } else {
        assert((p + a).drop_first() == p.drop_first() + a);
        assert((p + b).drop_first() == p.drop_first() + b);
        lemma_lex_prefix(p.drop_first(), a, b);
    }
}

/// Between byte strings of one length, what follows matters only where they
/// are equal.
pub proof fn lemma_lex_blocks(a: Seq<u8>, b: Seq<u8>, x: Seq<u8>, y: Seq<u8>)
    requires
        a.len() == b.len(),
    ensures
        lex_less(a + x, b + y) == (lex_less(a, b) || (a == b && lex_less(x, y))),
    decreases a.len(),
{
    if a.len() == 0 {
        assert(a + x == x);
        assert(b + y == y);
        assert(a == b);
    } else {
        assert((a + x).drop_first() == a.drop_first() + x);
        assert((b + y).drop_first() == b.drop_first() + y);
        lemma_lex_blocks(a.drop_first(), b.drop_first(), x, y);
        if a[0] == b[0] {
            assert(a == b <==> a.drop_first() == b.drop_first()) by {
                assert(a == seq![a[0]] + a.drop_first());
                assert(b == seq![b[0]] + b.drop_first());
            }
        }
    }
}

/// Big-endian numbers of one width stand in the order of their values.
pub proof fn be_keeps_order(x: nat, y: nat, len: nat)
    requires
        x < span(len),
        y < span(len),
    ensures
        lex_less(be(x, len), be(y, len)) <==> x < y,
    decreases len,
{
    if len == 0 {
    } else {
        let p = be(x / 256, (len - 1) as nat);
        let q = be(y / 256, (len - 1) as nat);
        be_keeps_order(x / 256, y / 256, (len - 1) as nat);
        be_reads_back(x / 256, (len - 1) as nat);
        be_reads_back(y / 256, (len - 1) as nat);
        let u = seq![(x % 256) as u8];
        let v = seq![(y % 256) as u8];
        assert(be(x, len) == p + u);
        assert(be(y, len) == q + v);
        lemma_lex_blocks(p, q, u, v);
        assert(lex_less(u, v) <==> x % 256 < y % 256) by {
            reveal_with_fuel(lex_less, 2);
        }
        assert(p == q <==> x / 256 == y / 256);
    }
}

/// How one value stands to another.
#[derive(Clone, Copy, Debug, PartialEq, Eq, Structural)]
pub enum Order {
    Less,
    Equal,
    Greater,
}

/// Puts two byte strings in order.
pub fn compare_bytes(a: &[u8], b: &[u8]) -> (order: Order)
    ensures
        order == Order::Less <==> lex_less(a@, b@),
        order == Order::Equal <==> a@ == b@,
        order == Order::Greater <==> lex_less(b@, a@),
{
    let mut i: usize = 0;
    proof {
        lex_total(a@, b@);
        lex_total(b@, a@);
    }
    while i < a.len() && i < b.len()
        invariant
            i <= a@.len(),
            i <= b@.len(),
            a@.subrange(0, i as int) == b@.subrange(0, i as int),
            a@ != b@ ==> (lex_less(a@, b@) <==> !lex_less(b@, a@)),
            lex_less(a@, b@) ==> a@ != b@,
            lex_less(b@, a@) ==> a@ != b@,
        decreases a@.len() - i,
    {
        if a[i] < b[i] {
            proof {
                lemma_lex_at(a@, b@, i as int);
            }
            return Order::Less;
        }
        if a[i] > b[i] {
            proof {
                lemma_lex_at(b@, a@, i as int);
            }
            return Order::Greater;
        }
        assert(a@.subrange(0, i + 1) == a@.subrange(0, i as int).push(a@[i as int]));
        assert(b@.subrange(0, i + 1) == b@.subrange(0, i as int).push(b@[i as int]));
        i += 1;
    }
    if i < b.len() {
        proof {
            lemma_lex_at(a@, b@, i as int);
        }
        Order::Less
    } else if i < a.len() {
        proof {
            lemma_lex_at(b@, a@, i as int);
        }
        Order::Greater
    } else {
        assert(a@.subrange(0, i as int) == a@);
        assert(b@.subrange(0, i as int) == b@);
        Order::Equal
    }
}

/// Whether one byte string stands before another.
pub fn bytes_less(a: &[u8], b: &[u8]) -> (less: bool)
    ensures
        less == lex_less(a@, b@),
{
    match compare_bytes(a, b) {
        Order::Less => true,
        Order::Equal => false,
        Order::Greater => false,
    }
}

} // verus!
