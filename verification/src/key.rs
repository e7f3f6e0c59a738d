//! Keys whose byte order is the order of the values that they hold.

use crate::bytes::{be, copy_bytes, put_be, put_bytes, put_u32, put_u64};
use crate::datum::{float_is_nan, float_magnitude, Datum, DatumView};
use crate::error::{CodecError, CodecErrorView};
use crate::json::canonical;
use crate::limits::{MAX_INDEXED_VALUE_BYTES, MAX_KEY_BYTES};
use crate::text::text_bytes;
use vstd::prelude::*;
use vstd::string::*;
use vstd::utf8::encode_utf8;

verus! {

pub const MEMCOMPARABLE_VERSION: u8 = 1;

type CodecResult<T> = std::result::Result<T, CodecError>;

/// The key of an entry of the store.
#[derive(Clone, Debug, PartialEq, Eq, PartialOrd, Ord)]
pub struct PhysicalKey(pub Vec<u8>);

/// Whether a key is short enough to be stored.
pub open spec fn key_fits(bytes: Seq<u8>) -> bool {
    bytes.len() <= 8192
}

/// A key, or the error for one that is too long.
pub open spec fn keyed(bytes: Seq<u8>, key: CodecResult<PhysicalKey>) -> bool {
    match key {
        Ok(k) => key_fits(bytes) && k.0@ == bytes,
        Err(e) => !key_fits(bytes) && e@ == CodecErrorView::Limit("physical key exceeds 8 KiB"@),
    }
}

/// The bytes of the key of a row.
pub open spec fn row_key_bytes(table_id: u32, row_key: Seq<u8>) -> Seq<u8> {
    seq![0x20u8] + be(table_id as nat, 4) + row_key
}

/// The bytes of the key of an index entry. The key of a unique entry names the
/// value alone; any other goes on with the key of the row.
pub open spec fn index_key_bytes(
    index_id: u32,
    index_key: Seq<u8>,
    row_key: Seq<u8>,
    unique: bool,
) -> Seq<u8> {
    if unique {
        seq![0x22u8] + be(index_id as nat, 4) + index_key
    } else {
        seq![0x21u8] + be(index_id as nat, 4) + index_key + row_key
    }
}

impl PhysicalKey {
    pub fn new(bytes: Vec<u8>) -> (key: CodecResult<PhysicalKey>)
        ensures
            keyed(bytes@, key),
    {
        if bytes.len() > MAX_KEY_BYTES {
            return Err(CodecError::limit("physical key exceeds 8 KiB"));
        }
        Ok(PhysicalKey(bytes))
    }

    pub fn as_bytes(&self) -> (bytes: &[u8])
        ensures
            bytes@ == self.0@,
    {
        self.0.as_slice()
    }

    pub fn row(table_id: u32, row_key: &[u8]) -> (key: CodecResult<PhysicalKey>)
        ensures
            keyed(row_key_bytes(table_id, row_key@), key),
    {
        let mut out: Vec<u8> = Vec::new();
        out.push(0x20);
        put_u32(&mut out, table_id);
        put_bytes(&mut out, row_key);
        assert(out@ == row_key_bytes(table_id, row_key@));
        Self::new(out)
    }

    pub fn index(index_id: u32, index_key: &[u8], row_key: &[u8], unique: bool) -> (key:
        CodecResult<PhysicalKey>)
        ensures
            keyed(index_key_bytes(index_id, index_key@, row_key@, unique), key),
    {
        let mut out: Vec<u8> = Vec::new();
        if unique {
            out.push(0x22);
        } else {
            out.push(0x21);
        }
        put_u32(&mut out, index_id);
        put_bytes(&mut out, index_key);
        if !unique {
            put_bytes(&mut out, row_key);
        }
        assert(out@ == index_key_bytes(index_id, index_key@, row_key@, unique));
        Self::new(out)
    }

    pub fn table_desc(table_id: u32) -> (key: PhysicalKey)
        ensures
            key.0@ == seq![0x12u8] + be(table_id as nat, 4),
    {
        let mut out: Vec<u8> = Vec::new();
        out.push(0x12);
        put_u32(&mut out, table_id);
        assert(out@ == seq![0x12u8] + be(table_id as nat, 4));
        PhysicalKey(out)
    }
}

// ---------------------------------------------------------------------------
// Ordered encoding of values
// ---------------------------------------------------------------------------

/// A byte string in which every zero is marked by a 255 behind it.
pub open spec fn escaped(bytes: Seq<u8>) -> Seq<u8>
    decreases bytes.len(),
{
    if bytes.len() == 0 {
        Seq::empty()
    } else if bytes[0] == 0 {
        seq![0u8, 255u8] + escaped(bytes.drop_first())
    } else {
        seq![bytes[0]] + escaped(bytes.drop_first())
    }
}

/// A byte string of any length as a part of a key: escaped, and closed by two
/// zeros.
pub open spec fn closed(bytes: Seq<u8>) -> Seq<u8> {
    escaped(bytes) + seq![0u8, 0u8]
}

/// Every byte turned into its complement.
pub open spec fn complement(bytes: Seq<u8>) -> Seq<u8> {
    bytes.map_values(|b: u8| (255 - b) as u8)
}

/// The number by which a floating-point number stands in keys: the numbers
/// with a sign are turned round below those without, both zeros share one
/// number, and so does all that is no number.
pub open spec fn float_key_number(bits: nat) -> nat {
    if float_is_nan(bits) {
        0xfff8_0000_0000_0000
    } else if float_magnitude(bits) == 0 {
        0x8000_0000_0000_0000
    } else if bits >= 0x8000_0000_0000_0000 {
        (0xffff_ffff_ffff_ffff - bits) as nat
    } else {
        bits + 0x8000_0000_0000_0000
    }
}

/// The tag of a value in keys. Tags ascend with the ranks of the types.
pub open spec fn key_tag(d: DatumView) -> u8 {
    match d {
        DatumView::Null => 0,
        DatumView::Boolean(_) => 1,
        DatumView::Int16(_) => 2,
        DatumView::Int32(_) => 2,
        DatumView::Int64(_) => 2,
        DatumView::Float64(_) => 3,
        DatumView::Text(_) => 4,
        DatumView::Bytes(_) => 5,
        DatumView::Date(_) => 6,
        DatumView::Timestamp(_) => 7,
        DatumView::TimestampTz(_) => 8,
        DatumView::Uuid(_) => 9,
        DatumView::Jsonb(_) => 12,
    }
}

/// Whether the values of a type have byte strings of any length.
pub open spec fn is_variable(d: DatumView) -> bool {
    d is Text || d is Bytes || d is Jsonb
}

/// The bytes of a value in keys before they are escaped.
pub open spec fn key_payload(d: DatumView) -> std::result::Result<Seq<u8>, CodecErrorView> {
    match d {
        DatumView::Null => Ok(Seq::empty()),
        DatumView::Boolean(v) => Ok(seq![if v {
            1u8
        } else {
            0u8
        }]),
        DatumView::Int16(v) => Ok(be((v + 0x8000_0000_0000_0000) as nat, 8)),
        DatumView::Int32(v) => Ok(be((v + 0x8000_0000_0000_0000) as nat, 8)),
        DatumView::Int64(v) => Ok(be((v + 0x8000_0000_0000_0000) as nat, 8)),
        DatumView::Float64(bits) => Ok(be(float_key_number(bits), 8)),
        DatumView::Date(v) => Ok(be((v + 0x8000_0000) as nat, 4)),
        DatumView::Timestamp(v) => Ok(be((v + 0x8000_0000_0000_0000) as nat, 8)),
        DatumView::TimestampTz(v) => Ok(be((v + 0x8000_0000_0000_0000) as nat, 8)),
        DatumView::Uuid(v) => Ok(v),
        DatumView::Text(v) => Ok(encode_utf8(v)),
        DatumView::Bytes(v) => Ok(v),
        DatumView::Jsonb(v) => match canonical(v) {
            Ok(text) => Ok(encode_utf8(text)),
            Err(e) => Err(CodecErrorView::InvalidJson(e.message)),
        },
    }
}

/// The ascending key of a value with that payload.
pub open spec fn ascending_key(d: DatumView, payload: Seq<u8>) -> Seq<u8> {
    seq![key_tag(d)] + if is_variable(d) {
        closed(payload)
    } else {
        payload
    }
}

/// The key of a value, or the error for one that has none: a text that is no
/// JSON, or a value that is too long.
pub open spec fn value_key(d: DatumView, descending: bool) -> std::result::Result<
    Seq<u8>,
    CodecErrorView,
> {
    match key_payload(d) {
        Err(e) => Err(e),
        Ok(payload) => if is_variable(d) && payload.len() > 4096 {
            Err(CodecErrorView::Limit("encoded indexed value exceeds 4 KiB"@))
        } else if ascending_key(d, payload).len() > 4098 {
            Err(CodecErrorView::Limit("encoded indexed value exceeds limit"@))
        } else if descending {
            Ok(complement(ascending_key(d, payload)))
        } else {
            Ok(ascending_key(d, payload))
        },
    }
}

fn put_escaped(out: &mut Vec<u8>, bytes: &[u8])
    ensures
        final(out)@ == old(out)@ + escaped(bytes@),
{
    let mut i: usize = 0;
    assert(bytes@.subrange(0, bytes@.len() as int) == bytes@);
    while i < bytes.len()
        invariant
            i <= bytes@.len(),
            out@ + escaped(bytes@.subrange(i as int, bytes@.len() as int)) == old(out)@ + escaped(
                bytes@,
            ),
        decreases bytes@.len() - i,
    {
        let ghost rest = bytes@.subrange(i as int, bytes@.len() as int);
        let ghost before = out@;
        assert(rest.drop_first() == bytes@.subrange(i + 1, bytes@.len() as int));
        if bytes[i] == 0 {
            out.push(0);
            out.push(255);
            assert(out@ + escaped(rest.drop_first()) == before + escaped(rest));
        } else {
            out.push(bytes[i]);
            assert(out@ + escaped(rest.drop_first()) == before + escaped(rest));
        }
        i += 1;
    }
    assert(out@ + escaped(bytes@.subrange(i as int, bytes@.len() as int)) == out@);
}

fn float_key(bits: u64) -> (number: u64)
    ensures
        number == float_key_number(bits as nat),
{
    let magnitude: u64 = bits % 0x8000_0000_0000_0000;
    if magnitude > 0x7ff0_0000_0000_0000 {
        0xfff8_0000_0000_0000
    } else if magnitude == 0 {
        0x8000_0000_0000_0000
    } else if bits >= 0x8000_0000_0000_0000 {
        0xffff_ffff_ffff_ffff - bits
    } else {
        bits + 0x8000_0000_0000_0000
    }
}

fn biased(value: i64) -> (number: u64)
    ensures
        number == value + 0x8000_0000_0000_0000,
{
    if value >= 0 {
        value as u64 + 0x8000_0000_0000_0000
    } else {
        (value - i64::MIN) as u64
    }
}

fn number_payload(number: u64) -> (bytes: Vec<u8>)
    ensures
        bytes@ == be(number as nat, 8),
{
    let mut bytes: Vec<u8> = Vec::new();
    put_u64(&mut bytes, number);
    assert(bytes@ == be(number as nat, 8));
    bytes
}

fn payload_of(d: &Datum) -> (payload: CodecResult<Vec<u8>>)
    ensures
        match payload {
            Ok(bytes) => key_payload(d@) == Ok::<_, CodecErrorView>(bytes@),
            Err(e) => key_payload(d@) == Err::<Seq<u8>, _>(e@),
        },
{
    match d {
        Datum::Null => Ok(Vec::new()),
        Datum::Boolean(v) => {
            let mut bytes: Vec<u8> = Vec::new();
            if *v {
                bytes.push(1);
            } else {
                bytes.push(0);
            }
            assert(bytes@ == seq![if *v {
                1u8
            } else {
                0u8
            }]);
            Ok(bytes)
        },
        Datum::Int16(v) => Ok(number_payload(biased(*v as i64))),
        Datum::Int32(v) => Ok(number_payload(biased(*v as i64))),
        Datum::Int64(v) => Ok(number_payload(biased(*v))),
        Datum::Float64(v) => Ok(number_payload(float_key(*v))),
        Datum::Date(v) => {
            let mut bytes: Vec<u8> = Vec::new();
            put_be(&mut bytes, (*v as i64 + 0x8000_0000) as u64, 4);
            assert(bytes@ == be((*v + 0x8000_0000) as nat, 4));
            Ok(bytes)
        },
        Datum::Timestamp(v) => Ok(number_payload(biased(*v))),
        Datum::TimestampTz(v) => Ok(number_payload(biased(*v))),
        Datum::Uuid(v) => Ok(copy_bytes(v.as_slice())),
        Datum::Text(v) => Ok(text_bytes(v.as_str())),
        Datum::Bytes(v) => Ok(copy_bytes(v.as_slice())),
        Datum::Jsonb(v) => match Datum::canonical_json(v.as_str()) {
            Ok(text) => Ok(text_bytes(text.as_str())),
            Err(e) => Err(CodecError::InvalidJson(e.message)),
        },
    }
}

fn tag_of(d: &Datum) -> (tag: u8)
    ensures
        tag == key_tag(d@),
{
    match d {
        Datum::Null => 0,
        Datum::Boolean(_) => 1,
        Datum::Int16(_) => 2,
        Datum::Int32(_) => 2,
        Datum::Int64(_) => 2,
        Datum::Float64(_) => 3,
        Datum::Text(_) => 4,
        Datum::Bytes(_) => 5,
        Datum::Date(_) => 6,
        Datum::Timestamp(_) => 7,
        Datum::TimestampTz(_) => 8,
        Datum::Uuid(_) => 9,
        Datum::Jsonb(_) => 12,
    }
}

fn complement_of(bytes: &[u8]) -> (out: Vec<u8>)
    ensures
        out@ == complement(bytes@),
{
    let mut out: Vec<u8> = Vec::new();
    let mut i: usize = 0;
    while i < bytes.len()
        invariant
            i <= bytes@.len(),
            out@ == complement(bytes@.subrange(0, i as int)),
        decreases bytes@.len() - i,
    {
        out.push(255 - bytes[i]);
        i += 1;
        assert(out@ =~= complement(bytes@.subrange(0, i as int)));
    }
    assert(bytes@.subrange(0, i as int) == bytes@);
    out
}

fn encode_memcomparable_into(out: &mut Vec<u8>, d: &Datum, descending: bool) -> (done: CodecResult<
    (),
>)
    ensures
        match done {
            Ok(()) => value_key(d@, descending) is Ok && final(out)@ == old(out)@ + value_key(
                d@,
                descending,
            )->Ok_0,
            Err(e) => value_key(d@, descending) == Err::<Seq<u8>, _>(e@),
        },
{
    let payload = match payload_of(d) {
        Ok(payload) => payload,
        Err(e) => {
            return Err(e);
        },
    };
    let variable = match d {
        Datum::Text(_) => true,
        Datum::Bytes(_) => true,
        Datum::Jsonb(_) => true,
        _ => false,
    };
    assert(variable == is_variable(d@));
    if variable && payload.len() > MAX_INDEXED_VALUE_BYTES {
        return Err(CodecError::limit("encoded indexed value exceeds 4 KiB"));
    }
    let mut key: Vec<u8> = Vec::new();
    key.push(tag_of(d));
    if variable {
        put_escaped(&mut key, payload.as_slice());
        key.push(0);
        key.push(0);
    } else {
        put_bytes(&mut key, payload.as_slice());
    }
    assert(key@ == ascending_key(d@, payload@));
    if key.len() > MAX_INDEXED_VALUE_BYTES + 2 {
        return Err(CodecError::limit("encoded indexed value exceeds limit"));
    }
    if descending {
        key = complement_of(key.as_slice());
    }
    put_bytes(out, key.as_slice());
    Ok(())
}

/// Whether a result is a key or an error as `key` says.
pub open spec fn agrees(
    key: std::result::Result<Seq<u8>, CodecErrorView>,
    result: CodecResult<Vec<u8>>,
) -> bool {
    match result {
        Ok(bytes) => key == Ok::<_, CodecErrorView>(bytes@),
        Err(e) => key == Err::<Seq<u8>, _>(e@),
    }
}

/// The ascending key of a value.
pub fn encode_memcomparable(d: &Datum) -> (key: CodecResult<Vec<u8>>)
    ensures
        agrees(value_key(d@, false), key),
{
    let mut out: Vec<u8> = Vec::new();
    match encode_memcomparable_into(&mut out, d, false) {
        Ok(()) => {
            assert(out@ == value_key(d@, false)->Ok_0);
            Ok(out)
        },
        Err(e) => Err(e),
    }
}

/// The descending key of a value.
pub fn encode_memcomparable_desc(d: &Datum) -> (key: CodecResult<Vec<u8>>)
    ensures
        agrees(value_key(d@, true), key),
{
    let mut out: Vec<u8> = Vec::new();
    match encode_memcomparable_into(&mut out, d, true) {
        Ok(()) => {
            assert(out@ == value_key(d@, true)->Ok_0);
            Ok(out)
        },
        Err(e) => Err(e),
    }
}

/// The keys of some values one after the other, or the error for the first
/// that has none.
pub open spec fn joined_key(values: Seq<DatumView>, descending: Seq<bool>) -> std::result::Result<
    Seq<u8>,
    CodecErrorView,
>
    decreases values.len(),
{
    if values.len() == 0 {
        Ok(Seq::empty())
    } else {
        match joined_key(values.drop_last(), descending) {
            Err(e) => Err(e),
            Ok(front) => match value_key(values.last(), descending[values.len() - 1]) {
                Err(e) => Err(e),
                Ok(last) => Ok(front + last),
            },
        }
    }
}

/// The key of several values, each in its own direction.
pub open spec fn composite_key(values: Seq<DatumView>, descending: Seq<bool>) -> std::result::Result<
    Seq<u8>,
    CodecErrorView,
> {
    if values.len() != descending.len() {
        Err(CodecErrorView::Malformed("composite direction count mismatch"@))
    } else {
        match joined_key(values, descending) {
            Err(e) => Err(e),
            Ok(key) => if key.len() > 8192 {
                Err(CodecErrorView::Limit("composite key exceeds 8 KiB"@))
            } else {
                Ok(key)
            },
        }
    }
}

proof fn lemma_joined_error(values: Seq<DatumView>, descending: Seq<bool>, n: int)
    requires
        0 <= n <= values.len(),
        joined_key(values.subrange(0, n), descending) is Err,
    ensures
        joined_key(values, descending) == joined_key(values.subrange(0, n), descending),
    decreases values.len() - n,
{
    if n == values.len() {
        assert(values.subrange(0, n) == values);
    } else {
        assert(values.subrange(0, n + 1).drop_last() == values.subrange(0, n));
        lemma_joined_error(values, descending, n + 1);
    }
}

/// Encodes the key of several values.
pub fn encode_composite(values: &[Datum], descending: &[bool]) -> (key: CodecResult<Vec<u8>>)
    ensures
        agrees(composite_key(crate::sorting::views(values@), descending@), key),
{
    let ghost all = crate::sorting::views(values@);
    if values.len() != descending.len() {
        return Err(CodecError::malformed("composite direction count mismatch"));
    }
    let mut out: Vec<u8> = Vec::new();
    let mut i: usize = 0;
    assert(joined_key(all.subrange(0, 0), descending@) == Ok::<_, CodecErrorView>(out@));
    while i < values.len()
        invariant
            all == crate::sorting::views(values@),
            values@.len() == descending@.len(),
            i <= values@.len(),
            joined_key(all.subrange(0, i as int), descending@) == Ok::<_, CodecErrorView>(out@),
        decreases values@.len() - i,
    {
        let ghost wider = all.subrange(0, i + 1);
        assert(wider.drop_last() == all.subrange(0, i as int));
        assert(wider.last() == values@[i as int]@);
        match encode_memcomparable_into(&mut out, &values[i], descending[i]) {
            Ok(()) => {},
            Err(e) => {
                proof {
                    lemma_joined_error(all, descending@, i + 1);
                }
                return Err(e);
            },
        }
        i += 1;
    }
    assert(all.subrange(0, i as int) == all);
    if out.len() > MAX_KEY_BYTES {
        return Err(CodecError::limit("composite key exceeds 8 KiB"));
    }
    Ok(out)
}

/// The least byte string that stands behind everything that begins with a
/// prefix; none where the prefix holds nothing but 255.
pub open spec fn next_prefix(prefix: Seq<u8>) -> Option<Seq<u8>>
    decreases prefix.len(),
{
    if prefix.len() == 0 {
        None
    } else if prefix.last() == 255 {
        next_prefix(prefix.drop_last())
    } else {
        Some(prefix.drop_last().push((prefix.last() + 1) as u8))
    }
}

/// The end of the range of keys that begin with a prefix.
pub fn successor(prefix: &[u8]) -> (end: Option<Vec<u8>>)
    ensures
        match end {
            Some(bytes) => next_prefix(prefix@) == Some(bytes@),
            None => next_prefix(prefix@) is None,
        },
{
    let mut bytes = copy_bytes(prefix);
    while bytes.len() > 0
        invariant
            next_prefix(bytes@) == next_prefix(prefix@),
        decreases bytes@.len(),
    {
        match bytes.pop() {
            Some(last) => {
                if last != 255 {
                    bytes.push(last + 1);
                    return Some(bytes);
                }
            },
            None => {},
        }
    }
    None
}

} // verus!
