//! How values, rows, keys, changes and commands are laid out, and which of them
//! can be written.

use crate::bytes::{be, be_reads_back, be_value, lemma_be_len, lemma_span, lex_less, wrapped};
use crate::command::{command_frame, command_json};
use crate::datum::{in_bounds, is_canonical, DatumView};
use crate::error::CodecErrorView;
use crate::json::canonical;
use crate::key::{composite_key, escaped, index_key_bytes, key_fits, row_key_bytes, value_key};
use crate::mutation::{frame, MutationView};
use crate::pg_wire_laws::{lemma_four_bytes, numbers_stand_highest_byte_first, wire_i32, wire_u32};
use crate::row::{
    canonical_fields, columns_ascend, datum_bytes, datum_from, datum_payload, field_of,
    fields_bytes, row_bytes, row_fields, FieldsView, RowView,
};
use crate::sorting::{is_sorted, sorting_keeps_sorted, sorting_permutes, Ranked};
use vstd::prelude::*;
use vstd::utf8::{encode_utf8, valid_utf8};

verus! {

// ---------------------------------------------------------------------------
// Values
// ---------------------------------------------------------------------------

/// The number by which the bytes of a value say its type.
pub open spec fn type_byte(d: DatumView) -> u8 {
    match d {
        DatumView::Null => 0,
        DatumView::Boolean(_) => 1,
        DatumView::Int16(_) => 2,
        DatumView::Int32(_) => 3,
        DatumView::Int64(_) => 4,
        DatumView::Float64(_) => 5,
        DatumView::Text(_) => 6,
        DatumView::Bytes(_) => 7,
        DatumView::Date(_) => 8,
        DatumView::Timestamp(_) => 9,
        DatumView::TimestampTz(_) => 10,
        DatumView::Uuid(_) => 11,
        DatumView::Jsonb(_) => 12,
    }
}

/// The number that eight bytes write in two's complement.
pub open spec fn wire_i64(bytes: Seq<u8>, at: int) -> int {
    wire_i32(bytes, at) * 0x1_0000_0000 + wire_u32(bytes, at + 4)
}

/// Whether bytes are what a value takes behind its type and its length.
pub open spec fn spells(d: DatumView, p: Seq<u8>) -> bool {
    match d {
        DatumView::Null => p.len() == 0,
        DatumView::Boolean(v) => p.len() == 1 && (p[0] == 1 <==> v) && p[0] <= 1,
        DatumView::Int16(v) => p.len() == 2 && p[0] * 0x100 + p[1] - (if p[0] >= 128 {
            0x1_0000int
        } else {
            0
        }) == v,
        DatumView::Int32(v) => p.len() == 4 && wire_i32(p, 0) == v,
        DatumView::Int64(v) => p.len() == 8 && wire_i64(p, 0) == v,
        DatumView::Float64(bits) => p.len() == 8 && wire_u32(p, 0) * 0x1_0000_0000 + wire_u32(p, 4)
            == bits,
        DatumView::Text(v) => p == encode_utf8(v),
        DatumView::Bytes(v) => p == v,
        DatumView::Date(v) => p.len() == 4 && wire_i32(p, 0) == v,
        DatumView::Timestamp(v) => p.len() == 8 && wire_i64(p, 0) == v,
        DatumView::TimestampTz(v) => p.len() == 8 && wire_i64(p, 0) == v,
        DatumView::Uuid(v) => p == v,
        DatumView::Jsonb(v) => canonical(v) matches Ok(text) && p == encode_utf8(text),
    }
}

proof fn lemma_signed_number(v: int, len: nat)
    requires
        len == 2 || len == 4 || len == 8,
        -(crate::bytes::span(len) as int) <= 2 * v < crate::bytes::span(len),
    ensures
        ({
            let p = be(wrapped(v, len), len);
            &&& p.len() == len
            &&& len == 2 ==> p[0] * 0x100 + p[1] - (if p[0] >= 128 {
                0x1_0000int
            } else {
                0
            }) == v
            &&& len == 4 ==> wire_i32(p, 0) == v
            &&& len == 8 ==> wire_i64(p, 0) == v
        }),
{
    lemma_span();
    let n = wrapped(v, len);
    let p = be(n, len);
    be_reads_back(n, len);
    numbers_stand_highest_byte_first(p);
}

/// The bytes of a value are its type, the length of what follows, and the
/// value: numbers in two's complement with the highest byte first, texts in
/// UTF-8. Every value within its bounds has bytes where they take at most 256
/// KiB, and JSON where it is valid.
pub proof fn values_are_laid_out(d: DatumView)
    requires
        in_bounds(d),
    ensures
        datum_bytes(d) matches Ok(bytes) ==> {
            &&& bytes.len() >= 5
            &&& bytes[0] == type_byte(d)
            &&& wire_u32(bytes, 1) == bytes.len() - 5
            &&& spells(d, bytes.subrange(5, bytes.len() as int))
        },
        forall|p: Seq<u8>| #[trigger] spells(d, p) && p.len() <= 262_144 ==> datum_bytes(d) is Ok,
{
    lemma_span();
    match d {
        DatumView::Int16(v) => lemma_signed_number(v, 2),
        DatumView::Int32(v) => lemma_signed_number(v, 4),
        DatumView::Int64(v) => lemma_signed_number(v, 8),
        DatumView::Date(v) => lemma_signed_number(v, 4),
        DatumView::Timestamp(v) => lemma_signed_number(v, 8),
        DatumView::TimestampTz(v) => lemma_signed_number(v, 8),
        DatumView::Float64(bits) => {
            be_reads_back(bits, 8);
            numbers_stand_highest_byte_first(be(bits, 8));
        },
        _ => {},
    }
    if let Ok(bytes) = datum_bytes(d) {
        let p = datum_payload(d)->Ok_0;
        let n = p.len();
        lemma_four_bytes(n);
        be_reads_back(n, 4);
        let four = bytes.subrange(1, 5);
        assert(four =~= be(n, 4));
        numbers_stand_highest_byte_first(four);
        assert(bytes[1] == four[0] && bytes[2] == four[1] && bytes[3] == four[2] && bytes[4]
            == four[3]);
        assert(bytes.subrange(5, bytes.len() as int) =~= p);
    }
}

/// No bytes are read as a value that they do not spell.
pub proof fn values_are_read_as_spelled(tag: nat, p: Seq<u8>)
    ensures
        datum_from(tag, p) matches Ok(d) ==> tag == type_byte(d) && (!(d is Jsonb) ==> spells(d, p)),
{
    lemma_span();
    numbers_stand_highest_byte_first(p);
    if valid_utf8(p) {
        vstd::utf8::decode_utf8_encode_utf8(p);
    }
}

// ---------------------------------------------------------------------------
// Rows
// ---------------------------------------------------------------------------

/// Whether a value is kept as another: JSON in its canonical form, and every
/// other value as it is.
pub open spec fn kept_as(given: DatumView, kept: DatumView) -> bool {
    match given {
        DatumView::Jsonb(v) => kept matches DatumView::Jsonb(text) && canonical(v) == Ok::<
            _,
            crate::error::SqlErrorView,
        >(text),
        _ => kept == given,
    }
}

proof fn lemma_fields_kept(fields: FieldsView)
    requires
        canonical_fields(fields) is Ok,
    ensures
        canonical_fields(fields)->Ok_0.len() == fields.len(),
        forall|i: int|
            0 <= i < fields.len() ==> (#[trigger] canonical_fields(fields)->Ok_0[i]).0
                == fields[i].0 && kept_as(fields[i].1, canonical_fields(fields)->Ok_0[i].1),
    decreases fields.len(),
{
    if fields.len() > 0 {
        lemma_fields_kept(fields.drop_last());
    }
}

proof fn lemma_field_found(fields: FieldsView, i: int)
    requires
        columns_ascend(fields),
        0 <= i < fields.len(),
    ensures
        field_of(fields, fields[i].0) == Some(fields[i].1),
    decreases fields.len(),
{
    if i < fields.len() - 1 {
        assert(fields[i].0 < fields[fields.len() - 1].0);
        let front = fields.drop_last();
        assert(columns_ascend(front)) by {
            assert forall|a: int, b: int| 0 <= a < b < front.len() implies (#[trigger] front[a]).0 < (
            #[trigger] front[b]).0 by {
                assert(fields[a].0 < fields[b].0);
            }
        }
        lemma_field_found(front, i);
    }
}

/// A row that is made has a field for every field that was given and no other,
/// with the value that was given, JSON in its canonical form.
pub proof fn rows_hold_what_was_given(fields: FieldsView, i: int)
    requires
        row_fields(fields) is Ok,
        0 <= i < fields.len(),
    ensures
        row_fields(fields)->Ok_0.len() == fields.len(),
        field_of(row_fields(fields)->Ok_0, fields[i].0) matches Some(kept) && kept_as(
            fields[i].1,
            kept,
        ),
{
    let clean = canonical_fields(fields)->Ok_0;
    let row = row_fields(fields)->Ok_0;
    lemma_fields_kept(fields);
    sorting_permutes(clean);
    crate::row::made_rows_ascend(fields);
    row.to_multiset_ensures();
    clean.to_multiset_ensures();
    assert(clean.contains(clean[i]));
    assert(clean.to_multiset().count(clean[i]) > 0);
    assert(row.contains(clean[i]));
    let k = choose|k: int| 0 <= k < row.len() && row[k] == clean[i];
    lemma_field_found(row, k);
}

/// The bytes that fields take in a row: for each its column, its type, a length
/// and its value.
pub open spec fn fields_size(fields: FieldsView) -> nat
    decreases fields.len(),
{
    if fields.len() == 0 {
        0
    } else {
        fields_size(fields.drop_last()) + 9 + match datum_payload(fields.last().1) {
            Ok(p) => p.len(),
            Err(_) => 0,
        }
    }
}

proof fn lemma_fields_size(fields: FieldsView)
    requires
        fields_size(fields) <= 262_144,
        forall|i: int|
            0 <= i < fields.len() ==> datum_payload((#[trigger] fields[i]).1) is Ok,
    ensures
        fields_bytes(fields) matches Ok(bytes) && bytes.len() == fields_size(fields),
    decreases fields.len(),
{
    if fields.len() > 0 {
        let front = fields.drop_last();
        assert forall|i: int| 0 <= i < front.len() implies datum_payload(
            (#[trigger] front[i]).1,
        ) is Ok by {
            assert(front[i] == fields[i]);
        }
        lemma_fields_size(front);
        assert(datum_payload(fields[fields.len() - 1].1) is Ok);
        lemma_be_len(fields.last().0 as nat, 4);
        lemma_be_len(datum_payload(fields.last().1)->Ok_0.len(), 4);
    }
}

proof fn lemma_kept_as_they_are(fields: FieldsView)
    requires
        forall|i: int| 0 <= i < fields.len() ==> is_canonical((#[trigger] fields[i]).1),
    ensures
        canonical_fields(fields) == Ok::<_, CodecErrorView>(fields),
    decreases fields.len(),
{
    if fields.len() == 0 {
        assert(fields =~= Seq::empty());
    } else {
        let front = fields.drop_last();
        assert forall|i: int| 0 <= i < front.len() implies is_canonical((#[trigger] front[i]).1) by {
            assert(front[i] == fields[i]);
        }
        lemma_kept_as_they_are(front);
        assert(is_canonical(fields[fields.len() - 1].1));
        assert(front.push(fields.last()) =~= fields);
    }
}

/// Fields in the order of their columns make a row as they are, and the row has
/// bytes, where there are at most 256 of them, JSON is canonical, and they take
/// at most 256 KiB together.
pub proof fn fields_that_fit_make_a_row(fields: FieldsView, schema_version: u32)
    requires
        fields.len() <= 256,
        columns_ascend(fields),
        forall|i: int| 0 <= i < fields.len() ==> is_canonical((#[trigger] fields[i]).1),
        9 + fields_size(fields) <= 262_144,
    ensures
        row_fields(fields) == Ok::<_, CodecErrorView>(fields),
        row_bytes(RowView { format_version: 1, schema_version, fields }) matches Ok(bytes)
            && bytes.len() == 9 + fields_size(fields) && bytes[0] == 1 && wire_u32(bytes, 1)
            == schema_version && wire_u32(bytes, 5) == fields.len(),
{
    lemma_kept_as_they_are(fields);
    assert(is_sorted(fields));
    sorting_keeps_sorted(fields);
    assert forall|i: int| 0 <= i < fields.len() implies datum_payload(
        (#[trigger] fields[i]).1,
    ) is Ok by {
        assert(is_canonical(fields[i].1));
    }
    lemma_fields_size(fields);
    assert forall|i: int| 0 <= i < fields.len() - 1 implies (#[trigger] fields[i]).0 != fields[i
        + 1].0 by {
        assert(fields[i].0 < fields[i + 1].0);
    }
    let body = fields_bytes(fields)->Ok_0;
    let (a, b) = (be(schema_version as nat, 4), be(fields.len(), 4));
    lemma_span();
    be_reads_back(schema_version as nat, 4);
    be_reads_back(fields.len(), 4);
    numbers_stand_highest_byte_first(a);
    numbers_stand_highest_byte_first(b);
    let bytes = seq![1u8] + a + b + body;
    assert(bytes[1] == a[0] && bytes[2] == a[1] && bytes[3] == a[2] && bytes[4] == a[3]);
    assert(bytes[5] == b[0] && bytes[6] == b[1] && bytes[7] == b[2] && bytes[8] == b[3]);
}

// ---------------------------------------------------------------------------
// Keys
// ---------------------------------------------------------------------------

/// A key tells its table or index and what follows: rows, entries of an index
/// and entries of a unique index never share a key, and two keys of one kind
/// are equal only where their tables and what follows are.
pub proof fn keys_tell_their_table(a: u32, b: u32, p: Seq<u8>, q: Seq<u8>, r: Seq<u8>, unique: bool)
    ensures
        row_key_bytes(a, p)[0] == 0x20,
        index_key_bytes(a, p, r, false)[0] == 0x21,
        index_key_bytes(a, p, r, true)[0] == 0x22,
        row_key_bytes(a, p) == row_key_bytes(b, q) ==> a == b && p == q,
        index_key_bytes(a, p, r, true) == index_key_bytes(b, q, r, true) ==> a == b && p == q,
        index_key_bytes(a, p, r, false) == index_key_bytes(b, q, r, false) ==> a == b && p == q,
        wire_u32(row_key_bytes(a, p), 1) == a,
        wire_u32(index_key_bytes(a, p, r, unique), 1) == a,
        row_key_bytes(a, p).subrange(5, row_key_bytes(a, p).len() as int) == p,
        index_key_bytes(a, p, r, true).subrange(5, index_key_bytes(a, p, r, true).len() as int)
            == p,
        index_key_bytes(a, p, r, false).subrange(5, index_key_bytes(a, p, r, false).len() as int)
            == p + r,
{
    lemma_key_parts(0x20, a, p);
    lemma_key_parts(0x20, b, q);
    lemma_key_parts(0x22, a, p);
    lemma_key_parts(0x22, b, q);
    lemma_key_parts(0x21, a, p + r);
    lemma_key_parts(0x21, b, q + r);
    assert(index_key_bytes(a, p, r, false) =~= seq![0x21u8] + be(a as nat, 4) + (p + r));
    assert(index_key_bytes(b, q, r, false) =~= seq![0x21u8] + be(b as nat, 4) + (q + r));
    if p + r == q + r {
        assert((p + r).len() == (q + r).len());
        assert(p =~= (p + r).subrange(0, p.len() as int));
        assert(q =~= (q + r).subrange(0, q.len() as int));
    }
}

proof fn lemma_key_parts(kind: u8, id: u32, rest: Seq<u8>)
    ensures
        ({
            let key = seq![kind] + be(id as nat, 4) + rest;
            &&& key.len() == 5 + rest.len()
            &&& wire_u32(key, 1) == id
            &&& key.subrange(5, key.len() as int) == rest
        }),
{
    let key = seq![kind] + be(id as nat, 4) + rest;
    let four = be(id as nat, 4);
    lemma_span();
    be_reads_back(id as nat, 4);
    numbers_stand_highest_byte_first(four);
    assert(key[1] == four[0] && key[2] == four[1] && key[3] == four[2] && key[4] == four[3]);
    assert(key.subrange(5, key.len() as int) =~= rest);
}

/// The number by which the key of a value says its type; integers of every
/// width share one.
pub open spec fn rank_byte(d: DatumView) -> u8 {
    match d {
        DatumView::Null => 0,
        DatumView::Boolean(_) => 1,
        DatumView::Int16(_) => 2,
        DatumView::Int32(_) => 2,
        DatumView::Int64(_) => 2,
        DatumView::Float64(_) => 3,
        DatumView::Text(_) => 4,
        DatumView::Bytes(_) => 5,
        DatumView::Date(_) => 6,
        DatumView::Timestamp(_) => 7,
        DatumView::TimestampTz(_) => 8,
        DatumView::Uuid(_) => 9,
        DatumView::Jsonb(_) => 12,
    }
}

proof fn lemma_escaped_len(bytes: Seq<u8>)
    ensures
        bytes.len() <= escaped(bytes).len() <= 2 * bytes.len(),
    decreases bytes.len(),
{
    if bytes.len() > 0 {
        lemma_escaped_len(bytes.drop_first());
    }
}

/// A value has a key: every one of a fixed width, and a text, a byte string or
/// valid JSON of at most 2,047 bytes; it begins with the number of the type, and
/// the descending key is the ascending one with every byte taken from 255.
pub proof fn values_have_keys(d: DatumView)
    requires
        in_bounds(d),
    ensures
        match d {
            DatumView::Text(v) => encode_utf8(v).len() <= 2_047 ==> value_key(d, false) is Ok,
            DatumView::Bytes(v) => v.len() <= 2_047 ==> value_key(d, false) is Ok,
            DatumView::Jsonb(v) => (canonical(v) matches Ok(text) && encode_utf8(text).len()
                <= 2_047) ==> value_key(d, false) is Ok,
            _ => value_key(d, false) is Ok,
        },
        value_key(d, false) matches Ok(key) ==> key.len() > 0 && key[0] == rank_byte(d)
            && value_key(d, true) == Ok::<_, CodecErrorView>(
            Seq::new(key.len(), |i: int| (255 - key[i]) as u8),
        ),
        value_key(d, false) is Err ==> value_key(d, true) == value_key(d, false),
{
    lemma_be_len(0, 8);
    match d {
        DatumView::Text(v) => lemma_escaped_len(encode_utf8(v)),
        DatumView::Bytes(v) => lemma_escaped_len(v),
        DatumView::Jsonb(v) => {
            if let Ok(text) = canonical(v) {
                lemma_escaped_len(encode_utf8(text));
            }
        },
        DatumView::Int16(v) => lemma_be_len((v + 0x8000_0000_0000_0000) as nat, 8),
        DatumView::Int32(v) => lemma_be_len((v + 0x8000_0000_0000_0000) as nat, 8),
        DatumView::Int64(v) => lemma_be_len((v + 0x8000_0000_0000_0000) as nat, 8),
        DatumView::Timestamp(v) => lemma_be_len((v + 0x8000_0000_0000_0000) as nat, 8),
        DatumView::TimestampTz(v) => lemma_be_len((v + 0x8000_0000_0000_0000) as nat, 8),
        DatumView::Date(v) => lemma_be_len((v + 0x8000_0000) as nat, 4),
        DatumView::Float64(bits) => lemma_be_len(crate::key::float_key_number(bits), 8),
        _ => {},
    }
    if let Ok(key) = value_key(d, false) {
        assert(value_key(d, true)->Ok_0 =~= Seq::new(key.len(), |i: int| (255 - key[i]) as u8));
    }
}

/// The key of one value is its composite key, and the key of a longer list that
/// of the list before its last value with the key of that value behind it.
pub proof fn composite_keys_are_joined(values: Seq<DatumView>, descending: Seq<bool>)
    requires
        values.len() == descending.len() > 0,
    ensures
        ({
            let front = composite_key(values.drop_last(), descending.drop_last());
            let last = value_key(values.last(), descending.last());
            &&& (front matches Ok(a) && (last matches Ok(b) && a.len() + b.len() <= 8_192))
                ==> composite_key(values, descending) == Ok::<_, CodecErrorView>(
                front->Ok_0 + last->Ok_0,
            )
            &&& values.len() == 1 ==> (last matches Ok(b) ==> b.len() <= 8_192 ==> composite_key(
                values,
                descending,
            ) == Ok::<_, CodecErrorView>(b))
        }),
{
    lemma_joined(values.drop_last(), descending, descending.drop_last());
    if values.len() == 1 {
        assert(values.drop_last() =~= Seq::empty());
        if let Ok(b) = value_key(values.last(), descending.last()) {
            assert(Seq::<u8>::empty() + b =~= b);
        }
    }
}

proof fn lemma_joined(values: Seq<DatumView>, a: Seq<bool>, b: Seq<bool>)
    requires
        values.len() <= a.len(),
        values.len() <= b.len(),
        forall|i: int| 0 <= i < values.len() ==> #[trigger] a[i] == b[i],
    ensures
        crate::key::joined_key(values, a) == crate::key::joined_key(values, b),
    decreases values.len(),
{
    if values.len() > 0 {
        lemma_joined(values.drop_last(), a, b);
        assert(a[values.len() - 1] == b[values.len() - 1]);
    }
}

// ---------------------------------------------------------------------------
// Changes and commands
// ---------------------------------------------------------------------------

/// Changes stand in the order of the bytes of their keys.
pub proof fn changes_stand_by_key(a: MutationView, b: MutationView)
    ensures
        ({
            let key = |m: MutationView|
                match m {
                    MutationView::Put { key, .. } => key,
                    MutationView::Delete { key } => key,
                };
            lex_less(key(a), key(b)) ==> a.before(b) && !b.before(a)
        }),
{
    let key = |m: MutationView|
        match m {
            MutationView::Put { key, .. } => key,
            MutationView::Delete { key } => key,
        };
    crate::bytes::lex_total(key(a), key(b));
    crate::bytes::lex_irreflexive(key(a));
}

/// A change is framed by a number, one for a value that is put and two for a
/// key that is deleted, and its key and its value each behind its length.
pub proof fn changes_are_laid_out(m: MutationView)
    requires
        m matches MutationView::Put { key, value } ==> key.len() <= u32::MAX && value.len()
            <= u32::MAX,
        m matches MutationView::Delete { key } ==> key.len() <= u32::MAX,
    ensures
        match m {
            MutationView::Put { key, value } => {
                let b = frame(m);
                &&& b.len() == 9 + key.len() + value.len()
                &&& b[0] == 1
                &&& wire_u32(b, 1) == key.len()
                &&& b.subrange(5, 5 + key.len() as int) == key
                &&& wire_u32(b, 5 + key.len() as int) == value.len()
                &&& b.subrange(9 + key.len() as int, b.len() as int) == value
            },
            MutationView::Delete { key } => {
                let b = frame(m);
                &&& b.len() == 5 + key.len()
                &&& b[0] == 2
                &&& wire_u32(b, 1) == key.len()
                &&& b.subrange(5, b.len() as int) == key
            },
        },
{
    lemma_span();
    let b = frame(m);
    let n = m.key_bytes().len();
    be_reads_back(n, 4);
    numbers_stand_highest_byte_first(be(n, 4));
    let four = be(n, 4);
    assert(b[1] == four[0] && b[2] == four[1] && b[3] == four[2] && b[4] == four[3]);
    match m {
        MutationView::Put { key, value } => {
            be_reads_back(value.len(), 4);
            let len = be(value.len(), 4);
            numbers_stand_highest_byte_first(len);
            let at = 5 + key.len() as int;
            assert(b[at] == len[0] && b[at + 1] == len[1] && b[at + 2] == len[2] && b[at + 3]
                == len[3]);
            assert(b.subrange(5, at) =~= key);
            assert(b.subrange(9 + key.len() as int, b.len() as int) =~= value);
        },
        MutationView::Delete { key } => {
            assert(b.subrange(5, b.len() as int) =~= key);
        },
    }
}

/// A command is framed by its version, its length and its JSON, where that
/// takes at most 4 MiB; and a frame is read exactly where it is one.
pub proof fn commands_are_laid_out(json: Seq<u8>, bytes: Seq<u8>)
    ensures
        command_frame(json) is Ok <==> json.len() <= 4 * 1024 * 1024,
        command_frame(json) matches Ok(b) ==> b.len() == 5 + json.len() && b[0] == 1 && wire_u32(
            b,
            1,
        ) == json.len() && b.subrange(5, b.len() as int) == json,
        command_json(bytes) is Ok <==> 5 <= bytes.len() <= 5 + 4 * 1024 * 1024 && bytes[0] == 1
            && wire_u32(bytes, 1) == bytes.len() - 5,
        command_json(bytes) matches Ok(read) ==> read == bytes.subrange(5, bytes.len() as int),
{
    lemma_span();
    if json.len() <= 4_194_304 {
        lemma_key_like(json);
    }
    if bytes.len() >= 5 {
        let (one, four) = (bytes.subrange(0, 1), bytes.subrange(1, 5));
        reveal_with_fuel(be_value, 2);
        assert(one.drop_last() =~= Seq::empty());
        assert(be_value(one) == bytes[0]);
        let rest = bytes.subrange(1, bytes.len() as int);
        assert(rest.subrange(0, 4) =~= four);
        numbers_stand_highest_byte_first(four);
        let body = rest.subrange(4, rest.len() as int);
        assert(body =~= bytes.subrange(5, bytes.len() as int));
        let n = wire_u32(bytes, 1);
        assert(wire_u32(four, 0) == n);
        if n <= body.len() {
            assert(body.subrange(n, body.len() as int).len() == body.len() - n);
            if n == body.len() {
                assert(body.subrange(0, n) =~= body);
            }
        }
    }
}

proof fn lemma_key_like(json: Seq<u8>)
    requires
        json.len() <= 4_194_304,
    ensures
        ({
            let b = seq![1u8] + be(json.len(), 4) + json;
            &&& b.len() == 5 + json.len()
            &&& b[0] == 1
            &&& wire_u32(b, 1) == json.len()
            &&& b.subrange(5, b.len() as int) == json
        }),
{
    let b = seq![1u8] + be(json.len(), 4) + json;
    let four = be(json.len(), 4);
    lemma_span();
    be_reads_back(json.len(), 4);
    numbers_stand_highest_byte_first(four);
    assert(b[1] == four[0] && b[2] == four[1] && b[3] == four[2] && b[4] == four[3]);
    assert(b.subrange(5, b.len() as int) =~= json);
}

/// A key is stored where it takes at most 8 KiB.
pub proof fn keys_of_eight_kibibytes_are_stored(bytes: Seq<u8>)
    ensures
        key_fits(bytes) <==> bytes.len() <= 8 * 1024,
{
}

} // verus!
