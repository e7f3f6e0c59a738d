//! The stored form of a row: its fields by column number, each value with a
//! tag and a length before its bytes.

use crate::bytes::{
    array16, be, be_reads_back, be_value, copy_bytes, lemma_be_value_bound, lemma_span, put_be,
    put_bytes, put_u32, read_be, signed, unwrap_i16, unwrap_i32, unwrap_i64, wrap_i16, wrap_i32,
    wrap_i64, wrapped,
};
use crate::datum::{in_bounds, is_canonical, Datum, DatumView};
use crate::error::{CodecError, CodecErrorView};
use crate::json::{canonical, holds_whole_numbers};
use crate::sorting::{
    in_order, sort, sorting_keeps_sorted, sorting_permutes, views, Ranked, SortItem,
};
use crate::text::utf8_text;
use crate::wire::{first_bytes, first_number, lemma_goes_on, take, take_u32, take_u8, Parsed};
use vstd::prelude::*;
use vstd::string::*;
use vstd::utf8::*;

verus! {

pub const ROW_VERSION: u8 = 1;

/// A row is bounded before it is read, so that a wrong length cannot ask for
/// more.
pub const MAX_ROW_BYTES: usize = 262_144;

type CodecResult<T> = std::result::Result<T, CodecError>;

type CodecOutcome<T> = std::result::Result<T, CodecErrorView>;

// ---------------------------------------------------------------------------
// One value
// ---------------------------------------------------------------------------

/// The tag of a value in rows.
pub open spec fn datum_tag(d: DatumView) -> u8 {
    match d {
        DatumView::Null => 0,
        DatumView::Boolean(_) => 1,
        DatumView::Int16(_) => 2,
        DatumView::Int32(_) => 3,
        DatumView::Int64(_) => 4,
        DatumView::Float64(_) => 5,
        DatumView::Text(_) => 6,
        DatumView::Bytes(_) => 7,
        DatumView::Date(_) => 8,
        DatumView::Timestamp(_) => 9,
        DatumView::TimestampTz(_) => 10,
        DatumView::Uuid(_) => 11,
        DatumView::Jsonb(_) => 12,
    }
}

/// The bytes of a value in rows; a JSON text in its canonical form.
pub open spec fn datum_payload(d: DatumView) -> CodecOutcome<Seq<u8>> {
    match d {
        DatumView::Null => Ok(Seq::empty()),
        DatumView::Boolean(v) => Ok(seq![if v {
            1u8
        } else {
            0u8
        }]),
        DatumView::Int16(v) => Ok(be(wrapped(v, 2), 2)),
        DatumView::Int32(v) => Ok(be(wrapped(v, 4), 4)),
        DatumView::Int64(v) => Ok(be(wrapped(v, 8), 8)),
        DatumView::Float64(bits) => Ok(be(bits, 8)),
        DatumView::Text(v) => Ok(encode_utf8(v)),
        DatumView::Bytes(v) => Ok(v),
        DatumView::Date(v) => Ok(be(wrapped(v, 4), 4)),
        DatumView::Timestamp(v) => Ok(be(wrapped(v, 8), 8)),
        DatumView::TimestampTz(v) => Ok(be(wrapped(v, 8), 8)),
        DatumView::Uuid(v) => Ok(v),
        DatumView::Jsonb(v) => match canonical(v) {
            Ok(text) => Ok(encode_utf8(text)),
            Err(e) => Err(CodecErrorView::InvalidJson(e.message)),
        },
    }
}

/// The bytes of a value, or the error for one that has none or too many.
pub open spec fn bounded_payload(d: DatumView) -> CodecOutcome<Seq<u8>> {
    match datum_payload(d) {
        Err(e) => Err(e),
        Ok(payload) => if payload.len() > 262_144 {
            Err(CodecErrorView::Limit("datum exceeds row limit"@))
        } else {
            Ok(payload)
        },
    }
}

/// A value with its tag and its length.
pub open spec fn datum_bytes(d: DatumView) -> CodecOutcome<Seq<u8>> {
    match bounded_payload(d) {
        Err(e) => Err(e),
        Ok(payload) => Ok(seq![datum_tag(d)] + be(payload.len(), 4) + payload),
    }
}

fn row_payload(d: &Datum) -> (payload: CodecResult<Vec<u8>>)
    ensures
        match payload {
            Ok(bytes) => bounded_payload(d@) == Ok::<_, CodecErrorView>(bytes@),
            Err(e) => bounded_payload(d@) == Err::<Seq<u8>, _>(e@),
        },
{
    let mut bytes: Vec<u8> = Vec::new();
    match d {
        Datum::Null => {},
        Datum::Boolean(v) => {
            if *v {
                bytes.push(1);
            } else {
                bytes.push(0);
            }
        },
        Datum::Int16(v) => {
            put_be(&mut bytes, wrap_i16(*v) as u64, 2);
        },
        Datum::Int32(v) => {
            put_u32(&mut bytes, wrap_i32(*v));
        },
        Datum::Int64(v) => {
            put_be(&mut bytes, wrap_i64(*v), 8);
        },
        Datum::Float64(v) => {
            put_be(&mut bytes, *v, 8);
        },
        Datum::Text(v) => {
            put_bytes(&mut bytes, v.as_str().as_bytes());
        },
        Datum::Bytes(v) => {
            put_bytes(&mut bytes, v.as_slice());
        },
        Datum::Date(v) => {
            put_u32(&mut bytes, wrap_i32(*v));
        },
        Datum::Timestamp(v) => {
            put_be(&mut bytes, wrap_i64(*v), 8);
        },
        Datum::TimestampTz(v) => {
            put_be(&mut bytes, wrap_i64(*v), 8);
        },
        Datum::Uuid(v) => {
            put_bytes(&mut bytes, v.as_slice());
        },
        Datum::Jsonb(v) => match Datum::canonical_json(v.as_str()) {
            Ok(text) => {
                put_bytes(&mut bytes, text.as_str().as_bytes());
            },
            Err(e) => {
                return Err(CodecError::InvalidJson(e.message));
            },
        },
    }
    assert(datum_payload(d@) is Ok && bytes@ =~= datum_payload(d@)->Ok_0);
    if bytes.len() > MAX_ROW_BYTES {
        return Err(CodecError::limit("datum exceeds row limit"));
    }
    Ok(bytes)
}

fn row_tag(d: &Datum) -> (tag: u8)
    ensures
        tag == datum_tag(d@),
{
    match d {
        Datum::Null => 0,
        Datum::Boolean(_) => 1,
        Datum::Int16(_) => 2,
        Datum::Int32(_) => 3,
        Datum::Int64(_) => 4,
        Datum::Float64(_) => 5,
        Datum::Text(_) => 6,
        Datum::Bytes(_) => 7,
        Datum::Date(_) => 8,
        Datum::Timestamp(_) => 9,
        Datum::TimestampTz(_) => 10,
        Datum::Uuid(_) => 11,
        Datum::Jsonb(_) => 12,
    }
}

fn encode_datum(out: &mut Vec<u8>, d: &Datum) -> (done: CodecResult<()>)
    ensures
        match done {
            Ok(()) => datum_bytes(d@) is Ok && final(out)@ == old(out)@ + datum_bytes(d@)->Ok_0,
            Err(e) => datum_bytes(d@) == Err::<Seq<u8>, _>(e@) && final(out)@ == old(out)@,
        },
{
    match row_payload(d) {
        Ok(payload) => {
            out.push(row_tag(d));
            put_u32(out, payload.len() as u32);
            put_bytes(out, payload.as_slice());
            assert(out@ == old(out)@ + datum_bytes(d@)->Ok_0);
            Ok(())
        },
        Err(e) => Err(e),
    }
}

/// The length of a value's bytes, which the storage budget counts.
fn datum_payload_len(d: &Datum) -> (len: CodecResult<usize>)
    ensures
        match len {
            Ok(n) => bounded_payload(d@) is Ok && bounded_payload(d@)->Ok_0.len() == n,
            Err(e) => bounded_payload(d@) == Err::<Seq<u8>, _>(e@),
        },
{
    match row_payload(d) {
        Ok(payload) => Ok(payload.len()),
        Err(e) => Err(e),
    }
}

/// One value with its tag and its length, the stable form that digests are
/// made of.
pub fn encode_datum_v1(d: &Datum) -> (bytes: CodecResult<Vec<u8>>)
    ensures
        match bytes {
            Ok(b) => datum_bytes(d@) == Ok::<_, CodecErrorView>(b@),
            Err(e) => datum_bytes(d@) == Err::<Seq<u8>, _>(e@),
        },
{
    let mut out: Vec<u8> = Vec::new();
    match encode_datum(&mut out, d) {
        Ok(()) => {
            assert(out@ == datum_bytes(d@)->Ok_0);
            Ok(out)
        },
        Err(e) => Err(e),
    }
}

/// The value that a tag and its bytes stand for.
pub open spec fn datum_from(tag: nat, p: Seq<u8>) -> CodecOutcome<DatumView> {
    if tag == 0 && p.len() == 0 {
        Ok(DatumView::Null)
    } else if tag == 1 && p.len() == 1 && p[0] <= 1 {
        Ok(DatumView::Boolean(p[0] != 0))
    } else if tag == 2 && p.len() == 2 {
        Ok(DatumView::Int16(signed(be_value(p), 2)))
    } else if tag == 3 && p.len() == 4 {
        Ok(DatumView::Int32(signed(be_value(p), 4)))
    } else if tag == 4 && p.len() == 8 {
        Ok(DatumView::Int64(signed(be_value(p), 8)))
    } else if tag == 5 && p.len() == 8 {
        Ok(DatumView::Float64(be_value(p)))
    } else if tag == 6 {
        if valid_utf8(p) {
            Ok(DatumView::Text(decode_utf8(p)))
        } else {
            Err(CodecErrorView::InvalidUtf8)
        }
    } else if tag == 7 {
        Ok(DatumView::Bytes(p))
    } else if tag == 8 && p.len() == 4 {
        Ok(DatumView::Date(signed(be_value(p), 4)))
    } else if tag == 9 && p.len() == 8 {
        Ok(DatumView::Timestamp(signed(be_value(p), 8)))
    } else if tag == 10 && p.len() == 8 {
        Ok(DatumView::TimestampTz(signed(be_value(p), 8)))
    } else if tag == 11 && p.len() == 16 {
        Ok(DatumView::Uuid(p))
    } else if tag == 12 {
        if !valid_utf8(p) {
            Err(CodecErrorView::InvalidUtf8)
        } else {
            match canonical(decode_utf8(p)) {
                Ok(text) => Ok(DatumView::Jsonb(text)),
                Err(e) => Err(CodecErrorView::InvalidJson(e.message)),
            }
        }
    } else {
        Err(CodecErrorView::InvalidTag(tag))
    }
}

/// The value that stands first in a byte string.
pub open spec fn first_datum(input: Seq<u8>) -> Parsed<DatumView> {
    match first_number(input, 1) {
        Err(e) => Err(e),
        Ok((tag, input)) => match first_number(input, 4) {
            Err(e) => Err(e),
            Ok((len, input)) => if len > 262_144 {
                Err(CodecErrorView::Limit("datum exceeds limit"@))
            } else {
                match first_bytes(input, len as int) {
                    Err(e) => Err(e),
                    Ok((p, rest)) => match datum_from(tag, p) {
                        Err(e) => Err(e),
                        Ok(d) => Ok((d, rest)),
                    },
                }
            },
        },
    }
}

fn datum_of(tag: u8, p: &[u8]) -> (d: CodecResult<Datum>)
    ensures
        match d {
            Ok(v) => datum_from(tag as nat, p@) == Ok::<_, CodecErrorView>(v@),
            Err(e) => datum_from(tag as nat, p@) == Err::<DatumView, _>(e@),
        },
{
    let len: usize = p.len();
    proof {
        lemma_be_value_bound(p@);
        lemma_span();
    }
    if tag == 0 && len == 0 {
        Ok(Datum::Null)
    } else if tag == 1 && len == 1 && p[0] <= 1 {
        Ok(Datum::Boolean(p[0] != 0))
    } else if tag == 2 && len == 2 {
        Ok(Datum::Int16(unwrap_i16(read_be(p) as u16)))
    } else if tag == 3 && len == 4 {
        Ok(Datum::Int32(unwrap_i32(read_be(p) as u32)))
    } else if tag == 4 && len == 8 {
        Ok(Datum::Int64(unwrap_i64(read_be(p))))
    } else if tag == 5 && len == 8 {
        Ok(Datum::Float64(read_be(p)))
    } else if tag == 6 {
        match utf8_text(p) {
            Some(text) => Ok(Datum::Text(text)),
            None => Err(CodecError::InvalidUtf8),
        }
    } else if tag == 7 {
        Ok(Datum::Bytes(copy_bytes(p)))
    } else if tag == 8 && len == 4 {
        Ok(Datum::Date(unwrap_i32(read_be(p) as u32)))
    } else if tag == 9 && len == 8 {
        Ok(Datum::Timestamp(unwrap_i64(read_be(p))))
    } else if tag == 10 && len == 8 {
        Ok(Datum::TimestampTz(unwrap_i64(read_be(p))))
    } else if tag == 11 && len == 16 {
        Ok(Datum::Uuid(array16(p)))
    } else if tag == 12 {
        match utf8_text(p) {
            Some(text) => match Datum::canonical_json(text.as_str()) {
                Ok(text) => Ok(Datum::Jsonb(text)),
                Err(e) => Err(CodecError::InvalidJson(e.message)),
            },
            None => Err(CodecError::InvalidUtf8),
        }
    } else {
        Err(CodecError::InvalidTag(tag))
    }
}

fn decode_datum(input: &mut &[u8]) -> (d: CodecResult<Datum>)
    ensures
        match d {
            Ok(v) => first_datum((*old(input))@) == Ok::<_, CodecErrorView>(
                (v@, (*final(input))@),
            ),
            Err(e) => first_datum((*old(input))@) == Err::<(DatumView, Seq<u8>), _>(e@),
        },
{
    let tag = match take_u8(input) {
        Ok(tag) => tag,
        Err(e) => {
            return Err(e);
        },
    };
    let len = match take_u32(input) {
        Ok(len) => len,
        Err(e) => {
            return Err(e);
        },
    };
    if len as usize > MAX_ROW_BYTES {
        return Err(CodecError::limit("datum exceeds limit"));
    }
    match take(input, len as usize) {
        Ok(p) => datum_of(tag, p),
        Err(e) => Err(e),
    }
}

/// Reading a value gives back the value that was written, with what stands
/// behind it. Of JSON texts this holds of those in canonical form.
pub proof fn datum_reads_back(d: DatumView, rest: Seq<u8>)
    requires
        in_bounds(d),
        is_canonical(d),
        datum_bytes(d) is Ok,
    ensures
        first_datum(datum_bytes(d)->Ok_0 + rest) == Ok::<_, CodecErrorView>((d, rest)),
{
    let p = bounded_payload(d)->Ok_0;
    let input = datum_bytes(d)->Ok_0 + rest;
    lemma_span();
    be_reads_back(p.len(), 4);
    assert(input.subrange(0, 1) =~= seq![datum_tag(d)]);
    assert(be_value(seq![datum_tag(d)]) == datum_tag(d)) by {
        reveal_with_fuel(be_value, 2);
        assert(seq![datum_tag(d)].drop_last() == Seq::<u8>::empty());
    }
    let i1 = input.subrange(1, input.len() as int);
    assert(i1 =~= be(p.len(), 4) + p + rest);
    assert(i1.subrange(0, 4) =~= be(p.len(), 4));
    let i2 = i1.subrange(4, i1.len() as int);
    assert(i2 =~= p + rest);
    assert(i2.subrange(0, p.len() as int) =~= p);
    assert(i2.subrange(p.len() as int, i2.len() as int) =~= rest);
    match d {
        DatumView::Int16(v) => {
            be_reads_back(wrapped(v, 2), 2);
        },
        DatumView::Int32(v) => {
            be_reads_back(wrapped(v, 4), 4);
        },
        DatumView::Int64(v) => {
            be_reads_back(wrapped(v, 8), 8);
        },
        DatumView::Float64(v) => {
            be_reads_back(v, 8);
        },
        DatumView::Date(v) => {
            be_reads_back(wrapped(v, 4), 4);
        },
        DatumView::Timestamp(v) => {
            be_reads_back(wrapped(v, 8), 8);
        },
        DatumView::TimestampTz(v) => {
            be_reads_back(wrapped(v, 8), 8);
        },
        DatumView::Text(v) => {
            encode_utf8_valid_utf8(v);
            encode_utf8_decode_utf8(v);
        },
        DatumView::Jsonb(v) => {
            encode_utf8_valid_utf8(v);
            encode_utf8_decode_utf8(v);
        },
        _ => {},
    }
    assert(datum_from(datum_tag(d) as nat, p) == Ok::<_, CodecErrorView>(d));
}

// ---------------------------------------------------------------------------
// Rows
// ---------------------------------------------------------------------------

/// The values of a row by the numbers of their columns.
pub type FieldsView = Seq<(u32, DatumView)>;

// Fields stand in the order of their column numbers.
impl Ranked for (u32, DatumView) {
    open spec fn before(self, other: (u32, DatumView)) -> bool {
        self.0 < other.0
    }

    proof fn never_both_ways(a: (u32, DatumView), b: (u32, DatumView)) {
    }

    proof fn order_carries_over(a: (u32, DatumView), b: (u32, DatumView), c: (u32, DatumView)) {
    }
}

impl SortItem for (u32, Datum) {
    fn is_before(&self, other: &(u32, Datum)) -> (before: bool) {
        self.0 < other.0
    }
}

/// A stored row.
#[derive(Clone, Debug, PartialEq, Eq)]
pub struct EncodedRowV1 {
    pub format_version: u8,
    pub schema_version: u32,
    pub fields: Vec<(u32, Datum)>,
}

/// What an [`EncodedRowV1`] holds.
pub struct RowView {
    pub format_version: u8,
    pub schema_version: u32,
    pub fields: FieldsView,
}

impl View for EncodedRowV1 {
    type V = RowView;

    open spec fn view(&self) -> RowView {
        RowView {
            format_version: self.format_version,
            schema_version: self.schema_version,
            fields: views(self.fields@),
        }
    }
}

/// The fields with every JSON text in canonical form, or the error for the
/// first that is no JSON.
pub open spec fn canonical_fields(fields: FieldsView) -> CodecOutcome<FieldsView>
    decreases fields.len(),
{
    if fields.len() == 0 {
        Ok(Seq::empty())
    } else {
        match canonical_fields(fields.drop_last()) {
            Err(e) => Err(e),
            Ok(front) => match fields.last().1 {
                DatumView::Jsonb(v) => match canonical(v) {
                    Ok(text) => Ok(front.push((fields.last().0, DatumView::Jsonb(text)))),
                    Err(e) => Err(CodecErrorView::InvalidJson(e.message)),
                },
                _ => Ok(front.push(fields.last())),
            },
        }
    }
}

/// The fields one after the other, or the error for the first that has no
/// bytes or too many.
pub open spec fn fields_bytes(fields: FieldsView) -> CodecOutcome<Seq<u8>>
    decreases fields.len(),
{
    if fields.len() == 0 {
        Ok(Seq::empty())
    } else {
        match fields_bytes(fields.drop_last()) {
            Err(e) => Err(e),
            Ok(front) => match datum_bytes(fields.last().1) {
                Err(e) => Err(e),
                Ok(bytes) => Ok(front + be(fields.last().0 as nat, 4) + bytes),
            },
        }
    }
}

/// Whether a column occurs twice in fields that are in order.
pub open spec fn repeats_column(fields: FieldsView) -> bool {
    exists|i: int| 0 <= i < fields.len() - 1 && (#[trigger] fields[i]).0 == fields[i + 1].0
}

/// The fields of the row that is made of the given ones, or why none is made.
pub open spec fn row_fields(fields: FieldsView) -> CodecOutcome<FieldsView> {
    if fields.len() > 256 {
        Err(CodecErrorView::Limit("too many row fields"@))
    } else {
        match canonical_fields(fields) {
            Err(e) => Err(e),
            Ok(clean) => {
                let sorted = in_order(clean);
                if repeats_column(sorted) {
                    Err(CodecErrorView::Malformed("duplicate column id"@))
                } else {
                    match fields_bytes(sorted) {
                        Err(e) => Err(e),
                        Ok(bytes) => if 9 + bytes.len() > 262_144 {
                            Err(CodecErrorView::Limit("encoded row exceeds 256 KiB"@))
                        } else {
                            Ok(sorted)
                        },
                    }
                }
            },
        }
    }
}

/// The bytes of a row, or why it has none.
pub open spec fn row_bytes(row: RowView) -> CodecOutcome<Seq<u8>> {
    if row.format_version != 1 {
        Err(CodecErrorView::InvalidVersion(row.format_version as nat))
    } else if row.fields.len() > 256 {
        Err(CodecErrorView::Limit("too many row fields"@))
    } else {
        match fields_bytes(row.fields) {
            Err(e) => Err(e),
            Ok(bytes) => if 9 + bytes.len() > 262_144 {
                Err(CodecErrorView::Limit("encoded row exceeds 256 KiB"@))
            } else {
                Ok(
                    seq![1u8] + be(row.schema_version as nat, 4) + be(row.fields.len(), 4) + bytes,
                )
            },
        }
    }
}

/// The next `n` fields of a byte string, with what stands behind them.
pub open spec fn next_fields(input: Seq<u8>, n: nat) -> Parsed<FieldsView>
    decreases n,
{
    if n == 0 {
        Ok((Seq::empty(), input))
    } else {
        match next_fields(input, (n - 1) as nat) {
            Err(e) => Err(e),
            Ok((front, input)) => match first_number(input, 4) {
                Err(e) => Err(e),
                Ok((id, input)) => match first_datum(input) {
                    Err(e) => Err(e),
                    Ok((d, rest)) => Ok((front.push((id as u32, d)), rest)),
                },
            },
        }
    }
}

/// The row that a byte string holds, or why it holds none.
pub open spec fn row_from(bytes: Seq<u8>) -> CodecOutcome<RowView> {
    if bytes.len() > 262_144 {
        Err(CodecErrorView::Limit("encoded row exceeds 256 KiB"@))
    } else {
        match first_number(bytes, 1) {
            Err(e) => Err(e),
            Ok((version, input)) => if version != 1 {
                Err(CodecErrorView::InvalidVersion(version))
            } else {
                match first_number(input, 4) {
                    Err(e) => Err(e),
                    Ok((schema, input)) => match first_number(input, 4) {
                        Err(e) => Err(e),
                        Ok((n, input)) => if n > 256 {
                            Err(CodecErrorView::Limit("too many row fields"@))
                        } else {
                            match next_fields(input, n) {
                                Err(e) => Err(e),
                                Ok((fields, rest)) => if rest.len() > 0 {
                                    Err(CodecErrorView::Malformed("trailing row bytes"@))
                                } else {
                                    match row_fields(fields) {
                                        Err(e) => Err(e),
                                        Ok(fields) => Ok(
                                            RowView {
                                                format_version: 1,
                                                schema_version: schema as u32,
                                                fields,
                                            },
                                        ),
                                    }
                                },
                            }
                        },
                    },
                }
            },
        }
    }
}

proof fn lemma_canonical_error(fields: FieldsView, n: int)
    requires
        0 <= n <= fields.len(),
        canonical_fields(fields.subrange(0, n)) is Err,
    ensures
        canonical_fields(fields) == canonical_fields(fields.subrange(0, n)),
    decreases fields.len() - n,
{
    if n == fields.len() {
        assert(fields.subrange(0, n) == fields);
    } else {
        assert(fields.subrange(0, n + 1).drop_last() == fields.subrange(0, n));
        lemma_canonical_error(fields, n + 1);
    }
}

proof fn lemma_bytes_error(fields: FieldsView, n: int)
    requires
        0 <= n <= fields.len(),
        fields_bytes(fields.subrange(0, n)) is Err,
    ensures
        fields_bytes(fields) == fields_bytes(fields.subrange(0, n)),
    decreases fields.len() - n,
{
    if n == fields.len() {
        assert(fields.subrange(0, n) == fields);
    } else {
        assert(fields.subrange(0, n + 1).drop_last() == fields.subrange(0, n));
        lemma_bytes_error(fields, n + 1);
    }
}

proof fn lemma_next_error(input: Seq<u8>, n: nat, m: nat)
    requires
        n <= m,
        next_fields(input, n) is Err,
    ensures
        next_fields(input, m) == next_fields(input, n),
    decreases m - n,
{
    if n < m {
        lemma_next_error(input, n, (m - 1) as nat);
    }
}

/// Whether every JSON text among some fields writes whole numbers only.
pub open spec fn whole_fields(fields: FieldsView) -> bool {
    forall|i: int|
        0 <= i < fields.len() ==> ((#[trigger] fields[i]).1 matches DatumView::Jsonb(v)
            ==> holds_whole_numbers(v))
}

/// Whether every field lies within the bounds of its type and every JSON text
/// among them is its own canonical form.
pub open spec fn settled(fields: FieldsView) -> bool {
    forall|i: int|
        0 <= i < fields.len() ==> is_canonical((#[trigger] fields[i]).1) && in_bounds(fields[i].1)
}

/// Whether a row has bytes, and is read back from them.
pub open spec fn is_read_back(row: RowView) -> bool {
    row_bytes(row) matches Ok(bytes) && row_from(bytes) == Ok::<_, CodecErrorView>(row)
}

fn clean_fields(fields: Vec<(u32, Datum)>) -> (clean: CodecResult<Vec<(u32, Datum)>>)
    ensures
        match clean {
            Ok(c) => canonical_fields(views(fields@)) == Ok::<_, CodecErrorView>(views(c@)),
            Err(e) => canonical_fields(views(fields@)) == Err::<FieldsView, _>(e@),
        },
        clean matches Ok(c) ==> whole_fields(views(fields@)) ==> settled(views(c@)),
{
    let ghost all = views(fields@);
    let mut clean: Vec<(u32, Datum)> = Vec::new();
    let mut i: usize = 0;
    assert(views(clean@) == canonical_fields(all.subrange(0, 0))->Ok_0);
    while i < fields.len()
        invariant
            all == views(fields@),
            i <= fields@.len(),
            canonical_fields(all.subrange(0, i as int)) == Ok::<_, CodecErrorView>(
                views(clean@),
            ),
            whole_fields(all) ==> settled(views(clean@)),
        decreases fields@.len() - i,
    {
        let ghost wider = all.subrange(0, i + 1);
        let ghost before = clean@;
        assert(wider.drop_last() == all.subrange(0, i as int));
        assert(wider.last() == (fields@[i as int].0, fields@[i as int].1@));
        let id: u32 = fields[i].0;
        let datum = match &fields[i].1 {
            Datum::Jsonb(v) => match Datum::canonical_json(v.as_str()) {
                Ok(text) => Datum::Jsonb(text),
                Err(e) => {
                    proof {
                        lemma_canonical_error(all, i + 1);
                    }
                    return Err(CodecError::InvalidJson(e.message));
                },
            },
            other => other.copied(),
        };
        let ghost added = (id, datum@);
        clean.push((id, datum));
        assert(views(clean@) == views(before).push(added));
        assert(all[i as int] == wider.last());
        i += 1;
    }
    assert(all.subrange(0, i as int) == all);
    Ok(clean)
}

fn has_repeat(fields: &Vec<(u32, Datum)>) -> (repeat: bool)
    ensures
        repeat == repeats_column(views(fields@)),
{
    let ghost all = views(fields@);
    let mut i: usize = 1;
    while i < fields.len()
        invariant
            all == views(fields@),
            1 <= i,
            fields@.len() > 0 ==> i <= fields@.len(),
            forall|k: int| 0 <= k < i - 1 ==> (#[trigger] all[k]).0 != all[k + 1].0,
        decreases fields@.len() - i,
    {
        if fields[i - 1].0 == fields[i].0 {
            assert(all[i - 1].0 == all[i - 1 + 1].0);
            return true;
        }
        i += 1;
    }
    false
}

// The number of bytes of the fields, where each has them.
fn fields_len(fields: &Vec<(u32, Datum)>) -> (len: CodecResult<usize>)
    requires
        fields@.len() <= 256,
    ensures
        match len {
            Ok(n) => fields_bytes(views(fields@)) is Ok && fields_bytes(
                views(fields@),
            )->Ok_0.len() == n,
            Err(e) => fields_bytes(views(fields@)) == Err::<Seq<u8>, _>(e@),
        },
{
    let ghost all = views(fields@);
    let mut total: usize = 0;
    let mut i: usize = 0;
    assert(fields_bytes(all.subrange(0, 0))->Ok_0.len() == 0);
    while i < fields.len()
        invariant
            all == views(fields@),
            i <= fields@.len() <= 256,
            fields_bytes(all.subrange(0, i as int)) is Ok,
            total == fields_bytes(all.subrange(0, i as int))->Ok_0.len(),
            total <= i * 262_153,
        decreases fields@.len() - i,
    {
        let ghost wider = all.subrange(0, i + 1);
        assert(wider.drop_last() == all.subrange(0, i as int));
        assert(wider.last() == (fields@[i as int].0, fields@[i as int].1@));
        match datum_payload_len(&fields[i].1) {
            Ok(len) => {
                proof {
                    crate::bytes::lemma_be_len(fields@[i as int].0 as nat, 4);
                    crate::bytes::lemma_be_len(len as nat, 4);
                }
                total = total + (4 + 1 + 4 + len);
            },
            Err(e) => {
                proof {
                    lemma_bytes_error(all, i + 1);
                }
                return Err(e);
            },
        }
        i += 1;
    }
    assert(all.subrange(0, i as int) == all);
    Ok(total)
}

/// The value of a column in fields that are in the order of their columns.
pub open spec fn field_of(fields: FieldsView, column_id: u32) -> Option<DatumView>
    decreases fields.len(),
{
    if fields.len() == 0 {
        None
    } else if fields.last().0 == column_id {
        Some(fields.last().1)
    } else {
        field_of(fields.drop_last(), column_id)
    }
}

proof fn lemma_field_of(fields: FieldsView, column_id: u32)
    ensures
        field_of(fields, column_id) is None <==> forall|k: int|
            0 <= k < fields.len() ==> (#[trigger] fields[k]).0 != column_id,
        forall|k: int|
            0 <= k < fields.len() && (#[trigger] fields[k]).0 == column_id && (forall|j: int|
                k < j < fields.len() ==> (#[trigger] fields[j]).0 != column_id) ==> field_of(
                fields,
                column_id,
            ) == Some(fields[k].1),
    decreases fields.len(),
{
    if fields.len() > 0 && fields.last().0 != column_id {
        let front = fields.drop_last();
        lemma_field_of(front, column_id);
        assert forall|k: int|
            0 <= k < fields.len() && (#[trigger] fields[k]).0 == column_id && (forall|j: int|
                k < j < fields.len() ==> (#[trigger] fields[j]).0 != column_id) implies field_of(
            fields,
            column_id,
        ) == Some(fields[k].1) by {
            assert(front[k] == fields[k]);
            assert forall|j: int| k < j < front.len() implies (#[trigger] front[j]).0
                != column_id by {
                assert(front[j] == fields[j]);
            }
        }
        if field_of(fields, column_id) is None {
            assert forall|k: int| 0 <= k < fields.len() implies (#[trigger] fields[k]).0
                != column_id by {
                if k < front.len() {
                    assert(front[k] == fields[k]);
                }
            }
        } else {
            let k = choose|k: int| 0 <= k < front.len() && (#[trigger] front[k]).0 == column_id;
            assert(fields[k].0 == column_id);
        }
    }
}

/// Whether the columns of a row stand in strictly ascending order.
pub open spec fn columns_ascend(fields: FieldsView) -> bool {
    forall|i: int, j: int|
        0 <= i < j < fields.len() ==> (#[trigger] fields[i]).0 < (#[trigger] fields[j]).0
}

impl EncodedRowV1 {
    /// Makes a row of some fields: in the order of their columns, each column
    /// once, with JSON texts in canonical form. Where the JSON texts write whole
    /// numbers only, the row is read back from its bytes.
    pub fn new(schema_version: u32, fields: Vec<(u32, Datum)>) -> (row: CodecResult<EncodedRowV1>)
        ensures
            match row {
                Ok(r) => row_fields(views(fields@)) is Ok && r@ == (RowView {
                    format_version: 1,
                    schema_version,
                    fields: row_fields(views(fields@))->Ok_0,
                }),
                Err(e) => row_fields(views(fields@)) == Err::<FieldsView, _>(e@),
            },
            row matches Ok(r) ==> whole_fields(views(fields@)) ==> is_read_back(r@),
    {
        if fields.len() > 256 {
            return Err(CodecError::limit("too many row fields"));
        }
        let ghost given = views(fields@);
        let clean = match clean_fields(fields) {
            Ok(clean) => clean,
            Err(e) => {
                return Err(e);
            },
        };
        proof {
            lemma_canonical_len(given);
            sorting_permutes(views(clean@));
            if whole_fields(given) {
                lemma_settled_in_order(views(clean@));
                if row_fields(given) is Ok {
                    row_reads_back(schema_version, given);
                }
            }
        }
        let sorted = sort(clean);
        if has_repeat(&sorted) {
            return Err(CodecError::malformed("duplicate column id"));
        }
        assert(views(sorted@).len() == sorted@.len());
        match fields_len(&sorted) {
            Ok(len) => {
                if len > MAX_ROW_BYTES - 9 {
                    return Err(CodecError::limit("encoded row exceeds 256 KiB"));
                }
                Ok(EncodedRowV1 { format_version: ROW_VERSION, schema_version, fields: sorted })
            },
            Err(e) => Err(e),
        }
    }

    #[verifier::loop_isolation(false)]
    pub fn encode(&self) -> (bytes: CodecResult<Vec<u8>>)
        ensures
            match bytes {
                Ok(b) => row_bytes(self@) == Ok::<_, CodecErrorView>(b@),
                Err(e) => row_bytes(self@) == Err::<Seq<u8>, _>(e@),
            },
    {
        if self.format_version != ROW_VERSION {
            return Err(CodecError::InvalidVersion(self.format_version as u64));
        }
        if self.fields.len() > 256 {
            return Err(CodecError::limit("too many row fields"));
        }
        let mut out: Vec<u8> = Vec::new();
        out.push(self.format_version);
        put_u32(&mut out, self.schema_version);
        put_u32(&mut out, self.fields.len() as u32);
        let ghost head = out@;
        let ghost all = views(self.fields@);
        proof {
            crate::bytes::lemma_be_len(self.schema_version as nat, 4);
            crate::bytes::lemma_be_len(all.len(), 4);
        }
        let mut i: usize = 0;
        assert(out@ == head + fields_bytes(all.subrange(0, 0))->Ok_0);
        while i < self.fields.len()
            invariant
                all == views(self.fields@),
                i <= self.fields@.len() <= 256,
                fields_bytes(all.subrange(0, i as int)) is Ok,
                out@ == head + fields_bytes(all.subrange(0, i as int))->Ok_0,
            decreases self.fields@.len() - i,
        {
            let ghost wider = all.subrange(0, i + 1);
            let ghost before = out@;
            assert(wider.drop_last() == all.subrange(0, i as int));
            assert(wider.last() == (self.fields@[i as int].0, self.fields@[i as int].1@));
            put_u32(&mut out, self.fields[i].0);
            match encode_datum(&mut out, &self.fields[i].1) {
                Ok(()) => {},
                Err(e) => {
                    proof {
                        lemma_bytes_error(all, i + 1);
                    }
                    return Err(e);
                },
            }
            i += 1;
            assert(out@ =~= head + fields_bytes(wider)->Ok_0);
        }
        assert(all.subrange(0, i as int) == all);
        if out.len() > MAX_ROW_BYTES {
            return Err(CodecError::limit("encoded row exceeds 256 KiB"));
        }
        assert(out@ == row_bytes(self@)->Ok_0);
        Ok(out)
    }

    #[verifier::loop_isolation(false)]
    pub fn decode(bytes: &[u8]) -> (row: CodecResult<EncodedRowV1>)
        ensures
            match row {
                Ok(r) => row_from(bytes@) == Ok::<_, CodecErrorView>(r@),
                Err(e) => row_from(bytes@) == Err::<RowView, _>(e@),
            },
    {
        if bytes.len() > MAX_ROW_BYTES {
            return Err(CodecError::limit("encoded row exceeds 256 KiB"));
        }
        let mut input = bytes;
        let version = match take_u8(&mut input) {
            Ok(v) => v,
            Err(e) => {
                return Err(e);
            },
        };
        if version != ROW_VERSION {
            return Err(CodecError::InvalidVersion(version as u64));
        }
        let schema = match take_u32(&mut input) {
            Ok(v) => v,
            Err(e) => {
                return Err(e);
            },
        };
        let n = match take_u32(&mut input) {
            Ok(v) => v,
            Err(e) => {
                return Err(e);
            },
        };
        if n > 256 {
            return Err(CodecError::limit("too many row fields"));
        }
        let ghost start = input@;
        let mut fields: Vec<(u32, Datum)> = Vec::new();
        let mut i: u32 = 0;
        assert(views(fields@) == Seq::<(u32, DatumView)>::empty());
        while i < n
            invariant
                i <= n,
                next_fields(start, i as nat) == Ok::<_, CodecErrorView>((views(fields@), input@)),
            decreases n - i,
        {
            let ghost before = fields@;
            let id = match take_u32(&mut input) {
                Ok(v) => v,
                Err(e) => {
                    proof {
                        lemma_next_error(start, (i + 1) as nat, n as nat);
                    }
                    return Err(e);
                },
            };
            let d = match decode_datum(&mut input) {
                Ok(v) => v,
                Err(e) => {
                    proof {
                        lemma_next_error(start, (i + 1) as nat, n as nat);
                    }
                    return Err(e);
                },
            };
            let ghost added = (id, d@);
            fields.push((id, d));
            assert(views(fields@) == views(before).push(added));
            i += 1;
        }
        if input.len() > 0 {
            return Err(CodecError::malformed("trailing row bytes"));
        }
        Self::new(schema, fields)
    }

    /// The value of a column.
    pub fn get(&self, column_id: u32) -> (value: Option<&Datum>)
        requires
            columns_ascend(self@.fields),
        ensures
            match value {
                Some(d) => field_of(self@.fields, column_id) == Some(d@),
                None => field_of(self@.fields, column_id) is None,
            },
    {
        let ghost all = views(self.fields@);
        let mut low: usize = 0;
        let mut high: usize = self.fields.len();
        proof {
            lemma_field_of(all, column_id);
        }
        while low < high
            invariant
                all == views(self.fields@),
                columns_ascend(all),
                low <= high <= self.fields@.len(),
                forall|k: int| 0 <= k < low ==> (#[trigger] all[k]).0 < column_id,
                forall|k: int| high <= k < all.len() ==> (#[trigger] all[k]).0 > column_id,
                field_of(all, column_id) is None <==> forall|k: int|
                    0 <= k < all.len() ==> (#[trigger] all[k]).0 != column_id,
                forall|k: int|
                    0 <= k < all.len() && (#[trigger] all[k]).0 == column_id && (forall|j: int|
                        k < j < all.len() ==> (#[trigger] all[j]).0 != column_id) ==> field_of(
                        all,
                        column_id,
                    ) == Some(all[k].1),
            decreases high - low,
        {
            let mid: usize = low + (high - low) / 2;
            let id: u32 = self.fields[mid].0;
            assert(all[mid as int].0 == id);
            if id == column_id {
                return Some(&self.fields[mid].1);
            } else if id < column_id {
                low = mid + 1;
            } else {
                high = mid;
            }
        }
        None
    }
}

proof fn lemma_canonical_len(fields: FieldsView)
    requires
        canonical_fields(fields) is Ok,
    ensures
        canonical_fields(fields)->Ok_0.len() == fields.len(),
    decreases fields.len(),
{
    if fields.len() > 0 {
        lemma_canonical_len(fields.drop_last());
    }
}

// Fields that are canonical are left as they are.
proof fn lemma_canonical_keeps(fields: FieldsView)
    requires
        forall|i: int| 0 <= i < fields.len() ==> is_canonical((#[trigger] fields[i]).1),
    ensures
        canonical_fields(fields) == Ok::<_, CodecErrorView>(fields),
    decreases fields.len(),
{
    if fields.len() == 0 {
        assert(fields == Seq::<(u32, DatumView)>::empty());
    } else {
        let front = fields.drop_last();
        assert forall|i: int| 0 <= i < front.len() implies is_canonical(
            (#[trigger] front[i]).1,
        ) by {
            assert(front[i] == fields[i]);
        }
        lemma_canonical_keeps(front);
        assert(is_canonical(fields[fields.len() - 1].1));
        assert(front.push(fields.last()) == fields);
    }
}

#[verifier::spinoff_prover]
proof fn lemma_fields_read_back(fields: FieldsView, rest: Seq<u8>)
    requires
        fields_bytes(fields) is Ok,
        settled(fields),
    ensures
        next_fields(fields_bytes(fields)->Ok_0 + rest, fields.len()) == Ok::<_, CodecErrorView>(
            (fields, rest),
        ),
    decreases fields.len(),
{
    if fields.len() == 0 {
        assert(fields_bytes(fields)->Ok_0 + rest =~= rest);
        assert(fields == Seq::<(u32, DatumView)>::empty());
    } else {
        let front = fields.drop_last();
        let (id, d) = fields.last();
        assert forall|i: int| 0 <= i < front.len() implies is_canonical((#[trigger] front[i]).1)
            && in_bounds(front[i].1) by {
            assert(front[i] == fields[i]);
        }
        assert(is_canonical(fields[fields.len() - 1].1));
        let input = fields_bytes(fields)->Ok_0 + rest;
        let tail = be(id as nat, 4) + datum_bytes(d)->Ok_0 + rest;
        assert(input =~= fields_bytes(front)->Ok_0 + tail);
        lemma_fields_read_back(front, tail);
        assert(first_number(tail, 4) == Ok::<_, CodecErrorView>(
            (id as nat, datum_bytes(d)->Ok_0 + rest),
        )) by {
            lemma_span();
            be_reads_back(id as nat, 4);
            assert(tail.subrange(0, 4) =~= be(id as nat, 4));
            assert(tail.subrange(4, tail.len() as int) =~= datum_bytes(d)->Ok_0 + rest);
        }
        datum_reads_back(d, rest);
        assert(front.push(fields.last()) == fields);
    }
}

/// The columns of every row that is made stand in strictly ascending order.
pub proof fn made_rows_ascend(fields: FieldsView)
    requires
        row_fields(fields) is Ok,
    ensures
        columns_ascend(row_fields(fields)->Ok_0),
{
    let clean = canonical_fields(fields)->Ok_0;
    let sorted = in_order(clean);
    sorting_permutes(clean);
    assert forall|i: int, j: int| 0 <= i < j < sorted.len() implies (#[trigger] sorted[i]).0 < (
    #[trigger] sorted[j]).0 by {
        assert(!sorted[j].before(sorted[i]));
        assert(!(sorted[i].0 == sorted[i + 1].0));
        assert(!sorted[i + 1].before(sorted[i]));
        if i + 1 < j {
            assert(!sorted[j].before(sorted[i + 1]));
        }
    }
}

proof fn lemma_settled_in_order(fields: FieldsView)
    requires
        settled(fields),
    ensures
        settled(in_order(fields)),
{
    let held = in_order(fields);
    sorting_permutes(fields);
    assert forall|i: int| 0 <= i < held.len() implies is_canonical((#[trigger] held[i]).1)
        && in_bounds(held[i].1) by {
        held.to_multiset_ensures();
        fields.to_multiset_ensures();
        assert(held.to_multiset().count(held[i]) > 0) by {
            assert(held.contains(held[i]));
        }
        assert(fields.contains(held[i]));
        let k = choose|k: int| 0 <= k < fields.len() && fields[k] == held[i];
        assert(is_canonical(fields[k].1) && in_bounds(fields[k].1));
    }
}

/// A row that was made is read back from its bytes, whatever texts its JSON
/// came from, where the canonical texts that it holds are their own canonical
/// forms.
pub proof fn row_reads_back(schema_version: u32, fields: FieldsView)
    requires
        row_fields(fields) is Ok,
        settled(row_fields(fields)->Ok_0),
    ensures
        is_read_back(
            RowView { format_version: 1, schema_version, fields: row_fields(fields)->Ok_0 },
        ),
{
    let held = row_fields(fields)->Ok_0;
    let row = RowView { format_version: 1, schema_version, fields: held };
    let clean = canonical_fields(fields)->Ok_0;
    lemma_canonical_len(fields);
    sorting_permutes(clean);
    assert(held.len() == fields.len());
    let body = fields_bytes(held)->Ok_0;
    let bytes = row_bytes(row)->Ok_0;
    lemma_span();
    be_reads_back(schema_version as nat, 4);
    be_reads_back(held.len(), 4);
    assert(bytes.len() == 9 + body.len());
    assert(bytes.subrange(0, 1) =~= seq![1u8]);
    assert(be_value(seq![1u8]) == 1) by {
        reveal_with_fuel(be_value, 2);
        assert(seq![1u8].drop_last() == Seq::<u8>::empty());
    }
    let i1 = bytes.subrange(1, bytes.len() as int);
    assert(i1 =~= be(schema_version as nat, 4) + be(held.len(), 4) + body);
    assert(i1.subrange(0, 4) =~= be(schema_version as nat, 4));
    let i2 = i1.subrange(4, i1.len() as int);
    assert(i2 =~= be(held.len(), 4) + body);
    assert(i2.subrange(0, 4) =~= be(held.len(), 4));
    let i3 = i2.subrange(4, i2.len() as int);
    assert(i3 =~= body + Seq::<u8>::empty());
    lemma_fields_read_back(held, Seq::empty());
    lemma_canonical_keeps(held);
    sorting_keeps_sorted(held);
}

proof fn lemma_datum_goes_on(input: Seq<u8>, extra: Seq<u8>)
    ensures
        first_datum(input) matches Ok((d, rest)) ==> first_datum(input + extra) == Ok::<
            _,
            CodecErrorView,
        >((d, rest + extra)),
{
    if let Ok((_, i1)) = first_number(input, 1) {
        lemma_goes_on(input, 1, extra);
        if let Ok((len, i2)) = first_number(i1, 4) {
            lemma_goes_on(i1, 4, extra);
            lemma_goes_on(i2, len as int, extra);
        }
    }
}

proof fn lemma_fields_go_on(input: Seq<u8>, n: nat, extra: Seq<u8>)
    ensures
        next_fields(input, n) matches Ok((fields, rest)) ==> next_fields(input + extra, n) == Ok::<
            _,
            CodecErrorView,
        >((fields, rest + extra)),
    decreases n,
{
    if n > 0 {
        lemma_fields_go_on(input, (n - 1) as nat, extra);
        if let Ok((_, i1)) = next_fields(input, (n - 1) as nat) {
            lemma_goes_on(i1, 4, extra);
            if let Ok((_, i2)) = first_number(i1, 4) {
                lemma_datum_goes_on(i2, extra);
            }
        }
    }
}

/// A row has one end: what holds a row holds none with anything behind it.
pub proof fn rows_refuse_more_bytes(bytes: Seq<u8>, extra: Seq<u8>)
    requires
        row_from(bytes) is Ok,
        extra.len() > 0,
    ensures
        row_from(bytes + extra) is Err,
{
    lemma_goes_on(bytes, 1, extra);
    if let Ok((_, i1)) = first_number(bytes, 1) {
        lemma_goes_on(i1, 4, extra);
        if let Ok((_, i2)) = first_number(i1, 4) {
            lemma_goes_on(i2, 4, extra);
            if let Ok((n, i3)) = first_number(i2, 4) {
                lemma_fields_go_on(i3, n, extra);
                if let Ok((_, rest)) = next_fields(i3, n) {
                    assert((rest + extra).len() > 0);
                }
            }
        }
    }
}

/// A row cannot be cut off: what holds a row holds none without its last bytes,
/// however few of them are missing.
pub proof fn rows_refuse_fewer_bytes(bytes: Seq<u8>, n: int)
    requires
        row_from(bytes) is Ok,
        0 <= n < bytes.len(),
    ensures
        row_from(bytes.subrange(0, n)) is Err,
{
    let (front, back) = (bytes.subrange(0, n), bytes.subrange(n, bytes.len() as int));
    assert(front + back =~= bytes);
    if row_from(front) is Ok {
        rows_refuse_more_bytes(front, back);
    }
}

} // verus!
