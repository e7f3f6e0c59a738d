//! Values on the wire: parameters that clients bind, and results that they are
//! sent.

use crate::bytes::{
    array16, be, be_value, copy_bytes, lemma_be_value_bound, lemma_span, put_be, put_bytes,
    read_be, signed, unwrap_i16, unwrap_i32, unwrap_i64, wrap_i16, wrap_i32, wrap_i64, wrapped,
};
use crate::datum::{Datum, DatumView, FloatTexts, SqlType};
use crate::error::{sql_error, SqlError, SqlErrorView};
use crate::json::{canonical, canonical_json};
use crate::pg_text::{
    parse_bool, parse_bytea_text, parse_date_text, parse_timestamp_text, parse_uuid, read_bool,
    read_bytea, read_date, read_timestamp, read_uuid,
};
use crate::text::{owned, parse_integer, read_integer, same_text, text_bytes, text_chars, utf8_text};
use vstd::prelude::*;
use vstd::string::*;
use vstd::utf8::{decode_utf8, encode_utf8, valid_utf8};

verus! {

/// The most items that one message can hold.
pub const MAX_PROTOCOL_ITEMS: usize = 65_535;

/// The start of the PostgreSQL epoch in microseconds.
pub const EPOCH_MICROS: i64 = 946_684_800_000_000;

// ---------------------------------------------------------------------------
// Texts that write floating-point numbers
// ---------------------------------------------------------------------------

/// The bits of the floating-point numbers that texts write, by the texts.
#[derive(Clone, Debug)]
pub struct FloatReadings {
    pub entries: Vec<(String, u64)>,
}

impl FloatReadings {
    /// The bits that the first entry for a text from `from` on gives.
    pub open spec fn bits_from(self, text: Seq<char>, from: int) -> Option<u64>
        decreases self.entries@.len() - from,
    {
        if from < 0 || from >= self.entries@.len() {
            None
        } else if self.entries@[from].0@ == text {
            Some(self.entries@[from].1)
        } else {
            self.bits_from(text, from + 1)
        }
    }

    /// The bits of the number that a text writes, where it writes one.
    pub open spec fn bits_of(self, text: Seq<char>) -> Option<u64> {
        self.bits_from(text, 0)
    }

    /// Looks a text up.
    pub fn lookup(&self, text: &str) -> (bits: Option<u64>)
        ensures
            bits == self.bits_of(text@),
    {
        let mut i: usize = 0;
        while i < self.entries.len()
            invariant
                i <= self.entries@.len(),
                self.bits_of(text@) == self.bits_from(text@, i as int),
            decreases self.entries@.len() - i,
        {
            if same_text(self.entries[i].0.as_str(), text) {
                return Some(self.entries[i].1);
            }
            i += 1;
        }
        None
    }
}

// ---------------------------------------------------------------------------
// Parameters
// ---------------------------------------------------------------------------

/// A signed number within bounds in decimal notation.
pub open spec fn read_bounded(text: Seq<char>, least: int, most: int) -> Option<int> {
    match read_integer(text) {
        Some(n) => if least <= n <= most {
            Some(n)
        } else {
            None
        },
        None => None,
    }
}

fn parse_bounded(text: &str, least: i64, most: i64) -> (value: Option<i64>)
    ensures
        match value {
            Some(n) => read_bounded(text@, least as int, most as int) == Some(n as int) && least <= n
                <= most,
            None => read_bounded(text@, least as int, most as int) is None,
        },
{
    let chars = text_chars(text);
    match parse_integer(chars.as_slice()) {
        Some(n) => if least <= n && n <= most {
            Some(n)
        } else {
            None
        },
        None => None,
    }
}

/// The value that a text of unknown type writes: a whole number, a
/// floating-point number, a truth value, or the text itself.
pub open spec fn untyped_value(text: Seq<char>, float: Option<u64>) -> DatumView {
    match read_bounded(text, i64::MIN as int, i64::MAX as int) {
        Some(n) => DatumView::Int64(n),
        None => match float {
            Some(bits) => DatumView::Float64(bits as nat),
            None => match read_bool(text) {
                Some(b) => DatumView::Boolean(b),
                None => DatumView::Text(text),
            },
        },
    }
}

/// A value where there is one.
pub open spec fn made<T>(value: Option<T>, make: spec_fn(T) -> DatumView) -> Option<DatumView> {
    match value {
        Some(v) => Some(make(v)),
        None => None,
    }
}

/// The value that a text writes for a type; `float` is the floating-point
/// number that it writes.
pub open spec fn text_param(text: Seq<char>, oid: u32, float: Option<u64>) -> Option<DatumView> {
    if oid == 16 {
        made(read_bool(text), |b: bool| DatumView::Boolean(b))
    } else if oid == 21 {
        made(read_bounded(text, i16::MIN as int, i16::MAX as int), |n: int| DatumView::Int16(n))
    } else if oid == 23 {
        made(read_bounded(text, i32::MIN as int, i32::MAX as int), |n: int| DatumView::Int32(n))
    } else if oid == 20 {
        made(read_bounded(text, i64::MIN as int, i64::MAX as int), |n: int| DatumView::Int64(n))
    } else if oid == 701 {
        made(float, |bits: u64| DatumView::Float64(bits as nat))
    } else if oid == 17 {
        made(read_bytea(text), |b: Seq<u8>| DatumView::Bytes(b))
    } else if oid == 25 || oid == 1043 {
        Some(DatumView::Text(text))
    } else if oid == 1082 {
        made(read_date(text), |d: int| DatumView::Date(d))
    } else if oid == 1114 {
        made(read_timestamp(text), |t: int| DatumView::Timestamp(t))
    } else if oid == 1184 {
        made(read_timestamp(text), |t: int| DatumView::TimestampTz(t))
    } else if oid == 3802 {
        match canonical(text) {
            Ok(json) => Some(DatumView::Jsonb(json)),
            Err(_) => None,
        }
    } else if oid == 2950 {
        made(read_uuid(text), |u: Seq<u8>| DatumView::Uuid(u))
    } else if oid == 0 {
        Some(untyped_value(text, float))
    } else {
        None
    }
}

/// Whether a value came out as it should.
pub open spec fn comes_out(expected: Option<DatumView>, value: Option<Datum>) -> bool {
    match value {
        Some(v) => expected == Some(v@),
        None => expected is None,
    }
}

fn decode_number_text(text: &str, oid: u32) -> (value: Option<Datum>)
    requires
        oid == 21 || oid == 23 || oid == 20,
    ensures
        comes_out(text_param(text@, oid, None), value),
{
    if oid == 21 {
        match parse_bounded(text, i16::MIN as i64, i16::MAX as i64) {
            Some(n) => Some(Datum::Int16(n as i16)),
            None => None,
        }
    } else if oid == 23 {
        match parse_bounded(text, i32::MIN as i64, i32::MAX as i64) {
            Some(n) => Some(Datum::Int32(n as i32)),
            None => None,
        }
    } else {
        match parse_bounded(text, i64::MIN, i64::MAX) {
            Some(n) => Some(Datum::Int64(n)),
            None => None,
        }
    }
}

fn decode_untyped(text: &str, float: Option<u64>) -> (value: Datum)
    ensures
        value@ == untyped_value(text@, float),
{
    match parse_bounded(text, i64::MIN, i64::MAX) {
        Some(n) => Datum::Int64(n),
        None => match float {
            Some(bits) => Datum::Float64(bits),
            None => match parse_bool(text) {
                Some(b) => Datum::Boolean(b),
                None => Datum::Text(owned(text)),
            },
        },
    }
}

/// Reads a parameter in text form.
pub fn decode_text_param(text: &str, oid: u32, float: Option<u64>) -> (value: Option<Datum>)
    ensures
        comes_out(text_param(text@, oid, float), value),
{
    if oid == 16 {
        match parse_bool(text) {
            Some(b) => Some(Datum::Boolean(b)),
            None => None,
        }
    } else if oid == 21 || oid == 23 || oid == 20 {
        decode_number_text(text, oid)
    } else if oid == 701 {
        match float {
            Some(bits) => Some(Datum::Float64(bits)),
            None => None,
        }
    } else if oid == 17 {
        match parse_bytea_text(text) {
            Some(bytes) => Some(Datum::Bytes(bytes)),
            None => None,
        }
    } else if oid == 25 || oid == 1043 {
        Some(Datum::Text(owned(text)))
    } else if oid == 1082 {
        match parse_date_text(text) {
            Some(days) => Some(Datum::Date(days)),
            None => None,
        }
    } else if oid == 1114 {
        match parse_timestamp_text(text) {
            Some(micros) => Some(Datum::Timestamp(micros)),
            None => None,
        }
    } else if oid == 1184 {
        match parse_timestamp_text(text) {
            Some(micros) => Some(Datum::TimestampTz(micros)),
            None => None,
        }
    } else if oid == 3802 {
        match canonical_json(text) {
            Ok(json) => Some(Datum::Jsonb(json)),
            Err(_) => None,
        }
    } else if oid == 2950 {
        match parse_uuid(text) {
            Some(uuid) => Some(Datum::Uuid(uuid)),
            None => None,
        }
    } else if oid == 0 {
        Some(decode_untyped(text, float))
    } else {
        None
    }
}

/// A number of `len` bytes with a sign.
pub open spec fn signed_bytes(bytes: Seq<u8>, len: nat) -> int {
    signed(be_value(bytes), len)
}

/// A moved number that still fits.
pub open spec fn moved(value: int, by: int, least: int, most: int) -> Option<int> {
    if least <= value + by <= most {
        Some(value + by)
    } else {
        None
    }
}

/// A text in bytes.
pub open spec fn text_of_bytes(bytes: Seq<u8>) -> Option<Seq<char>> {
    if valid_utf8(bytes) {
        Some(decode_utf8(bytes))
    } else {
        None
    }
}

/// The canonical form of a JSON text, where it is one.
pub open spec fn json_of(text: Option<Seq<char>>) -> Option<Seq<char>> {
    match text {
        Some(t) => match canonical(t) {
            Ok(json) => Some(json),
            Err(_) => None,
        },
        None => None,
    }
}

/// The value that bytes write for a type. Dates and times count from the
/// PostgreSQL epoch.
pub open spec fn binary_param(bytes: Seq<u8>, oid: u32) -> Option<DatumView> {
    let n = bytes.len();
    if oid == 16 && n == 1 && bytes[0] <= 1 {
        Some(DatumView::Boolean(bytes[0] == 1))
    } else if oid == 21 && n == 2 {
        Some(DatumView::Int16(signed_bytes(bytes, 2)))
    } else if oid == 23 && n == 4 {
        Some(DatumView::Int32(signed_bytes(bytes, 4)))
    } else if oid == 20 && n == 8 {
        Some(DatumView::Int64(signed_bytes(bytes, 8)))
    } else if oid == 701 && n == 8 {
        Some(DatumView::Float64(be_value(bytes)))
    } else if oid == 17 {
        Some(DatumView::Bytes(bytes))
    } else if oid == 25 || oid == 1043 {
        made(text_of_bytes(bytes), |t: Seq<char>| DatumView::Text(t))
    } else if oid == 1082 && n == 4 {
        made(
            moved(signed_bytes(bytes, 4), 10_957, i32::MIN as int, i32::MAX as int),
            |d: int| DatumView::Date(d),
        )
    } else if oid == 1114 && n == 8 {
        made(
            moved(signed_bytes(bytes, 8), EPOCH_MICROS as int, i64::MIN as int, i64::MAX as int),
            |t: int| DatumView::Timestamp(t),
        )
    } else if oid == 1184 && n == 8 {
        made(
            moved(signed_bytes(bytes, 8), EPOCH_MICROS as int, i64::MIN as int, i64::MAX as int),
            |t: int| DatumView::TimestampTz(t),
        )
    } else if oid == 2950 && n == 16 {
        Some(DatumView::Uuid(bytes))
    } else if oid == 3802 && n >= 1 && bytes[0] == 1 {
        made(
            json_of(text_of_bytes(bytes.subrange(1, n as int))),
            |t: Seq<char>| DatumView::Jsonb(t),
        )
    } else {
        None
    }
}

fn read_i64_bytes(bytes: &[u8]) -> (value: i64)
    requires
        bytes@.len() == 8,
    ensures
        value == signed_bytes(bytes@, 8),
{
    unwrap_i64(read_be(bytes))
}

fn read_i32_bytes(bytes: &[u8]) -> (value: i32)
    requires
        bytes@.len() == 4,
    ensures
        value == signed_bytes(bytes@, 4),
{
    proof {
        lemma_be_value_bound(bytes@);
        lemma_span();
    }
    unwrap_i32(read_be(bytes) as u32)
}

fn read_i16_bytes(bytes: &[u8]) -> (value: i16)
    requires
        bytes@.len() == 2,
    ensures
        value == signed_bytes(bytes@, 2),
{
    proof {
        lemma_be_value_bound(bytes@);
        lemma_span();
    }
    unwrap_i16(read_be(bytes) as u16)
}

fn decode_binary_json(bytes: &[u8]) -> (value: Option<Datum>)
    ensures
        comes_out(
            made(json_of(text_of_bytes(bytes@)), |t: Seq<char>| DatumView::Jsonb(t)),
            value,
        ),
{
    match utf8_text(bytes) {
        Some(text) => match canonical_json(text.as_str()) {
            Ok(json) => Some(Datum::Jsonb(json)),
            Err(_) => None,
        },
        None => None,
    }
}

/// Reads a parameter in binary form.
pub fn decode_binary_param(bytes: &[u8], oid: u32) -> (value: Option<Datum>)
    ensures
        comes_out(binary_param(bytes@, oid), value),
{
    let n = bytes.len();
    if oid == 16 && n == 1 && bytes[0] <= 1 {
        Some(Datum::Boolean(bytes[0] == 1))
    } else if oid == 21 && n == 2 {
        Some(Datum::Int16(read_i16_bytes(bytes)))
    } else if oid == 23 && n == 4 {
        Some(Datum::Int32(read_i32_bytes(bytes)))
    } else if oid == 20 && n == 8 {
        Some(Datum::Int64(read_i64_bytes(bytes)))
    } else if oid == 701 && n == 8 {
        Some(Datum::Float64(read_be(bytes)))
    } else if oid == 17 {
        Some(Datum::Bytes(copy_bytes(bytes)))
    } else if oid == 25 || oid == 1043 {
        match utf8_text(bytes) {
            Some(text) => Some(Datum::Text(text)),
            None => None,
        }
    } else if oid == 1082 && n == 4 {
        match read_i32_bytes(bytes).checked_add(10_957) {
            Some(days) => Some(Datum::Date(days)),
            None => None,
        }
    } else if oid == 1114 && n == 8 {
        match read_i64_bytes(bytes).checked_add(EPOCH_MICROS) {
            Some(micros) => Some(Datum::Timestamp(micros)),
            None => None,
        }
    } else if oid == 1184 && n == 8 {
        match read_i64_bytes(bytes).checked_add(EPOCH_MICROS) {
            Some(micros) => Some(Datum::TimestampTz(micros)),
            None => None,
        }
    } else if oid == 2950 && n == 16 {
        Some(Datum::Uuid(array16(bytes)))
    } else if oid == 3802 && n >= 1 && bytes[0] == 1 {
        decode_binary_json(vstd::slice::slice_subrange(bytes, 1, n))
    } else {
        None
    }
}

/// The value of a parameter.
pub open spec fn param_outcome(
    bytes: Seq<u8>,
    oid: u32,
    format: u16,
    floats: FloatReadings,
) -> Result<DatumView, SqlErrorView> {
    if format == 0 {
        if !valid_utf8(bytes) {
            Err(sql_error("22021"@, "invalid UTF-8 parameter"@))
        } else {
            let text = decode_utf8(bytes);
            match text_param(text, oid, floats.bits_of(text)) {
                Some(value) => Ok(value),
                None => Err(sql_error("22P02"@, "invalid input syntax for parameter type"@)),
            }
        }
    } else if format == 1 {
        match binary_param(bytes, oid) {
            Some(value) => Ok(value),
            None => Err(sql_error("22P03"@, "invalid binary representation"@)),
        }
    } else {
        Err(sql_error("08P01"@, "invalid parameter format code"@))
    }
}

/// Reads a parameter.
pub fn decode_param(bytes: &[u8], oid: u32, format: u16, floats: &FloatReadings) -> (result: Result<
    Datum,
    SqlError,
>)
    ensures
        match result {
            Ok(value) => param_outcome(bytes@, oid, format, *floats) == Ok::<_, SqlErrorView>(
                value@,
            ),
            Err(e) => param_outcome(bytes@, oid, format, *floats) == Err::<DatumView, _>(e@),
        },
{
    if format == 0 {
        match utf8_text(bytes) {
            None => Err(SqlError::new("22021", "invalid UTF-8 parameter")),
            Some(text) => {
                let float = floats.lookup(text.as_str());
                match decode_text_param(text.as_str(), oid, float) {
                    Some(value) => Ok(value),
                    None => Err(SqlError::new("22P02", "invalid input syntax for parameter type")),
                }
            },
        }
    } else if format == 1 {
        match decode_binary_param(bytes, oid) {
            Some(value) => Ok(value),
            None => Err(SqlError::new("22P03", "invalid binary representation")),
        }
    } else {
        Err(SqlError::new("08P01", "invalid parameter format code"))
    }
}

// ---------------------------------------------------------------------------
// Results
// ---------------------------------------------------------------------------

/// The text form of a value.
pub fn encode_text_result(value: &Datum, floats: &FloatTexts) -> (text: String)
    ensures
        text@ == value@.text(*floats),
{
    value.display_text(floats)
}

/// The bytes of a value in binary form: big-endian numbers, dates and times
/// counted from the PostgreSQL epoch. A value that is not of the type comes in
/// text form, and a time that cannot be moved to that epoch as the epoch
/// itself. The count of a date is taken modulo its 32 bits.
pub open spec fn binary_result(value: DatumView, ty: SqlType, floats: FloatTexts) -> Seq<u8> {
    match (ty, value) {
        (SqlType::Boolean, DatumView::Boolean(b)) => seq![
            if b {
                1u8
            } else {
                0u8
            },
        ],
        (SqlType::Bytea, DatumView::Bytes(b)) => b,
        (SqlType::SmallInt, DatumView::Int16(n)) => be(wrapped(n, 2), 2),
        (SqlType::Integer, DatumView::Int32(n)) => be(wrapped(n, 4), 4),
        (SqlType::BigInt, DatumView::Int64(n)) => be(wrapped(n, 8), 8),
        (SqlType::Double, DatumView::Float64(bits)) => be(bits, 8),
        (SqlType::Text, DatumView::Text(t)) => encode_utf8(t),
        (SqlType::Varchar(_), DatumView::Text(t)) => encode_utf8(t),
        (SqlType::Date, DatumView::Date(d)) => be(((d - 10_957) % 0x1_0000_0000) as nat, 4),
        (SqlType::Timestamp, DatumView::Timestamp(t)) => be(wrapped(from_epoch(t), 8), 8),
        (SqlType::TimestampTz, DatumView::TimestampTz(t)) => be(wrapped(from_epoch(t), 8), 8),
        (SqlType::Uuid, DatumView::Uuid(u)) => u,
        (SqlType::Jsonb, DatumView::Jsonb(j)) => seq![1u8] + encode_utf8(j),
        _ => encode_utf8(value.text(floats)),
    }
}

/// A time counted from the PostgreSQL epoch.
pub open spec fn from_epoch(micros: int) -> int {
    if i64::MIN <= micros - EPOCH_MICROS <= i64::MAX {
        micros - EPOCH_MICROS
    } else {
        0
    }
}

fn number_bytes(bits: u64, len: usize) -> (bytes: Vec<u8>)
    ensures
        bytes@ == be(bits as nat, len as nat),
{
    let mut bytes: Vec<u8> = Vec::new();
    put_be(&mut bytes, bits, len);
    assert(bytes@ =~= be(bits as nat, len as nat));
    bytes
}

fn epoch_bytes(micros: i64) -> (bytes: Vec<u8>)
    ensures
        bytes@ == be(wrapped(from_epoch(micros as int), 8), 8),
{
    let moved = match micros.checked_sub(EPOCH_MICROS) {
        Some(moved) => moved,
        None => 0,
    };
    number_bytes(wrap_i64(moved), 8)
}

fn date_bytes(days: i32) -> (bytes: Vec<u8>)
    ensures
        bytes@ == be(((days - 10_957) % 0x1_0000_0000) as nat, 4),
{
    let count: i64 = days as i64 - 10_957;
    let bits: u64 = if count < 0 {
        (count + 0x1_0000_0000) as u64
    } else {
        count as u64
    };
    proof {
        if count < 0 {
            vstd::arithmetic::div_mod::lemma_fundamental_div_mod_converse(
                count as int,
                0x1_0000_0000,
                -1,
                count + 0x1_0000_0000,
            );
        } else {
            vstd::arithmetic::div_mod::lemma_small_mod(count as nat, 0x1_0000_0000);
        }
    }
    number_bytes(bits, 4)
}

/// Writes a value in binary form.
pub fn encode_binary_result(value: &Datum, ty: SqlType, floats: &FloatTexts) -> (bytes: Vec<u8>)
    ensures
        bytes@ == binary_result(value@, ty, *floats),
{
    match (ty, value) {
        (SqlType::Boolean, Datum::Boolean(b)) => {
            let mut out: Vec<u8> = Vec::new();
            out.push(
                if *b {
                    1
                } else {
                    0
                },
            );
            assert(out@ =~= binary_result(value@, ty, *floats));
            out
        },
        (SqlType::Bytea, Datum::Bytes(b)) => copy_bytes(b.as_slice()),
        (SqlType::SmallInt, Datum::Int16(n)) => number_bytes(wrap_i16(*n) as u64, 2),
        (SqlType::Integer, Datum::Int32(n)) => number_bytes(wrap_i32(*n) as u64, 4),
        (SqlType::BigInt, Datum::Int64(n)) => number_bytes(wrap_i64(*n), 8),
        (SqlType::Double, Datum::Float64(bits)) => number_bytes(*bits, 8),
        (SqlType::Text, Datum::Text(t)) => text_bytes(t.as_str()),
        (SqlType::Varchar(_), Datum::Text(t)) => text_bytes(t.as_str()),
        (SqlType::Date, Datum::Date(d)) => date_bytes(*d),
        (SqlType::Timestamp, Datum::Timestamp(t)) => epoch_bytes(*t),
        (SqlType::TimestampTz, Datum::TimestampTz(t)) => epoch_bytes(*t),
        (SqlType::Uuid, Datum::Uuid(u)) => copy_bytes(u.as_slice()),
        (SqlType::Jsonb, Datum::Jsonb(j)) => {
            let mut out: Vec<u8> = Vec::new();
            out.push(1);
            put_bytes(&mut out, text_bytes(j.as_str()).as_slice());
            assert(out@ =~= binary_result(value@, ty, *floats));
            out
        },
        _ => text_bytes(encode_text_result(value, floats).as_str()),
    }
}

} // verus!
