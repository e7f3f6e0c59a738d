//! What values are: their order, their texts and their binary forms, and the
//! calendar that dates go by.

use crate::bytes::{be, be_reads_back, lemma_span, lex_less, wrapped};
use crate::calendar::{day_number, days_before_year, is_date, is_leap, month_length};
use crate::codec_laws::wire_i64;
use crate::datum::{float_is_nan, in_bounds, DatumView, FloatTexts, SqlType};
use crate::error::SqlErrorView;
use crate::json::canonical;
use crate::pg_text::{instant, read_bool};
use crate::pg_values::{binary_param, binary_result, param_outcome, text_param, FloatReadings};
use crate::pg_wire_laws::{numbers_stand_highest_byte_first, wire_i32, wire_u32};
use crate::text::{ascii_lower_text, decimal, digits, hex_chars, number, read_integer, trimmed};
use vstd::prelude::*;
use vstd::string::*;
use vstd::utf8::{decode_utf8, encode_utf8, valid_utf8};

verus! {

// ---------------------------------------------------------------------------
// Order
// ---------------------------------------------------------------------------

/// Values stand in their natural order: integers of whatever width by size,
/// false before true, days and moments by time, texts and byte strings by their
/// bytes.
pub proof fn values_stand_by_size(a: int, b: int, s: Seq<char>, t: Seq<char>, x: Seq<u8>, y: Seq<u8>)
    ensures
        DatumView::Int16(a).before(DatumView::Int16(b)) <==> a < b,
        DatumView::Int16(a).before(DatumView::Int32(b)) <==> a < b,
        DatumView::Int16(a).before(DatumView::Int64(b)) <==> a < b,
        DatumView::Int32(a).before(DatumView::Int16(b)) <==> a < b,
        DatumView::Int32(a).before(DatumView::Int32(b)) <==> a < b,
        DatumView::Int32(a).before(DatumView::Int64(b)) <==> a < b,
        DatumView::Int64(a).before(DatumView::Int16(b)) <==> a < b,
        DatumView::Int64(a).before(DatumView::Int32(b)) <==> a < b,
        DatumView::Int64(a).before(DatumView::Int64(b)) <==> a < b,
        DatumView::Date(a).before(DatumView::Date(b)) <==> a < b,
        DatumView::Timestamp(a).before(DatumView::Timestamp(b)) <==> a < b,
        DatumView::TimestampTz(a).before(DatumView::TimestampTz(b)) <==> a < b,
        DatumView::Boolean(false).before(DatumView::Boolean(true)),
        !DatumView::Boolean(true).before(DatumView::Boolean(false)),
        DatumView::Text(s).before(DatumView::Text(t)) <==> lex_less(
            encode_utf8(s),
            encode_utf8(t),
        ),
        DatumView::Bytes(x).before(DatumView::Bytes(y)) <==> lex_less(x, y),
        DatumView::Uuid(x).before(DatumView::Uuid(y)) <==> lex_less(x, y),
{
    crate::bytes::lex_irreflexive(Seq::empty());
}

/// Floating-point numbers stand by size: of two positive ones the one with the
/// lower bits comes first, of two negative ones the one with the higher bits,
/// and every negative one before every positive one; the two zeros are equal.
pub proof fn floats_stand_by_size(a: nat, b: nat)
    requires
        a < 0x8000_0000_0000_0000,
        b < 0x8000_0000_0000_0000,
        !float_is_nan(a),
        !float_is_nan(b),
    ensures
        DatumView::Float64(a).before(DatumView::Float64(b)) <==> a < b,
        DatumView::Float64(a + 0x8000_0000_0000_0000).before(
            DatumView::Float64(b + 0x8000_0000_0000_0000),
        ) <==> b < a,
        a > 0 || b > 0 ==> DatumView::Float64(a + 0x8000_0000_0000_0000).before(
            DatumView::Float64(b),
        ),
        DatumView::Float64(0).same(DatumView::Float64(0x8000_0000_0000_0000)),
{
    crate::bytes::lex_irreflexive(Seq::empty());
    assert(crate::datum::float_magnitude(a + 0x8000_0000_0000_0000) == a);
    assert(crate::datum::float_magnitude(b + 0x8000_0000_0000_0000) == b);
}

/// Values of different types stand in the order of their types: nothing, truth
/// values, integers, floating-point numbers, texts, byte strings, days, moments
/// without and with a zone, identifiers, JSON.
pub proof fn types_stand_in_order(
    b: bool,
    n: int,
    f: nat,
    t: Seq<char>,
    y: Seq<u8>,
)
    ensures
        DatumView::Null.before(DatumView::Boolean(b)),
        DatumView::Boolean(b).before(DatumView::Int64(n)),
        DatumView::Int64(n).before(DatumView::Float64(f)),
        DatumView::Float64(f).before(DatumView::Text(t)),
        DatumView::Text(t).before(DatumView::Bytes(y)),
        DatumView::Bytes(y).before(DatumView::Date(n)),
        DatumView::Date(n).before(DatumView::Timestamp(n)),
        DatumView::Timestamp(n).before(DatumView::TimestampTz(n)),
        DatumView::TimestampTz(n).before(DatumView::Uuid(y)),
        DatumView::Uuid(y).before(DatumView::Jsonb(t)),
{
}

// ---------------------------------------------------------------------------
// The calendar
// ---------------------------------------------------------------------------

/// The years that have a 29th of February: every fourth, but of the hundreds
/// only every fourth.
pub proof fn leap_years_are_gregorian(year: int)
    ensures
        month_length(year, 2) == (if year % 400 == 0 || (year % 4 == 0 && year % 100 != 0) {
            29int
        } else {
            28
        }),
        month_length(year, 4) == 30 && month_length(year, 6) == 30 && month_length(year, 9) == 30
            && month_length(year, 11) == 30,
        month_length(year, 1) == 31 && month_length(year, 3) == 31 && month_length(year, 5) == 31
            && month_length(year, 7) == 31 && month_length(year, 8) == 31 && month_length(year, 10)
            == 31 && month_length(year, 12) == 31,
{
}

/// Days are counted one by one from the first of January 1970: the day behind a
/// day counts one more, within a month, from month to month and from year to
/// year.
pub proof fn days_follow_one_another(year: int, month: int, day: int)
    requires
        is_date(year, month, day),
    ensures
        day_number(1970, 1, 1) == 0,
        day < month_length(year, month) ==> day_number(year, month, day + 1) == day_number(
            year,
            month,
            day,
        ) + 1,
        day == month_length(year, month) && month < 12 ==> day_number(year, month + 1, 1)
            == day_number(year, month, day) + 1,
        day == month_length(year, month) && month == 12 ==> day_number(year + 1, 1, 1)
            == day_number(year, month, day) + 1,
{
    let y = year - 1;
    assert(days_before_year(year + 1) == days_before_year(year) + 365 + (if is_leap(year) {
        1int
    } else {
        0
    })) by {
        assert(year / 4 == y / 4 + (if year % 4 == 0 {
            1int
        } else {
            0
        }));
        assert(year / 100 == y / 100 + (if year % 100 == 0 {
            1int
        } else {
            0
        }));
        assert(year / 400 == y / 400 + (if year % 400 == 0 {
            1int
        } else {
            0
        }));
        assert(year % 100 == 0 ==> year % 4 == 0);
        assert(year % 400 == 0 ==> year % 100 == 0);
    }
}

/// The moment of a day and a time of day is the number of microseconds from the
/// first of January 1970 to it.
pub proof fn moments_are_counted_in_microseconds(
    days: int,
    hour: int,
    minute: int,
    second: int,
    micros: int,
)
    requires
        -100_000_000 <= days <= 100_000_000,
        0 <= hour < 24,
        0 <= minute < 60,
        0 <= second < 60,
        0 <= micros < 1_000_000,
    ensures
        instant(days, hour, minute, second, micros) == Some(
            (((days * 24 + hour) * 60 + minute) * 60 + second) * 1_000_000 + micros,
        ),
{
}

// ---------------------------------------------------------------------------
// Texts
// ---------------------------------------------------------------------------

/// Digits stand for what they are, and every further digit makes ten of what
/// stands before it.
pub proof fn digits_are_decimal(s: Seq<char>, d: nat)
    requires
        d < 10,
    ensures
        number(Seq::empty()) == 0,
        number(s.push((48 + d) as char)) == 10 * number(s) + d,
{
    let c = (48 + d) as char;
    assert(s.push(c).drop_last() =~= s);
}

/// The text of a natural number is made of digits alone and does not begin with
/// a zero but for zero itself; a negative integer has a minus sign before it.
pub proof fn integers_are_shown_in_decimal(value: int)
    ensures
        value < 0 ==> decimal(value) == seq!['-'] + decimal(-value),
        value >= 0 ==> decimal(value).len() > 0 && number(decimal(value)) == value && (forall|i: int|
            0 <= i < decimal(value).len() ==> '0' <= #[trigger] decimal(value)[i] <= '9') && (value
            > 0 ==> decimal(value)[0] != '0'),
    decreases (if value < 0 {
        -value
    } else {
        value
    }),
{
    if value >= 0 {
        lemma_digits_shape(value as nat);
    }
}

proof fn lemma_digits_shape(value: nat)
    ensures
        digits(value).len() > 0,
        number(digits(value)) == value,
        forall|i: int| 0 <= i < digits(value).len() ==> '0' <= #[trigger] digits(value)[i] <= '9',
        value > 0 ==> digits(value)[0] != '0',
    decreases value,
{
    if value < 10 {
        assert(digits(value).drop_last() =~= Seq::empty());
        reveal_with_fuel(number, 2);
    } else {
        lemma_digits_shape(value / 10);
        digits_are_decimal(digits(value / 10), value % 10);
    }
}

/// Bytes are shown in hexadecimal: two digits each, the higher half first, the
/// digits from ten on as small letters.
pub proof fn bytes_are_shown_in_hexadecimal(bytes: Seq<u8>, i: int)
    requires
        0 <= i < bytes.len(),
    ensures
        hex_chars(bytes).len() == 2 * bytes.len(),
        hex_chars(bytes)[2 * i] == seq![
            '0', '1', '2', '3', '4', '5', '6', '7', '8', '9', 'a', 'b', 'c', 'd', 'e', 'f',
        ][bytes[i] as int / 16],
        hex_chars(bytes)[2 * i + 1] == seq![
            '0', '1', '2', '3', '4', '5', '6', '7', '8', '9', 'a', 'b', 'c', 'd', 'e', 'f',
        ][bytes[i] as int % 16],
{
    assert((2 * i) / 2 == i && (2 * i + 1) / 2 == i);
    assert((2 * i) % 2 == 0 && (2 * i + 1) % 2 == 1);
}

/// The words that clients are shown: of truth values, of nothing, of texts, of
/// byte strings, and of the floating-point numbers that are none.
pub proof fn values_are_shown_in_words(
    floats: FloatTexts,
    t: Seq<char>,
    y: Seq<u8>,
    n: int,
    nan: nat,
)
    ensures
        DatumView::Boolean(true).text(floats) == seq!['t', 'r', 'u', 'e'],
        DatumView::Boolean(false).text(floats) == seq!['f', 'a', 'l', 's', 'e'],
        DatumView::Null.text(floats).len() == 0,
        DatumView::Text(t).text(floats) == t,
        DatumView::Jsonb(t).text(floats) == t,
        DatumView::Bytes(y).text(floats) == seq!['\\', 'x'] + hex_chars(y),
        DatumView::Int16(n).text(floats) == decimal(n),
        DatumView::Int32(n).text(floats) == decimal(n),
        DatumView::Int64(n).text(floats) == decimal(n),
        float_is_nan(nan) ==> DatumView::Float64(nan).text(floats) == seq!['N', 'a', 'N'],
        DatumView::Float64(0x7ff0_0000_0000_0000).text(floats) == "Infinity"@,
        DatumView::Float64(0xfff0_0000_0000_0000).text(floats) == "-Infinity"@,
{
    reveal_strlit("true");
    reveal_strlit("false");
    reveal_strlit("\\x");
    reveal_strlit("NaN");
    assert("true"@ =~= seq!['t', 'r', 'u', 'e']);
    assert("false"@ =~= seq!['f', 'a', 'l', 's', 'e']);
    assert("\\x"@ =~= seq!['\\', 'x']);
    assert("NaN"@ =~= seq!['N', 'a', 'N']);
}

/// A text is read as true or false exactly where it is, whatever the case of
/// its letters and with spaces round it, one of the words for it.
pub proof fn truth_values_are_read_from_words(text: Seq<char>)
    ensures
        ({
            let word = ascii_lower_text(trimmed(text));
            &&& read_bool(text) == Some(true) <==> seq![
                "true"@,
                "t"@,
                "yes"@,
                "on"@,
                "1"@,
            ].contains(word)
            &&& read_bool(text) == Some(false) <==> seq![
                "false"@,
                "f"@,
                "no"@,
                "off"@,
                "0"@,
            ].contains(word)
        }),
{
    let word = ascii_lower_text(trimmed(text));
    let yes = seq!["true"@, "t"@, "yes"@, "on"@, "1"@];
    let no = seq!["false"@, "f"@, "no"@, "off"@, "0"@];
    assert(yes[0] == "true"@ && yes[1] == "t"@ && yes[2] == "yes"@ && yes[3] == "on"@ && yes[4]
        == "1"@);
    assert(no[0] == "false"@ && no[1] == "f"@ && no[2] == "no"@ && no[3] == "off"@ && no[4]
        == "0"@);
    reveal_strlit("true");
    reveal_strlit("t");
    reveal_strlit("yes");
    reveal_strlit("on");
    reveal_strlit("1");
    reveal_strlit("false");
    reveal_strlit("f");
    reveal_strlit("no");
    reveal_strlit("off");
    reveal_strlit("0");
    assert("t"@[0] == 't' && "f"@[0] == 'f' && "1"@[0] == '1' && "0"@[0] == '0' && "on"@[0] == 'o'
        && "no"@[0] == 'n' && "yes"@[0] == 'y' && "off"@[0] == 'o');
    assert("true"@.len() == 4 && "t"@.len() == 1 && "yes"@.len() == 3 && "on"@.len() == 2
        && "1"@.len() == 1 && "false"@.len() == 5 && "f"@.len() == 1 && "no"@.len() == 2
        && "off"@.len() == 3 && "0"@.len() == 1);
    if no.contains(word) {
        let k = choose|k: int| 0 <= k < no.len() && no[k] == word;
        assert(k == 0 || k == 1 || k == 2 || k == 3 || k == 4);
        assert(word != "true"@ && word != "t"@ && word != "yes"@ && word != "on"@ && word
            != "1"@);
    }
}

// ---------------------------------------------------------------------------
// Parameters
// ---------------------------------------------------------------------------

/// A parameter is read as text or in binary form, by the number of its format,
/// and in no other; one that is no text is refused as text.
pub proof fn parameters_are_read_by_format(
    bytes: Seq<u8>,
    oid: u32,
    format: u16,
    floats: FloatReadings,
)
    ensures
        format > 1 ==> param_outcome(bytes, oid, format, floats) is Err,
        format == 0 && !valid_utf8(bytes) ==> (param_outcome(bytes, oid, format, floats) matches Err(
            e,
        ) && e.code == "22021"@),
        format == 0 && valid_utf8(bytes) ==> match text_param(
            decode_utf8(bytes),
            oid,
            floats.bits_of(decode_utf8(bytes)),
        ) {
            Some(v) => param_outcome(bytes, oid, format, floats) == Ok::<_, SqlErrorView>(v),
            None => param_outcome(bytes, oid, format, floats) matches Err(e) && e.code == "22P02"@,
        },
        format == 1 ==> match binary_param(bytes, oid) {
            Some(v) => param_outcome(bytes, oid, format, floats) == Ok::<_, SqlErrorView>(v),
            None => param_outcome(bytes, oid, format, floats) matches Err(e) && e.code == "22P03"@,
        },
{
}

/// A parameter has the type that it is declared with, and an integer fits into
/// it; of a type that is not known there is none.
pub proof fn parameters_have_their_type(text: Seq<char>, oid: u32, float: Option<u64>)
    ensures
        text_param(text, oid, float) matches Some(v) ==> {
            &&& oid == 16 ==> v is Boolean
            &&& oid == 21 ==> (v matches DatumView::Int16(n) && -0x8000 <= n < 0x8000
                && read_integer(text) == Some(n))
            &&& oid == 23 ==> (v matches DatumView::Int32(n) && -0x8000_0000 <= n < 0x8000_0000
                && read_integer(text) == Some(n))
            &&& oid == 20 ==> (v matches DatumView::Int64(n) && -0x8000_0000_0000_0000 <= n
                < 0x8000_0000_0000_0000 && read_integer(text) == Some(n))
            &&& oid == 701 ==> (float matches Some(bits) && v == DatumView::Float64(bits as nat))
            &&& oid == 17 ==> v is Bytes
            &&& oid == 25 || oid == 1043 ==> v == DatumView::Text(text)
            &&& oid == 1082 ==> v is Date
            &&& oid == 1114 ==> v is Timestamp
            &&& oid == 1184 ==> v is TimestampTz
            &&& oid == 2950 ==> v is Uuid
            &&& oid == 3802 ==> (v matches DatumView::Jsonb(j) && canonical(text) == Ok::<
                _,
                SqlErrorView,
            >(j))
        },
        (read_integer(text) matches Some(n) && -0x8000 <= n < 0x8000) ==> text_param(
            text,
            21,
            float,
        ) is Some,
        (read_integer(text) matches Some(n) && -0x8000_0000 <= n < 0x8000_0000) ==> text_param(
            text,
            23,
            float,
        ) is Some,
        (read_integer(text) matches Some(n) && -0x8000_0000_0000_0000 <= n
            < 0x8000_0000_0000_0000) ==> text_param(text, 20, float) is Some,
        text_param(text, 25, float) is Some,
        text_param(text, 1043, float) is Some,
        !seq![
            0u32, 16, 17, 20, 21, 23, 25, 701, 1043, 1082, 1114, 1184, 2950, 3802,
        ].contains(oid) ==> text_param(text, oid, float) is None,
{
    let known = seq![
        0u32, 16, 17, 20, 21, 23, 25, 701, 1043, 1082, 1114, 1184, 2950, 3802,
    ];
    assert(known[0] == 0 && known[1] == 16 && known[2] == 17 && known[3] == 20 && known[4] == 21
        && known[5] == 23 && known[6] == 25 && known[7] == 701 && known[8] == 1043 && known[9]
        == 1082 && known[10] == 1114 && known[11] == 1184 && known[12] == 2950 && known[13]
        == 3802);
}

/// A parameter of no declared type is an integer where it reads as one, else a
/// floating-point number where it reads as one, else a truth value, and else
/// the text that it is.
pub proof fn untyped_parameters_are_what_they_read_as(text: Seq<char>, float: Option<u64>)
    ensures
        ({
            let v = text_param(text, 0, float);
            let whole = read_integer(text) matches Some(n) && -0x8000_0000_0000_0000 <= n
                < 0x8000_0000_0000_0000;
            &&& whole ==> v == Some(DatumView::Int64(read_integer(text)->0))
            &&& !whole && float is Some ==> v == Some(DatumView::Float64(float->0 as nat))
            &&& !whole && float is None && read_bool(text) is Some ==> v == Some(
                DatumView::Boolean(read_bool(text)->0),
            )
            &&& !whole && float is None && read_bool(text) is None ==> v == Some(
                DatumView::Text(text),
            )
        }),
{
}

/// Binary forms are those that clients know: integers in two's complement, a
/// byte for a truth value, days from the first of January 2000 and moments in
/// microseconds from it, texts in UTF-8, and JSON behind its version.
pub proof fn binary_forms_are_known(value: DatumView, ty: SqlType, floats: FloatTexts)
    requires
        in_bounds(value),
    ensures
        ({
            let b = binary_result(value, ty, floats);
            match (ty, value) {
                (SqlType::Boolean, DatumView::Boolean(v)) => b.len() == 1 && b[0] == (if v {
                    1u8
                } else {
                    0u8
                }),
                (SqlType::SmallInt, DatumView::Int16(n)) => b.len() == 2 && b[0] * 0x100 + b[1] - (
                if b[0] >= 128 {
                    0x1_0000int
                } else {
                    0
                }) == n,
                (SqlType::Integer, DatumView::Int32(n)) => b.len() == 4 && wire_i32(b, 0) == n,
                (SqlType::BigInt, DatumView::Int64(n)) => b.len() == 8 && wire_i64(b, 0) == n,
                (SqlType::Double, DatumView::Float64(bits)) => b.len() == 8 && wire_u32(b, 0)
                    * 0x1_0000_0000 + wire_u32(b, 4) == bits,
                (SqlType::Date, DatumView::Date(d)) => d - day_number(2000, 1, 1) >= i32::MIN
                    ==> b.len() == 4 && wire_i32(b, 0) == d - day_number(2000, 1, 1),
                (SqlType::Timestamp, DatumView::Timestamp(t)) => t - day_number(2000, 1, 1)
                    * 86_400_000_000 >= i64::MIN ==> b.len() == 8 && wire_i64(b, 0) == t
                    - day_number(2000, 1, 1) * 86_400_000_000,
                (SqlType::TimestampTz, DatumView::TimestampTz(t)) => t - day_number(2000, 1, 1)
                    * 86_400_000_000 >= i64::MIN ==> b.len() == 8 && wire_i64(b, 0) == t
                    - day_number(2000, 1, 1) * 86_400_000_000,
                (SqlType::Text, DatumView::Text(t)) => b == encode_utf8(t),
                (SqlType::Varchar(_), DatumView::Text(t)) => b == encode_utf8(t),
                (SqlType::Bytea, DatumView::Bytes(x)) => b == x,
                (SqlType::Uuid, DatumView::Uuid(x)) => b == x,
                (SqlType::Jsonb, DatumView::Jsonb(j)) => b.len() == 1 + encode_utf8(j).len() && b[0]
                    == 1 && b.subrange(1, b.len() as int) == encode_utf8(j),
                _ => true,
            }
        }),
{
    lemma_span();
    let b = binary_result(value, ty, floats);
    match (ty, value) {
        (SqlType::SmallInt, DatumView::Int16(n)) => lemma_signed(n, 2),
        (SqlType::Integer, DatumView::Int32(n)) => lemma_signed(n, 4),
        (SqlType::BigInt, DatumView::Int64(n)) => lemma_signed(n, 8),
        (SqlType::Double, DatumView::Float64(bits)) => {
            be_reads_back(bits, 8);
            numbers_stand_highest_byte_first(b);
        },
        (SqlType::Date, DatumView::Date(d)) => {
            let count = d - 10_957;
            if count >= i32::MIN {
                lemma_signed(count, 4);
                if count < 0 {
                    vstd::arithmetic::div_mod::lemma_fundamental_div_mod_converse(
                        count,
                        0x1_0000_0000,
                        -1,
                        count + 0x1_0000_0000,
                    );
                } else {
                    vstd::arithmetic::div_mod::lemma_small_mod(count as nat, 0x1_0000_0000);
                }
                assert(count % 0x1_0000_0000 == wrapped(count, 4));
            }
        },
        (SqlType::Timestamp, DatumView::Timestamp(t)) => {
            if t - 946_684_800_000_000 >= i64::MIN {
                lemma_signed(t - 946_684_800_000_000, 8);
            }
        },
        (SqlType::TimestampTz, DatumView::TimestampTz(t)) => {
            if t - 946_684_800_000_000 >= i64::MIN {
                lemma_signed(t - 946_684_800_000_000, 8);
            }
        },
        (SqlType::Jsonb, DatumView::Jsonb(j)) => {
            assert(b.subrange(1, b.len() as int) =~= encode_utf8(j));
        },
        _ => {},
    }
}

proof fn lemma_signed(v: int, len: nat)
    requires
        len == 2 || len == 4 || len == 8,
        -(crate::bytes::span(len) as int) <= 2 * v < crate::bytes::span(len),
    ensures
        ({
            let p = be(wrapped(v, len), len);
            &&& p.len() == len
            &&& len == 2 ==> p[0] * 0x100 + p[1] - (if p[0] >= 128 {
                0x1_0000int
            } else {
                0
            }) == v
            &&& len == 4 ==> wire_i32(p, 0) == v
            &&& len == 8 ==> wire_i64(p, 0) == v
        }),
{
    lemma_span();
    be_reads_back(wrapped(v, len), len);
    numbers_stand_highest_byte_first(be(wrapped(v, len), len));
}

} // verus!
