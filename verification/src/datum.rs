//! Logical values: their types, their order and their text.

use crate::bytes::{bytes_less, lex_less, lex_total, lex_transitive, Order};
use crate::calendar::{date_chars, format_date, format_timestamp, timestamp_chars};
use crate::error::{SqlError, SqlErrorView};
use crate::json::{canonical, holds_whole_numbers};
use crate::text::{
    decimal, decimal_text, hex, hex_chars, joined, owned, text_chars, text_of_chars,
};
use vstd::prelude::*;
use vstd::string::*;
use vstd::utf8::encode_utf8;

verus! {

/// The type of a column.
#[derive(Clone, Copy, Debug, PartialEq, Eq, PartialOrd, Ord, Hash, Structural)]
pub enum SqlType {
    Boolean,
    Bytea,
    SmallInt,
    Integer,
    BigInt,
    Text,
    Varchar(Option<u32>),
    Double,
    Date,
    Timestamp,
    TimestampTz,
    Uuid,
    Jsonb,
}

impl SqlType {
    /// The number that PostgreSQL clients know the type by.
    pub open spec fn oid_number(self) -> u32 {
        match self {
            SqlType::Boolean => 16,
            SqlType::Bytea => 17,
            SqlType::BigInt => 20,
            SqlType::SmallInt => 21,
            SqlType::Integer => 23,
            SqlType::Text => 25,
            SqlType::Double => 701,
            SqlType::Varchar(_) => 1043,
            SqlType::Date => 1082,
            SqlType::Timestamp => 1114,
            SqlType::TimestampTz => 1184,
            SqlType::Uuid => 2950,
            SqlType::Jsonb => 3802,
        }
    }

    pub fn oid(self) -> (oid: u32)
        ensures
            oid == self.oid_number(),
    {
        match self {
            SqlType::Boolean => 16,
            SqlType::Bytea => 17,
            SqlType::BigInt => 20,
            SqlType::SmallInt => 21,
            SqlType::Integer => 23,
            SqlType::Text => 25,
            SqlType::Double => 701,
            SqlType::Varchar(_) => 1043,
            SqlType::Date => 1082,
            SqlType::Timestamp => 1114,
            SqlType::TimestampTz => 1184,
            SqlType::Uuid => 2950,
            SqlType::Jsonb => 3802,
        }
    }

    /// The name of the type in SQL.
    pub open spec fn sql_name(self) -> Seq<char> {
        match self {
            SqlType::Boolean => "boolean"@,
            SqlType::Bytea => "bytea"@,
            SqlType::SmallInt => "smallint"@,
            SqlType::Integer => "integer"@,
            SqlType::BigInt => "bigint"@,
            SqlType::Text => "text"@,
            SqlType::Varchar(_) => "character varying"@,
            SqlType::Double => "double precision"@,
            SqlType::Date => "date"@,
            SqlType::Timestamp => "timestamp without time zone"@,
            SqlType::TimestampTz => "timestamp with time zone"@,
            SqlType::Uuid => "uuid"@,
            SqlType::Jsonb => "jsonb"@,
        }
    }

    pub fn name(self) -> (name: &'static str)
        ensures
            name@ == self.sql_name(),
    {
        match self {
            SqlType::Boolean => "boolean",
            SqlType::Bytea => "bytea",
            SqlType::SmallInt => "smallint",
            SqlType::Integer => "integer",
            SqlType::BigInt => "bigint",
            SqlType::Text => "text",
            SqlType::Varchar(_) => "character varying",
            SqlType::Double => "double precision",
            SqlType::Date => "date",
            SqlType::Timestamp => "timestamp without time zone",
            SqlType::TimestampTz => "timestamp with time zone",
            SqlType::Uuid => "uuid",
            SqlType::Jsonb => "jsonb",
        }
    }
}

/// A logical value. A floating-point number is kept as the 64 bits of its IEEE
/// 754 form. `Null` is a value of its own.
#[derive(Clone, Debug)]
pub enum Datum {
    Null,
    Boolean(bool),
    Int16(i16),
    Int32(i32),
    Int64(i64),
    Float64(u64),
    Text(String),
    Bytes(Vec<u8>),
    Date(i32),
    Timestamp(i64),
    TimestampTz(i64),
    Uuid([u8; 16]),
    Jsonb(String),
}

/// What a [`Datum`] holds.
pub enum DatumView {
    Null,
    Boolean(bool),
    Int16(int),
    Int32(int),
    Int64(int),
    Float64(nat),
    Text(Seq<char>),
    Bytes(Seq<u8>),
    Date(int),
    Timestamp(int),
    TimestampTz(int),
    Uuid(Seq<u8>),
    Jsonb(Seq<char>),
}

impl View for Datum {
    type V = DatumView;

    open spec fn view(&self) -> DatumView {
        match self {
            Datum::Null => DatumView::Null,
            Datum::Boolean(v) => DatumView::Boolean(*v),
            Datum::Int16(v) => DatumView::Int16(*v as int),
            Datum::Int32(v) => DatumView::Int32(*v as int),
            Datum::Int64(v) => DatumView::Int64(*v as int),
            Datum::Float64(v) => DatumView::Float64(*v as nat),
            Datum::Text(v) => DatumView::Text(v@),
            Datum::Bytes(v) => DatumView::Bytes(v@),
            Datum::Date(v) => DatumView::Date(*v as int),
            Datum::Timestamp(v) => DatumView::Timestamp(*v as int),
            Datum::TimestampTz(v) => DatumView::TimestampTz(*v as int),
            Datum::Uuid(v) => DatumView::Uuid(v@),
            Datum::Jsonb(v) => DatumView::Jsonb(v@),
        }
    }
}

// ---------------------------------------------------------------------------
// Floating-point numbers by their bits
// ---------------------------------------------------------------------------

/// The bits of a number without its sign.
pub open spec fn float_magnitude(bits: nat) -> nat {
    bits % 0x8000_0000_0000_0000
}

/// Whether bits stand for no number.
pub open spec fn float_is_nan(bits: nat) -> bool {
    float_magnitude(bits) > 0x7ff0_0000_0000_0000
}

/// Whether bits stand for one of the two infinities.
pub open spec fn float_is_infinite(bits: nat) -> bool {
    float_magnitude(bits) == 0x7ff0_0000_0000_0000
}

/// The place of a floating-point number among all of them: both zeros share
/// one place, and what is no number stands behind every number.
pub open spec fn float_place(bits: nat) -> int {
    if float_is_nan(bits) {
        0x1_0000_0000_0000_0000
    } else if bits >= 0x8000_0000_0000_0000 {
        -(bits - 0x8000_0000_0000_0000)
    } else {
        bits as int
    }
}

/// The decimal texts of finite floating-point numbers, by their bits.
pub struct FloatTexts {
    pub entries: Vec<(u64, String)>,
}

impl FloatTexts {
    /// The text that the first entry for the bits from `from` on gives; the
    /// empty text where there is none.
    pub open spec fn text_from(self, bits: nat, from: int) -> Seq<char>
        decreases self.entries@.len() - from,
    {
        if from < 0 || from >= self.entries@.len() {
            Seq::empty()
        } else if self.entries@[from].0 == bits {
            self.entries@[from].1@
        } else {
            self.text_from(bits, from + 1)
        }
    }

    /// The text for the bits of a finite number.
    pub open spec fn text_of(self, bits: nat) -> Seq<char> {
        self.text_from(bits, 0)
    }

    /// Looks up the text for the bits of a finite number.
    pub fn lookup(&self, bits: u64) -> (text: String)
        ensures
            text@ == self.text_of(bits as nat),
    {
        let mut i: usize = 0;
        while i < self.entries.len()
            invariant
                i <= self.entries@.len(),
                self.text_from(bits as nat, i as int) == self.text_of(bits as nat),
            decreases self.entries@.len() - i,
        {
            if self.entries[i].0 == bits {
                return self.entries[i].1.clone();
            }
            i += 1;
        }
        String::new()
    }
}

/// The text of a floating-point number, the texts of finite ones being given.
pub open spec fn float_text(bits: nat, floats: FloatTexts) -> Seq<char> {
    if float_is_nan(bits) {
        "NaN"@
    } else if float_is_infinite(bits) {
        if bits < 0x8000_0000_0000_0000 {
            "Infinity"@
        } else {
            "-Infinity"@
        }
    } else {
        floats.text_of(bits)
    }
}

fn show_float(bits: u64, floats: &FloatTexts) -> (text: String)
    ensures
        text@ == float_text(bits as nat, *floats),
{
    let magnitude: u64 = bits % 0x8000_0000_0000_0000;
    if magnitude > 0x7ff0_0000_0000_0000 {
        owned("NaN")
    } else if magnitude == 0x7ff0_0000_0000_0000 {
        if bits < 0x8000_0000_0000_0000 {
            owned("Infinity")
        } else {
            owned("-Infinity")
        }
    } else {
        floats.lookup(bits)
    }
}

// ---------------------------------------------------------------------------
// The order of values
// ---------------------------------------------------------------------------

impl DatumView {
    /// The place of the value's type among the types. The integers of every
    /// width share one place.
    pub open spec fn type_rank(self) -> int {
        match self {
            DatumView::Null => 0,
            DatumView::Boolean(_) => 1,
            DatumView::Int16(_) => 2,
            DatumView::Int32(_) => 2,
            DatumView::Int64(_) => 2,
            DatumView::Float64(_) => 3,
            DatumView::Text(_) => 4,
            DatumView::Bytes(_) => 5,
            DatumView::Date(_) => 6,
            DatumView::Timestamp(_) => 7,
            DatumView::TimestampTz(_) => 8,
            DatumView::Uuid(_) => 9,
            DatumView::Jsonb(_) => 10,
        }
    }

    /// The number by which a value stands among those of its rank; zero for
    /// values that are ordered by their bytes.
    pub open spec fn number_key(self) -> int {
        match self {
            DatumView::Boolean(v) => if v {
                1
            } else {
                0
            },
            DatumView::Int16(v) => v,
            DatumView::Int32(v) => v,
            DatumView::Int64(v) => v,
            DatumView::Float64(bits) => float_place(bits),
            DatumView::Date(v) => v,
            DatumView::Timestamp(v) => v,
            DatumView::TimestampTz(v) => v,
            _ => 0,
        }
    }

    /// The bytes by which a value stands among those of its rank; empty for
    /// values that are ordered by a number.
    pub open spec fn bytes_key(self) -> Seq<u8> {
        match self {
            DatumView::Text(v) => encode_utf8(v),
            DatumView::Bytes(v) => v,
            DatumView::Uuid(v) => v,
            DatumView::Jsonb(v) => encode_utf8(v),
            _ => Seq::empty(),
        }
    }

    /// Whether a value stands before another in the ascending order.
    pub open spec fn before(self, other: DatumView) -> bool {
        if self.type_rank() != other.type_rank() {
            self.type_rank() < other.type_rank()
        } else if self.number_key() != other.number_key() {
            self.number_key() < other.number_key()
        } else {
            lex_less(self.bytes_key(), other.bytes_key())
        }
    }

    /// Whether two values are equal in SQL: neither stands before the other.
    pub open spec fn same(self, other: DatumView) -> bool {
        self.type_rank() == other.type_rank() && self.number_key() == other.number_key()
            && self.bytes_key() == other.bytes_key()
    }

    /// How a value stands to another.
    pub open spec fn order(self, other: DatumView) -> Order {
        if self.before(other) {
            Order::Less
        } else if other.before(self) {
            Order::Greater
        } else {
            Order::Equal
        }
    }
}

/// Of any two values exactly one holds: one stands before the other, the
/// other before the one, or they are equal.
pub proof fn datum_order_is_total(a: DatumView, b: DatumView)
    ensures
        a.order(b) == Order::Less <==> a.before(b),
        a.order(b) == Order::Greater <==> b.before(a),
        a.order(b) == Order::Equal <==> a.same(b),
        !(a.before(b) && b.before(a)),
{
    lex_total(a.bytes_key(), b.bytes_key());
    lex_total(b.bytes_key(), a.bytes_key());
}

/// The order of values is transitive.
pub proof fn datum_order_is_transitive(a: DatumView, b: DatumView, c: DatumView)
    requires
        a.before(b),
        b.before(c),
    ensures
        a.before(c),
{
    if a.type_rank() == b.type_rank() && b.type_rank() == c.type_rank() && a.number_key()
        == b.number_key() && b.number_key() == c.number_key() {
        lex_transitive(a.bytes_key(), b.bytes_key(), c.bytes_key());
    }
}

/// `Null` stands before every other value.
pub proof fn null_stands_first(d: DatumView)
    ensures
        d != DatumView::Null ==> DatumView::Null.before(d),
        !d.before(DatumView::Null),
{
}

/// What is no number equals itself whatever its bits, and stands behind every
/// floating-point number.
pub proof fn nan_stands_last(nan: nat, bits: nat)
    requires
        float_is_nan(nan),
        bits < 0x1_0000_0000_0000_0000,
    ensures
        float_is_nan(bits) ==> DatumView::Float64(nan).same(DatumView::Float64(bits)),
        !float_is_nan(bits) ==> DatumView::Float64(bits).before(DatumView::Float64(nan)),
{
}

/// Whether a value lies within the bounds of its type.
pub open spec fn in_bounds(d: DatumView) -> bool {
    match d {
        DatumView::Int16(v) => -0x8000 <= v < 0x8000,
        DatumView::Int32(v) => -0x8000_0000 <= v < 0x8000_0000,
        DatumView::Int64(v) => -0x8000_0000_0000_0000 <= v < 0x8000_0000_0000_0000,
        DatumView::Float64(bits) => bits < 0x1_0000_0000_0000_0000,
        DatumView::Date(v) => -0x8000_0000 <= v < 0x8000_0000,
        DatumView::Timestamp(v) => -0x8000_0000_0000_0000 <= v < 0x8000_0000_0000_0000,
        DatumView::TimestampTz(v) => -0x8000_0000_0000_0000 <= v < 0x8000_0000_0000_0000,
        DatumView::Uuid(v) => v.len() == 16,
        _ => true,
    }
}

/// Whether a JSON text is in its canonical form.
pub open spec fn is_canonical(d: DatumView) -> bool {
    d matches DatumView::Jsonb(v) ==> canonical(v) == Ok::<_, SqlErrorView>(v)
}

fn place_of_float(bits: u64) -> (place: i128)
    ensures
        place == float_place(bits as nat),
{
    let magnitude: u64 = bits % 0x8000_0000_0000_0000;
    if magnitude > 0x7ff0_0000_0000_0000 {
        0x1_0000_0000_0000_0000
    } else if bits >= 0x8000_0000_0000_0000 {
        -((bits - 0x8000_0000_0000_0000) as i128)
    } else {
        bits as i128
    }
}

// ---------------------------------------------------------------------------
// Text
// ---------------------------------------------------------------------------

/// The hexadecimal digits of sixteen bytes in groups of 8, 4, 4, 4 and 12.
pub open spec fn uuid_chars(v: Seq<u8>) -> Seq<char> {
    let h = hex_chars(v);
    h.subrange(0, 8).push('-') + h.subrange(8, 12).push('-') + h.subrange(12, 16).push('-')
        + h.subrange(16, 20).push('-') + h.subrange(20, 32)
}

fn chars_between(chars: &Vec<char>, from: usize, to: usize) -> (text: String)
    requires
        from <= to <= chars@.len(),
    ensures
        text@ == chars@.subrange(from as int, to as int),
{
    text_of_chars(vstd::slice::slice_subrange(chars.as_slice(), from, to))
}

/// The text of a universally unique identifier.
pub fn uuid_text(v: &[u8; 16]) -> (text: String)
    ensures
        text@ == uuid_chars(v@),
{
    let h = text_chars(hex(v.as_slice()).as_str());
    let mut text = chars_between(&h, 0, 8);
    text.push('-');
    text.append(chars_between(&h, 8, 12).as_str());
    text.push('-');
    text.append(chars_between(&h, 12, 16).as_str());
    text.push('-');
    text.append(chars_between(&h, 16, 20).as_str());
    text.push('-');
    text.append(chars_between(&h, 20, 32).as_str());
    assert(text@ == uuid_chars(v@));
    text
}

impl DatumView {
    /// The text of a value, the texts of finite floating-point numbers being
    /// given.
    pub open spec fn text(self, floats: FloatTexts) -> Seq<char> {
        match self {
            DatumView::Null => Seq::empty(),
            DatumView::Boolean(v) => if v {
                "true"@
            } else {
                "false"@
            },
            DatumView::Int16(v) => decimal(v),
            DatumView::Int32(v) => decimal(v),
            DatumView::Int64(v) => decimal(v),
            DatumView::Float64(bits) => float_text(bits, floats),
            DatumView::Text(v) => v,
            DatumView::Bytes(v) => "\\x"@ + hex_chars(v),
            DatumView::Date(v) => date_chars(v),
            DatumView::Timestamp(v) => timestamp_chars(v),
            DatumView::TimestampTz(v) => timestamp_chars(v),
            DatumView::Uuid(v) => uuid_chars(v),
            DatumView::Jsonb(v) => v,
        }
    }

    /// The type of a value; `Null` has none.
    pub open spec fn type_of(self) -> Option<SqlType> {
        match self {
            DatumView::Null => None,
            DatumView::Boolean(_) => Some(SqlType::Boolean),
            DatumView::Int16(_) => Some(SqlType::SmallInt),
            DatumView::Int32(_) => Some(SqlType::Integer),
            DatumView::Int64(_) => Some(SqlType::BigInt),
            DatumView::Float64(_) => Some(SqlType::Double),
            DatumView::Text(_) => Some(SqlType::Text),
            DatumView::Bytes(_) => Some(SqlType::Bytea),
            DatumView::Date(_) => Some(SqlType::Date),
            DatumView::Timestamp(_) => Some(SqlType::Timestamp),
            DatumView::TimestampTz(_) => Some(SqlType::TimestampTz),
            DatumView::Uuid(_) => Some(SqlType::Uuid),
            DatumView::Jsonb(_) => Some(SqlType::Jsonb),
        }
    }
}

impl Datum {
    pub fn sql_type(&self) -> (ty: Option<SqlType>)
        ensures
            ty == self@.type_of(),
    {
        match self {
            Datum::Null => None,
            Datum::Boolean(_) => Some(SqlType::Boolean),
            Datum::Bytes(_) => Some(SqlType::Bytea),
            Datum::Int16(_) => Some(SqlType::SmallInt),
            Datum::Int32(_) => Some(SqlType::Integer),
            Datum::Int64(_) => Some(SqlType::BigInt),
            Datum::Float64(_) => Some(SqlType::Double),
            Datum::Text(_) => Some(SqlType::Text),
            Datum::Date(_) => Some(SqlType::Date),
            Datum::Timestamp(_) => Some(SqlType::Timestamp),
            Datum::TimestampTz(_) => Some(SqlType::TimestampTz),
            Datum::Uuid(_) => Some(SqlType::Uuid),
            Datum::Jsonb(_) => Some(SqlType::Jsonb),
        }
    }

    pub fn is_null(&self) -> (null: bool)
        ensures
            null == (self@ == DatumView::Null),
    {
        match self {
            Datum::Null => true,
            _ => false,
        }
    }

    pub fn as_bool(&self) -> (value: Option<bool>)
        ensures
            self@ matches DatumView::Boolean(v) ==> value == Some(v),
            !(self@ is Boolean) ==> value is None,
    {
        match self {
            Datum::Boolean(v) => Some(*v),
            _ => None,
        }
    }

    pub fn as_i64(&self) -> (value: Option<i64>)
        ensures
            self@.type_rank() == 2 ==> value is Some && value->0 == self@.number_key(),
            self@.type_rank() != 2 ==> value is None,
    {
        match self {
            Datum::Int16(v) => Some(*v as i64),
            Datum::Int32(v) => Some(*v as i64),
            Datum::Int64(v) => Some(*v),
            _ => None,
        }
    }

    pub fn as_text(&self) -> (value: Option<&str>)
        ensures
            self@ matches DatumView::Text(v) ==> value is Some && value->0@ == v,
            !(self@ is Text) ==> value is None,
    {
        match self {
            Datum::Text(v) => Some(v.as_str()),
            _ => None,
        }
    }

    /// The truth value of a boolean; every other value has none.
    pub fn truthy(&self) -> (value: Option<bool>)
        ensures
            self@ matches DatumView::Boolean(v) ==> value == Some(v),
            !(self@ is Boolean) ==> value is None,
    {
        self.as_bool()
    }

    /// A copy of the value.
    pub fn copied(&self) -> (copy: Datum)
        ensures
            copy@ == self@,
    {
        match self {
            Datum::Null => Datum::Null,
            Datum::Boolean(v) => Datum::Boolean(*v),
            Datum::Int16(v) => Datum::Int16(*v),
            Datum::Int32(v) => Datum::Int32(*v),
            Datum::Int64(v) => Datum::Int64(*v),
            Datum::Float64(v) => Datum::Float64(*v),
            Datum::Text(v) => Datum::Text(v.clone()),
            Datum::Bytes(v) => Datum::Bytes(crate::bytes::copy_bytes(v.as_slice())),
            Datum::Date(v) => Datum::Date(*v),
            Datum::Timestamp(v) => Datum::Timestamp(*v),
            Datum::TimestampTz(v) => Datum::TimestampTz(*v),
            Datum::Uuid(v) => Datum::Uuid(*v),
            Datum::Jsonb(v) => Datum::Jsonb(v.clone()),
        }
    }

    /// A text of the value that depends on no locale. The texts of finite
    /// floating-point numbers are looked up in `floats`.
    pub fn display_text(&self, floats: &FloatTexts) -> (text: String)
        ensures
            text@ == self@.text(*floats),
    {
        match self {
            Datum::Null => String::new(),
            Datum::Boolean(v) => if *v {
                owned("true")
            } else {
                owned("false")
            },
            Datum::Int16(v) => decimal_text(*v as i64),
            Datum::Int32(v) => decimal_text(*v as i64),
            Datum::Int64(v) => decimal_text(*v),
            Datum::Float64(v) => show_float(*v, floats),
            Datum::Text(v) => v.clone(),
            Datum::Bytes(v) => joined("\\x", hex(v.as_slice()).as_str()),
            Datum::Date(v) => format_date(*v),
            Datum::Timestamp(v) => format_timestamp(*v),
            Datum::TimestampTz(v) => format_timestamp(*v),
            Datum::Uuid(v) => uuid_text(v),
            Datum::Jsonb(v) => v.clone(),
        }
    }

    /// Brings a JSON text into its canonical form. That of a document whose
    /// numbers are whole is its own canonical form.
    pub fn canonical_json(input: &str) -> (text: std::result::Result<String, SqlError>)
        ensures
            match text {
                Ok(t) => canonical(input@) == Ok::<Seq<char>, SqlErrorView>(t@),
                Err(e) => canonical(input@) == Err::<Seq<char>, SqlErrorView>(e@),
            },
            text matches Ok(t) ==> holds_whole_numbers(input@) ==> canonical(t@) == Ok::<
                Seq<char>,
                SqlErrorView,
            >(t@) && holds_whole_numbers(t@),
    {
        crate::json::canonical_json(input)
    }

    fn rank(&self) -> (rank: u8)
        ensures
            rank == self@.type_rank(),
    {
        match self {
            Datum::Null => 0,
            Datum::Boolean(_) => 1,
            Datum::Int16(_) => 2,
            Datum::Int32(_) => 2,
            Datum::Int64(_) => 2,
            Datum::Float64(_) => 3,
            Datum::Text(_) => 4,
            Datum::Bytes(_) => 5,
            Datum::Date(_) => 6,
            Datum::Timestamp(_) => 7,
            Datum::TimestampTz(_) => 8,
            Datum::Uuid(_) => 9,
            Datum::Jsonb(_) => 10,
        }
    }

    fn number(&self) -> (number: i128)
        ensures
            number == self@.number_key(),
    {
        match self {
            Datum::Boolean(v) => if *v {
                1
            } else {
                0
            },
            Datum::Int16(v) => *v as i128,
            Datum::Int32(v) => *v as i128,
            Datum::Int64(v) => *v as i128,
            Datum::Float64(v) => place_of_float(*v),
            Datum::Date(v) => *v as i128,
            Datum::Timestamp(v) => *v as i128,
            Datum::TimestampTz(v) => *v as i128,
            _ => 0,
        }
    }

    fn bytes_before(&self, other: &Datum) -> (before: bool)
        requires
            self@.type_rank() == other@.type_rank(),
        ensures
            before == lex_less(self@.bytes_key(), other@.bytes_key()),
    {
        match (self, other) {
            (Datum::Text(a), Datum::Text(b)) => bytes_less(
                a.as_str().as_bytes(),
                b.as_str().as_bytes(),
            ),
            (Datum::Bytes(a), Datum::Bytes(b)) => bytes_less(a.as_slice(), b.as_slice()),
            (Datum::Uuid(a), Datum::Uuid(b)) => bytes_less(a.as_slice(), b.as_slice()),
            (Datum::Jsonb(a), Datum::Jsonb(b)) => bytes_less(
                a.as_str().as_bytes(),
                b.as_str().as_bytes(),
            ),
            _ => false,
        }
    }

    fn stands_before(&self, other: &Datum) -> (before: bool)
        ensures
            before == self@.before(other@),
    {
        if self.rank() != other.rank() {
            self.rank() < other.rank()
        } else if self.number() != other.number() {
            self.number() < other.number()
        } else {
            self.bytes_before(other)
        }
    }

    /// Puts two values in the ascending order.
    pub fn compare(&self, other: &Datum) -> (order: Order)
        ensures
            order == self@.order(other@),
    {
        if self.stands_before(other) {
            Order::Less
        } else if other.stands_before(self) {
            Order::Greater
        } else {
            Order::Equal
        }
    }
}

} // verus!
