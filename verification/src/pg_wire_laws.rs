//! What a client reads of the messages that it is sent, by a reader that knows
//! the protocol alone.

use crate::bytes::{be, be_value, lemma_be_len};
use crate::datum::{DatumView, FloatTexts, SqlType};
use crate::pg_message::{
    column_bytes, column_format, columns_bytes, description_body, ended, framed, result_output,
    row_body, rows_output, value_bytes, with_rows, with_values, ColumnView, MessageView,
    ResultView,
};
use crate::pg_values::binary_result;
use crate::text::{ascii_lower_text, digits};
use vstd::prelude::*;
use vstd::string::*;
use vstd::utf8::encode_utf8;

verus! {

// ---------------------------------------------------------------------------
// Numbers
// ---------------------------------------------------------------------------

/// The unsigned number that two bytes write, the higher byte first.
pub open spec fn wire_u16(body: Seq<u8>, at: int) -> int {
    body[at] * 0x100 + body[at + 1]
}

/// The unsigned number that four bytes write, the highest byte first.
pub open spec fn wire_u32(body: Seq<u8>, at: int) -> int {
    body[at] * 0x100_0000 + body[at + 1] * 0x1_0000 + body[at + 2] * 0x100 + body[at + 3]
}

/// The signed number that four bytes write in two's complement.
pub open spec fn wire_i32(body: Seq<u8>, at: int) -> int {
    if body[at] >= 128 {
        wire_u32(body, at) - 0x1_0000_0000
    } else {
        wire_u32(body, at)
    }
}

/// The bytes of a number in two bytes, the higher first.
pub proof fn lemma_two_bytes(n: nat)
    requires
        n < 0x1_0000,
    ensures
        be(n, 2) == seq![(n / 256) as u8, (n % 256) as u8],
{
    reveal_with_fuel(be, 3);
    assert((n / 256) % 256 == n / 256);
    assert(be(n, 2) =~= seq![(n / 256) as u8, (n % 256) as u8]);
}

/// The bytes of a number in four bytes, the highest first.
pub proof fn lemma_four_bytes(n: nat)
    requires
        n < 0x1_0000_0000,
    ensures
        be(n, 4) == seq![
            (n / 0x100_0000) as u8,
            (n / 0x1_0000 % 256) as u8,
            (n / 0x100 % 256) as u8,
            (n % 256) as u8,
        ],
{
    reveal_with_fuel(be, 5);
    assert(n / 256 / 256 == n / 0x1_0000);
    assert(n / 256 / 256 / 256 == n / 0x100_0000);
    assert(n / 256 / 256 / 256 % 256 == n / 0x100_0000);
    assert(be(n, 4) =~= seq![
        (n / 0x100_0000) as u8,
        (n / 0x1_0000 % 256) as u8,
        (n / 0x100 % 256) as u8,
        (n % 256) as u8,
    ]);
}

/// Numbers are written with their highest byte first: two, four and eight bytes
/// stand for the sum of their values, each byte counting 256 times as much as
/// the one behind it.
pub proof fn numbers_stand_highest_byte_first(bytes: Seq<u8>)
    ensures
        bytes.len() == 2 ==> be_value(bytes) == wire_u16(bytes, 0),
        bytes.len() == 4 ==> be_value(bytes) == wire_u32(bytes, 0),
        bytes.len() == 8 ==> be_value(bytes) == wire_u32(bytes, 0) * 0x1_0000_0000 + wire_u32(
            bytes,
            4,
        ),
{
    if bytes.len() == 2 || bytes.len() == 4 || bytes.len() == 8 {
        lemma_value_of(bytes);
    }
}

proof fn lemma_value_of(bytes: Seq<u8>)
    requires
        bytes.len() == 2 || bytes.len() == 4 || bytes.len() == 8,
    ensures
        bytes.len() == 2 ==> be_value(bytes) == wire_u16(bytes, 0),
        bytes.len() == 4 ==> be_value(bytes) == wire_u32(bytes, 0),
        bytes.len() == 8 ==> be_value(bytes) == wire_u32(bytes, 0) * 0x1_0000_0000 + wire_u32(
            bytes,
            4,
        ),
{
    reveal_with_fuel(be_value, 9);
    let b1 = bytes.drop_last();
    let b2 = b1.drop_last();
    if bytes.len() > 2 {
        let b3 = b2.drop_last();
        let b4 = b3.drop_last();
        if bytes.len() > 4 {
            let b5 = b4.drop_last();
            let b6 = b5.drop_last();
            let b7 = b6.drop_last();
            assert(be_value(b7) == bytes[0]);
            assert(be_value(b6) == bytes[0] * 256 + bytes[1]);
            assert(be_value(b5) == bytes[0] * 0x1_0000 + bytes[1] * 256 + bytes[2]);
            assert(be_value(b4) == wire_u32(bytes, 0));
        } else {
            assert(be_value(b3) == bytes[0]);
        }
    }
}

// ---------------------------------------------------------------------------
// Rows
// ---------------------------------------------------------------------------

/// The columns of a row from a place on, as a client reads them: behind a
/// length of -1 there is no value, and behind another as many bytes.
pub open spec fn read_columns(body: Seq<u8>, at: int, left: nat) -> Option<
    (Seq<Option<Seq<u8>>>, int),
>
    decreases left,
{
    if left == 0 {
        Some((Seq::empty(), at))
    } else if at + 4 > body.len() {
        None
    } else {
        let len = wire_i32(body, at);
        let (value, next) = if len == -1 {
            (None, at + 4)
        } else {
            (Some(body.subrange(at + 4, at + 4 + len)), at + 4 + len)
        };
        if len < -1 || next > body.len() {
            None
        } else {
            match read_columns(body, next, (left - 1) as nat) {
                None => None,
                Some((values, end)) => Some((seq![value] + values, end)),
            }
        }
    }
}

/// A row as a client reads it: a count of columns, the columns, and nothing
/// behind them.
pub open spec fn read_row(body: Seq<u8>) -> Option<Seq<Option<Seq<u8>>>> {
    if body.len() < 2 {
        None
    } else {
        match read_columns(body, 2, wire_u16(body, 0) as nat) {
            Some((values, end)) => if end == body.len() {
                Some(values)
            } else {
                None
            },
            None => None,
        }
    }
}

/// Whether a column is asked for in binary form: by the one format for all
/// columns, or by its own.
pub open spec fn wants_binary(formats: Seq<u16>, i: int) -> bool {
    if formats.len() == 1 {
        formats[0] == 1
    } else {
        0 <= i < formats.len() && formats[i] == 1
    }
}

/// The bytes that a client is sent of a value: none of `Null`, and else the
/// binary form or the text.
pub open spec fn sent_bytes(
    value: DatumView,
    ty: SqlType,
    binary: bool,
    floats: FloatTexts,
) -> Option<Seq<u8>> {
    if value == DatumView::Null {
        None
    } else if binary {
        Some(binary_result(value, ty, floats))
    } else {
        Some(encode_utf8(value.text(floats)))
    }
}

/// What a client is sent of the values of a row from the `i`th on.
pub open spec fn sent_values(
    row: Seq<DatumView>,
    columns: Seq<ColumnView>,
    formats: Seq<u16>,
    floats: FloatTexts,
    i: int,
) -> Seq<Option<Seq<u8>>> {
    Seq::new(
        (row.len() - i) as nat,
        |k: int|
            sent_bytes(row[i + k], columns[i + k].data_type, wants_binary(formats, i + k), floats),
    )
}

proof fn lemma_length_field(body: Seq<u8>, at: int, n: nat)
    requires
        0 <= at,
        at + 4 <= body.len(),
        n <= i32::MAX,
        body.subrange(at, at + 4) == be(n, 4),
    ensures
        wire_i32(body, at) == n,
        wire_u32(body, at) == n,
{
    lemma_four_bytes(n);
    let four = body.subrange(at, at + 4);
    assert(body[at] == four[0] && body[at + 1] == four[1] && body[at + 2] == four[2] && body[at + 3]
        == four[3]);
    assert(n / 0x100_0000 < 128);
    assert(n == (n / 0x100_0000) * 0x100_0000 + (n / 0x1_0000 % 256) * 0x1_0000 + (n / 0x100 % 256)
        * 0x100 + n % 256);
}

proof fn lemma_values_read_back(
    out: Seq<u8>,
    row: Seq<DatumView>,
    columns: Seq<ColumnView>,
    formats: Seq<u16>,
    floats: FloatTexts,
    i: int,
)
    requires
        0 <= i <= row.len(),
        row.len() == columns.len(),
        with_values(out, row, columns, formats, floats, i) is Ok,
    ensures
        ({
            let body = with_values(out, row, columns, formats, floats, i)->Ok_0;
            &&& out.len() <= body.len()
            &&& body.subrange(0, out.len() as int) == out
            &&& read_columns(body, out.len() as int, (row.len() - i) as nat) == Some(
                (sent_values(row, columns, formats, floats, i), body.len() as int),
            )
        }),
    decreases row.len() - i,
{
    let body = with_values(out, row, columns, formats, floats, i)->Ok_0;
    let sent = sent_values(row, columns, formats, floats, i);
    if i == row.len() {
        assert(body.subrange(0, out.len() as int) =~= out);
        assert(sent =~= Seq::empty());
    } else {
        let rest = sent_values(row, columns, formats, floats, i + 1);
        let value = sent_bytes(row[i], columns[i].data_type, wants_binary(formats, i), floats);
        let at = out.len() as int;
        assert(sent =~= seq![value] + rest) by {
            assert forall|k: int| 0 < k < sent.len() implies sent[k] == rest[k - 1] by {}
        }
        if row[i] is Null {
            let wider = out + seq![255u8, 255, 255, 255];
            lemma_values_read_back(wider, row, columns, formats, floats, i + 1);
            assert(body.subrange(0, wider.len() as int) == wider);
            assert forall|k: int| 0 <= k < wider.len() implies body[k] == wider[k] by {
                assert(body.subrange(0, wider.len() as int)[k] == wider[k]);
            }
            assert(body.subrange(0, at) =~= out);
            assert(body[at] == 255 && body[at + 1] == 255 && body[at + 2] == 255 && body[at + 3]
                == 255);
            assert(wire_i32(body, at) == -1);
        } else {
            let bytes = value_bytes(
                row[i],
                columns[i].data_type,
                column_format(formats, i),
                floats,
            );
            assert(value == Some(bytes));
            lemma_be_len(bytes.len(), 4);
            let wider = out + be(bytes.len(), 4) + bytes;
            lemma_values_read_back(wider, row, columns, formats, floats, i + 1);
            assert(body.subrange(0, wider.len() as int) == wider);
            assert forall|k: int| 0 <= k < wider.len() implies body[k] == wider[k] by {
                assert(body.subrange(0, wider.len() as int)[k] == wider[k]);
            }
            assert(body.subrange(0, at) =~= out);
            assert(body.subrange(at, at + 4) =~= be(bytes.len(), 4));
            lemma_length_field(body, at, bytes.len());
            assert(body.subrange(at + 4, at + 4 + bytes.len()) =~= bytes);
        }
    }
}

/// A client reads of a row what was to be sent: a column has no value exactly
/// where the value is `Null`, and else the bytes of the value in the form that
/// was asked for.
pub proof fn rows_are_read_as_sent(
    row: Seq<DatumView>,
    columns: Seq<ColumnView>,
    formats: Seq<u16>,
    floats: FloatTexts,
)
    requires
        row_body(row, columns, formats, floats) is Ok,
    ensures
        read_row(row_body(row, columns, formats, floats)->Ok_0) == Some(
            sent_values(row, columns, formats, floats, 0),
        ),
{
    let n = row.len();
    let body = row_body(row, columns, formats, floats)->Ok_0;
    lemma_two_bytes(n);
    lemma_values_read_back(be(n, 2), row, columns, formats, floats, 0);
    let two = body.subrange(0, 2);
    assert(body[0] == two[0] && body[1] == two[1]);
    assert(wire_u16(body, 0) == n);
}

/// Two rows that a client is sent alike have their `Null`s at the same places.
pub proof fn nulls_are_told_apart(
    a: Seq<DatumView>,
    b: Seq<DatumView>,
    columns: Seq<ColumnView>,
    formats: Seq<u16>,
    floats: FloatTexts,
    i: int,
)
    requires
        row_body(a, columns, formats, floats) is Ok,
        row_body(a, columns, formats, floats) == row_body(b, columns, formats, floats),
        0 <= i < columns.len(),
    ensures
        a[i] == DatumView::Null <==> b[i] == DatumView::Null,
{
    rows_are_read_as_sent(a, columns, formats, floats);
    rows_are_read_as_sent(b, columns, formats, floats);
    let (x, y) = (
        sent_values(a, columns, formats, floats, 0),
        sent_values(b, columns, formats, floats, 0),
    );
    assert(x == y);
    assert(x[i] == y[i]);
}

/// The bytes that a row takes from the `i`th value on.
pub open spec fn values_size(
    row: Seq<DatumView>,
    columns: Seq<ColumnView>,
    formats: Seq<u16>,
    floats: FloatTexts,
    i: int,
) -> nat
    decreases row.len() - i,
{
    if i < 0 || i >= row.len() {
        0
    } else {
        4 + match sent_bytes(row[i], columns[i].data_type, wants_binary(formats, i), floats) {
            Some(bytes) => bytes.len(),
            None => 0,
        } + values_size(row, columns, formats, floats, i + 1)
    }
}

proof fn lemma_values_fit(
    out: Seq<u8>,
    row: Seq<DatumView>,
    columns: Seq<ColumnView>,
    formats: Seq<u16>,
    floats: FloatTexts,
    i: int,
)
    requires
        0 <= i <= row.len(),
        out.len() + values_size(row, columns, formats, floats, i) <= 16_777_216,
    ensures
        with_values(out, row, columns, formats, floats, i) is Ok,
    decreases row.len() - i,
{
    if i < row.len() {
        if row[i] is Null {
            lemma_values_fit(
                out + seq![255u8, 255, 255, 255],
                row,
                columns,
                formats,
                floats,
                i + 1,
            );
        } else {
            let bytes = value_bytes(
                row[i],
                columns[i].data_type,
                column_format(formats, i),
                floats,
            );
            lemma_be_len(bytes.len(), 4);
            lemma_values_fit(
                out + be(bytes.len(), 4) + bytes,
                row,
                columns,
                formats,
                floats,
                i + 1,
            );
        }
    }
}

/// Every row with a value for every column, at most 65,535 of them, is sent
/// where it takes at most 16 MiB.
pub proof fn rows_that_fit_are_sent(
    row: Seq<DatumView>,
    columns: Seq<ColumnView>,
    formats: Seq<u16>,
    floats: FloatTexts,
)
    requires
        row.len() == columns.len() <= 65_535,
        2 + values_size(row, columns, formats, floats, 0) <= 16_777_216,
    ensures
        row_body(row, columns, formats, floats) is Ok,
{
    lemma_be_len(row.len(), 2);
    lemma_values_fit(be(row.len(), 2), row, columns, formats, floats, 0);
}

// ---------------------------------------------------------------------------
// Descriptions
// ---------------------------------------------------------------------------

/// What a client is told of a column. A size or a modifier of -1 says that
/// there is none.
pub struct Told {
    pub name: Seq<u8>,
    pub table: int,
    pub column: int,
    pub ty: int,
    pub size: int,
    pub modifier: int,
    pub format: int,
}

/// The bytes from a place on up to the zero byte that ends them.
pub open spec fn client_text(body: Seq<u8>, at: int) -> Option<Seq<u8>>
    decreases body.len() - at,
{
    if at < 0 || at >= body.len() {
        None
    } else if body[at] == 0 {
        Some(Seq::empty())
    } else {
        match client_text(body, at + 1) {
            Some(rest) => Some(seq![body[at]] + rest),
            None => None,
        }
    }
}

/// The number that two bytes write in two's complement.
pub open spec fn wire_i16(body: Seq<u8>, at: int) -> int {
    if body[at] >= 128 {
        wire_u16(body, at) - 0x1_0000
    } else {
        wire_u16(body, at)
    }
}

/// The columns that a description tells of from a place on, as a client reads
/// them.
pub open spec fn read_told(body: Seq<u8>, at: int, left: nat) -> Option<(Seq<Told>, int)>
    decreases left,
{
    if left == 0 {
        Some((Seq::empty(), at))
    } else {
        match client_text(body, at) {
            None => None,
            Some(name) => {
                let a = at + name.len() + 1;
                if a + 18 > body.len() {
                    None
                } else {
                    let told = Told {
                        name,
                        table: wire_u32(body, a),
                        column: wire_u16(body, a + 4),
                        ty: wire_u32(body, a + 6),
                        size: wire_i16(body, a + 10),
                        modifier: wire_i32(body, a + 12),
                        format: wire_u16(body, a + 16),
                    };
                    match read_told(body, a + 18, (left - 1) as nat) {
                        None => None,
                        Some((rest, end)) => Some((seq![told] + rest, end)),
                    }
                }
            },
        }
    }
}

/// The number by which clients know a type.
pub open spec fn known_type(ty: SqlType) -> int {
    match ty {
        SqlType::Boolean => 16,
        SqlType::SmallInt => 21,
        SqlType::Integer => 23,
        SqlType::BigInt => 20,
        SqlType::Double => 701,
        SqlType::Text => 25,
        SqlType::Varchar(_) => 1043,
        SqlType::Bytea => 17,
        SqlType::Date => 1082,
        SqlType::Timestamp => 1114,
        SqlType::TimestampTz => 1184,
        SqlType::Uuid => 2950,
        SqlType::Jsonb => 3802,
    }
}

/// What a client is to be told of a column.
pub open spec fn to_tell(c: ColumnView, binary: bool) -> Told {
    Told {
        name: encode_utf8(c.name),
        table: c.table_oid as int,
        column: c.column_oid as int % 0x1_0000,
        ty: known_type(c.data_type),
        size: -1,
        modifier: -1,
        format: if binary {
            1
        } else {
            0
        },
    }
}

/// What a client is to be told of the columns from the `i`th on.
pub open spec fn all_to_tell(columns: Seq<ColumnView>, formats: Seq<u16>, i: int) -> Seq<Told> {
    Seq::new(
        (columns.len() - i) as nat,
        |k: int| to_tell(columns[i + k], wants_binary(formats, i + k)),
    )
}

/// Whether no column has a zero byte in its name.
pub open spec fn names_end(columns: Seq<ColumnView>) -> bool {
    forall|i: int, k: int|
        0 <= i < columns.len() && 0 <= k < encode_utf8(columns[i].name).len()
            ==> #[trigger] encode_utf8(columns[i].name)[k] != 0
}

proof fn lemma_client_text(body: Seq<u8>, at: int, text: Seq<u8>)
    requires
        0 <= at,
        at + text.len() < body.len(),
        body.subrange(at, at + text.len()) == text,
        body[at + text.len()] == 0,
        forall|k: int| 0 <= k < text.len() ==> #[trigger] text[k] != 0,
    ensures
        client_text(body, at) == Some(text),
    decreases text.len(),
{
    if text.len() == 0 {
        assert(text =~= Seq::empty());
    } else {
        let rest = text.subrange(1, text.len() as int);
        assert(body[at] == body.subrange(at, at + text.len())[0]);
        assert(body[at] == text[0]);
        assert(body.subrange(at + 1, at + 1 + rest.len()) =~= rest) by {
            assert forall|k: int| 0 <= k < rest.len() implies body[at + 1 + k] == rest[k] by {
                assert(body.subrange(at, at + text.len())[k + 1] == text[k + 1]);
            }
        }
        lemma_client_text(body, at + 1, rest);
        assert(seq![text[0]] + rest =~= text);
    }
}

proof fn lemma_u16_field(body: Seq<u8>, at: int, n: nat)
    requires
        0 <= at,
        at + 2 <= body.len(),
        n < 0x1_0000,
        body.subrange(at, at + 2) == be(n, 2),
    ensures
        wire_u16(body, at) == n,
{
    lemma_two_bytes(n);
    let two = body.subrange(at, at + 2);
    assert(body[at] == two[0] && body[at + 1] == two[1]);
}

proof fn lemma_u32_field(body: Seq<u8>, at: int, n: nat)
    requires
        0 <= at,
        at + 4 <= body.len(),
        n < 0x1_0000_0000,
        body.subrange(at, at + 4) == be(n, 4),
    ensures
        wire_u32(body, at) == n,
{
    lemma_four_bytes(n);
    let four = body.subrange(at, at + 4);
    assert(body[at] == four[0] && body[at + 1] == four[1] && body[at + 2] == four[2] && body[at + 3]
        == four[3]);
    assert(n == (n / 0x100_0000) * 0x100_0000 + (n / 0x1_0000 % 256) * 0x1_0000 + (n / 0x100 % 256)
        * 0x100 + n % 256);
}

proof fn lemma_part(body: Seq<u8>, at: int, bytes: Seq<u8>, from: int, to: int)
    requires
        0 <= at,
        0 <= from <= to <= bytes.len(),
        at + bytes.len() <= body.len(),
        body.subrange(at, at + bytes.len()) == bytes,
    ensures
        body.subrange(at + from, at + to) == bytes.subrange(from, to),
{
    assert(body.subrange(at + from, at + to) =~= body.subrange(at, at + bytes.len()).subrange(
        from,
        to,
    ));
}

proof fn lemma_columns_prefix(columns: Seq<ColumnView>, formats: Seq<u16>, i: int, n: int)
    requires
        0 <= i <= n,
    ensures
        columns_bytes(columns, formats, i).len() <= columns_bytes(columns, formats, n).len(),
        columns_bytes(columns, formats, n).subrange(
            0,
            columns_bytes(columns, formats, i).len() as int,
        ) == columns_bytes(columns, formats, i),
    decreases n - i,
{
    let (short, long) = (columns_bytes(columns, formats, i), columns_bytes(columns, formats, n));
    if i < n {
        lemma_columns_prefix(columns, formats, i, n - 1);
        let middle = columns_bytes(columns, formats, n - 1);
        assert(long.subrange(0, short.len() as int) =~= middle.subrange(0, short.len() as int));
    } else {
        assert(long.subrange(0, short.len() as int) =~= short);
    }
}

proof fn lemma_column_read_back(body: Seq<u8>, at: int, c: ColumnView, format: u16)
    requires
        0 <= at,
        at + column_bytes(c, format).len() <= body.len(),
        body.subrange(at, at + column_bytes(c, format).len()) == column_bytes(c, format),
        forall|k: int| 0 <= k < encode_utf8(c.name).len() ==> #[trigger] encode_utf8(c.name)[k]
            != 0,
        format <= 1,
    ensures
        ({
            let a = at + encode_utf8(c.name).len() + 1;
            &&& column_bytes(c, format).len() == encode_utf8(c.name).len() + 19
            &&& client_text(body, at) == Some(encode_utf8(c.name))
            &&& wire_u32(body, a) == c.table_oid
            &&& wire_u16(body, a + 4) == c.column_oid % 0x1_0000
            &&& wire_u32(body, a + 6) == known_type(c.data_type)
            &&& wire_i16(body, a + 10) == -1
            &&& wire_i32(body, a + 12) == -1
            &&& wire_u16(body, a + 16) == format
        }),
{
    let name = encode_utf8(c.name);
    let n = name.len() as int;
    let bytes = column_bytes(c, format);
    let (t, k, o, f) = (
        be(c.table_oid as nat, 4),
        be((c.column_oid % 0x1_0000) as nat, 2),
        be(c.data_type.oid_number() as nat, 4),
        be(format as nat, 2),
    );
    let ones = seq![255u8, 255, 255, 255, 255, 255];
    lemma_be_len(c.table_oid as nat, 4);
    lemma_be_len((c.column_oid % 0x1_0000) as nat, 2);
    lemma_be_len(c.data_type.oid_number() as nat, 4);
    lemma_be_len(format as nat, 2);
    assert(bytes =~= ended(c.name) + t + k + o + ones + f);
    assert(bytes.len() == n + 19);
    let a = at + n + 1;
    lemma_part(body, at, bytes, 0, n);
    assert(bytes.subrange(0, n) =~= name);
    lemma_part(body, at, bytes, n, n + 1);
    assert(bytes.subrange(n, n + 1) =~= seq![0u8]);
    assert(body[at + n] == body.subrange(at + n, at + n + 1)[0]);
    lemma_client_text(body, at, name);
    lemma_part(body, at, bytes, n + 1, n + 5);
    assert(bytes.subrange(n + 1, n + 5) =~= t);
    lemma_u32_field(body, a, c.table_oid as nat);
    lemma_part(body, at, bytes, n + 5, n + 7);
    assert(bytes.subrange(n + 5, n + 7) =~= k);
    lemma_u16_field(body, a + 4, (c.column_oid % 0x1_0000) as nat);
    lemma_part(body, at, bytes, n + 7, n + 11);
    assert(bytes.subrange(n + 7, n + 11) =~= o);
    lemma_u32_field(body, a + 6, c.data_type.oid_number() as nat);
    lemma_part(body, at, bytes, n + 11, n + 17);
    assert(bytes.subrange(n + 11, n + 17) =~= ones);
    let six = body.subrange(a + 10, a + 16);
    assert(body[a + 10] == six[0] && body[a + 11] == six[1] && body[a + 12] == six[2] && body[a
        + 13] == six[3] && body[a + 14] == six[4] && body[a + 15] == six[5]);
    lemma_part(body, at, bytes, n + 17, n + 19);
    assert(bytes.subrange(n + 17, n + 19) =~= f);
    lemma_u16_field(body, a + 16, format as nat);
}

proof fn lemma_column_place(body: Seq<u8>, columns: Seq<ColumnView>, formats: Seq<u16>, i: int)
    requires
        description_body(columns, formats) == Ok::<_, Seq<char>>(body),
        0 <= i < columns.len(),
    ensures
        ({
            let at = 2 + columns_bytes(columns, formats, i).len() as int;
            let bytes = column_bytes(columns[i], column_format(formats, i));
            &&& at + bytes.len() <= body.len()
            &&& at + bytes.len() == 2 + columns_bytes(columns, formats, i + 1).len()
            &&& body.subrange(at, at + bytes.len()) == bytes
        }),
{
    let whole = columns_bytes(columns, formats, columns.len() as int);
    let front = columns_bytes(columns, formats, i);
    let wider = columns_bytes(columns, formats, i + 1);
    let bytes = column_bytes(columns[i], column_format(formats, i));
    let (a, b) = (front.len() as int, wider.len() as int);
    lemma_be_len(columns.len(), 2);
    lemma_columns_prefix(columns, formats, i + 1, columns.len() as int);
    assert(body.subrange(2, 2 + whole.len() as int) =~= whole);
    lemma_part(body, 2, whole, a, b);
    assert(whole.subrange(a, b) =~= whole.subrange(0, b).subrange(a, b));
    assert(wider.subrange(a, b) =~= bytes);
}

proof fn lemma_format(columns: Seq<ColumnView>, formats: Seq<u16>, i: int)
    requires
        description_body(columns, formats) is Ok,
        0 <= i < columns.len(),
    ensures
        column_format(formats, i) == if wants_binary(formats, i) {
            1u16
        } else {
            0u16
        },
{
    if formats.len() == 1 {
        assert(!(formats[0] > 1));
    } else if i < formats.len() {
        assert(!(formats[i] > 1));
    }
}

#[verifier::spinoff_prover]
proof fn lemma_told(body: Seq<u8>, columns: Seq<ColumnView>, formats: Seq<u16>, i: int)
    requires
        description_body(columns, formats) == Ok::<_, Seq<char>>(body),
        names_end(columns),
        0 <= i <= columns.len(),
    ensures
        read_told(
            body,
            2 + columns_bytes(columns, formats, i).len() as int,
            (columns.len() - i) as nat,
        ) == Some((all_to_tell(columns, formats, i), body.len() as int)),
    decreases columns.len() - i,
{
    let told = all_to_tell(columns, formats, i);
    if i == columns.len() {
        lemma_be_len(columns.len(), 2);
        assert(told =~= Seq::empty());
    } else {
        let c = columns[i];
        let at = 2 + columns_bytes(columns, formats, i).len() as int;
        lemma_told(body, columns, formats, i + 1);
        lemma_column_place(body, columns, formats, i);
        lemma_format(columns, formats, i);
        lemma_column_read_back(body, at, c, column_format(formats, i));
        let first = to_tell(c, wants_binary(formats, i));
        let rest = all_to_tell(columns, formats, i + 1);
        assert(told =~= seq![first] + rest) by {
            assert forall|k: int| 0 < k < told.len() implies told[k] == rest[k - 1] by {}
        }
        let a = at + first.name.len() + 1;
        assert(first == (Told {
            name: first.name,
            table: wire_u32(body, a),
            column: wire_u16(body, a + 4),
            ty: wire_u32(body, a + 6),
            size: wire_i16(body, a + 10),
            modifier: wire_i32(body, a + 12),
            format: wire_u16(body, a + 16),
        }));
        assert(((columns.len() - i) as nat - 1) as nat == (columns.len() - (i + 1)) as nat);
    }
}

/// A client reads of a description the name, the origin, the type and the
/// format of every column, in their order, and nothing else.
pub proof fn descriptions_are_read_as_sent(columns: Seq<ColumnView>, formats: Seq<u16>)
    requires
        description_body(columns, formats) is Ok,
        names_end(columns),
    ensures
        ({
            let body = description_body(columns, formats)->Ok_0;
            &&& body.len() >= 2
            &&& wire_u16(body, 0) == columns.len()
            &&& read_told(body, 2, columns.len()) == Some(
                (all_to_tell(columns, formats, 0), body.len() as int),
            )
        }),
{
    let body = description_body(columns, formats)->Ok_0;
    lemma_be_len(columns.len(), 2);
    assert(body.subrange(0, 2) =~= be(columns.len(), 2));
    lemma_u16_field(body, 0, columns.len());
    lemma_told(body, columns, formats, 0);
}

/// Whether formats may be asked for: none, one for all columns or one for each,
/// and each text or binary.
pub open spec fn may_ask(formats: Seq<u16>, columns: nat) -> bool {
    &&& formats.len() == 0 || formats.len() == 1 || formats.len() == columns
    &&& forall|i: int| 0 <= i < formats.len() ==> #[trigger] formats[i] == 0 || formats[i] == 1
}

/// Columns are described exactly where there are at most 65,535 of them and
/// their formats may be asked for.
pub proof fn columns_are_described(columns: Seq<ColumnView>, formats: Seq<u16>)
    ensures
        description_body(columns, formats) is Ok <==> columns.len() <= 65_535 && may_ask(
            formats,
            columns.len(),
        ),
{
    if columns.len() <= 65_535 && description_body(columns, formats) is Ok {
        assert forall|i: int| 0 <= i < formats.len() implies #[trigger] formats[i] == 0
            || formats[i] == 1 by {
            assert(!(formats[i] > 1));
        }
    }
}

// ---------------------------------------------------------------------------
// Results
// ---------------------------------------------------------------------------

spec fn is_row(
    m: MessageView,
    row: Seq<DatumView>,
    columns: Seq<ColumnView>,
    formats: Seq<u16>,
    floats: FloatTexts,
) -> bool {
    m.kind == 0x44 && row_body(row, columns, formats, floats) == Ok::<_, Seq<char>>(m.body)
}

proof fn lemma_rows_sent(
    before: Seq<MessageView>,
    sent: int,
    r: ResultView,
    formats: Seq<u16>,
    floats: FloatTexts,
    i: int,
)
    requires
        0 <= i <= r.rows.len(),
        with_rows(before, sent, r, formats, floats, i).fault is None,
    ensures
        ({
            let m = with_rows(before, sent, r, formats, floats, i).messages;
            &&& m.len() == before.len() + r.rows.len() - i
            &&& m.subrange(0, before.len() as int) == before
            &&& forall|j: int|
                before.len() <= j < m.len() ==> is_row(
                    #[trigger] m[j],
                    r.rows[j - before.len() + i],
                    r.columns,
                    formats,
                    floats,
                )
        }),
    decreases r.rows.len() - i,
{
    let m = with_rows(before, sent, r, formats, floats, i).messages;
    if i < r.rows.len() {
        let body = row_body(r.rows[i], r.columns, formats, floats)->Ok_0;
        let next = before.push(MessageView { kind: crate::pg_message::KIND_ROW, body });
        lemma_rows_sent(next, sent + body.len(), r, formats, floats, i + 1);
        assert(m.subrange(0, before.len() as int) =~= before) by {
            assert forall|k: int| 0 <= k < before.len() implies m[k] == before[k] by {
                assert(m.subrange(0, next.len() as int)[k] == next[k]);
            }
        }
        assert forall|j: int| before.len() <= j < m.len() implies is_row(
            #[trigger] m[j],
            r.rows[j - before.len() + i],
            r.columns,
            formats,
            floats,
        ) by {
            if j == before.len() {
                assert(m.subrange(0, next.len() as int)[j] == next[j]);
            } else {
                assert(j - next.len() + i + 1 == j - before.len() + i);
            }
        }
    } else {
        assert(m.subrange(0, before.len() as int) =~= before);
    }
}

/// Whether a message carries a row to a client that reads the values of the
/// row in it.
pub open spec fn carries_row(
    m: MessageView,
    row: Seq<DatumView>,
    columns: Seq<ColumnView>,
    formats: Seq<u16>,
    floats: FloatTexts,
) -> bool {
    m.kind == 0x44 && read_row(m.body) == Some(sent_values(row, columns, formats, floats, 0))
}

/// The tag that ends a result: a query is tagged with the number of its rows,
/// and what has no tag with that of a query without rows.
pub open spec fn tagged(r: ResultView, tag: Seq<char>) -> bool {
    &&& r.command_tag == "SELECT"@ ==> tag == "SELECT "@ + digits(r.affected_rows as nat)
    &&& r.command_tag.len() == 0 ==> tag == "SELECT 0"@
    &&& r.command_tag.len() > 0 && ascii_lower_text(r.command_tag) != "select"@ ==> tag
        == r.command_tag
}

/// A result that is sent without a fault is sent whole and in order: the
/// description where the client has none yet, every row, and the tag; without
/// columns, the tag alone.
pub proof fn results_are_sent_whole(
    r: ResultView,
    formats: Seq<u16>,
    floats: FloatTexts,
    described: bool,
)
    requires
        result_output(r, formats, floats, described).fault is None,
    ensures
        ({
            let m = result_output(r, formats, floats, described).messages;
            let first: int = if described {
                0
            } else {
                1
            };
            &&& m.len() > 0
            &&& m.last().kind == 0x43
            &&& exists|tag: Seq<char>| #[trigger]
                tagged(r, tag) && m.last().body == encode_utf8(tag).push(0)
            &&& r.columns.len() == 0 ==> m.len() == 1
            &&& r.columns.len() > 0 ==> {
                &&& m.len() == first + r.rows.len() + 1
                &&& !described ==> m[0].kind == 0x54 && description_body(r.columns, formats)
                    == Ok::<_, Seq<char>>(m[0].body)
                &&& forall|k: int|
                    0 <= k < r.rows.len() ==> carries_row(
                        #[trigger] m[first + k],
                        r.rows[k],
                        r.columns,
                        formats,
                        floats,
                    )
            }
        }),
{
    let rows = rows_output(r, formats, floats, described);
    let m = result_output(r, formats, floats, described).messages;
    let tag = crate::pg_message::finished_tag(r);
    reveal_strlit("SELECT");
    reveal_strlit("select");
    assert(ascii_lower_text("SELECT"@) =~= "select"@);
    assert(tagged(r, tag));
    if r.columns.len() > 0 {
        let before = if described {
            Seq::empty()
        } else {
            seq![
                MessageView {
                    kind: crate::pg_message::KIND_DESCRIPTION,
                    body: description_body(r.columns, formats)->Ok_0,
                },
            ]
        };
        lemma_rows_sent(before, 0, r, formats, floats, 0);
        let first = before.len() as int;
        if !described {
            assert(rows.messages.subrange(0, 1)[0] == before[0]);
        }
        assert forall|k: int| 0 <= k < r.rows.len() implies carries_row(
            #[trigger] m[first + k],
            r.rows[k],
            r.columns,
            formats,
            floats,
        ) by {
            let j = first + k;
            assert(m[j] == rows.messages[j]);
            assert(j - before.len() + 0 == k);
            rows_are_read_as_sent(r.rows[k], r.columns, formats, floats);
        }
    }
}

/// The bytes that the rows of a result take from the `i`th on.
pub open spec fn rows_size(r: ResultView, formats: Seq<u16>, floats: FloatTexts, i: int) -> nat
    decreases r.rows.len() - i,
{
    if i < 0 || i >= r.rows.len() {
        0
    } else {
        2 + values_size(r.rows[i], r.columns, formats, floats, 0) + rows_size(
            r,
            formats,
            floats,
            i + 1,
        )
    }
}

proof fn lemma_values_len(
    out: Seq<u8>,
    row: Seq<DatumView>,
    columns: Seq<ColumnView>,
    formats: Seq<u16>,
    floats: FloatTexts,
    i: int,
)
    requires
        0 <= i <= row.len(),
        with_values(out, row, columns, formats, floats, i) is Ok,
    ensures
        with_values(out, row, columns, formats, floats, i)->Ok_0.len() == out.len() + values_size(
            row,
            columns,
            formats,
            floats,
            i,
        ),
    decreases row.len() - i,
{
    if i < row.len() {
        if row[i] is Null {
            lemma_values_len(
                out + seq![255u8, 255, 255, 255],
                row,
                columns,
                formats,
                floats,
                i + 1,
            );
        } else {
            let bytes = value_bytes(
                row[i],
                columns[i].data_type,
                column_format(formats, i),
                floats,
            );
            lemma_be_len(bytes.len(), 4);
            lemma_values_len(
                out + be(bytes.len(), 4) + bytes,
                row,
                columns,
                formats,
                floats,
                i + 1,
            );
        }
    }
}

proof fn lemma_rows_fit(
    before: Seq<MessageView>,
    sent: int,
    r: ResultView,
    formats: Seq<u16>,
    floats: FloatTexts,
    i: int,
)
    requires
        0 <= i <= r.rows.len(),
        0 <= sent,
        r.columns.len() <= 65_535,
        forall|k: int| 0 <= k < r.rows.len() ==> (#[trigger] r.rows[k]).len() == r.columns.len(),
        sent + rows_size(r, formats, floats, i) <= 16_777_216,
    ensures
        with_rows(before, sent, r, formats, floats, i).fault is None,
    decreases r.rows.len() - i,
{
    if i < r.rows.len() {
        let row = r.rows[i];
        rows_that_fit_are_sent(row, r.columns, formats, floats);
        let body = row_body(row, r.columns, formats, floats)->Ok_0;
        lemma_be_len(row.len(), 2);
        lemma_values_len(be(row.len(), 2), row, r.columns, formats, floats, 0);
        lemma_rows_fit(
            before.push(MessageView { kind: crate::pg_message::KIND_ROW, body }),
            sent + body.len(),
            r,
            formats,
            floats,
            i + 1,
        );
    }
}

/// Every result with a value for every column in each row is sent, where its
/// formats may be asked for and its rows take at most 16 MiB together.
pub proof fn results_that_fit_are_sent(
    r: ResultView,
    formats: Seq<u16>,
    floats: FloatTexts,
    described: bool,
)
    requires
        r.columns.len() <= 65_535,
        may_ask(formats, r.columns.len()),
        forall|k: int| 0 <= k < r.rows.len() ==> (#[trigger] r.rows[k]).len() == r.columns.len(),
        rows_size(r, formats, floats, 0) <= 16_777_216,
    ensures
        result_output(r, formats, floats, described).fault is None,
{
    columns_are_described(r.columns, formats);
    lemma_rows_fit(Seq::empty(), 0, r, formats, floats, 0);
    if description_body(r.columns, formats) is Ok {
        lemma_rows_fit(
            seq![
                MessageView {
                    kind: crate::pg_message::KIND_DESCRIPTION,
                    body: description_body(r.columns, formats)->Ok_0,
                },
            ],
            0,
            r,
            formats,
            floats,
            0,
        );
    }
}

/// A message is sent as its kind, the length of what is behind the kind, and
/// its body; it is sent exactly where that length is at most 16 MiB.
pub proof fn messages_are_framed(m: MessageView)
    ensures
        framed(m) is Ok <==> m.body.len() + 4 <= 16_777_216,
        framed(m) matches Ok(bytes) ==> {
            &&& bytes.len() == 1 + 4 + m.body.len()
            &&& bytes[0] == m.kind
            &&& wire_i32(bytes, 1) == m.body.len() + 4
            &&& bytes.subrange(5, bytes.len() as int) == m.body
        },
{
    if m.body.len() + 4 <= 16_777_216 {
        let n = (m.body.len() + 4) as nat;
        lemma_be_len(n, 4);
        let bytes = seq![m.kind] + be(n, 4) + m.body;
        assert(bytes.subrange(1, 5) =~= be(n, 4));
        lemma_length_field(bytes, 1, n);
        assert(bytes.subrange(5, bytes.len() as int) =~= m.body);
    }
}

} // verus!
