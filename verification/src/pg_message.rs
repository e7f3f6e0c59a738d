//! The messages that clients are sent: their framing, errors, row descriptions
//! and rows.

use crate::bytes::{be, put_bytes, put_u16, put_u32};
use crate::datum::{Datum, DatumView, FloatTexts, SqlType};
use crate::endpoint::is_alphanumeric;
use crate::error::{SqlError, SqlErrorView};
use crate::pg_values::{
    binary_result, encode_binary_result, encode_text_result, MAX_PROTOCOL_ITEMS,
};
use crate::text::{
    ascii_lower_text, digits, digits_text, joined, owned, same_text_ignoring_case, text_bytes,
    text_chars,
};
use vstd::prelude::*;
use vstd::string::*;
use vstd::utf8::encode_utf8;

verus! {

pub const MAX_FRONTEND_MESSAGE_BYTES: usize = 16_777_216;

pub const MAX_WIRE_RESULT_BYTES: usize = 16_777_216;

/// The kinds of the messages that clients are sent, by their letters.
pub const KIND_ERROR: u8 = 0x45;

pub const KIND_ROW: u8 = 0x44;

pub const KIND_DESCRIPTION: u8 = 0x54;

pub const KIND_COMPLETE: u8 = 0x43;

pub const KIND_EMPTY_QUERY: u8 = 0x49;

pub const KIND_READY: u8 = 0x5a;

pub const KIND_PARSED: u8 = 0x31;

pub const KIND_BOUND: u8 = 0x32;

pub const KIND_CLOSED: u8 = 0x33;

pub const KIND_PARAMETERS: u8 = 0x74;

pub const KIND_NO_DATA: u8 = 0x6e;

pub const KIND_SUSPENDED: u8 = 0x73;

pub const KIND_AUTHENTICATION: u8 = 0x52;

pub const KIND_SETTING: u8 = 0x53;

pub const KIND_BACKEND_KEY: u8 = 0x4b;

pub const KIND_NEGOTIATION: u8 = 0x76;

/// The fields of an error, by their letters.
pub const FIELD_SEVERITY: u8 = 0x53;

pub const FIELD_CODE: u8 = 0x43;

pub const FIELD_MESSAGE: u8 = 0x4d;

pub const FIELD_DETAIL: u8 = 0x44;

pub const FIELD_HINT: u8 = 0x48;

pub const FIELD_POSITION: u8 = 0x50;

// ---------------------------------------------------------------------------
// Framing
// ---------------------------------------------------------------------------

/// A message: its kind and its body.
#[derive(Clone, Debug, PartialEq, Eq)]
pub struct Message {
    pub kind: u8,
    pub body: Vec<u8>,
}

/// What a [`Message`] holds.
#[verifier::ext_equal]
pub struct MessageView {
    pub kind: u8,
    pub body: Seq<u8>,
}

impl View for Message {
    type V = MessageView;

    open spec fn view(&self) -> MessageView {
        MessageView { kind: self.kind, body: self.body@ }
    }
}

/// The messages of a list.
pub open spec fn message_views(messages: Seq<Message>) -> Seq<MessageView> {
    messages.map_values(|m: Message| m@)
}

/// A message without a body.
pub open spec fn bare(kind: u8) -> MessageView {
    MessageView { kind, body: Seq::empty() }
}

/// Makes a message without a body.
pub fn bare_message(kind: u8) -> (message: Message)
    ensures
        message@ == bare(kind),
{
    let message = Message { kind, body: Vec::new() };
    assert(message@ =~= bare(kind));
    message
}

/// A list of one message.
pub fn one_message(message: Message) -> (messages: Vec<Message>)
    ensures
        message_views(messages@) == seq![message@],
{
    let mut messages: Vec<Message> = Vec::new();
    messages.push(message);
    assert(message_views(messages@) =~= seq![message@]);
    messages
}

/// Appends a message.
pub fn push_message(messages: &mut Vec<Message>, message: Message)
    ensures
        message_views(final(messages)@) == message_views(old(messages)@).push(message@),
{
    messages.push(message);
    assert(message_views(messages@) =~= message_views(old(messages)@).push(message@));
}

/// The bytes of a message: its kind, its length with the four bytes of the
/// length itself, and its body; or why it cannot be sent.
pub open spec fn framed(m: MessageView) -> Result<Seq<u8>, Seq<char>> {
    if m.body.len() + 4 > usize::MAX {
        Err("wire message length overflow"@)
    } else if m.body.len() + 4 > MAX_FRONTEND_MESSAGE_BYTES {
        Err("wire message exceeds configured limit"@)
    } else {
        Ok(seq![m.kind] + be((m.body.len() + 4) as nat, 4) + m.body)
    }
}

/// Writes a message.
pub fn write_message(message: &Message) -> (result: Result<Vec<u8>, String>)
    ensures
        match result {
            Ok(bytes) => framed(message@) == Ok::<_, Seq<char>>(bytes@),
            Err(fault) => framed(message@) == Err::<Seq<u8>, _>(fault@),
        },
{
    let total = match message.body.len().checked_add(4) {
        Some(total) => total,
        None => {
            return Err(owned("wire message length overflow"));
        },
    };
    if total > MAX_FRONTEND_MESSAGE_BYTES {
        return Err(owned("wire message exceeds configured limit"));
    }
    let mut bytes: Vec<u8> = Vec::new();
    bytes.push(message.kind);
    put_u32(&mut bytes, total as u32);
    put_bytes(&mut bytes, message.body.as_slice());
    assert(bytes@ =~= seq![message.kind] + be(total as nat, 4) + message.body@);
    Ok(bytes)
}

/// The length of the body behind a length field.
pub open spec fn body_length(length: u32) -> Option<nat> {
    if 4 <= length <= MAX_FRONTEND_MESSAGE_BYTES {
        Some((length - 4) as nat)
    } else {
        None
    }
}

/// The length of the body behind the length field of a frontend message.
pub fn frontend_body_length(length: u32) -> (result: Result<usize, String>)
    ensures
        match result {
            Ok(n) => body_length(length) == Some(n as nat),
            Err(fault) => body_length(length) is None && fault@
                == "invalid frontend message length"@,
        },
{
    if length < 4 || length as usize > MAX_FRONTEND_MESSAGE_BYTES {
        return Err(owned("invalid frontend message length"));
    }
    Ok(length as usize - 4)
}

/// A text with the zero byte that ends it.
pub open spec fn ended(text: Seq<char>) -> Seq<u8> {
    encode_utf8(text).push(0)
}

/// Appends a text with the zero byte that ends it.
pub fn cstr_put(out: &mut Vec<u8>, text: &str)
    ensures
        final(out)@ == old(out)@ + ended(text@),
{
    put_bytes(out, text_bytes(text).as_slice());
    out.push(0);
    assert(out@ =~= old(out)@ + ended(text@));
}

/// Appends a count of items.
pub fn put_u16_checked(out: &mut Vec<u8>, value: usize) -> (result: Result<(), String>)
    ensures
        match result {
            Ok(()) => value <= MAX_PROTOCOL_ITEMS && final(out)@ == old(out)@ + be(
                value as nat,
                2,
            ),
            Err(fault) => value > MAX_PROTOCOL_ITEMS && final(out)@ == old(out)@ && fault@
                == "wire item count exceeds u16"@,
        },
{
    if value > MAX_PROTOCOL_ITEMS {
        return Err(owned("wire item count exceeds u16"));
    }
    put_u16(out, value as u16);
    Ok(())
}

// ---------------------------------------------------------------------------
// Errors
// ---------------------------------------------------------------------------

/// One field of an error: its code, its text and a zero byte.
pub open spec fn error_field(code: u8, text: Seq<char>) -> Seq<u8> {
    seq![code] + ended(text)
}

/// Appends one field of an error.
pub fn field(out: &mut Vec<u8>, code: u8, value: &str)
    ensures
        final(out)@ == old(out)@ + error_field(code, value@),
{
    out.push(code);
    cstr_put(out, value);
    assert(out@ =~= old(out)@ + error_field(code, value@));
}

/// The code that clients are told: five letters or digits, or the code of an
/// internal error.
pub open spec fn state_code(code: Seq<char>) -> Seq<char> {
    if code.len() == 5 && forall|i: int| 0 <= i < 5 ==> is_alphanumeric(#[trigger] code[i]) {
        code
    } else {
        "XX000"@
    }
}

/// The code that clients are told of an error.
pub fn sqlstate(error: &SqlError) -> (code: &'static str)
    ensures
        code@ == state_code(error@.code),
{
    let chars = text_chars(error.code);
    if chars.len() != 5 {
        return "XX000";
    }
    let mut i: usize = 0;
    while i < 5
        invariant
            i <= 5,
            chars@ == error.code@,
            chars@.len() == 5,
            forall|k: int| 0 <= k < i ==> is_alphanumeric(#[trigger] chars@[k]),
        decreases 5 - i,
    {
        let c = chars[i];
        if !((c >= '0' && c <= '9') || (c >= 'a' && c <= 'z') || (c >= 'A' && c <= 'Z')) {
            assert(!is_alphanumeric(chars@[i as int]));
            return "XX000";
        }
        i += 1;
    }
    error.code
}

/// A field that may be missing.
pub open spec fn optional_field(code: u8, text: Option<Seq<char>>) -> Seq<u8> {
    match text {
        Some(t) => error_field(code, t),
        None => Seq::empty(),
    }
}

/// The body of an error message.
pub open spec fn error_body(severity: Seq<char>, e: SqlErrorView) -> Seq<u8> {
    (error_field(FIELD_SEVERITY, severity) + error_field(FIELD_CODE, state_code(e.code)) + error_field(
        FIELD_MESSAGE,
        e.message,
    ) + optional_field(FIELD_DETAIL, e.detail) + optional_field(FIELD_HINT, e.hint) + optional_field(
        FIELD_POSITION,
        match e.position {
            Some(p) => Some(digits(p as nat)),
            None => None,
        },
    )).push(0)
}

/// An error message.
pub open spec fn error_view(severity: Seq<char>, e: SqlErrorView) -> MessageView {
    MessageView { kind: KIND_ERROR, body: error_body(severity, e) }
}

/// Writes an error with its severity.
pub fn error_with_severity(severity: &str, e: &SqlError) -> (message: Message)
    ensures
        message@ == error_view(severity@, e@),
{
    let mut b: Vec<u8> = Vec::new();
    field(&mut b, FIELD_SEVERITY, severity);
    field(&mut b, FIELD_CODE, sqlstate(e));
    field(&mut b, FIELD_MESSAGE, e.message.as_str());
    if let Some(detail) = &e.detail {
        field(&mut b, FIELD_DETAIL, detail.as_str());
    }
    if let Some(hint) = &e.hint {
        field(&mut b, FIELD_HINT, hint.as_str());
    }
    if let Some(position) = e.position {
        field(&mut b, FIELD_POSITION, digits_text(position as u64).as_str());
    }
    b.push(0);
    let message = Message { kind: KIND_ERROR, body: b };
    assert(message@ =~= error_view(severity@, e@));
    message
}

/// Writes an error.
pub fn error_message(e: &SqlError) -> (message: Message)
    ensures
        message@ == error_view("ERROR"@, e@),
{
    error_with_severity("ERROR", e)
}

// ---------------------------------------------------------------------------
// Results
// ---------------------------------------------------------------------------

/// A column of a result.
#[derive(Clone, Debug)]
pub struct ResultColumn {
    pub name: String,
    pub data_type: SqlType,
    pub table_oid: u32,
    pub column_oid: u32,
}

/// What a query gave.
#[derive(Clone, Debug)]
pub struct QueryResult {
    pub columns: Vec<ResultColumn>,
    pub rows: Vec<Vec<Datum>>,
    pub command_tag: String,
    pub affected_rows: u64,
    pub notices: Vec<String>,
}

/// What a [`ResultColumn`] says.
#[verifier::ext_equal]
pub struct ColumnView {
    pub name: Seq<char>,
    pub data_type: SqlType,
    pub table_oid: u32,
    pub column_oid: u32,
}

impl View for ResultColumn {
    type V = ColumnView;

    open spec fn view(&self) -> ColumnView {
        ColumnView {
            name: self.name@,
            data_type: self.data_type,
            table_oid: self.table_oid,
            column_oid: self.column_oid,
        }
    }
}

/// What a [`QueryResult`] holds.
#[verifier::ext_equal]
pub struct ResultView {
    pub columns: Seq<ColumnView>,
    pub rows: Seq<Seq<DatumView>>,
    pub command_tag: Seq<char>,
    pub affected_rows: u64,
    pub notices: Seq<Seq<char>>,
}

/// The columns of a list.
pub open spec fn column_views(columns: Seq<ResultColumn>) -> Seq<ColumnView> {
    columns.map_values(|c: ResultColumn| c@)
}

/// The values of a row.
pub open spec fn row_values(row: Vec<Datum>) -> Seq<DatumView> {
    row@.map_values(|value: Datum| value@)
}

/// The values of some rows.
pub open spec fn rows_values(rows: Seq<Vec<Datum>>) -> Seq<Seq<DatumView>> {
    rows.map_values(|row: Vec<Datum>| row_values(row))
}

impl View for QueryResult {
    type V = ResultView;

    open spec fn view(&self) -> ResultView {
        ResultView {
            columns: column_views(self.columns@),
            rows: rows_values(self.rows@),
            command_tag: self.command_tag@,
            affected_rows: self.affected_rows,
            notices: self.notices@.map_values(|text: String| text@),
        }
    }
}

/// The format of one item in a list of formats: an empty list means text for
/// all, and a list of one applies to all.
pub open spec fn format_of(formats: Seq<u16>, index: int) -> Option<u16> {
    if formats.len() == 0 {
        Some(0)
    } else if formats.len() == 1 {
        Some(formats[0])
    } else if 0 <= index < formats.len() {
        Some(formats[index])
    } else {
        None
    }
}

/// The format of one item in a list of formats.
pub fn format_at(formats: &[u16], index: usize) -> (format: Option<u16>)
    ensures
        format == format_of(formats@, index as int),
{
    if formats.len() == 0 {
        Some(0)
    } else if formats.len() == 1 {
        Some(formats[0])
    } else if index < formats.len() {
        Some(formats[index])
    } else {
        None
    }
}

/// What is wrong with the formats of a result, if anything.
pub open spec fn formats_fault(formats: Seq<u16>, columns: nat) -> Option<Seq<char>> {
    if formats.len() > 1 && formats.len() != columns {
        Some("incorrect number of result formats"@)
    } else if exists|i: int| 0 <= i < formats.len() && #[trigger] formats[i] > 1 {
        Some("invalid result format code"@)
    } else {
        None
    }
}

/// Checks the formats of a result.
pub fn validate_result_formats(formats: &[u16], columns: usize) -> (result: Result<(), String>)
    ensures
        match result {
            Ok(()) => formats_fault(formats@, columns as nat) is None,
            Err(fault) => formats_fault(formats@, columns as nat) == Some(fault@),
        },
{
    if formats.len() > 1 && formats.len() != columns {
        return Err(owned("incorrect number of result formats"));
    }
    let mut i: usize = 0;
    while i < formats.len()
        invariant
            i <= formats@.len(),
            !(formats@.len() > 1 && formats@.len() != columns),
            forall|k: int| 0 <= k < i ==> #[trigger] formats@[k] <= 1,
        decreases formats@.len() - i,
    {
        if formats[i] > 1 {
            return Err(owned("invalid result format code"));
        }
        i += 1;
    }
    Ok(())
}

/// The description of one column: its name, where it comes from, its type, and
/// its format. No length and no modifier are given.
pub open spec fn column_bytes(c: ColumnView, format: u16) -> Seq<u8> {
    ended(c.name) + be(c.table_oid as nat, 4) + be((c.column_oid % 0x1_0000) as nat, 2) + be(
        c.data_type.oid_number() as nat,
        4,
    ) + seq![255u8, 255, 255, 255, 255, 255] + be(format as nat, 2)
}

/// The format of one column; text where none is given.
pub open spec fn column_format(formats: Seq<u16>, i: int) -> u16 {
    match format_of(formats, i) {
        Some(format) => format,
        None => 0,
    }
}

/// The descriptions of the first `count` columns.
pub open spec fn columns_bytes(
    columns: Seq<ColumnView>,
    formats: Seq<u16>,
    count: int,
) -> Seq<u8>
    decreases count,
{
    if count <= 0 {
        Seq::empty()
    } else {
        columns_bytes(columns, formats, count - 1) + column_bytes(
            columns[count - 1],
            column_format(formats, count - 1),
        )
    }
}

/// The body of a row description, or what is wrong with it.
pub open spec fn description_body(columns: Seq<ColumnView>, formats: Seq<u16>) -> Result<
    Seq<u8>,
    Seq<char>,
> {
    if columns.len() > MAX_PROTOCOL_ITEMS {
        Err("too many result columns"@)
    } else {
        match formats_fault(formats, columns.len()) {
            Some(fault) => Err(fault),
            None => Ok(
                be(columns.len(), 2) + columns_bytes(columns, formats, columns.len() as int),
            ),
        }
    }
}

fn put_column(out: &mut Vec<u8>, c: &ResultColumn, format: u16)
    ensures
        final(out)@ == old(out)@ + column_bytes(c@, format),
{
    cstr_put(out, c.name.as_str());
    put_u32(out, c.table_oid);
    put_u16(out, (c.column_oid % 0x1_0000) as u16);
    put_u32(out, c.data_type.oid());
    let mut k: usize = 0;
    let ghost before = out@;
    while k < 6
        invariant
            k <= 6,
            out@ == before + Seq::new(k as nat, |i: int| 255u8),
        decreases 6 - k,
    {
        out.push(255);
        k += 1;
        assert(out@ =~= before + Seq::new(k as nat, |i: int| 255u8));
    }
    assert(Seq::new(6, |i: int| 255u8) =~= seq![255u8, 255, 255, 255, 255, 255]);
    put_u16(out, format);
    assert(out@ =~= old(out)@ + column_bytes(c@, format));
}

/// Writes the body of a row description.
pub fn row_description_body(columns: &[ResultColumn], formats: &[u16]) -> (result: Result<
    Vec<u8>,
    String,
>)
    ensures
        match result {
            Ok(body) => description_body(column_views(columns@), formats@) == Ok::<_, Seq<char>>(body@),
            Err(fault) => description_body(column_views(columns@), formats@) == Err::<Seq<u8>, _>(fault@),
        },
{
    if columns.len() > MAX_PROTOCOL_ITEMS {
        return Err(owned("too many result columns"));
    }
    match validate_result_formats(formats, columns.len()) {
        Ok(()) => {},
        Err(fault) => {
            return Err(fault);
        },
    }
    let mut body: Vec<u8> = Vec::new();
    put_u16(&mut body, columns.len() as u16);
    let ghost count = be(columns@.len(), 2);
    assert(body@ =~= count + columns_bytes(column_views(columns@), formats@, 0));
    let mut i: usize = 0;
    while i < columns.len()
        invariant
            i <= columns@.len(),
            body@ == count + columns_bytes(column_views(columns@), formats@, i as int),
        decreases columns@.len() - i,
    {
        let format: u16 = match format_at(formats, i) {
            Some(format) => format,
            None => 0,
        };
        let ghost before = columns_bytes(column_views(columns@), formats@, i as int);
        assert(column_views(columns@)[i as int] == columns@[i as int]@);
        put_column(&mut body, &columns[i], format);
        i += 1;
        assert(body@ =~= count + columns_bytes(column_views(columns@), formats@, i as int));
    }
    Ok(body)
}

/// A value in the format of its column.
pub open spec fn value_bytes(
    value: DatumView,
    ty: SqlType,
    format: u16,
    floats: FloatTexts,
) -> Seq<u8> {
    if format == 1 {
        binary_result(value, ty, floats)
    } else {
        encode_utf8(value.text(floats))
    }
}

/// The body of a row with its values from the `i`th on: each behind its length,
/// and a length of -1 for no value.
pub open spec fn with_values(
    out: Seq<u8>,
    row: Seq<DatumView>,
    columns: Seq<ColumnView>,
    formats: Seq<u16>,
    floats: FloatTexts,
    i: int,
) -> Result<Seq<u8>, Seq<char>>
    decreases row.len() - i,
{
    if i < 0 || i >= row.len() {
        Ok(out)
    } else if row[i] is Null {
        with_values(out + seq![255u8, 255, 255, 255], row, columns, formats, floats, i + 1)
    } else {
        let value = value_bytes(row[i], columns[i].data_type, column_format(formats, i), floats);
        if value.len() > i32::MAX || out.len() + value.len() + 4 > MAX_WIRE_RESULT_BYTES {
            Err("result row exceeds configured wire limit"@)
        } else {
            with_values(
                out + be(value.len(), 4) + value,
                row,
                columns,
                formats,
                floats,
                i + 1,
            )
        }
    }
}

/// The body of a row, or what is wrong with it.
pub open spec fn row_body(
    row: Seq<DatumView>,
    columns: Seq<ColumnView>,
    formats: Seq<u16>,
    floats: FloatTexts,
) -> Result<Seq<u8>, Seq<char>> {
    if row.len() != columns.len() || row.len() > MAX_PROTOCOL_ITEMS {
        Err("result row has an invalid column count"@)
    } else {
        with_values(be(row.len(), 2), row, columns, formats, floats, 0)
    }
}

/// What is sent before the connection ends, if it does: messages, and the fault
/// that ends it.
#[verifier::ext_equal]
pub struct OutputView {
    pub messages: Seq<MessageView>,
    pub fault: Option<Seq<char>>,
}

/// What is sent, and the fault that ends the connection, if any.
#[derive(Clone, Debug)]
pub struct Output {
    pub messages: Vec<Message>,
    pub fault: Option<String>,
}

impl View for Output {
    type V = OutputView;

    open spec fn view(&self) -> OutputView {
        OutputView {
            messages: message_views(self.messages@),
            fault: crate::error::optional_text(self.fault),
        }
    }
}

/// The rows from the `i`th on, behind what was sent already; `sent` counts the
/// bytes of the rows.
pub open spec fn with_rows(
    messages: Seq<MessageView>,
    sent: int,
    r: ResultView,
    formats: Seq<u16>,
    floats: FloatTexts,
    i: int,
) -> OutputView
    decreases r.rows.len() - i,
{
    if i < 0 || i >= r.rows.len() {
        OutputView { messages, fault: None }
    } else {
        match row_body(r.rows[i], r.columns, formats, floats) {
            Err(fault) => OutputView { messages, fault: Some(fault) },
            Ok(body) => if sent + body.len() > MAX_WIRE_RESULT_BYTES {
                OutputView { messages, fault: Some("result exceeds configured wire limit"@) }
            } else {
                with_rows(
                    messages.push(MessageView { kind: KIND_ROW, body }),
                    sent + body.len(),
                    r,
                    formats,
                    floats,
                    i + 1,
                )
            },
        }
    }
}

/// The rows of a result, with their description before them unless the client
/// has it. A result without columns has no rows.
pub open spec fn rows_output(
    r: ResultView,
    formats: Seq<u16>,
    floats: FloatTexts,
    described: bool,
) -> OutputView {
    match formats_fault(formats, r.columns.len()) {
        Some(fault) => OutputView { messages: Seq::empty(), fault: Some(fault) },
        None => if r.columns.len() == 0 {
            OutputView { messages: Seq::empty(), fault: None }
        } else if described {
            with_rows(Seq::empty(), 0, r, formats, floats, 0)
        } else {
            match description_body(r.columns, formats) {
                Err(fault) => OutputView { messages: Seq::empty(), fault: Some(fault) },
                Ok(body) => with_rows(
                    seq![MessageView { kind: KIND_DESCRIPTION, body }],
                    0,
                    r,
                    formats,
                    floats,
                    0,
                ),
            }
        },
    }
}

fn put_value(out: &mut Vec<u8>, value: &Datum, ty: SqlType, format: u16, floats: &FloatTexts) -> (result:
    Result<(), String>)
    requires
        old(out)@.len() <= MAX_WIRE_RESULT_BYTES,
    ensures
        ({
            let bytes = value_bytes(value@, ty, format, *floats);
            let refused = bytes.len() > i32::MAX || old(out)@.len() + bytes.len() + 4
                > MAX_WIRE_RESULT_BYTES;
            match result {
                Ok(()) => !refused && final(out)@ == old(out)@ + be(bytes.len(), 4) + bytes
                    && final(out)@.len() <= MAX_WIRE_RESULT_BYTES,
                Err(fault) => refused && fault@ == "result row exceeds configured wire limit"@,
            }
        }),
{
    let bytes = if format == 1 {
        encode_binary_result(value, ty, floats)
    } else {
        text_bytes(encode_text_result(value, floats).as_str())
    };
    let n = bytes.len();
    if n > MAX_WIRE_RESULT_BYTES || out.len() + n + 4 > MAX_WIRE_RESULT_BYTES {
        return Err(owned("result row exceeds configured wire limit"));
    }
    put_u32(out, n as u32);
    put_bytes(out, bytes.as_slice());
    proof {
        crate::bytes::lemma_be_len(n as nat, 4);
    }
    Ok(())
}

#[verifier::loop_isolation(false)]
fn make_row(
    row: &Vec<Datum>,
    columns: &Vec<ResultColumn>,
    formats: &[u16],
    floats: &FloatTexts,
) -> (result: Result<Vec<u8>, String>)
    ensures
        match result {
            Ok(body) => row_body(row_values(*row), column_views(columns@), formats@, *floats) == Ok::<
                _,
                Seq<char>,
            >(body@),
            Err(fault) => row_body(row_values(*row), column_views(columns@), formats@, *floats) == Err::<
                Seq<u8>,
                _,
            >(fault@),
        },
{
    if row.len() != columns.len() || row.len() > MAX_PROTOCOL_ITEMS {
        return Err(owned("result row has an invalid column count"));
    }
    let ghost values = row_values(*row);
    let mut out: Vec<u8> = Vec::new();
    put_u16(&mut out, row.len() as u16);
    assert(out@ =~= be(values.len(), 2));
    proof {
        crate::bytes::lemma_be_len(values.len(), 2);
    }
    let ghost whole = with_values(out@, values, column_views(columns@), formats@, *floats, 0);
    let mut i: usize = 0;
    while i < row.len()
        invariant
            i <= row@.len(),
            out@.len() <= MAX_WIRE_RESULT_BYTES + 4 * i,
            with_values(out@, values, column_views(columns@), formats@, *floats, i as int) == whole,
        decreases row@.len() - i,
    {
        assert(values[i as int] == row@[i as int]@);
        let value = &row[i];
        if value.is_null() {
            let ghost before = out@;
            out.push(255);
            out.push(255);
            out.push(255);
            out.push(255);
            assert(out@ =~= before + seq![255u8, 255, 255, 255]);
        } else {
            let format: u16 = match format_at(formats, i) {
                Some(format) => format,
                None => 0,
            };
            if out.len() > MAX_WIRE_RESULT_BYTES {
                return Err(owned("result row exceeds configured wire limit"));
            }
            assert(column_views(columns@)[i as int] == columns@[i as int]@);
            match put_value(&mut out, value, columns[i].data_type, format, floats) {
                Ok(()) => {},
                Err(fault) => {
                    return Err(fault);
                },
            }
        }
        i += 1;
    }
    Ok(out)
}

#[verifier::loop_isolation(false)]
fn append_rows(
    start: Vec<Message>,
    r: &QueryResult,
    formats: &[u16],
    floats: &FloatTexts,
) -> (output: Output)
    ensures
        output@ == with_rows(message_views(start@), 0, r@, formats@, *floats, 0),
{
    let ghost whole = with_rows(message_views(start@), 0, r@, formats@, *floats, 0);
    let mut messages = start;
    let mut sent: usize = 0;
    let mut i: usize = 0;
    while i < r.rows.len()
        invariant
            i <= r.rows@.len(),
            sent <= MAX_WIRE_RESULT_BYTES,
            with_rows(message_views(messages@), sent as int, r@, formats@, *floats, i as int)
                == whole,
        decreases r.rows@.len() - i,
    {
        assert(r@.rows[i as int] == row_values(r.rows@[i as int]));
        match make_row(&r.rows[i], &r.columns, formats, floats) {
            Err(fault) => {
                return Output { messages, fault: Some(fault) };
            },
            Ok(body) => {
                let n = body.len();
                if n > MAX_WIRE_RESULT_BYTES || sent + n > MAX_WIRE_RESULT_BYTES {
                    return Output {
                        messages,
                        fault: Some(owned("result exceeds configured wire limit")),
                    };
                }
                sent += n;
                push_message(&mut messages, Message { kind: KIND_ROW, body });
            },
        }
        i += 1;
    }
    Output { messages, fault: None }
}

fn fault_alone(fault: String) -> (output: Output)
    ensures
        output@ == (OutputView { messages: Seq::empty(), fault: Some(fault@) }),
{
    let output = Output { messages: Vec::new(), fault: Some(fault) };
    assert(output@.messages =~= Seq::<MessageView>::empty());
    output
}

/// Writes the rows of a result.
pub fn result_rows_with_formats(
    r: &QueryResult,
    formats: &[u16],
    floats: &FloatTexts,
    described: bool,
) -> (output: Output)
    ensures
        output@ == rows_output(r@, formats@, *floats, described),
{
    match validate_result_formats(formats, r.columns.len()) {
        Ok(()) => {},
        Err(fault) => {
            return fault_alone(fault);
        },
    }
    let mut messages: Vec<Message> = Vec::new();
    assert(message_views(messages@) =~= Seq::<MessageView>::empty());
    if r.columns.len() == 0 {
        return Output { messages, fault: None };
    }
    if !described {
        match row_description_body(r.columns.as_slice(), formats) {
            Err(fault) => {
                return fault_alone(fault);
            },
            Ok(body) => {
                messages = one_message(Message { kind: KIND_DESCRIPTION, body });
            },
        }
    }
    append_rows(messages, r, formats, floats)
}

/// The tag of a finished command: a query is tagged with the number of its
/// rows.
pub open spec fn finished_tag(r: ResultView) -> Seq<char> {
    if ascii_lower_text(r.command_tag) == ascii_lower_text("SELECT"@) {
        "SELECT "@ + digits(r.affected_rows as nat)
    } else if r.command_tag.len() == 0 {
        "SELECT 0"@
    } else {
        r.command_tag
    }
}

/// An output with one more message, unless it has a fault.
pub open spec fn then_message(output: OutputView, m: MessageView) -> OutputView {
    if output.fault is Some {
        output
    } else {
        OutputView { messages: output.messages.push(m), fault: None }
    }
}

/// A whole result: its rows, and the tag of the command.
pub open spec fn result_output(
    r: ResultView,
    formats: Seq<u16>,
    floats: FloatTexts,
    described: bool,
) -> OutputView {
    then_message(
        rows_output(r, formats, floats, described),
        MessageView { kind: KIND_COMPLETE, body: ended(finished_tag(r)) },
    )
}

/// Appends a message to an output that has no fault.
pub fn add_message(output: Output, message: Message) -> (more: Output)
    ensures
        more@ == then_message(output@, message@),
{
    if output.fault.is_some() {
        return output;
    }
    let mut messages = output.messages;
    push_message(&mut messages, message);
    Output { messages, fault: None }
}

/// Writes a whole result.
pub fn result_with_formats(
    r: &QueryResult,
    formats: &[u16],
    floats: &FloatTexts,
    described: bool,
) -> (output: Output)
    ensures
        output@ == result_output(r@, formats@, *floats, described),
{
    let rows = result_rows_with_formats(r, formats, floats, described);
    let tag = if same_text_ignoring_case(r.command_tag.as_str(), "SELECT") {
        joined("SELECT ", digits_text(r.affected_rows).as_str())
    } else if text_chars(r.command_tag.as_str()).len() == 0 {
        owned("SELECT 0")
    } else {
        owned(r.command_tag.as_str())
    };
    let mut body: Vec<u8> = Vec::new();
    cstr_put(&mut body, tag.as_str());
    assert(body@ =~= ended(finished_tag(r@)));
    add_message(rows, Message { kind: KIND_COMPLETE, body })
}

/// A length field and a body of that length make up a message again.
pub proof fn frames_read_back(m: MessageView)
    requires
        framed(m) is Ok,
    ensures
        framed(m)->Ok_0[0] == m.kind,
        body_length(
            crate::bytes::be_value(framed(m)->Ok_0.subrange(1, 5)) as u32,
        ) == Some(m.body.len()),
        framed(m)->Ok_0.subrange(5, framed(m)->Ok_0.len() as int) == m.body,
{
    let length = (m.body.len() + 4) as nat;
    crate::bytes::lemma_span();
    crate::bytes::be_reads_back(length, 4);
    let bytes = framed(m)->Ok_0;
    assert(bytes.subrange(1, 5) =~= be(length, 4));
    assert(bytes.subrange(5, bytes.len() as int) =~= m.body);
}

} // verus!
