//! What is made of the messages that a client writes, where the client knows
//! the protocol alone.

use crate::bytes::{lemma_span, signed};
use crate::datum::{DatumView, FloatTexts};
use crate::error::{sql_error, SqlErrorView};
use crate::pg_decode::{number_at, text_at, zero_from};
use crate::pg_execute::{
    described, describe_fields, executed, portion, query_output, query_text, ran, route_of, Route,
    with_results, Shape,
};
use crate::pg_fields::{
    bind_rest, bind_start, execute_fields, formats_from, only_text, param_at, params_at,
    parse_fields, types_from,
};
use crate::pg_message::{
    error_view, format_of, result_output, rows_output, MessageView, OutputView, ResultView,
};
use crate::pg_query::{inferred_types, says_nothing};
use crate::pg_retained::{
    lemma_table_charge, portal_charge, prepared_charge, Block, PortalView, PreparedView,
};
use crate::pg_session::{
    bind_fields, bound, closed, measured, parsed, portal_charges, statement_charges, target_fields,
    ConnectionView,
};
use crate::pg_startup::TransactionStatus;
use crate::pg_values::{param_outcome, FloatReadings};
use crate::pg_wire_laws::{
    numbers_stand_highest_byte_first, read_columns, wire_i32, wire_u16, wire_u32,
};
use vstd::prelude::*;
use vstd::string::*;
use vstd::utf8::{decode_utf8, encode_utf8, valid_utf8};

verus! {

// ---------------------------------------------------------------------------
// Parts
// ---------------------------------------------------------------------------

/// Whether a text of a client, ended by a zero byte, stands at a place.
pub open spec fn stands_text(body: Seq<u8>, at: int, text: Seq<u8>) -> bool {
    &&& 0 <= at
    &&& at + text.len() < body.len()
    &&& body.subrange(at, at + text.len()) == text
    &&& body[at + text.len()] == 0
    &&& valid_utf8(text)
    &&& forall|k: int| 0 <= k < text.len() ==> #[trigger] text[k] != 0
}

proof fn lemma_zero(body: Seq<u8>, at: int, end: int)
    requires
        0 <= at <= end < body.len(),
        body[end] == 0,
        forall|k: int| at <= k < end ==> #[trigger] body[k] != 0,
    ensures
        zero_from(body, at) == Some(end),
    decreases end - at,
{
    if at < end {
        lemma_zero(body, at + 1, end);
    }
}

proof fn lemma_text(body: Seq<u8>, at: int, text: Seq<u8>, what: Seq<char>)
    requires
        stands_text(body, at, text),
    ensures
        text_at(body, at, what) == Ok::<_, SqlErrorView>((decode_utf8(text), at + text.len() + 1)),
{
    assert forall|k: int| at <= k < at + text.len() implies #[trigger] body[k] != 0 by {
        assert(body.subrange(at, at + text.len())[k - at] == text[k - at]);
    }
    lemma_zero(body, at, at + text.len());
}

proof fn lemma_two(body: Seq<u8>, at: int, what: Seq<char>)
    requires
        0 <= at,
        at + 2 <= body.len() <= usize::MAX,
    ensures
        number_at(body, at, 2, what) == Ok::<_, SqlErrorView>(
            (wire_u16(body, at) as nat, at + 2),
        ),
{
    numbers_stand_highest_byte_first(body.subrange(at, at + 2));
}

proof fn lemma_four(body: Seq<u8>, at: int, what: Seq<char>)
    requires
        0 <= at,
        at + 4 <= body.len() <= usize::MAX,
    ensures
        number_at(body, at, 4, what) == Ok::<_, SqlErrorView>(
            (wire_u32(body, at) as nat, at + 4),
        ),
        signed(wire_u32(body, at) as nat, 4) == wire_i32(body, at),
        0 <= wire_u32(body, at) < 0x1_0000_0000,
{
    numbers_stand_highest_byte_first(body.subrange(at, at + 4));
    lemma_span();
}

/// Whether numbers of two bytes each stand at a place.
pub open spec fn stand_short(body: Seq<u8>, at: int, numbers: Seq<u16>) -> bool {
    &&& 0 <= at
    &&& at + 2 * numbers.len() <= body.len()
    &&& forall|i: int|
        0 <= i < numbers.len() ==> wire_u16(body, at + 2 * i) == #[trigger] numbers[i]
}

/// Whether numbers of four bytes each stand at a place.
pub open spec fn stand_long(body: Seq<u8>, at: int, numbers: Seq<u32>) -> bool {
    &&& 0 <= at
    &&& at + 4 * numbers.len() <= body.len()
    &&& forall|i: int|
        0 <= i < numbers.len() ==> wire_u32(body, at + 4 * i) == #[trigger] numbers[i]
}

proof fn lemma_formats(
    body: Seq<u8>,
    at: int,
    formats: Seq<u16>,
    what: Seq<char>,
    refusal: Seq<char>,
    i: int,
)
    requires
        body.len() <= usize::MAX,
        stand_short(body, at, formats),
        0 <= i <= formats.len(),
        forall|k: int| 0 <= k < formats.len() ==> #[trigger] formats[k] <= 1,
    ensures
        formats_from(
            body,
            at + 2 * i,
            (formats.len() - i) as nat,
            what,
            refusal,
            formats.subrange(0, i),
        ) == Ok::<_, SqlErrorView>((formats, at + 2 * formats.len())),
    decreases formats.len() - i,
{
    if i == formats.len() {
        assert(formats.subrange(0, i) =~= formats);
    } else {
        lemma_two(body, at + 2 * i, what);
        assert(wire_u16(body, at + 2 * i) == formats[i]);
        assert(formats.subrange(0, i).push(formats[i]) =~= formats.subrange(0, i + 1));
        lemma_formats(body, at, formats, what, refusal, i + 1);
    }
}

proof fn lemma_types(body: Seq<u8>, at: int, types: Seq<u32>, i: int)
    requires
        body.len() <= usize::MAX,
        stand_long(body, at, types),
        0 <= i <= types.len(),
    ensures
        types_from(body, at + 4 * i, (types.len() - i) as nat, types.subrange(0, i)) == Ok::<
            _,
            SqlErrorView,
        >((types, at + 4 * types.len())),
    decreases types.len() - i,
{
    if i == types.len() {
        assert(types.subrange(0, i) =~= types);
    } else {
        lemma_four(body, at + 4 * i, "Parse parameter type"@);
        assert(wire_u32(body, at + 4 * i) == types[i]);
        assert(types.subrange(0, i).push(types[i]) =~= types.subrange(0, i + 1));
        lemma_types(body, at, types, i + 1);
    }
}

// ---------------------------------------------------------------------------
// Messages
// ---------------------------------------------------------------------------

/// Whether a body is that of a Parse message: a name, a statement, and the types
/// of its first parameters.
pub open spec fn is_parse(body: Seq<u8>, name: Seq<u8>, sql: Seq<u8>, types: Seq<u32>) -> bool {
    let b = name.len() as int + 1;
    let c = b + sql.len() + 1;
    &&& stands_text(body, 0, name)
    &&& stands_text(body, b, sql)
    &&& c + 2 <= body.len()
    &&& wire_u16(body, c) == types.len()
    &&& stand_long(body, c + 2, types)
    &&& body.len() == c + 2 + 4 * types.len()
}

/// A Parse message is read as it was written.
pub proof fn parse_messages_are_read(
    body: Seq<u8>,
    name: Seq<u8>,
    sql: Seq<u8>,
    types: Seq<u32>,
)
    requires
        body.len() <= usize::MAX,
        is_parse(body, name, sql, types),
    ensures
        parse_fields(body) == Ok::<_, SqlErrorView>((decode_utf8(name), decode_utf8(sql), types)),
{
    let b = name.len() as int + 1;
    let c = b + sql.len() + 1;
    lemma_text(body, 0, name, "statement name"@);
    lemma_text(body, b, sql, "Parse query"@);
    lemma_two(body, c, "Parse parameter count"@);
    lemma_types(body, c + 2, types, 0);
    assert(types.subrange(0, 0) =~= Seq::empty());
}

/// Whether a body is that of a Bind message: the names of a portal and a
/// statement, the formats of the parameters, the parameters, each behind its
/// length, and the formats of the result.
pub open spec fn is_bind(
    body: Seq<u8>,
    portal: Seq<u8>,
    statement: Seq<u8>,
    formats: Seq<u16>,
    values: Seq<Option<Seq<u8>>>,
    result_formats: Seq<u16>,
    at: int,
    end: int,
) -> bool {
    let b = portal.len() as int + 1;
    let c = b + statement.len() + 1;
    &&& stands_text(body, 0, portal)
    &&& stands_text(body, b, statement)
    &&& c + 2 <= body.len()
    &&& wire_u16(body, c) == formats.len()
    &&& stand_short(body, c + 2, formats)
    &&& at == c + 2 + 2 * formats.len() + 2
    &&& at <= body.len()
    &&& wire_u16(body, at - 2) == values.len()
    &&& read_columns(body, at, values.len()) == Some((values, end))
    &&& end + 2 <= body.len()
    &&& wire_u16(body, end) == result_formats.len()
    &&& stand_short(body, end + 2, result_formats)
    &&& body.len() == end + 2 + 2 * result_formats.len()
}

/// Whether formats are text or binary, and none, one for all or one for each.
pub open spec fn formats_suit(formats: Seq<u16>, items: nat) -> bool {
    &&& formats.len() == 0 || formats.len() == 1 || formats.len() == items
    &&& forall|k: int| 0 <= k < formats.len() ==> #[trigger] formats[k] == 0 || formats[k] == 1
}

/// The format that a parameter is written in.
pub open spec fn written_in(formats: Seq<u16>, i: int) -> u16 {
    if formats.len() == 0 {
        0
    } else if formats.len() == 1 {
        formats[0]
    } else {
        formats[i]
    }
}

/// Whether a parameter can be bound: it has no value, or one of at most 8 MiB
/// that can be read as its type.
pub open spec fn can_bind(
    value: Option<Seq<u8>>,
    oid: u32,
    format: u16,
    floats: FloatReadings,
) -> bool {
    value matches Some(bytes) ==> bytes.len() <= 8_388_608 && param_outcome(
        bytes,
        oid,
        format,
        floats,
    ) is Ok
}

/// Whether a parameter is bound to what it was written as: `Null` exactly where
/// it has no value, and else what its bytes say in its format.
pub open spec fn is_bound_as(
    value: Option<Seq<u8>>,
    oid: u32,
    format: u16,
    floats: FloatReadings,
    bound: DatumView,
) -> bool {
    match value {
        None => bound == DatumView::Null,
        Some(bytes) => bound != DatumView::Null && param_outcome(bytes, oid, format, floats)
            == Ok::<_, SqlErrorView>(bound),
    }
}

/// No bytes, however short, are read as `Null`.
pub proof fn no_bytes_are_null(bytes: Seq<u8>, oid: u32, format: u16, floats: FloatReadings)
    ensures
        param_outcome(bytes, oid, format, floats) matches Ok(v) ==> v != DatumView::Null,
{
}

/// A parameter with a length of minus one is `Null`, whatever its type and its
/// format; one with a shorter length is refused; and one of no bytes or more is
/// never `Null`, and takes as many bytes as its length says.
pub proof fn parameters_without_bytes_are_null(
    body: Seq<u8>,
    at: int,
    format: Option<u16>,
    oid: u32,
    floats: FloatReadings,
)
    requires
        0 <= at,
        at + 4 <= body.len() <= usize::MAX,
    ensures
        ({
            let len = wire_i32(body, at);
            let one = param_at(body, at, format, oid, floats);
            &&& len == -1 ==> one == Ok::<_, SqlErrorView>((DatumView::Null, at + 4))
            &&& len < -1 ==> (one matches Err(e) && e.code == "08P01"@)
            &&& len >= 0 ==> (one matches Ok((v, after)) ==> v != DatumView::Null && after == at + 4
                + len)
            &&& len > 8 * 1024 * 1024 ==> (one matches Err(e) && e.code == "54000"@)
        }),
{
    lemma_four(body, at, "Bind parameter length"@);
    let len = wire_i32(body, at);
    if 0 <= len && at + 4 + len <= body.len() {
        if let Some(f) = format {
            no_bytes_are_null(body.subrange(at + 4, at + 4 + len), oid, f, floats);
        }
    }
}

proof fn lemma_columns_end(body: Seq<u8>, at: int, n: nat)
    ensures
        read_columns(body, at, n) matches Some((_, end)) ==> at <= end,
    decreases n,
{
    if n > 0 && at + 4 <= body.len() {
        let len = wire_i32(body, at);
        lemma_columns_end(
            body,
            if len == -1 {
                at + 4
            } else {
                at + 4 + len
            },
            (n - 1) as nat,
        );
    }
}

proof fn lemma_params(
    body: Seq<u8>,
    at: int,
    values: Seq<Option<Seq<u8>>>,
    end: int,
    declared: Seq<u32>,
    formats: Seq<u16>,
    floats: FloatReadings,
    read: Seq<DatumView>,
)
    requires
        body.len() <= usize::MAX,
        0 <= at,
        read_columns(body, at, values.len()) == Some((values, end)),
        declared.len() == read.len() + values.len(),
        formats_suit(formats, declared.len()),
    ensures
        params_at(body, at, declared, formats, floats, read) is Ok <==> forall|k: int|
            0 <= k < values.len() ==> can_bind(
                #[trigger] values[k],
                declared[read.len() + k],
                written_in(formats, read.len() + k),
                floats,
            ),
        params_at(body, at, declared, formats, floats, read) matches Ok((params, next)) ==> {
            &&& next == end
            &&& params.len() == declared.len()
            &&& params.subrange(0, read.len() as int) == read
            &&& forall|k: int|
                0 <= k < values.len() ==> is_bound_as(
                    #[trigger] values[k],
                    declared[read.len() + k],
                    written_in(formats, read.len() + k),
                    floats,
                    params[read.len() + k],
                )
        },
    decreases values.len(),
{
    let whole = params_at(body, at, declared, formats, floats, read);
    if values.len() == 0 {
        assert(read.subrange(0, read.len() as int) =~= read);
    } else {
        let i = read.len() as int;
        let len = wire_i32(body, at);
        lemma_four(body, at, "Bind parameter length"@);
        let next = if len == -1 {
            at + 4
        } else {
            at + 4 + len
        };
        let (rest, _) = read_columns(body, next, (values.len() - 1) as nat)->0;
        let value = values[0];
        assert(values =~= seq![value] + rest);
        assert(rest =~= values.subrange(1, values.len() as int));
        assert(rest.len() == values.len() - 1);
        assert(format_of(formats, i) == Some(written_in(formats, i)));
        if len != -1 {
            assert(value == Some(body.subrange(at + 4, at + 4 + len)));
            no_bytes_are_null(value->0, declared[i], written_in(formats, i), floats);
        }
        let one = param_at(body, at, format_of(formats, i), declared[i], floats);
        assert(one is Ok <==> can_bind(value, declared[i], written_in(formats, i), floats));
        if let Ok((v, after)) = one {
            assert(after == next);
            assert(is_bound_as(value, declared[i], written_in(formats, i), floats, v));
            let wider = read.push(v);
            lemma_params(body, next, rest, end, declared, formats, floats, wider);
            if let Ok((params, _)) = whole {
                assert(params.subrange(0, i) =~= read) by {
                    assert(params.subrange(0, i) =~= params.subrange(0, i + 1).subrange(0, i));
                    assert(wider.subrange(0, i) =~= read);
                }
                assert(params[i] == params.subrange(0, i + 1)[i]);
                assert forall|k: int| 0 <= k < values.len() implies is_bound_as(
                    #[trigger] values[k],
                    declared[i + k],
                    written_in(formats, i + k),
                    floats,
                    params[i + k],
                ) by {
                    if k > 0 {
                        assert(rest[k - 1] == values[k]);
                        assert(wider.len() + (k - 1) == i + k);
                    }
                }
            }
            if forall|k: int|
                0 <= k < values.len() ==> can_bind(
                    #[trigger] values[k],
                    declared[i + k],
                    written_in(formats, i + k),
                    floats,
                ) {
                assert forall|k: int| 0 <= k < rest.len() implies can_bind(
                    #[trigger] rest[k],
                    declared[wider.len() + k],
                    written_in(formats, wider.len() + k),
                    floats,
                ) by {
                    assert(values[k + 1] == rest[k]);
                    assert(wider.len() + k == i + (k + 1));
                }
            }
            if whole is Ok {
                assert forall|k: int| 0 <= k < values.len() implies can_bind(
                    #[trigger] values[k],
                    declared[i + k],
                    written_in(formats, i + k),
                    floats,
                ) by {
                    if k > 0 {
                        assert(rest[k - 1] == values[k]);
                        assert(wider.len() + (k - 1) == i + k);
                    }
                }
            }
        } else {
            assert(!can_bind(values[0], declared[i + 0], written_in(formats, i + 0), floats));
        }
    }
}

/// A Bind message that a client writes for some parameters is read as them: its
/// names and formats as they are, and every parameter as what it was written
/// as. It is read wherever every parameter can be bound, and nowhere else.
pub proof fn bind_messages_are_read(
    body: Seq<u8>,
    portal: Seq<u8>,
    statement: Seq<u8>,
    formats: Seq<u16>,
    values: Seq<Option<Seq<u8>>>,
    result_formats: Seq<u16>,
    at: int,
    end: int,
    declared: Seq<u32>,
    floats: FloatReadings,
)
    requires
        body.len() <= usize::MAX,
        is_bind(body, portal, statement, formats, values, result_formats, at, end),
        declared.len() == values.len(),
        formats_suit(formats, values.len()),
        forall|k: int|
            0 <= k < result_formats.len() ==> #[trigger] result_formats[k] == 0
                || result_formats[k] == 1,
    ensures
        bind_start(body) == Ok::<_, SqlErrorView>(
            (decode_utf8(portal), decode_utf8(statement), formats, values.len(), at),
        ),
        bind_rest(body, at, declared, formats, floats) is Ok <==> forall|k: int|
            0 <= k < values.len() ==> can_bind(
                #[trigger] values[k],
                declared[k],
                written_in(formats, k),
                floats,
            ),
        bind_rest(body, at, declared, formats, floats) matches Ok((params, asked)) ==> {
            &&& asked == result_formats
            &&& params.len() == values.len()
            &&& forall|k: int|
                0 <= k < values.len() ==> is_bound_as(
                    #[trigger] values[k],
                    declared[k],
                    written_in(formats, k),
                    floats,
                    params[k],
                )
        },
{
    let b = portal.len() as int + 1;
    let c = b + statement.len() + 1;
    lemma_text(body, 0, portal, "portal name"@);
    lemma_text(body, b, statement, "statement name"@);
    lemma_two(body, c, "Bind parameter format count"@);
    assert(formats.subrange(0, 0) =~= Seq::empty());
    lemma_formats(
        body,
        c + 2,
        formats,
        "Bind parameter format"@,
        "invalid parameter format code"@,
        0,
    );
    lemma_two(body, at - 2, "Bind parameter count"@);
    lemma_params(body, at, values, end, declared, formats, floats, Seq::empty());
    lemma_columns_end(body, at, values.len());
    lemma_two(body, end, "Bind result format count"@);
    assert(result_formats.subrange(0, 0) =~= Seq::empty());
    lemma_formats(
        body,
        end + 2,
        result_formats,
        "Bind result format"@,
        "invalid result format code"@,
        0,
    );
    let none = Seq::<DatumView>::empty();
    if forall|k: int|
        0 <= k < values.len() ==> can_bind(
            #[trigger] values[k],
            declared[k],
            written_in(formats, k),
            floats,
        ) {
        assert forall|k: int| 0 <= k < values.len() implies can_bind(
            #[trigger] values[k],
            declared[none.len() + k],
            written_in(formats, none.len() + k),
            floats,
        ) by {
            assert(none.len() + k == k);
        }
    }
    if bind_rest(body, at, declared, formats, floats) is Ok {
        assert forall|k: int| 0 <= k < values.len() implies can_bind(
            #[trigger] values[k],
            declared[k],
            written_in(formats, k),
            floats,
        ) && is_bound_as(
            values[k],
            declared[k],
            written_in(formats, k),
            floats,
            bind_rest(body, at, declared, formats, floats)->Ok_0.0[k],
        ) by {
            assert(none.len() + k == k);
        }
    }
}

/// An Execute message is read as it was written.
pub proof fn execute_messages_are_read(body: Seq<u8>, portal: Seq<u8>, max: u32)
    requires
        body.len() <= usize::MAX,
        stands_text(body, 0, portal),
        body.len() == portal.len() + 5,
        wire_u32(body, portal.len() as int + 1) == max,
    ensures
        execute_fields(body) == Ok::<_, SqlErrorView>((decode_utf8(portal), max as nat)),
{
    lemma_text(body, 0, portal, "portal name"@);
    lemma_four(body, portal.len() as int + 1, "Execute max rows"@);
}

proof fn lemma_only_text(text: Seq<u8>, what: Seq<char>, message: Seq<char>)
    requires
        valid_utf8(text),
        forall|k: int| 0 <= k < text.len() ==> #[trigger] text[k] != 0,
    ensures
        only_text(text.push(0), what, message) == Ok::<_, SqlErrorView>(decode_utf8(text)),
{
    let body = text.push(0);
    assert(body.subrange(0, text.len() as int) =~= text);
    lemma_text(body, 0, text, what);
}

/// The message that names a portal or a statement is read as it was written.
pub proof fn targets_are_read(
    kind: u8,
    name: Seq<u8>,
    malformed: Seq<char>,
    what: Seq<char>,
    message: Seq<char>,
)
    requires
        valid_utf8(name),
        forall|k: int| 0 <= k < name.len() ==> #[trigger] name[k] != 0,
    ensures
        target_fields(seq![kind] + name.push(0), malformed, what, message) == Ok::<
            _,
            SqlErrorView,
        >((kind, decode_utf8(name))),
{
    let body = seq![kind] + name.push(0);
    assert(body.subrange(1, body.len() as int) =~= name.push(0));
    lemma_only_text(name, what, message);
}

/// A simple query is read as it was written.
pub proof fn queries_are_read(sql: Seq<u8>)
    requires
        valid_utf8(sql),
        forall|k: int| 0 <= k < sql.len() ==> #[trigger] sql[k] != 0,
    ensures
        query_text(sql.push(0)) == Ok::<_, SqlErrorView>(decode_utf8(sql)),
{
    lemma_only_text(sql, "simple query"@, "simple query"@);
}

/// Every message of a client is taken for what its letter says, and one with
/// another letter for none of them.
pub proof fn letters_name_messages(kind: u8)
    ensures
        route_of(kind, false) == Route::Query <==> kind == 'Q' as u8,
        route_of(kind, false) == Route::Parse <==> kind == 'P' as u8,
        route_of(kind, false) == Route::Bind <==> kind == 'B' as u8,
        route_of(kind, false) == Route::Describe <==> kind == 'D' as u8,
        route_of(kind, false) == Route::Execute <==> kind == 'E' as u8,
        route_of(kind, false) == Route::Close <==> kind == 'C' as u8,
        route_of(kind, false) == Route::Sync <==> kind == 'S' as u8,
        route_of(kind, false) == Route::Flush <==> kind == 'H' as u8,
        route_of(kind, false) == Route::Terminate <==> kind == 'X' as u8,
        route_of(kind, false) != Route::Ignore,
        kind == 'S' as u8 || kind == 'H' as u8 || kind == 'X' as u8 ==> route_of(kind, true)
            == route_of(kind, false),
        kind != 'S' as u8 && kind != 'H' as u8 && kind != 'X' as u8 ==> route_of(kind, true)
            == Route::Ignore,
{
}

// ---------------------------------------------------------------------------
// Statements and portals
// ---------------------------------------------------------------------------

/// Whether two tables agree on everything but a name.
pub open spec fn alike_but<V>(
    before: Map<Seq<char>, V>,
    after: Map<Seq<char>, V>,
    name: Seq<char>,
) -> bool {
    forall|other: Seq<char>|
        other != name ==> (#[trigger] after.dom().contains(other) <==> before.dom().contains(other))
            && (before.dom().contains(other) ==> after[other] == before[other])
}

/// A Parse message that is answered with success keeps the statement under its
/// name, with the types that were given first, and changes no other statement.
/// Of the portals only the unnamed one goes, and that only with the unnamed
/// statement.
pub proof fn statements_are_kept(
    c: ConnectionView,
    body: Seq<u8>,
    refusal: Option<SqlErrorView>,
    name: Seq<char>,
    sql: Seq<char>,
    types: Seq<u32>,
)
    requires
        parse_fields(body) == Ok::<_, SqlErrorView>((name, sql, types)),
        parsed(c, body, refusal).1.kind == '1' as u8,
    ensures
        ({
            let after = parsed(c, body, refusal).0;
            &&& after.prepared.dom().contains(name)
            &&& after.prepared[name].sql == sql
            &&& after.prepared[name].types.len() >= types.len()
            &&& after.prepared[name].types.subrange(0, types.len() as int) == types
            &&& forall|i: int|
                types.len() <= i < after.prepared[name].types.len()
                    ==> #[trigger] after.prepared[name].types[i] == 0
            &&& alike_but(c.prepared, after.prepared, name)
            &&& alike_but(c.portals, after.portals, Seq::empty())
            &&& name.len() == 0 ==> !after.portals.dom().contains(Seq::empty())
            &&& name.len() > 0 ==> after.portals == c.portals && !c.prepared.dom().contains(name)
            &&& after.failed == c.failed
            &&& after.limit == c.limit
            &&& refusal is None || says_nothing(sql)
        }),
{
    let after = parsed(c, body, refusal).0;
    let kept = after.prepared[name].types;
    assert(kept.subrange(0, types.len() as int) =~= types);
}

/// A Bind message finds its statement: the portal runs the text of the prepared
/// statement that it names, and its parameters are read by that statement's
/// types. Where there is no such statement, or it has another number of
/// parameters, the message is refused.
pub proof fn portals_run_their_statement(
    c: ConnectionView,
    body: Seq<u8>,
    floats: FloatReadings,
    portal: Seq<char>,
    statement: Seq<char>,
    formats: Seq<u16>,
    count: nat,
    at: int,
)
    requires
        bind_start(body) == Ok::<_, SqlErrorView>((portal, statement, formats, count, at)),
    ensures
        !c.prepared.dom().contains(statement) ==> (bind_fields(c, body, floats) matches Err(e)
            && e.code == "26000"@),
        c.prepared.dom().contains(statement) && c.prepared[statement].types.len() != count ==> (
        bind_fields(c, body, floats) matches Err(e) && e.code == "08P01"@),
        c.prepared.dom().contains(statement) && c.prepared[statement].types.len() == count ==> {
            let read = bind_rest(body, at, c.prepared[statement].types, formats, floats);
            &&& bind_fields(c, body, floats) is Ok <==> read is Ok
            &&& bind_fields(c, body, floats) matches Ok((name, p)) ==> {
                &&& name == portal
                &&& p.sql == c.prepared[statement].sql
                &&& read == Ok::<_, SqlErrorView>((p.params, p.result_formats))
                &&& p.pending is None
                &&& !p.described
            }
        },
{
}

/// A Bind message that is answered with success keeps the portal that it asks
/// for under its name, and changes no other portal and no statement.
pub proof fn portals_are_kept(
    c: ConnectionView,
    body: Seq<u8>,
    floats: FloatReadings,
    blocks: Seq<Block>,
    name: Seq<char>,
    p: PortalView,
)
    requires
        bind_fields(c, body, floats) == Ok::<_, SqlErrorView>((name, p)),
        bound(c, body, floats, blocks).1.kind == '2' as u8,
    ensures
        ({
            let after = bound(c, body, floats, blocks).0;
            &&& after.portals.dom().contains(name)
            &&& after.portals[name].sql == p.sql
            &&& after.portals[name].params == p.params
            &&& after.portals[name].result_formats == p.result_formats
            &&& after.portals[name].pending is None
            &&& !after.portals[name].described
            &&& alike_but(c.portals, after.portals, name)
            &&& after.prepared == c.prepared
            &&& name.len() > 0 ==> !c.portals.dom().contains(name)
            &&& after.failed == c.failed
        }),
{
    assert(p.pending is None);
}

/// Closing a portal or a statement takes that one away and nothing else, and is
/// no error where there is none.
pub proof fn closing_takes_one_away(c: ConnectionView, name: Seq<u8>)
    requires
        c.is_accounted(),
        0 <= c.retained <= c.limit <= usize::MAX,
        valid_utf8(name),
        forall|k: int| 0 <= k < name.len() ==> #[trigger] name[k] != 0,
    ensures
        ({
            let (after, message) = closed(c, seq!['P' as u8] + name.push(0));
            &&& message.kind == '3' as u8
            &&& message.body.len() == 0
            &&& after.portals == c.portals.remove(decode_utf8(name))
            &&& after.prepared == c.prepared
            &&& after.failed == c.failed
        }),
        ({
            let (after, message) = closed(c, seq!['S' as u8] + name.push(0));
            &&& message.kind == '3' as u8
            &&& message.body.len() == 0
            &&& after.prepared == c.prepared.remove(decode_utf8(name))
            &&& after.portals == c.portals
            &&& after.failed == c.failed
        }),
{
    targets_are_read(
        'P' as u8,
        name,
        "malformed Close"@,
        "Close name"@,
        "Close message"@,
    );
    targets_are_read(
        'S' as u8,
        name,
        "malformed Close"@,
        "Close name"@,
        "Close message"@,
    );
    lemma_charges_are_held(c, decode_utf8(name));
}

proof fn lemma_charges_are_held(c: ConnectionView, name: Seq<char>)
    requires
        c.is_accounted(),
        0 <= c.retained <= usize::MAX,
    ensures
        c.prepared_entry(name) matches Ok(charge) && charge <= c.retained,
        c.portal_entry(name) matches Ok(charge) && charge <= c.retained,
        c.prepared_entry(name)->Ok_0 + c.portal_entry(name)->Ok_0 <= c.retained,
{
    if c.prepared.dom().contains(name) {
        lemma_table_charge(c.prepared, statement_charges(), name);
    }
    if c.portals.dom().contains(name) {
        lemma_table_charge(c.portals, portal_charges(), name);
    }
}

/// A statement under a free name is prepared where the engine has nothing
/// against it, fewer than 256 names are taken, and there is room for it.
pub proof fn statements_with_room_are_prepared(
    c: ConnectionView,
    body: Seq<u8>,
    name: Seq<char>,
    sql: Seq<char>,
    supplied: Seq<u32>,
    types: Seq<u32>,
)
    requires
        c.is_accounted(),
        0 <= c.retained,
        c.limit <= usize::MAX,
        parse_fields(body) == Ok::<_, SqlErrorView>((name, sql, supplied)),
        inferred_types(sql, supplied) == Ok::<_, SqlErrorView>(types),
        encode_utf8(sql).len() <= 1_048_576,
        name.len() == 0 || !c.prepared.dom().contains(name),
        name.len() == 0 || c.prepared.dom().remove(Seq::empty()).len() < 256,
        c.retained + prepared_charge(name, PreparedView { sql, types }) <= c.limit,
    ensures
        parsed(c, body, None).1.kind == '1' as u8,
{
    lemma_charges_are_held(c, name);
    if name.len() == 0 {
        assert(name =~= Seq::empty());
    }
}

/// A portal under a free name is bound where fewer than 256 names are taken and
/// there is room for it.
pub proof fn portals_with_room_are_bound(
    c: ConnectionView,
    body: Seq<u8>,
    floats: FloatReadings,
    blocks: Seq<Block>,
    name: Seq<char>,
    p: PortalView,
)
    requires
        c.is_accounted(),
        0 <= c.retained,
        c.limit <= usize::MAX,
        bind_fields(c, body, floats) == Ok::<_, SqlErrorView>((name, p)),
        name.len() == 0 || !c.portals.dom().contains(name),
        name.len() == 0 || c.portals.dom().remove(Seq::empty()).len() < 256,
        c.retained + portal_charge(name, measured(p, blocks)) <= c.limit,
    ensures
        bound(c, body, floats, blocks).1.kind == '2' as u8,
{
    lemma_charges_are_held(c, name);
}

// ---------------------------------------------------------------------------
// Running
// ---------------------------------------------------------------------------

/// A run sends the first rows that are asked for, all where none are counted,
/// and keeps exactly the others for the next run.
pub proof fn runs_divide_the_rows(p: PortalView, r: ResultView, max: nat)
    ensures
        ({
            let (kept, sent, more) = portion(p, r, max);
            let left = match kept.pending {
                Some(rest) => rest.rows,
                None => Seq::empty(),
            };
            &&& sent.rows + left == r.rows
            &&& more <==> left.len() > 0
            &&& max > 0 ==> sent.rows.len() <= max
            &&& max == 0 || r.rows.len() <= max ==> left.len() == 0
            &&& max > 0 && r.rows.len() > max ==> sent.rows.len() == max
            &&& sent.columns == r.columns && sent.command_tag == r.command_tag
                && sent.affected_rows == r.affected_rows
            &&& kept.pending matches Some(rest) ==> rest.columns == r.columns && rest.command_tag
                == r.command_tag && rest.affected_rows == r.affected_rows
            &&& kept.sql == p.sql && kept.params == p.params && kept.result_formats
                == p.result_formats && kept.described == p.described
        }),
{
    let (kept, sent, _) = portion(p, r, max);
    if max > 0 && r.rows.len() > max {
        assert(sent.rows + kept.pending->0.rows =~= r.rows);
    } else {
        assert(sent.rows + Seq::<Seq<DatumView>>::empty() =~= r.rows);
    }
}

/// The answer to a run that leaves rows ends with a suspension, and that to one
/// that leaves none with the tag of the command; the rows between are those of
/// the part that is sent.
pub proof fn runs_are_answered(
    c: ConnectionView,
    name: Seq<char>,
    old_charge: nat,
    r: ResultView,
    max: nat,
    floats: FloatTexts,
    blocks: Seq<Block>,
)
    requires
        c.is_accounted(),
        0 <= old_charge <= c.retained <= c.limit <= usize::MAX,
        c.retained - old_charge + portal_charge(
            name,
            measured(portion(c.portals[name], r, max).0, blocks),
        ) <= c.limit,
    ensures
        ({
            let (after, output) = ran(c, name, old_charge, r, max, floats, blocks);
            let (kept, sent, more) = portion(c.portals[name], r, max);
            let p = c.portals[name];
            let rows = rows_output(sent, p.result_formats, floats, p.described);
            &&& after.portals.dom().contains(name)
            &&& after.portals[name].pending == kept.pending
            &&& after.portals[name].sql == p.sql
            &&& alike_but(c.portals, after.portals, name)
            &&& after.prepared == c.prepared
            &&& rows.fault is None ==> output.fault is None && output.messages.len()
                == rows.messages.len() + 1 && output.messages.drop_last() == rows.messages
            &&& rows.fault is None && more ==> output.messages.last().kind == 's' as u8
            &&& rows.fault is None && !more ==> output.messages.last().kind == 'C' as u8
        }),
{
    let (kept, sent, more) = portion(c.portals[name], r, max);
    let p = c.portals[name];
    let rows = rows_output(sent, p.result_formats, floats, p.described);
    let output = ran(c, name, old_charge, r, max, floats, blocks).1;
    if rows.fault is None {
        assert(output.messages.drop_last() =~= rows.messages);
    }
}

/// An Execute message runs what is left of an earlier run, and the statement
/// only where nothing is left.
pub proof fn runs_go_on(
    c: ConnectionView,
    body: Seq<u8>,
    answer: Result<ResultView, SqlErrorView>,
    floats: FloatTexts,
    blocks: Seq<Block>,
    name: Seq<char>,
    max: nat,
)
    requires
        execute_fields(body) == Ok::<_, SqlErrorView>((name, max)),
        c.portals.dom().contains(name),
        portal_charge(name, c.portals[name]) <= usize::MAX,
        !says_nothing(c.portals[name].sql),
    ensures
        ({
            let charge = portal_charge(name, c.portals[name]);
            let done = executed(c, body, answer, floats, blocks);
            &&& c.portals[name].pending matches Some(r) ==> done == ran(
                c,
                name,
                charge,
                r,
                max,
                floats,
                blocks,
            )
            &&& c.portals[name].pending is None ==> match answer {
                Ok(r) => done == ran(c, name, charge, r, max, floats, blocks),
                Err(e) => done.0 == (ConnectionView { failed: true, ..c })
                    && done.1.messages.len() == 1 && done.1.messages[0] == error_view("ERROR"@, e),
            }
        }),
{
}

/// A portal or a statement that is not there can be neither run nor described,
/// and what was kept stays.
pub proof fn missing_names_are_refused(
    c: ConnectionView,
    body: Seq<u8>,
    answer: Result<ResultView, SqlErrorView>,
    shape: Shape,
    floats: FloatTexts,
    blocks: Seq<Block>,
)
    ensures
        execute_fields(body) matches Ok((name, _)) ==> !c.portals.dom().contains(name) ==> is_refusal(
            c,
            executed(c, body, answer, floats, blocks),
            "34000"@,
        ),
        describe_fields(body) matches Ok((kind, name)) ==> kind == 'P' as u8
            && !c.portals.dom().contains(name) ==> is_refusal(
            c,
            described(c, body, shape),
            "34000"@,
        ),
        describe_fields(body) matches Ok((kind, name)) ==> kind == 'S' as u8
            && !c.prepared.dom().contains(name) ==> is_refusal(
            c,
            described(c, body, shape),
            "26000"@,
        ),
{
    assert(has_code(sql_error("34000"@, "portal does not exist"@), "34000"@));
    assert(has_code(sql_error("26000"@, "prepared statement does not exist"@), "26000"@));
}

/// Whether a message was answered with one error of a code, and nothing that is
/// kept changed.
pub open spec fn is_refusal(
    c: ConnectionView,
    done: (ConnectionView, OutputView),
    code: Seq<char>,
) -> bool {
    &&& done.0 == (ConnectionView { failed: true, ..c })
    &&& done.1.fault is None
    &&& done.1.messages.len() == 1
    &&& exists|e: SqlErrorView| #[trigger]
        has_code(e, code) && done.1.messages[0] == error_view("ERROR"@, e)
}

pub open spec fn has_code(e: SqlErrorView, code: Seq<char>) -> bool {
    e.code == code
}

// ---------------------------------------------------------------------------
// Simple queries
// ---------------------------------------------------------------------------

/// What is sent for the first `n` results, one after the other.
pub open spec fn all_sent(results: Seq<ResultView>, floats: FloatTexts, n: int) -> Seq<MessageView>
    decreases n,
{
    if n <= 0 {
        Seq::empty()
    } else {
        all_sent(results, floats, n - 1) + result_output(
            results[n - 1],
            Seq::empty(),
            floats,
            false,
        ).messages
    }
}

proof fn lemma_results(results: Seq<ResultView>, floats: FloatTexts, i: int)
    requires
        0 <= i <= results.len(),
        forall|k: int|
            0 <= k < results.len() ==> result_output(
                #[trigger] results[k],
                Seq::empty(),
                floats,
                false,
            ).fault is None,
    ensures
        with_results(
            OutputView { messages: all_sent(results, floats, i), fault: None },
            results,
            floats,
            i,
        ) == (OutputView { messages: all_sent(results, floats, results.len() as int), fault: None }),
    decreases results.len() - i,
{
    if i < results.len() {
        assert(result_output(results[i], Seq::empty(), floats, false).fault is None);
        lemma_results(results, floats, i + 1);
    }
}

/// A batch is answered with everything that its results are sent as, one result
/// after the other and in text, then with its error, if it came to one, and at
/// last with the state of the transaction.
pub proof fn batches_are_answered_in_order(
    body: Seq<u8>,
    results: Seq<ResultView>,
    error: Option<SqlErrorView>,
    status: TransactionStatus,
    floats: FloatTexts,
)
    requires
        query_text(body) matches Ok(sql) && !says_nothing(sql),
        forall|k: int|
            0 <= k < results.len() ==> result_output(
                #[trigger] results[k],
                Seq::empty(),
                floats,
                false,
            ).fault is None,
    ensures
        ({
            let output = query_output(body, results, error, status, floats);
            let ready = MessageView {
                kind: 'Z' as u8,
                body: seq![
                    match status {
                        TransactionStatus::Idle => 'I' as u8,
                        TransactionStatus::Active => 'T' as u8,
                        TransactionStatus::Failed => 'E' as u8,
                    },
                ],
            };
            let sent = all_sent(results, floats, results.len() as int);
            &&& output.fault is None
            &&& error is None ==> output.messages == sent.push(ready)
            &&& error matches Some(e) ==> output.messages == sent.push(
                error_view("ERROR"@, e),
            ).push(ready)
        }),
{
    lemma_results(results, floats, 0);
}

/// A batch that says nothing is answered with an empty query and the state of
/// the transaction, and one that cannot be read with its error and that state.
pub proof fn empty_batches_are_answered(
    body: Seq<u8>,
    results: Seq<ResultView>,
    error: Option<SqlErrorView>,
    status: TransactionStatus,
    floats: FloatTexts,
)
    ensures
        ({
            let output = query_output(body, results, error, status, floats);
            &&& (query_text(body) matches Ok(sql) && says_nothing(sql)) ==> output.messages.len()
                == 2 && output.messages[0].kind == 'I' as u8 && output.messages[0].body.len() == 0
                && output.messages[1].kind == 'Z' as u8 && output.fault is None
            &&& query_text(body) matches Err(e) ==> output.messages.len() == 2
                && output.messages[0] == error_view("ERROR"@, e) && output.messages[1].kind
                == 'Z' as u8 && output.fault is None
        }),
{
}

} // verus!
