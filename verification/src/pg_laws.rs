//! What holds of a connection whatever a client sends.

use crate::bytes::{be, be_reads_back, be_value, lemma_span, signed, span, wrapped};
use crate::datum::{in_bounds, DatumView, FloatTexts, SqlType};
use crate::error::SqlErrorView;
use crate::json::canonical;
use crate::pg_execute::{
    described, executed, may_leave, portal_left, portion, ran, route_of, Route, Shape,
};
use crate::pg_fields::execute_fields;
use crate::pg_message::{
    row_body, with_rows, MessageView, ResultView, KIND_DESCRIPTION, KIND_ERROR, KIND_ROW,
};
use crate::pg_retained::{
    charges_cover_contents, lemma_table_charge, lemma_table_charge_insert, needed, portal_charge,
    portal_needs, table_charge, Block, PortalView, PreparedView,
};
use crate::pg_session::{
    bind_fields, bound, closed, may_take, measured, parse_plan, parsed, portal_charges,
    portal_retained,
    statement_charges, with_portal, ConnectionView,
};
use crate::pg_values::{binary_param, binary_result, FloatReadings, EPOCH_MICROS};
use vstd::prelude::*;
use vstd::utf8::{encode_utf8, encode_utf8_decode_utf8, encode_utf8_valid_utf8};

verus! {

// ---------------------------------------------------------------------------
// Accounting
// ---------------------------------------------------------------------------

/// Whether what a connection holds on to is within its limit.
pub open spec fn within_limit(c: ConnectionView) -> bool {
    0 <= c.retained <= c.limit
}

proof fn lemma_statement_gone(c: ConnectionView, name: Seq<char>)
    requires
        c.is_accounted(),
    ensures
        c.prepared_entry(name) matches Ok(charge) ==> table_charge(
            c.prepared,
            statement_charges(),
        ) == charge + table_charge(c.prepared.remove(name), statement_charges()),
        c.prepared.remove(name).dom().finite(),
{
    if c.prepared.dom().contains(name) {
        lemma_table_charge(c.prepared, statement_charges(), name);
    } else {
        assert(c.prepared.remove(name) =~= c.prepared);
    }
}

proof fn lemma_portal_gone(c: ConnectionView, name: Seq<char>)
    requires
        c.is_accounted(),
    ensures
        c.portal_entry(name) matches Ok(charge) ==> table_charge(c.portals, portal_charges())
            == charge + table_charge(c.portals.remove(name), portal_charges()),
        c.portals.remove(name).dom().finite(),
{
    if c.portals.dom().contains(name) {
        lemma_table_charge(c.portals, portal_charges(), name);
    } else {
        assert(c.portals.remove(name) =~= c.portals);
    }
}

proof fn lemma_portal_put(c: ConnectionView, name: Seq<char>, p: PortalView, retained: int)
    requires
        c.is_accounted(),
        portal_retained(c, name, p) == Ok::<int, SqlErrorView>(retained),
    ensures
        with_portal(c, name, p, retained).is_accounted(),
        0 <= retained <= c.limit,
{
    lemma_portal_gone(c, name);
    lemma_table_charge_insert(c.portals, portal_charges(), name, p);
}

/// A Parse message keeps what is held on to counted to the byte, and within its
/// limit where it was.
pub proof fn parsing_keeps_accounts(
    c: ConnectionView,
    body: Seq<u8>,
    refusal: Option<SqlErrorView>,
)
    requires
        c.is_accounted(),
    ensures
        parsed(c, body, refusal).0.is_accounted(),
        within_limit(c) ==> within_limit(parsed(c, body, refusal).0),
{
    match parse_plan(c, body) {
        Err(_) => {},
        Ok(plan) => {
            let added = PreparedView { sql: plan.sql, types: plan.types };
            lemma_statement_gone(c, plan.name);
            lemma_table_charge_insert(c.prepared, statement_charges(), plan.name, added);
            if plan.name.len() == 0 {
                lemma_portal_gone(c, Seq::empty());
            }
        },
    }
}

/// A Bind message keeps what is held on to counted to the byte, and within its
/// limit where it was.
pub proof fn binding_keeps_accounts(
    c: ConnectionView,
    body: Seq<u8>,
    floats: FloatReadings,
    blocks: Seq<Block>,
)
    requires
        c.is_accounted(),
    ensures
        bound(c, body, floats, blocks).0.is_accounted(),
        within_limit(c) ==> within_limit(bound(c, body, floats, blocks).0),
{
    match bind_fields(c, body, floats) {
        Err(_) => {},
        Ok((name, asked)) => {
            let p = measured(asked, blocks);
            if let Ok(retained) = portal_retained(c, name, p) {
                lemma_portal_put(c, name, p, retained);
            }
        },
    }
}

/// A Close message keeps what is held on to counted to the byte, and within its
/// limit where it was.
pub proof fn closing_keeps_accounts(c: ConnectionView, body: Seq<u8>)
    requires
        c.is_accounted(),
    ensures
        closed(c, body).0.is_accounted(),
        within_limit(c) ==> within_limit(closed(c, body).0),
{
    match crate::pg_session::target_fields(
        body,
        "malformed Close"@,
        "Close name"@,
        "Close message"@,
    ) {
        Err(_) => {},
        Ok((_, name)) => {
            lemma_statement_gone(c, name);
            lemma_portal_gone(c, name);
        },
    }
}

/// A Describe message keeps what is held on to counted to the byte, and within its
/// limit where it was.
pub proof fn describing_keeps_accounts(c: ConnectionView, body: Seq<u8>, shape: Shape)
    requires
        c.is_accounted(),
    ensures
        described(c, body, shape).0.is_accounted(),
        within_limit(c) ==> within_limit(described(c, body, shape).0),
{
    match crate::pg_execute::describe_fields(body) {
        Err(_) => {},
        Ok((_, name)) => {
            if c.portals.dom().contains(name) {
                let p = PortalView { described: true, ..c.portals[name] };
                lemma_table_charge(c.portals, portal_charges(), name);
                lemma_table_charge_insert(c.portals, portal_charges(), name, p);
                assert(portal_charge(name, p) == portal_charge(name, c.portals[name]));
            }
        },
    }
}

/// An Execute message keeps what is held on to counted to the byte, and within its
/// limit where it was.
pub proof fn executing_keeps_accounts(
    c: ConnectionView,
    body: Seq<u8>,
    answer: Result<ResultView, SqlErrorView>,
    floats: FloatTexts,
    blocks: Seq<Block>,
)
    requires
        c.is_accounted(),
    ensures
        executed(c, body, answer, floats, blocks).0.is_accounted(),
        within_limit(c) ==> within_limit(executed(c, body, answer, floats, blocks).0),
{
    match execute_fields(body) {
        Err(_) => {},
        Ok((name, max)) => {
            if c.portals.dom().contains(name) {
                lemma_portal_gone(c, name);
                let result = match c.portals[name].pending {
                    Some(r) => Some(r),
                    None => match answer {
                        Ok(r) => Some(r),
                        Err(_) => None,
                    },
                };
                if let Some(r) = result {
                    let kept = measured(portion(c.portals[name], r, max).0, blocks);
                    if let Ok(retained) = portal_retained(c, name, kept) {
                        lemma_portal_put(c, name, kept, retained);
                    }
                }
            }
        },
    }
}

/// Whether every portal is charged with no less than what it holds.
pub open spec fn contents_charged(c: ConnectionView) -> bool {
    forall|name: Seq<char>|
        c.portals.dom().contains(name) ==> needed(portal_needs(#[trigger] c.portals[name]))
            <= c.portals[name].heap
}

/// Whatever message comes, and however much memory what is kept takes, every
/// portal stays charged with no less than what it holds.
pub proof fn contents_stay_charged(
    c: ConnectionView,
    body: Seq<u8>,
    refusal: Option<SqlErrorView>,
    readings: FloatReadings,
    shape: Shape,
    answer: Result<ResultView, SqlErrorView>,
    floats: FloatTexts,
    blocks: Seq<Block>,
)
    requires
        contents_charged(c),
    ensures
        contents_charged(parsed(c, body, refusal).0),
        contents_charged(closed(c, body).0),
        contents_charged(described(c, body, shape).0),
        may_take(bind_fields(c, body, readings), blocks) ==> contents_charged(
            bound(c, body, readings, blocks).0,
        ),
        may_leave(portal_left(c, body, answer), blocks) ==> contents_charged(
            executed(c, body, answer, floats, blocks).0,
        ),
{
    if let Ok((_, p)) = bind_fields(c, body, readings) {
        assert(portal_needs(measured(p, blocks)) == portal_needs(p));
        if may_take(bind_fields(c, body, readings), blocks) {
            charges_cover_contents(portal_needs(p), blocks);
        }
    }
    if let Some(p) = portal_left(c, body, answer) {
        assert(portal_needs(measured(p, blocks)) == portal_needs(p));
        if may_leave(portal_left(c, body, answer), blocks) {
            charges_cover_contents(portal_needs(p), blocks);
        }
    }
    if let Ok((_, name)) = crate::pg_execute::describe_fields(body) {
        let p = c.portals[name];
        assert(portal_needs(PortalView { described: true, ..p }) == portal_needs(p));
    }
}

// ---------------------------------------------------------------------------
// Failures
// ---------------------------------------------------------------------------

/// A Parse, Bind or Close message that is answered with an error changes
/// nothing that the connection keeps.
pub proof fn refused_messages_change_nothing(
    c: ConnectionView,
    body: Seq<u8>,
    refusal: Option<SqlErrorView>,
    floats: FloatReadings,
    blocks: Seq<Block>,
)
    ensures
        parsed(c, body, refusal).1.kind == KIND_ERROR ==> parsed(c, body, refusal).0
            == (ConnectionView { failed: true, ..c }),
        bound(c, body, floats, blocks).1.kind == KIND_ERROR ==> bound(c, body, floats, blocks).0
            == (ConnectionView { failed: true, ..c }),
        closed(c, body).1.kind == KIND_ERROR ==> closed(c, body).0 == (ConnectionView {
            failed: true,
            ..c
        }),
{
}

/// After an error nothing is done until the next Sync but to flush and to end
/// the connection.
pub proof fn errors_wait_for_sync(kind: u8)
    ensures
        route_of(kind, true) == Route::Sync || route_of(kind, true) == Route::Flush || route_of(
            kind,
            true,
        ) == Route::Terminate || route_of(kind, true) == Route::Ignore,
        route_of(kind, true) == Route::Sync <==> kind == 0x53,
{
}

// ---------------------------------------------------------------------------
// Descriptions
// ---------------------------------------------------------------------------

/// Whether no message describes rows.
pub open spec fn describes_nothing(messages: Seq<MessageView>) -> bool {
    forall|i: int| 0 <= i < messages.len() ==> (#[trigger] messages[i]).kind != KIND_DESCRIPTION
}

proof fn lemma_rows_describe_nothing(
    messages: Seq<MessageView>,
    sent: int,
    r: ResultView,
    formats: Seq<u16>,
    floats: FloatTexts,
    i: int,
)
    requires
        describes_nothing(messages),
    ensures
        describes_nothing(with_rows(messages, sent, r, formats, floats, i).messages),
    decreases r.rows.len() - i,
{
    if 0 <= i < r.rows.len() {
        if let Ok(body) = row_body(r.rows[i], r.columns, formats, floats) {
            let next = messages.push(MessageView { kind: KIND_ROW, body });
            lemma_rows_describe_nothing(next, sent + body.len(), r, formats, floats, i + 1);
        }
    }
}

/// Running a portal whose shape the client knows does not describe it again.
pub proof fn shapes_are_told_once(
    c: ConnectionView,
    name: Seq<char>,
    old_charge: nat,
    r: ResultView,
    max: nat,
    floats: FloatTexts,
    blocks: Seq<Block>,
)
    requires
        c.portals.dom().contains(name),
        c.portals[name].described,
    ensures
        describes_nothing(ran(c, name, old_charge, r, max, floats, blocks).1.messages),
{
    let p = c.portals[name];
    let sent = portion(p, r, max).1;
    lemma_rows_describe_nothing(Seq::empty(), 0, sent, p.result_formats, floats, 0);
}

/// Describing a portal tells the client its shape and changes nothing else.
pub proof fn describing_runs_nothing(c: ConnectionView, body: Seq<u8>, shape: Shape)
    ensures
        ({
            let after = described(c, body, shape).0;
            &&& after.prepared == c.prepared
            &&& after.retained == c.retained
            &&& after.portals.dom() =~= c.portals.dom()
            &&& forall|name: Seq<char>|
                c.portals.dom().contains(name) ==> (#[trigger] after.portals[name]).pending
                    == c.portals[name].pending && after.portals[name].sql == c.portals[name].sql
                    && after.portals[name].params == c.portals[name].params
        }),
{
}

// ---------------------------------------------------------------------------
// Values
// ---------------------------------------------------------------------------

/// Whether a type is the one that a value is sent with.
pub open spec fn is_sent_as(value: DatumView, ty: SqlType) -> bool {
    match value {
        DatumView::Null => false,
        DatumView::Boolean(_) => ty == SqlType::Boolean,
        DatumView::Int16(_) => ty == SqlType::SmallInt,
        DatumView::Int32(_) => ty == SqlType::Integer,
        DatumView::Int64(_) => ty == SqlType::BigInt,
        DatumView::Float64(_) => ty == SqlType::Double,
        DatumView::Text(_) => ty == SqlType::Text || ty is Varchar,
        DatumView::Bytes(_) => ty == SqlType::Bytea,
        DatumView::Date(d) => ty == SqlType::Date && d - 10_957 >= i32::MIN,
        DatumView::Timestamp(t) => ty == SqlType::Timestamp && t - EPOCH_MICROS >= i64::MIN,
        DatumView::TimestampTz(t) => ty == SqlType::TimestampTz && t - EPOCH_MICROS >= i64::MIN,
        DatumView::Uuid(_) => ty == SqlType::Uuid,
        DatumView::Jsonb(j) => ty == SqlType::Jsonb && canonical(j) == Ok::<_, SqlErrorView>(j),
    }
}

proof fn lemma_signed_reads_back(value: int, len: nat)
    requires
        len == 2 || len == 4 || len == 8,
        -(span(len) as int) <= 2 * value < span(len),
    ensures
        be(wrapped(value, len), len).len() == len,
        signed(be_value(be(wrapped(value, len), len)), len) == value,
{
    lemma_span();
    be_reads_back(wrapped(value, len), len);
}

/// A value that is sent in binary form and bound again in binary form comes
/// back as it was.
pub proof fn binary_values_read_back(value: DatumView, ty: SqlType, floats: FloatTexts)
    requires
        in_bounds(value),
        is_sent_as(value, ty),
    ensures
        binary_param(binary_result(value, ty, floats), ty.oid_number()) == Some(value),
{
    lemma_span();
    let bytes = binary_result(value, ty, floats);
    match value {
        DatumView::Int16(n) => {
            lemma_signed_reads_back(n, 2);
        },
        DatumView::Int32(n) => {
            lemma_signed_reads_back(n, 4);
        },
        DatumView::Int64(n) => {
            lemma_signed_reads_back(n, 8);
        },
        DatumView::Float64(bits) => {
            be_reads_back(bits, 8);
        },
        DatumView::Text(t) => {
            encode_utf8_decode_utf8(t);
            encode_utf8_valid_utf8(t);
        },
        DatumView::Date(d) => {
            let count = d - 10_957;
            lemma_signed_reads_back(count, 4);
            if count < 0 {
                vstd::arithmetic::div_mod::lemma_fundamental_div_mod_converse(
                    count,
                    0x1_0000_0000,
                    -1,
                    count + 0x1_0000_0000,
                );
            } else {
                vstd::arithmetic::div_mod::lemma_small_mod(count as nat, 0x1_0000_0000);
            }
            assert(count % 0x1_0000_0000 == wrapped(count, 4));
        },
        DatumView::Timestamp(t) => {
            lemma_signed_reads_back(t - EPOCH_MICROS, 8);
        },
        DatumView::TimestampTz(t) => {
            lemma_signed_reads_back(t - EPOCH_MICROS, 8);
        },
        DatumView::Jsonb(j) => {
            encode_utf8_decode_utf8(j);
            encode_utf8_valid_utf8(j);
            assert(bytes.subrange(1, bytes.len() as int) =~= encode_utf8(j));
        },
        _ => {},
    }
}

} // verus!
