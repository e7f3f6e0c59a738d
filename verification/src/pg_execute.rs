//! Describing and running what a client prepared, simple queries, and which
//! message leads to what.

use crate::bytes::{be, put_u32};
use crate::datum::{Datum, DatumView, FloatTexts};
use crate::error::{sql_error, SqlError, SqlErrorView};
use crate::pg_fields::{execute_fields, only_text, read_execute, read_only_text};
use crate::pg_message::{
    add_message, bare, bare_message, column_views, description_body, error_message, error_view,
    message_views, one_message, push_message, result_output, result_rows_with_formats,
    result_with_formats, row_description_body, row_values, rows_output, rows_values, then_message,
    ColumnView, Message, MessageView, Output, OutputView, QueryResult, ResultColumn, ResultView,
    KIND_DESCRIPTION, KIND_EMPTY_QUERY, KIND_NO_DATA, KIND_PARAMETERS, KIND_SUSPENDED,
};
use crate::pg_query::{is_empty_query, says_nothing};
use crate::pg_retained::{
    countable, covers, heap_bytes, held_retained_bytes, portal_blocks, portal_charge, portal_needs,
    projected, projected_retained_bytes, Block, Portal, PortalView,
};
use crate::pg_session::{
    measured, target_fields, read_target, with_portal, Connection, ConnectionView, TARGET_PORTAL,
    TARGET_STATEMENT,
};
use crate::pg_startup::{ready, ready_view, TransactionStatus};
use crate::pg_values::MAX_PROTOCOL_ITEMS;
use crate::text::owned;
use vstd::prelude::*;
use vstd::string::*;

verus! {

// ---------------------------------------------------------------------------
// Describe
// ---------------------------------------------------------------------------

/// The kind and the name of what a Describe message names.
pub open spec fn describe_fields(body: Seq<u8>) -> Result<(u8, Seq<char>), SqlErrorView> {
    if body.len() > 0 && body[0] != TARGET_PORTAL && body[0] != TARGET_STATEMENT {
        Err(sql_error("08P01"@, "invalid Describe target"@))
    } else {
        target_fields(body, "malformed Describe"@, "Describe name"@, "Describe message"@)
    }
}

fn read_describe(body: &[u8]) -> (result: Result<(u8, String), SqlError>)
    ensures
        match result {
            Ok((kind, name)) => describe_fields(body@) == Ok::<_, SqlErrorView>((kind, name@)),
            Err(e) => describe_fields(body@) == Err::<(u8, Seq<char>), _>(e@),
        },
{
    if body.len() > 0 && body[0] != TARGET_PORTAL && body[0] != TARGET_STATEMENT {
        return Err(SqlError::new("08P01", "invalid Describe target"));
    }
    read_target(body, "malformed Describe", "Describe name", "Describe message")
}

/// The types of a list, each in four bytes.
pub open spec fn types_bytes(types: Seq<u32>) -> Seq<u8>
    decreases types.len(),
{
    if types.len() == 0 {
        Seq::empty()
    } else {
        types_bytes(types.drop_last()) + be(types.last() as nat, 4)
    }
}

/// The message with the types of a statement's parameters.
pub open spec fn parameters_view(types: Seq<u32>) -> MessageView {
    MessageView { kind: KIND_PARAMETERS, body: be(types.len(), 2) + types_bytes(types) }
}

/// The shape of a result behind what was sent: its columns, or that there are
/// none.
pub open spec fn shape_output(
    before: Seq<MessageView>,
    columns: Option<Seq<ColumnView>>,
    formats: Seq<u16>,
) -> OutputView {
    match columns {
        None => OutputView { messages: before.push(bare(KIND_NO_DATA)), fault: None },
        Some(columns) => match description_body(columns, formats) {
            Ok(body) => OutputView {
                messages: before.push(MessageView { kind: KIND_DESCRIPTION, body }),
                fault: None,
            },
            Err(fault) => OutputView { messages: before, fault: Some(fault) },
        },
    }
}

/// What the engine says of the shape of a result.
pub type Shape = Result<Option<Seq<ColumnView>>, SqlErrorView>;

/// The connection once the client knows the shape of a portal's result.
pub open spec fn told(c: ConnectionView, name: Seq<char>) -> ConnectionView {
    ConnectionView {
        portals: c.portals.insert(name, PortalView { described: true, ..c.portals[name] }),
        ..c
    }
}

/// What describing a portal does.
pub open spec fn portal_described(c: ConnectionView, name: Seq<char>, shape: Shape) -> (
    ConnectionView,
    OutputView,
) {
    let p = c.portals[name];
    match p.pending {
        Some(r) => (told(c, name), shape_output(Seq::empty(), Some(r.columns), p.result_formats)),
        None => if says_nothing(p.sql) {
            (c, shape_output(Seq::empty(), None, p.result_formats))
        } else {
            match shape {
                Err(e) => c.breaks(e),
                Ok(None) => (c, shape_output(Seq::empty(), None, p.result_formats)),
                Ok(Some(columns)) => (
                    told(c, name),
                    shape_output(Seq::empty(), Some(columns), p.result_formats),
                ),
            }
        },
    }
}

/// What describing a statement does. Its result has no formats yet.
pub open spec fn statement_described(c: ConnectionView, name: Seq<char>, shape: Shape) -> (
    ConnectionView,
    OutputView,
) {
    let p = c.prepared[name];
    let parameters = seq![parameters_view(p.types)];
    if p.types.len() > MAX_PROTOCOL_ITEMS {
        (c, OutputView { messages: Seq::empty(), fault: Some("wire item count exceeds u16"@) })
    } else if says_nothing(p.sql) {
        (c, shape_output(parameters, None, Seq::empty()))
    } else {
        match shape {
            Err(e) => c.breaks(e),
            Ok(columns) => (c, shape_output(parameters, columns, Seq::empty())),
        }
    }
}

/// What a Describe message does; `shape` is what the engine says of the
/// statement. Nothing is run.
pub open spec fn described(c: ConnectionView, body: Seq<u8>, shape: Shape) -> (
    ConnectionView,
    OutputView,
) {
    match describe_fields(body) {
        Err(e) => c.breaks(e),
        Ok((kind, name)) => if kind == TARGET_PORTAL {
            if c.portals.dom().contains(name) {
                portal_described(c, name, shape)
            } else {
                c.breaks(sql_error("34000"@, "portal does not exist"@))
            }
        } else if c.prepared.dom().contains(name) {
            statement_described(c, name, shape)
        } else {
            c.breaks(sql_error("26000"@, "prepared statement does not exist"@))
        },
    }
}

/// What the engine says of the shape of a result.
pub open spec fn shape_view(shape: Result<Option<Vec<ResultColumn>>, SqlError>) -> Shape {
    match shape {
        Ok(Some(columns)) => Ok(Some(column_views(columns@))),
        Ok(None) => Ok(None),
        Err(e) => Err(e@),
    }
}

fn parameters_message(types: &[u32]) -> (message: Message)
    requires
        types@.len() <= MAX_PROTOCOL_ITEMS,
    ensures
        message@ == parameters_view(types@),
{
    let mut body: Vec<u8> = Vec::new();
    crate::bytes::put_u16(&mut body, types.len() as u16);
    let ghost count = be(types@.len(), 2);
    let mut i: usize = 0;
    assert(types@.subrange(0, 0) == Seq::<u32>::empty());
    assert(body@ =~= count + types_bytes(types@.subrange(0, 0)));
    while i < types.len()
        invariant
            i <= types@.len(),
            body@ == count + types_bytes(types@.subrange(0, i as int)),
        decreases types@.len() - i,
    {
        let ghost before = body@;
        assert(types@.subrange(0, i + 1).drop_last() == types@.subrange(0, i as int));
        put_u32(&mut body, types[i]);
        assert(body@ =~= count + types_bytes(types@.subrange(0, i + 1)));
        i += 1;
    }
    assert(types@.subrange(0, i as int) == types@);
    let message = Message { kind: KIND_PARAMETERS, body };
    assert(message@ =~= parameters_view(types@));
    message
}

fn shape_reply(before: Vec<Message>, columns: Option<&Vec<ResultColumn>>, formats: &[u16]) -> (output:
    Output)
    ensures
        output@ == shape_output(
            message_views(before@),
            match columns {
                Some(c) => Some(column_views(c@)),
                None => None,
            },
            formats@,
        ),
{
    let mut messages = before;
    match columns {
        None => {
            push_message(&mut messages, bare_message(KIND_NO_DATA));
            Output { messages, fault: None }
        },
        Some(columns) => match row_description_body(columns.as_slice(), formats) {
            Ok(body) => {
                let message = Message { kind: KIND_DESCRIPTION, body };
                push_message(&mut messages, message);
                Output { messages, fault: None }
            },
            Err(fault) => Output { messages, fault: Some(fault) },
        },
    }
}

fn no_messages() -> (messages: Vec<Message>)
    ensures
        message_views(messages@) == Seq::<MessageView>::empty(),
{
    let messages: Vec<Message> = Vec::new();
    assert(message_views(messages@) =~= Seq::<MessageView>::empty());
    messages
}

/// A copy of a list of formats.
fn copy_formats(formats: &Vec<u16>) -> (copy: Vec<u16>)
    ensures
        copy@ == formats@,
{
    vstd::slice::slice_to_vec(formats.as_slice())
}

fn copy_values(values: &Vec<Datum>) -> (copy: Vec<Datum>)
    ensures
        row_values(copy) == row_values(*values),
{
    let mut copy: Vec<Datum> = Vec::new();
    let mut i: usize = 0;
    while i < values.len()
        invariant
            i <= values@.len(),
            copy@.len() == i,
            forall|k: int| 0 <= k < i ==> (#[trigger] copy@[k])@ == values@[k]@,
        decreases values@.len() - i,
    {
        copy.push(values[i].copied());
        i += 1;
    }
    assert(row_values(copy) =~= row_values(*values));
    copy
}

/// What the engine is asked: a statement with its parameters, or with their
/// types.
pub struct Question {
    pub sql: String,
    pub params: Vec<Datum>,
    pub types: Vec<u32>,
}

/// Whether a question is the one that a Describe message leads to.
pub open spec fn asks_shape(c: ConnectionView, body: Seq<u8>, question: Option<Question>) -> bool {
    match describe_fields(body) {
        Err(_) => question is None,
        Ok((kind, name)) => if kind == TARGET_PORTAL {
            if c.portals.dom().contains(name) && c.portals[name].pending is None && !says_nothing(
                c.portals[name].sql,
            ) {
                question matches Some(q) && q.sql@ == c.portals[name].sql && row_values(q.params)
                    == c.portals[name].params && q.types@ == Seq::<u32>::empty()
            } else {
                question is None
            }
        } else if c.prepared.dom().contains(name) && !says_nothing(c.prepared[name].sql) {
            question matches Some(q) && q.sql@ == c.prepared[name].sql && q.types@
                == c.prepared[name].types && row_values(q.params) == Seq::<DatumView>::empty()
        } else {
            question is None
        },
    }
}

impl Connection {
    /// What the engine is to be asked before a Describe message is answered.
    pub fn shape_question(&self, body: &[u8]) -> (question: Option<Question>)
        ensures
            asks_shape(self@, body@, question),
    {
        let (kind, name) = match read_describe(body) {
            Ok(found) => found,
            Err(_) => {
                return None;
            },
        };
        if kind == TARGET_PORTAL {
            match self.portals.get(name.as_str()) {
                None => None,
                Some(p) => {
                    assert(p@ == self@.portals[name@]);
                    if p.pending.is_some() || is_empty_query(p.sql.as_str()) {
                        return None;
                    }
                    let types: Vec<u32> = Vec::new();
                    assert(types@ =~= Seq::<u32>::empty());
                    Some(
                        Question {
                            sql: owned(p.sql.as_str()),
                            params: copy_values(&p.params),
                            types,
                        },
                    )
                },
            }
        } else {
            match self.prepared.get(name.as_str()) {
                None => None,
                Some(p) => {
                    assert(p@ == self@.prepared[name@]);
                    if is_empty_query(p.sql.as_str()) {
                        return None;
                    }
                    let params: Vec<Datum> = Vec::new();
                    assert(row_values(params) =~= Seq::<DatumView>::empty());
                    Some(
                        Question {
                            sql: owned(p.sql.as_str()),
                            params,
                            types: vstd::slice::slice_to_vec(p.types.as_slice()),
                        },
                    )
                },
            }
        }
    }

    fn tell(&mut self, name: String)
        requires
            old(self)@.portals.dom().contains(name@),
        ensures
            final(self)@ == told(old(self)@, name@),
    {
        let ghost before = self@;
        let ghost key = name@;
        match self.portals.remove(name.as_str()) {
            Some(p) => {
                assert(p@ == before.portals[key]);
                let portal = Portal {
                    sql: p.sql,
                    params: p.params,
                    result_formats: p.result_formats,
                    pending: p.pending,
                    described: true,
                    heap: p.heap,
                };
                assert(portal@ =~= (PortalView { described: true, ..before.portals[key] }));
                self.portals.insert(name, portal);
                assert(self@.portals =~= before.portals.insert(key, portal@));
                assert(self@.prepared =~= before.prepared);
                assert(self@ =~= told(before, key));
            },
            None => {},
        }
    }

    fn describe_portal(
        &mut self,
        name: String,
        shape: Result<Option<Vec<ResultColumn>>, SqlError>,
    ) -> (output: Output)
        requires
            old(self)@.portals.dom().contains(name@),
        ensures
            (final(self)@, output@) == portal_described(old(self)@, name@, shape_view(shape)),
    {
        let p = match self.portals.get(name.as_str()) {
            Some(p) => p,
            None => {
                return Output { messages: Vec::new(), fault: None };
            },
        };
        assert(p@ == self@.portals[name@]);
        let formats = copy_formats(&p.result_formats);
        if let Some(r) = &p.pending {
            let output = shape_reply(no_messages(), Some(&r.columns), formats.as_slice());
            self.tell(name);
            return output;
        }
        if is_empty_query(p.sql.as_str()) {
            return shape_reply(no_messages(), None, formats.as_slice());
        }
        match shape {
            Err(e) => self.break_off(&e),
            Ok(None) => shape_reply(no_messages(), None, formats.as_slice()),
            Ok(Some(columns)) => {
                let output = shape_reply(no_messages(), Some(&columns), formats.as_slice());
                self.tell(name);
                output
            },
        }
    }

    fn describe_statement(
        &mut self,
        name: String,
        shape: Result<Option<Vec<ResultColumn>>, SqlError>,
    ) -> (output: Output)
        requires
            old(self)@.prepared.dom().contains(name@),
        ensures
            (final(self)@, output@) == statement_described(old(self)@, name@, shape_view(shape)),
    {
        let p = match self.prepared.get(name.as_str()) {
            Some(p) => p,
            None => {
                return Output { messages: Vec::new(), fault: None };
            },
        };
        assert(p@ == self@.prepared[name@]);
        if p.types.len() > MAX_PROTOCOL_ITEMS {
            return Output { messages: no_messages(), fault: Some(owned("wire item count exceeds u16")) };
        }
        let none: Vec<u16> = Vec::new();
        assert(none@ =~= Seq::<u16>::empty());
        let parameters = one_message(parameters_message(p.types.as_slice()));
        if is_empty_query(p.sql.as_str()) {
            return shape_reply(parameters, None, none.as_slice());
        }
        match shape {
            Err(e) => self.break_off(&e),
            Ok(None) => shape_reply(parameters, None, none.as_slice()),
            Ok(Some(columns)) => shape_reply(parameters, Some(&columns), none.as_slice()),
        }
    }

    /// Answers a Describe message, with what the engine says of the shape of
    /// the result.
    pub fn describe(
        &mut self,
        body: &[u8],
        shape: Result<Option<Vec<ResultColumn>>, SqlError>,
    ) -> (output: Output)
        ensures
            (final(self)@, output@) == described(old(self)@, body@, shape_view(shape)),
    {
        let (kind, name) = match read_describe(body) {
            Ok(found) => found,
            Err(e) => {
                return self.break_off(&e);
            },
        };
        assert(self@.portals.dom() =~= self.portals@.dom());
        assert(self@.prepared.dom() =~= self.prepared@.dom());
        if kind == TARGET_PORTAL {
            if self.portals.contains_key(name.as_str()) {
                self.describe_portal(name, shape)
            } else {
                self.break_off(&SqlError::new("34000", "portal does not exist"))
            }
        } else if self.prepared.contains_key(name.as_str()) {
            self.describe_statement(name, shape)
        } else {
            self.break_off(&SqlError::new("26000", "prepared statement does not exist"))
        }
    }
}

// ---------------------------------------------------------------------------
// Execute
// ---------------------------------------------------------------------------

/// The first rows of a result.
pub open spec fn first_rows(r: ResultView, max: int) -> ResultView {
    ResultView { rows: r.rows.subrange(0, max), ..r }
}

/// The rows of a result behind the first.
pub open spec fn later_rows(r: ResultView, max: int) -> ResultView {
    ResultView { rows: r.rows.subrange(max, r.rows.len() as int), ..r }
}

/// The portal and the rows that are sent, where at most `max` rows are asked
/// for; zero asks for all. The third part tells whether rows are left.
pub open spec fn portion(p: PortalView, r: ResultView, max: nat) -> (PortalView, ResultView, bool) {
    if max > 0 && r.rows.len() > max {
        (
            PortalView { pending: Some(later_rows(r, max as int)), ..p },
            first_rows(r, max as int),
            true,
        )
    } else {
        (PortalView { pending: None, ..p }, r, false)
    }
}

/// What keeping a portal that has run leads to, and sending its rows. Where
/// what is left would be too much to hold on to, the portal is dropped: it has
/// run already and must not run again.
pub open spec fn settled_run(
    c: ConnectionView,
    name: Seq<char>,
    old_charge: nat,
    kept: PortalView,
    sent: ResultView,
    more: bool,
    floats: FloatTexts,
) -> (ConnectionView, OutputView) {
    let replaced = match countable(portal_charge(name, kept)) {
        Err(e) => Err(e),
        Ok(added) => projected(c.retained, old_charge as int, added as int, c.limit),
    };
    match replaced {
        Ok(retained) => (
            with_portal(c, name, kept, retained),
            if more {
                then_message(
                    rows_output(sent, kept.result_formats, floats, kept.described),
                    bare(KIND_SUSPENDED),
                )
            } else {
                result_output(sent, kept.result_formats, floats, kept.described)
            },
        ),
        Err(e) => match projected(c.retained, old_charge as int, 0, c.limit) {
            Err(f) => c.breaks(f),
            Ok(retained) => (ConnectionView {
                portals: c.portals.remove(name),
                retained,
                ..c
            }).breaks(e),
        },
    }
}

/// What a portal's result leads to; `blocks` is the memory that the portal has
/// taken with what is left of the result.
pub open spec fn ran(
    c: ConnectionView,
    name: Seq<char>,
    old_charge: nat,
    r: ResultView,
    max: nat,
    floats: FloatTexts,
    blocks: Seq<Block>,
) -> (ConnectionView, OutputView) {
    let (kept, sent, more) = portion(c.portals[name], r, max);
    settled_run(c, name, old_charge, measured(kept, blocks), sent, more, floats)
}

/// The portal that an Execute message leaves behind, where it runs one that can
/// be taken out. Its memory is not measured yet.
pub open spec fn portal_left(
    c: ConnectionView,
    body: Seq<u8>,
    answer: Result<ResultView, SqlErrorView>,
) -> Option<PortalView> {
    match execute_fields(body) {
        Err(_) => None,
        Ok((name, max)) => {
            let p = c.portals[name];
            let charge = portal_charge(name, p);
            if !c.portals.dom().contains(name) || countable(charge) is Err || says_nothing(p.sql)
                || projected(c.retained, charge as int, 0, c.limit) is Err {
                None
            } else {
                match (p.pending, answer) {
                    (Some(r), _) => Some(portion(p, r, max).0),
                    (None, Ok(r)) => Some(portion(p, r, max).0),
                    (None, Err(_)) => None,
                }
            }
        },
    }
}

/// Whether some blocks may be the memory of the portal that is left.
pub open spec fn may_leave(left: Option<PortalView>, blocks: Seq<Block>) -> bool {
    left matches Some(p) ==> covers(portal_needs(p), blocks)
}

/// What an Execute message does; `answer` is what the engine gave for the
/// portal's statement, which is used only where nothing is left of an earlier
/// run, and `blocks` is the memory that the portal has taken after it ran.
pub open spec fn executed(
    c: ConnectionView,
    body: Seq<u8>,
    answer: Result<ResultView, SqlErrorView>,
    floats: FloatTexts,
    blocks: Seq<Block>,
) -> (ConnectionView, OutputView) {
    match execute_fields(body) {
        Err(e) => c.breaks(e),
        Ok((name, max)) => if !c.portals.dom().contains(name) {
            c.breaks(sql_error("34000"@, "portal does not exist"@))
        } else {
            match countable(portal_charge(name, c.portals[name])) {
                Err(e) => c.breaks(e),
                Ok(old_charge) => if says_nothing(c.portals[name].sql) {
                    (c, OutputView { messages: seq![bare(KIND_EMPTY_QUERY)], fault: None })
                } else {
                    match c.portals[name].pending {
                        Some(r) => ran(c, name, old_charge, r, max, floats, blocks),
                        None => match answer {
                            Err(e) => c.breaks(e),
                            Ok(r) => ran(c, name, old_charge, r, max, floats, blocks),
                        },
                    }
                },
            }
        },
    }
}

/// What the engine gave.
pub open spec fn answer_view(answer: Result<QueryResult, SqlError>) -> Result<
    ResultView,
    SqlErrorView,
> {
    match answer {
        Ok(r) => Ok(r@),
        Err(e) => Err(e@),
    }
}

fn copy_columns(columns: &Vec<ResultColumn>) -> (copy: Vec<ResultColumn>)
    ensures
        column_views(copy@) == column_views(columns@),
{
    let mut copy: Vec<ResultColumn> = Vec::new();
    let mut i: usize = 0;
    while i < columns.len()
        invariant
            i <= columns@.len(),
            copy@.len() == i,
            forall|k: int| 0 <= k < i ==> (#[trigger] copy@[k])@ == columns@[k]@,
        decreases columns@.len() - i,
    {
        let c = &columns[i];
        copy.push(
            ResultColumn {
                name: owned(c.name.as_str()),
                data_type: c.data_type,
                table_oid: c.table_oid,
                column_oid: c.column_oid,
            },
        );
        assert(copy@[i as int]@ =~= columns@[i as int]@);
        i += 1;
    }
    assert(column_views(copy@) =~= column_views(columns@));
    copy
}

fn copy_texts(texts: &Vec<String>) -> (copy: Vec<String>)
    ensures
        crate::status::texts(copy@) == crate::status::texts(texts@),
{
    let mut copy: Vec<String> = Vec::new();
    let mut i: usize = 0;
    while i < texts.len()
        invariant
            i <= texts@.len(),
            copy@.len() == i,
            forall|k: int| 0 <= k < i ==> (#[trigger] copy@[k])@ == texts@[k]@,
        decreases texts@.len() - i,
    {
        copy.push(owned(texts[i].as_str()));
        i += 1;
    }
    assert(crate::status::texts(copy@) =~= crate::status::texts(texts@));
    copy
}

/// Splits a result behind its first rows.
fn split_result(r: QueryResult, max: usize) -> (parts: (QueryResult, QueryResult))
    requires
        max <= r.rows@.len(),
    ensures
        parts.0@ == first_rows(r@, max as int),
        parts.1@ == later_rows(r@, max as int),
{
    let ghost whole = r@;
    let ghost all = r.rows@;
    let columns = copy_columns(&r.columns);
    let notices = copy_texts(&r.notices);
    let mut rows = r.rows;
    let rest = rows.split_off(max);
    let first = QueryResult {
        columns: r.columns,
        rows,
        command_tag: owned(r.command_tag.as_str()),
        affected_rows: r.affected_rows,
        notices: r.notices,
    };
    let later = QueryResult {
        columns,
        rows: rest,
        command_tag: r.command_tag,
        affected_rows: r.affected_rows,
        notices,
    };
    assert(rows_values(first.rows@) =~= whole.rows.subrange(0, max as int));
    assert(rows_values(later.rows@) =~= whole.rows.subrange(max as int, whole.rows.len() as int));
    assert(later@.notices =~= whole.notices) by {
        assert(later@.notices =~= crate::status::texts(notices@));
        assert(whole.notices =~= crate::status::texts(r.notices@));
    }
    assert(first@ =~= first_rows(whole, max as int));
    assert(later@ =~= later_rows(whole, max as int));
    (first, later)
}

/// Whether a question is the one that an Execute message leads to.
pub open spec fn asks_run(c: ConnectionView, body: Seq<u8>, question: Option<Question>) -> bool {
    match execute_fields(body) {
        Err(_) => question is None,
        Ok((name, _)) => if c.portals.dom().contains(name) && c.portals[name].pending is None
            && !says_nothing(c.portals[name].sql) {
            question matches Some(q) && q.sql@ == c.portals[name].sql && row_values(q.params)
                == c.portals[name].params && q.types@ == Seq::<u32>::empty()
        } else {
            question is None
        },
    }
}

impl Connection {
    /// What the engine is to run before an Execute message is answered.
    pub fn run_question(&self, body: &[u8]) -> (question: Option<Question>)
        ensures
            asks_run(self@, body@, question),
    {
        let (name, _) = match read_execute(body) {
            Ok(found) => found,
            Err(_) => {
                return None;
            },
        };
        match self.portals.get(name.as_str()) {
            None => None,
            Some(p) => {
                assert(p@ == self@.portals[name@]);
                if p.pending.is_some() || is_empty_query(p.sql.as_str()) {
                    return None;
                }
                let types: Vec<u32> = Vec::new();
                assert(types@ =~= Seq::<u32>::empty());
                Some(
                    Question {
                        sql: owned(p.sql.as_str()),
                        params: copy_values(&p.params),
                        types,
                    },
                )
            },
        }
    }

    // Takes a portal out, with its pending result apart.
    fn take_portal(&mut self, name: &str) -> (taken: (Portal, Option<QueryResult>))
        requires
            old(self)@.portals.dom().contains(name@),
        ensures
            final(self)@ == (ConnectionView {
                portals: old(self)@.portals.remove(name@),
                ..old(self)@
            }),
            taken.0@ == (PortalView { pending: None, ..old(self)@.portals[name@] }),
            match taken.1 {
                Some(r) => old(self)@.portals[name@].pending == Some(r@),
                None => old(self)@.portals[name@].pending is None,
            },
    {
        let ghost before = self@;
        match self.portals.remove(name) {
            Some(p) => {
                assert(p@ == before.portals[name@]);
                assert(self@.portals =~= before.portals.remove(name@));
                assert(self@.prepared =~= before.prepared);
                let portal = Portal {
                    sql: p.sql,
                    params: p.params,
                    result_formats: p.result_formats,
                    pending: None,
                    described: p.described,
                    heap: p.heap,
                };
                assert(portal@ =~= (PortalView { pending: None, ..before.portals[name@] }));
                assert(self@ =~= (ConnectionView {
                    portals: before.portals.remove(name@),
                    ..before
                }));
                (portal, p.pending)
            },
            None => {
                assert(false);
                (
                    Portal {
                        sql: String::new(),
                        params: Vec::new(),
                        result_formats: Vec::new(),
                        pending: None,
                        described: false,
                        heap: 0,
                    },
                    None,
                )
            },
        }
    }

    /// Keeps a portal that has run, or drops it, and sends the rows. The
    /// portal stands for one that was charged with `old_charge`, and has taken
    /// some memory.
    pub fn settle_run(
        &mut self,
        name: String,
        old_charge: usize,
        kept: Portal,
        sent: &QueryResult,
        more: bool,
        floats: &FloatTexts,
        blocks: &[Block],
    ) -> (output: Output)
        ensures
            (final(self)@, output@) == settled_run(
                old(self)@,
                name@,
                old_charge as nat,
                measured(kept@, blocks@),
                sent@,
                more,
                *floats,
            ),
    {
        let ghost c = self@;
        let ghost p = measured(kept@, blocks@);
        let formats = copy_formats(&kept.result_formats);
        let described = kept.described;
        let measure = match heap_bytes(blocks) {
            Ok(heap) => match held_retained_bytes(name.as_str(), heap) {
                Ok(added) => match projected_retained_bytes(
                    self.retained_extended_query_bytes,
                    old_charge,
                    added,
                    self.extended_query_state_limit,
                ) {
                    Ok(retained) => Ok((heap, retained)),
                    Err(e) => Err(e),
                },
                Err(e) => Err(e),
            },
            Err(e) => Err(e),
        };
        match measure {
            Ok((heap, retained)) => {
                let kept = Portal {
                    sql: kept.sql,
                    params: kept.params,
                    result_formats: kept.result_formats,
                    pending: kept.pending,
                    described,
                    heap,
                };
                assert(kept@ =~= p);
                self.put_portal(name, kept, retained);
                if more {
                    add_message(
                        result_rows_with_formats(sent, formats.as_slice(), floats, described),
                        bare_message(KIND_SUSPENDED),
                    )
                } else {
                    result_with_formats(sent, formats.as_slice(), floats, described)
                }
            },
            Err(e) => match projected_retained_bytes(
                self.retained_extended_query_bytes,
                old_charge,
                0,
                self.extended_query_state_limit,
            ) {
                Err(f) => self.break_off(&f),
                Ok(retained) => {
                    self.drop_portal(name.as_str(), retained);
                    self.break_off(&e)
                },
            },
        }
    }

    // Splits the result of a portal that was taken out, and puts the portal
    // back with what is left of it.
    fn finish_run(
        &mut self,
        name: String,
        portal: Portal,
        old_charge: usize,
        left: usize,
        r: QueryResult,
        max: u32,
        floats: &FloatTexts,
        before: Ghost<ConnectionView>,
    ) -> (output: Output)
        requires
            before@.portals.dom().contains(name@),
            old(self)@ == (ConnectionView { portals: before@.portals.remove(name@), ..before@ }),
            portal@ == (PortalView { pending: None, ..before@.portals[name@] }),
            projected(before@.retained, old_charge as int, 0, before@.limit) == Ok::<
                int,
                SqlErrorView,
            >(left as int),
        ensures
            exists|blocks: Seq<Block>| #[trigger]
                covers(
                    portal_needs(portion(before@.portals[name@], r@, max as nat).0),
                    blocks,
                ) && (final(self)@, output@) == ran(
                    before@,
                    name@,
                    old_charge as nat,
                    r@,
                    max as nat,
                    *floats,
                    blocks,
                ),
    {
        let ghost c = before@;
        let more = max > 0 && r.rows.len() > max as usize;
        assert(r@.rows.len() == r.rows@.len());
        let (sent, kept) = if more {
            let (first, later) = split_result(r, max as usize);
            (
                first,
                Portal {
                    sql: portal.sql,
                    params: portal.params,
                    result_formats: portal.result_formats,
                    pending: Some(later),
                    described: portal.described,
                    heap: portal.heap,
                },
            )
        } else {
            (r, portal)
        };
        assert(kept@ =~= portion(c.portals[name@], r@, max as nat).0);
        let blocks = portal_blocks(&kept);
        proof {
            let gone = ConnectionView { portals: c.portals.remove(name@), ..c };
            let (p, sent, more) = portion(c.portals[name@], r@, max as nat);
            let put = measured(p, blocks@);
            let charge = old_charge as nat;
            assert(covers(portal_needs(p), blocks@));
            assert(settled_run(gone, name@, charge, put, sent, more, *floats) == ran(
                c,
                name@,
                charge,
                r@,
                max as nat,
                *floats,
                blocks@,
            )) by {
                assert(gone.portals.insert(name@, put) =~= c.portals.insert(name@, put));
                assert(gone.portals.remove(name@) =~= c.portals.remove(name@));
            }
        }
        self.settle_run(name, old_charge, kept, &sent, more, floats, blocks.as_slice())
    }

    /// Answers an Execute message, with what the engine gave for the portal's
    /// statement.
    pub fn execute(
        &mut self,
        body: &[u8],
        answer: Result<QueryResult, SqlError>,
        floats: &FloatTexts,
    ) -> (output: Output)
        ensures
            exists|blocks: Seq<Block>| #[trigger]
                may_leave(portal_left(old(self)@, body@, answer_view(answer)), blocks) && (
                    final(self)@,
                    output@,
                ) == executed(old(self)@, body@, answer_view(answer), *floats, blocks),
    {
        let ghost left_behind = portal_left(self@, body@, answer_view(answer));
        assert(left_behind is None ==> may_leave(left_behind, Seq::empty()));
        let (name, max) = match read_execute(body) {
            Ok(found) => found,
            Err(e) => {
                return self.break_off(&e);
            },
        };
        assert(self@.portals.dom() =~= self.portals@.dom());
        let p = match self.portals.get(name.as_str()) {
            Some(p) => p,
            None => {
                return self.break_off(&SqlError::new("34000", "portal does not exist"));
            },
        };
        assert(p@ == self@.portals[name@]);
        let old_charge = match held_retained_bytes(name.as_str(), p.heap) {
            Ok(bytes) => bytes,
            Err(e) => {
                return self.break_off(&e);
            },
        };
        if is_empty_query(p.sql.as_str()) {
            let output = Output {
                messages: one_message(bare_message(KIND_EMPTY_QUERY)),
                fault: None,
            };
            assert(output@ =~= (OutputView {
                messages: seq![bare(KIND_EMPTY_QUERY)],
                fault: None,
            }));
            return output;
        }
        let waiting = p.pending.is_some();
        let ghost before = self@;
        let answered = match answer {
            Ok(r) => Some(r),
            Err(e) => {
                if !waiting {
                    return self.break_off(&e);
                }
                None
            },
        };
        let left = match projected_retained_bytes(
            self.retained_extended_query_bytes,
            old_charge,
            0,
            self.extended_query_state_limit,
        ) {
            Ok(left) => left,
            Err(e) => {
                // What cannot be taken away cannot be replaced either.
                return self.break_off(&e);
            },
        };
        let (portal, pending) = self.take_portal(name.as_str());
        let run = match (pending, answered) {
            (Some(r), _) => r,
            (None, Some(r)) => r,
            (None, None) => {
                assert(false);
                return Output { messages: Vec::new(), fault: None };
            },
        };
        let ghost key = name@;
        let ghost r = run@;
        let output = self.finish_run(
            name,
            portal,
            old_charge,
            left,
            run,
            max,
            floats,
            Ghost(before),
        );
        proof {
            let kept = portion(before.portals[key], r, max as nat).0;
            let charge = old_charge as nat;
            let blocks = choose|blocks: Seq<Block>| #[trigger]
                covers(portal_needs(kept), blocks) && (self@, output@) == ran(
                    before,
                    key,
                    charge,
                    r,
                    max as nat,
                    *floats,
                    blocks,
                );
            assert(may_leave(left_behind, blocks));
        }
        output
    }
}

// ---------------------------------------------------------------------------
// Simple queries
// ---------------------------------------------------------------------------

/// The text of a simple query.
pub open spec fn query_text(body: Seq<u8>) -> Result<Seq<char>, SqlErrorView> {
    only_text(body, "simple query"@, "simple query"@)
}

/// The results of a batch from the `i`th on, behind what was sent.
pub open spec fn with_results(
    before: OutputView,
    results: Seq<ResultView>,
    floats: FloatTexts,
    i: int,
) -> OutputView
    decreases results.len() - i,
{
    if i < 0 || i >= results.len() || before.fault is Some {
        before
    } else {
        let next = result_output(results[i], Seq::empty(), floats, false);
        with_results(
            OutputView { messages: before.messages + next.messages, fault: next.fault },
            results,
            floats,
            i + 1,
        )
    }
}

/// What a simple query is answered: each result of the batch, the error that
/// ended it, if any, and that the next query is awaited. A text that says
/// nothing is answered as an empty query.
pub open spec fn query_output(
    body: Seq<u8>,
    results: Seq<ResultView>,
    error: Option<SqlErrorView>,
    status: TransactionStatus,
    floats: FloatTexts,
) -> OutputView {
    match query_text(body) {
        Err(e) => OutputView {
            messages: seq![error_view("ERROR"@, e), ready_view(status)],
            fault: None,
        },
        Ok(sql) => if says_nothing(sql) {
            OutputView { messages: seq![bare(KIND_EMPTY_QUERY), ready_view(status)], fault: None }
        } else {
            let sent = with_results(
                OutputView { messages: Seq::empty(), fault: None },
                results,
                floats,
                0,
            );
            let ended = match error {
                Some(e) => then_message(sent, error_view("ERROR"@, e)),
                None => sent,
            };
            then_message(ended, ready_view(status))
        },
    }
}

/// The text that the engine is to run for a simple query.
pub fn query_to_run(body: &[u8]) -> (sql: Option<String>)
    ensures
        match sql {
            Some(s) => query_text(body@) == Ok::<_, SqlErrorView>(s@) && !says_nothing(s@),
            None => query_text(body@) matches Ok(s) ==> says_nothing(s),
        },
{
    match read_only_text(body, "simple query", "simple query") {
        Ok(sql) => if is_empty_query(sql.as_str()) {
            None
        } else {
            Some(sql)
        },
        Err(_) => None,
    }
}

/// The results of a list.
pub open spec fn result_views(results: Seq<QueryResult>) -> Seq<ResultView> {
    results.map_values(|r: QueryResult| r@)
}

fn append_output(before: Output, next: Output) -> (output: Output)
    ensures
        output@ == (OutputView {
            messages: before@.messages + next@.messages,
            fault: next@.fault,
        }),
{
    let mut messages = before.messages;
    let mut more = next.messages;
    messages.append(&mut more);
    let output = Output { messages, fault: next.fault };
    assert(output@.messages =~= before@.messages + next@.messages);
    output
}

#[verifier::loop_isolation(false)]
fn send_results(results: &Vec<QueryResult>, floats: &FloatTexts) -> (output: Output)
    ensures
        output@ == with_results(
            OutputView { messages: Seq::empty(), fault: None },
            result_views(results@),
            *floats,
            0,
        ),
{
    let ghost all = result_views(results@);
    let none: Vec<u16> = Vec::new();
    assert(none@ =~= Seq::<u16>::empty());
    let mut output = Output { messages: no_messages(), fault: None };
    assert(output@ =~= (OutputView { messages: Seq::empty(), fault: None }));
    let ghost whole = with_results(output@, all, *floats, 0);
    let mut i: usize = 0;
    while i < results.len()
        invariant
            i <= results@.len(),
            with_results(output@, all, *floats, i as int) == whole,
        decreases results@.len() - i,
    {
        if output.fault.is_some() {
            return output;
        }
        assert(all[i as int] == results@[i as int]@);
        output =
        append_output(
            output,
            result_with_formats(&results[i], none.as_slice(), floats, false),
        );
        i += 1;
    }
    output
}

/// Answers a simple query, with the results that the engine gave, the error
/// that ended the batch, and where that leaves the transaction.
pub fn simple_query(
    body: &[u8],
    results: &Vec<QueryResult>,
    error: &Option<SqlError>,
    status: TransactionStatus,
    floats: &FloatTexts,
) -> (output: Output)
    ensures
        output@ == query_output(
            body@,
            result_views(results@),
            match error {
                Some(e) => Some(e@),
                None => None,
            },
            status,
            *floats,
        ),
{
    let sql = match read_only_text(body, "simple query", "simple query") {
        Ok(sql) => sql,
        Err(e) => {
            let mut messages = one_message(error_message(&e));
            push_message(&mut messages, ready(status));
            let output = Output { messages, fault: None };
            assert(output@.messages =~= seq![error_view("ERROR"@, e@), ready_view(status)]);
            return output;
        },
    };
    if is_empty_query(sql.as_str()) {
        let mut messages = one_message(bare_message(KIND_EMPTY_QUERY));
        push_message(&mut messages, ready(status));
        let output = Output { messages, fault: None };
        assert(output@.messages =~= seq![bare(KIND_EMPTY_QUERY), ready_view(status)]);
        return output;
    }
    let sent = send_results(results, floats);
    let ended = match error {
        Some(e) => add_message(sent, error_message(e)),
        None => sent,
    };
    add_message(ended, ready(status))
}

// ---------------------------------------------------------------------------
// Which message leads to what
// ---------------------------------------------------------------------------

/// What a frontend message leads to.
#[derive(Clone, Copy, Debug, PartialEq, Eq, Structural)]
pub enum Route {
    Query,
    Parse,
    Bind,
    Describe,
    Execute,
    Close,
    Sync,
    Flush,
    Terminate,
    Unsupported,
    /// Nothing: an error waits for the next Sync.
    Ignore,
}

/// What a frontend message leads to. After an error everything but Sync, Flush
/// and Terminate is passed over.
pub open spec fn route_of(kind: u8, failed: bool) -> Route {
    if kind == 0x53 {
        Route::Sync
    } else if kind == 0x48 {
        Route::Flush
    } else if kind == 0x58 {
        Route::Terminate
    } else if failed {
        Route::Ignore
    } else if kind == 0x51 {
        Route::Query
    } else if kind == 0x50 {
        Route::Parse
    } else if kind == 0x42 {
        Route::Bind
    } else if kind == 0x44 {
        Route::Describe
    } else if kind == 0x45 {
        Route::Execute
    } else if kind == 0x43 {
        Route::Close
    } else {
        Route::Unsupported
    }
}

impl Connection {
    /// Decides what a frontend message leads to.
    pub fn route(&self, kind: u8) -> (route: Route)
        ensures
            route == route_of(kind, self@.failed),
    {
        if kind == 0x53 {
            Route::Sync
        } else if kind == 0x48 {
            Route::Flush
        } else if kind == 0x58 {
            Route::Terminate
        } else if self.extended_error {
            Route::Ignore
        } else if kind == 0x51 {
            Route::Query
        } else if kind == 0x50 {
            Route::Parse
        } else if kind == 0x42 {
            Route::Bind
        } else if kind == 0x44 {
            Route::Describe
        } else if kind == 0x45 {
            Route::Execute
        } else if kind == 0x43 {
            Route::Close
        } else {
            Route::Unsupported
        }
    }

    /// Answers a Sync message.
    pub fn sync(&mut self, status: TransactionStatus) -> (message: Message)
        ensures
            final(self)@ == (ConnectionView { failed: false, ..old(self)@ }),
            message@ == ready_view(status),
    {
        self.extended_error = false;
        assert(self@ =~= (ConnectionView { failed: false, ..old(self)@ }));
        ready(status)
    }
}

/// Answers a message that is not supported.
pub fn unsupported(status: TransactionStatus) -> (messages: Vec<Message>)
    ensures
        message_views(messages@) == seq![
            error_view("ERROR"@, sql_error("0A000"@, "frontend message is not supported"@)),
            ready_view(status),
        ],
{
    let mut messages = one_message(
        error_message(&SqlError::unsupported("frontend message is not supported")),
    );
    push_message(&mut messages, ready(status));
    assert(message_views(messages@) =~= seq![
        error_view("ERROR"@, sql_error("0A000"@, "frontend message is not supported"@)),
        ready_view(status),
    ]);
    messages
}

} // verus!
