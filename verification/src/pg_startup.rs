//! How a connection begins: encryption requests, cancellation, protocol
//! negotiation and the checks of the startup packet.

use crate::bytes::{be, be_value, lemma_be_value_bound, lemma_span, put_u32, read_be};
use crate::error::{sql_error, SqlError, SqlErrorView};
use crate::pg_decode::{find_zero, zero_from};
use crate::pg_message::{
    cstr_put, ended, error_message, error_view, message_views, one_message, push_message, Message,
    MessageView, KIND_AUTHENTICATION, KIND_BACKEND_KEY, KIND_NEGOTIATION, KIND_READY, KIND_SETTING,
};
use crate::text::{
    ascii_lower_text, owned, same_text, same_text_ignoring_case, text_chars, text_of_chars, utf8_text,
};
use crate::transport::{begins_with, text_begins_with};
use vstd::prelude::*;
use vstd::string::*;
use vstd::utf8::{decode_utf8, valid_utf8};

verus! {

pub const MAX_STARTUP_MESSAGE_BYTES: usize = 65_536;

pub const PROTOCOL_VERSION_3_0: u32 = 196_608;

pub const PROTOCOL_VERSION_3_2: u32 = 196_610;

pub const SSL_REQUEST_CODE: u32 = 80_877_103;

pub const CANCEL_REQUEST_CODE: u32 = 80_877_102;

pub const GSSENC_REQUEST_CODE: u32 = 80_877_104;

// ---------------------------------------------------------------------------
// The parameters
// ---------------------------------------------------------------------------

/// Names with their values, in the order in which they were sent.
pub type ParamList = Seq<(Seq<char>, Seq<char>)>;

/// The parameters of a startup packet.
#[derive(Clone, Debug)]
pub struct StartupParams {
    pub values: Vec<(String, String)>,
}

impl View for StartupParams {
    type V = ParamList;

    open spec fn view(&self) -> ParamList {
        self.values@.map_values(|entry: (String, String)| (entry.0@, entry.1@))
    }
}

/// A text that a zero byte ends, and the place behind it.
pub open spec fn startup_text(body: Seq<u8>, at: int) -> Result<(Seq<char>, int), SqlErrorView> {
    match zero_from(body, at) {
        None => Err(sql_error("08P01"@, "unterminated startup parameter"@)),
        Some(end) => if valid_utf8(body.subrange(at, end)) {
            Ok((decode_utf8(body.subrange(at, end)), end + 1))
        } else {
            Err(sql_error("22021"@, "invalid UTF-8 in startup packet"@))
        },
    }
}

/// Reads a text that a zero byte ends.
pub fn startup_cstr(body: &[u8], pos: &mut usize) -> (result: Result<String, SqlError>)
    requires
        *old(pos) <= body@.len(),
    ensures
        *final(pos) <= body@.len(),
        match result {
            Ok(text) => startup_text(body@, *old(pos) as int) == Ok::<_, SqlErrorView>(
                (text@, *final(pos) as int),
            ) && *final(pos) > *old(pos),
            Err(e) => startup_text(body@, *old(pos) as int) == Err::<(Seq<char>, int), _>(e@),
        },
{
    let start = *pos;
    let end = match find_zero(body, start) {
        Some(end) => end,
        None => {
            return Err(SqlError::new("08P01", "unterminated startup parameter"));
        },
    };
    let whole = body.len();
    assert(end < whole);
    *pos = end + 1;
    match utf8_text(vstd::slice::slice_subrange(body, start, end)) {
        Some(text) => Ok(text),
        None => Err(SqlError::new("22021", "invalid UTF-8 in startup packet")),
    }
}

/// A zero byte that was found stands in the body, at or behind the place.
pub proof fn lemma_zero_from(body: Seq<u8>, at: int)
    ensures
        zero_from(body, at) matches Some(end) ==> at <= end < body.len(),
    decreases body.len() - at,
{
    if 0 <= at < body.len() && body[at] != 0 {
        lemma_zero_from(body, at + 1);
    }
}

/// The parameters from a place on, behind those that were read. An empty name
/// ends them.
pub open spec fn params_from(body: Seq<u8>, at: int, read: ParamList) -> Result<
    ParamList,
    SqlErrorView,
>
    decreases body.len() - at,
{
    match startup_text(body, at) {
        Err(e) => Err(e),
        Ok((name, middle)) => if name.len() == 0 {
            if middle != body.len() {
                Err(sql_error("08P01"@, "trailing bytes in startup packet"@))
            } else {
                Ok(read)
            }
        } else {
            match startup_text(body, middle) {
                Err(e) => Err(e),
                Ok((value, next)) => if middle - 1 - at > 256 || next - 1 - middle > 4096 {
                    Err(sql_error("54000"@, "startup parameter is too long"@))
                } else {
                    proof {
                        lemma_zero_from(body, at);
                        lemma_zero_from(body, middle);
                    }
                    params_from(body, next, read.push((name, value)))
                },
            }
        },
    }
}

/// The last value of a name among the first `count` parameters.
pub open spec fn exact_value(list: ParamList, name: Seq<char>, count: int) -> Option<Seq<char>>
    decreases count,
{
    if count <= 0 {
        None
    } else if list[count - 1].0 == name {
        Some(list[count - 1].1)
    } else {
        exact_value(list, name, count - 1)
    }
}

/// The last value of a name in any case among the first `count` parameters.
pub open spec fn folded_value(list: ParamList, name: Seq<char>, count: int) -> Option<Seq<char>>
    decreases count,
{
    if count <= 0 {
        None
    } else if ascii_lower_text(list[count - 1].0) == ascii_lower_text(name) {
        Some(list[count - 1].1)
    } else {
        folded_value(list, name, count - 1)
    }
}

/// The value of a parameter: of the name as it stands, or else of the name in
/// any case.
pub open spec fn param_value(list: ParamList, name: Seq<char>) -> Option<Seq<char>> {
    match exact_value(list, name, list.len() as int) {
        Some(value) => Some(value),
        None => folded_value(list, name, list.len() as int),
    }
}

impl StartupParams {
    /// Reads the parameters of a startup packet.
    #[verifier::loop_isolation(false)]
    pub fn parse(body: &[u8]) -> (result: Result<StartupParams, SqlError>)
        ensures
            match result {
                Ok(params) => params_from(body@, 0, Seq::empty()) == Ok::<_, SqlErrorView>(params@),
                Err(e) => params_from(body@, 0, Seq::empty()) == Err::<ParamList, _>(e@),
            },
    {
        let mut pos: usize = 0;
        let mut params = StartupParams { values: Vec::new() };
        assert(params@ =~= Seq::empty());
        loop
            invariant
                pos <= body@.len(),
                params_from(body@, pos as int, params@) == params_from(body@, 0, Seq::empty()),
            decreases body@.len() - pos,
        {
            let ghost at = pos as int;
            proof {
                lemma_zero_from(body@, at);
            }
            let name = match startup_cstr(body, &mut pos) {
                Ok(name) => name,
                Err(e) => {
                    return Err(e);
                },
            };
            let middle = pos;
            if text_chars(name.as_str()).len() == 0 {
                if pos != body.len() {
                    return Err(SqlError::new("08P01", "trailing bytes in startup packet"));
                }
                return Ok(params);
            }
            let ghost start = at;
            proof {
                lemma_zero_from(body@, middle as int);
            }
            let value = match startup_cstr(body, &mut pos) {
                Ok(value) => value,
                Err(e) => {
                    return Err(e);
                },
            };
            let name_bytes = crate::text::text_bytes(name.as_str()).len();
            let value_bytes = crate::text::text_bytes(value.as_str()).len();
            proof {
                vstd::utf8::decode_utf8_encode_utf8(body@.subrange(at, middle - 1));
                vstd::utf8::decode_utf8_encode_utf8(body@.subrange(middle as int, pos - 1));
            }
            if name_bytes > 256 || value_bytes > 4096 {
                return Err(SqlError::new("54000", "startup parameter is too long"));
            }
            let ghost before = params@;
            let ghost added = (name@, value@);
            params.values.push((name, value));
            assert(params@ =~= before.push(added));
        }
    }

    /// The value of a parameter.
    pub fn get(&self, key: &str) -> (value: Option<String>)
        ensures
            crate::error::optional_text(value) == param_value(self@, key@),
    {
        let mut i: usize = self.values.len();
        while i > 0
            invariant
                i <= self.values@.len(),
                exact_value(self@, key@, i as int) == exact_value(
                    self@,
                    key@,
                    self@.len() as int,
                ),
            decreases i,
        {
            assert(self@[i - 1] == (self.values@[i - 1].0@, self.values@[i - 1].1@));
            if same_text(self.values[i - 1].0.as_str(), key) {
                return Some(owned(self.values[i - 1].1.as_str()));
            }
            i -= 1;
        }
        let mut k: usize = self.values.len();
        while k > 0
            invariant
                k <= self.values@.len(),
                exact_value(self@, key@, self@.len() as int) is None,
                folded_value(self@, key@, k as int) == folded_value(
                    self@,
                    key@,
                    self@.len() as int,
                ),
            decreases k,
        {
            assert(self@[k - 1] == (self.values@[k - 1].0@, self.values@[k - 1].1@));
            if same_text_ignoring_case(self.values[k - 1].0.as_str(), key) {
                return Some(owned(self.values[k - 1].1.as_str()));
            }
            k -= 1;
        }
        None
    }
}

// ---------------------------------------------------------------------------
// Negotiation
// ---------------------------------------------------------------------------

/// The names of the reserved protocol options, in the order in which they were
/// sent.
pub open spec fn reserved_options(list: ParamList) -> Seq<Seq<char>>
    decreases list.len(),
{
    if list.len() == 0 {
        Seq::empty()
    } else {
        let before = reserved_options(list.drop_last());
        if begins_with(list.last().0, "_pq_."@) {
            before.push(list.last().0)
        } else {
            before
        }
    }
}

/// Names, each with the zero byte that ends it.
pub open spec fn ended_all(names: Seq<Seq<char>>) -> Seq<u8>
    decreases names.len(),
{
    if names.len() == 0 {
        Seq::empty()
    } else {
        ended_all(names.drop_last()) + ended(names.last())
    }
}

/// What a client is told that asked for more than the protocol has: the version
/// that is spoken, and the options that are not known.
pub open spec fn negotiation(code: u32, list: ParamList) -> Seq<MessageView> {
    let options = reserved_options(list);
    if code == PROTOCOL_VERSION_3_2 || options.len() > 0 {
        seq![
            MessageView {
                kind: KIND_NEGOTIATION,
                body: be(PROTOCOL_VERSION_3_0 as nat, 4) + be(options.len(), 4) + ended_all(
                    options,
                ),
            },
        ]
    } else {
        Seq::empty()
    }
}

fn negotiate(code: u32, params: &StartupParams) -> (messages: Vec<Message>)
    requires
        params@.len() <= u32::MAX,
    ensures
        message_views(messages@) == negotiation(code, params@),
{
    let mut names: Vec<u8> = Vec::new();
    let mut count: u32 = 0;
    let mut i: usize = 0;
    let ghost list = params@;
    assert(list.subrange(0, 0) =~= Seq::empty());
    assert(names@ =~= ended_all(reserved_options(list.subrange(0, 0))));
    while i < params.values.len()
        invariant
            list == params@,
            list.len() <= u32::MAX,
            list.len() == params.values@.len(),
            i <= params.values@.len(),
            count <= i,
            count == reserved_options(list.subrange(0, i as int)).len(),
            names@ == ended_all(reserved_options(list.subrange(0, i as int))),
        decreases params.values@.len() - i,
    {
        let ghost next = list.subrange(0, i + 1);
        let ghost before = reserved_options(list.subrange(0, i as int));
        assert(next.drop_last() == list.subrange(0, i as int));
        assert(next.last().0 == params.values@[i as int].0@);
        let name = params.values[i].0.as_str();
        if text_begins_with(name, "_pq_.") {
            cstr_put(&mut names, name);
            assert(before.push(name@).drop_last() == before);
            count += 1;
        }
        i += 1;
    }
    assert(list.subrange(0, i as int) == list);
    let mut messages: Vec<Message> = Vec::new();
    assert(message_views(messages@) =~= Seq::empty());
    if code == PROTOCOL_VERSION_3_2 || count > 0 {
        let mut body: Vec<u8> = Vec::new();
        put_u32(&mut body, PROTOCOL_VERSION_3_0);
        put_u32(&mut body, count);
        crate::bytes::put_bytes(&mut body, names.as_slice());
        assert(body@ =~= be(PROTOCOL_VERSION_3_0 as nat, 4) + be(count as nat, 4) + names@);
        messages = one_message(Message { kind: KIND_NEGOTIATION, body });
    }
    messages
}

// ---------------------------------------------------------------------------
// The packet
// ---------------------------------------------------------------------------

/// A violation of the protocol.
pub open spec fn violation(text: Seq<char>) -> MessageView {
    error_view("ERROR"@, sql_error("08P01"@, text))
}

/// Reports a violation of the protocol.
pub fn startup_error(text: &str) -> (message: Message)
    ensures
        message@ == violation(text@),
{
    error_message(&SqlError::new("08P01", text))
}

/// Whether a text begins with `ISO` in any case.
pub open spec fn is_iso(text: Seq<char>) -> bool {
    text.len() >= 3 && ascii_lower_text(text.subrange(0, 3)) == ascii_lower_text("ISO"@)
}

/// What is wrong with the parameters, if anything.
pub open spec fn params_fault(list: ParamList) -> Option<Seq<char>> {
    let user = param_value(list, "user"@);
    let encoding = param_value(list, "client_encoding"@);
    let zone = param_value(list, "TimeZone"@);
    let style = param_value(list, "DateStyle"@);
    if user is None || user->0.len() == 0 {
        Some("startup packet did not include user"@)
    } else if encoding is Some && ascii_lower_text(encoding->0) != ascii_lower_text("utf8"@)
        && ascii_lower_text(encoding->0) != ascii_lower_text("utf-8"@) {
        Some("unsupported client_encoding"@)
    } else if zone is Some && ascii_lower_text(zone->0) != ascii_lower_text("UTC"@) {
        Some("unsupported TimeZone"@)
    } else if style is Some && !is_iso(style->0) {
        Some("unsupported DateStyle"@)
    } else {
        None
    }
}

/// What a startup packet leads to.
#[derive(Clone, Debug)]
pub enum StartupStep {
    /// Encryption is declined, and another packet is read.
    Decline,
    /// The connection is closed without a word.
    Hangup,
    /// A query of another connection is to be cancelled, and this one closed.
    Cancel { pid: u32, secret: u32 },
    /// These messages are sent, and the connection is closed.
    Refuse(Vec<Message>),
    /// These messages are sent, and the session begins.
    Accept { before: Vec<Message>, application_name: String },
}

/// What a [`StartupStep`] says.
pub enum StartupView {
    Decline,
    Hangup,
    Cancel { pid: nat, secret: nat },
    Refuse(Seq<MessageView>),
    Accept { before: Seq<MessageView>, application_name: Seq<char> },
}

impl View for StartupStep {
    type V = StartupView;

    open spec fn view(&self) -> StartupView {
        match self {
            StartupStep::Decline => StartupView::Decline,
            StartupStep::Hangup => StartupView::Hangup,
            StartupStep::Cancel { pid, secret } => StartupView::Cancel {
                pid: *pid as nat,
                secret: *secret as nat,
            },
            StartupStep::Refuse(messages) => StartupView::Refuse(message_views(messages@)),
            StartupStep::Accept { before, application_name } => StartupView::Accept {
                before: message_views(before@),
                application_name: application_name@,
            },
        }
    }
}

/// The length of the body behind a startup header.
pub open spec fn startup_length(length: u32) -> Option<nat> {
    if 8 <= length <= MAX_STARTUP_MESSAGE_BYTES {
        Some((length - 8) as nat)
    } else {
        None
    }
}

/// The length of the body behind a startup header, or the message that refuses
/// the packet.
pub fn startup_body_length(length: u32) -> (result: Result<usize, Message>)
    ensures
        match result {
            Ok(n) => startup_length(length) == Some(n as nat),
            Err(message) => startup_length(length) is None && message@ == violation(
                "invalid startup packet length"@,
            ),
        },
{
    if length < 8 || length as usize > MAX_STARTUP_MESSAGE_BYTES {
        return Err(startup_error("invalid startup packet length"));
    }
    Ok(length as usize - 8)
}

/// What a startup packet leads to, given its code and its body. A client that
/// asks for more than the protocol has is told so before anything else.
pub open spec fn startup_outcome(code: u32, body: Seq<u8>) -> StartupView {
    if code == SSL_REQUEST_CODE || code == GSSENC_REQUEST_CODE {
        if body.len() != 0 {
            StartupView::Refuse(seq![violation("malformed SSL/GSS encryption request"@)])
        } else {
            StartupView::Decline
        }
    } else if code == CANCEL_REQUEST_CODE {
        if body.len() != 8 {
            StartupView::Hangup
        } else {
            StartupView::Cancel {
                pid: be_value(body.subrange(0, 4)),
                secret: be_value(body.subrange(4, 8)),
            }
        }
    } else if code != PROTOCOL_VERSION_3_0 && code != PROTOCOL_VERSION_3_2 {
        StartupView::Refuse(seq![violation("unsupported frontend protocol version"@)])
    } else {
        match params_from(body, 0, Seq::empty()) {
            Err(e) => StartupView::Refuse(seq![violation(e.message)]),
            Ok(list) => match params_fault(list) {
                Some(fault) => StartupView::Refuse(negotiation(code, list).push(violation(fault))),
                None => StartupView::Accept {
                    before: negotiation(code, list),
                    application_name: match param_value(list, "application_name"@) {
                        Some(name) => name,
                        None => Seq::empty(),
                    },
                },
            },
        }
    }
}

fn begins_iso(text: &str) -> (iso: bool)
    ensures
        iso == is_iso(text@),
{
    let chars = text_chars(text);
    if chars.len() < 3 {
        return false;
    }
    let start = text_of_chars(vstd::slice::slice_subrange(chars.as_slice(), 0, 3));
    same_text_ignoring_case(start.as_str(), "ISO")
}

fn find_fault(params: &StartupParams) -> (fault: Option<&'static str>)
    ensures
        match fault {
            Some(text) => params_fault(params@) == Some(text@),
            None => params_fault(params@) is None,
        },
{
    match params.get("user") {
        None => {
            return Some("startup packet did not include user");
        },
        Some(user) => {
            if text_chars(user.as_str()).len() == 0 {
                return Some("startup packet did not include user");
            }
        },
    }
    if let Some(encoding) = params.get("client_encoding") {
        if !same_text_ignoring_case(encoding.as_str(), "utf8") && !same_text_ignoring_case(
            encoding.as_str(),
            "utf-8",
        ) {
            return Some("unsupported client_encoding");
        }
    }
    if let Some(zone) = params.get("TimeZone") {
        if !same_text_ignoring_case(zone.as_str(), "UTC") {
            return Some("unsupported TimeZone");
        }
    }
    if let Some(style) = params.get("DateStyle") {
        if !begins_iso(style.as_str()) {
            return Some("unsupported DateStyle");
        }
    }
    None
}

proof fn lemma_params_len(body: Seq<u8>, at: int, read: ParamList)
    requires
        0 <= at <= body.len(),
        params_from(body, at, read) is Ok,
    ensures
        params_from(body, at, read)->Ok_0.len() <= read.len() + body.len() - at,
    decreases body.len() - at,
{
    lemma_zero_from(body, at);
    match startup_text(body, at) {
        Ok((name, middle)) => {
            lemma_zero_from(body, middle);
            if name.len() > 0 {
                match startup_text(body, middle) {
                    Ok((value, next)) => {
                        if middle - 1 - at <= 256 && next - 1 - middle <= 4096 {
                            lemma_params_len(body, next, read.push((name, value)));
                        }
                    },
                    Err(_) => {},
                }
            }
        },
        Err(_) => {},
    }
}

fn read_u32(bytes: &[u8]) -> (value: u32)
    requires
        bytes@.len() == 4,
    ensures
        value == be_value(bytes@),
{
    proof {
        lemma_be_value_bound(bytes@);
        lemma_span();
    }
    read_be(bytes) as u32
}

/// Decides what a startup packet leads to.
pub fn startup(code: u32, body: &[u8]) -> (step: StartupStep)
    requires
        body@.len() <= MAX_STARTUP_MESSAGE_BYTES,
    ensures
        step@ == startup_outcome(code, body@),
{
    if code == SSL_REQUEST_CODE || code == GSSENC_REQUEST_CODE {
        if body.len() != 0 {
            return StartupStep::Refuse(
                one_message(startup_error("malformed SSL/GSS encryption request")),
            );
        }
        return StartupStep::Decline;
    }
    if code == CANCEL_REQUEST_CODE {
        if body.len() != 8 {
            return StartupStep::Hangup;
        }
        return StartupStep::Cancel {
            pid: read_u32(vstd::slice::slice_subrange(body, 0, 4)),
            secret: read_u32(vstd::slice::slice_subrange(body, 4, 8)),
        };
    }
    if code != PROTOCOL_VERSION_3_0 && code != PROTOCOL_VERSION_3_2 {
        return StartupStep::Refuse(
            one_message(startup_error("unsupported frontend protocol version")),
        );
    }
    let params = match StartupParams::parse(body) {
        Ok(params) => params,
        Err(e) => {
            return StartupStep::Refuse(one_message(startup_error(e.message.as_str())));
        },
    };
    proof {
        lemma_params_len(body@, 0, Seq::empty());
    }
    let mut before = negotiate(code, &params);
    match find_fault(&params) {
        Some(fault) => {
            push_message(&mut before, startup_error(fault));
            StartupStep::Refuse(before)
        },
        None => {
            let application_name = match params.get("application_name") {
                Some(name) => name,
                None => String::new(),
            };
            proof {
                if param_value(params@, "application_name"@) is None {
                    assert(application_name@ =~= Seq::<char>::empty());
                }
            }
            StartupStep::Accept { before, application_name }
        },
    }
}

// ---------------------------------------------------------------------------
// The greeting
// ---------------------------------------------------------------------------

/// Where a session stands in a transaction.
#[derive(Clone, Copy, Debug, PartialEq, Eq, Structural)]
pub enum TransactionStatus {
    Idle,
    Active,
    Failed,
}

/// The message that the next query is awaited: `I`, `T` or `E`.
pub open spec fn ready_view(status: TransactionStatus) -> MessageView {
    MessageView {
        kind: KIND_READY,
        body: seq![
            match status {
                TransactionStatus::Failed => 0x45u8,
                TransactionStatus::Active => 0x54u8,
                TransactionStatus::Idle => 0x49u8,
            },
        ],
    }
}

/// Says that the next query is awaited.
pub fn ready(status: TransactionStatus) -> (message: Message)
    ensures
        message@ == ready_view(status),
{
    let mut body: Vec<u8> = Vec::new();
    body.push(
        match status {
            TransactionStatus::Failed => 0x45,
            TransactionStatus::Active => 0x54,
            TransactionStatus::Idle => 0x49,
        },
    );
    let message = Message { kind: KIND_READY, body };
    assert(message@ =~= ready_view(status));
    message
}

/// The message that names a setting.
pub open spec fn setting_view(name: Seq<char>, value: Seq<char>) -> MessageView {
    MessageView { kind: KIND_SETTING, body: ended(name) + ended(value) }
}

/// Names a setting.
pub fn parameter(name: &str, value: &str) -> (message: Message)
    ensures
        message@ == setting_view(name@, value@),
{
    let mut body: Vec<u8> = Vec::new();
    cstr_put(&mut body, name);
    cstr_put(&mut body, value);
    let message = Message { kind: KIND_SETTING, body };
    assert(message@ =~= setting_view(name@, value@));
    message
}

/// The message that lets the client in.
pub open spec fn authentication_view() -> MessageView {
    MessageView { kind: KIND_AUTHENTICATION, body: be(0, 4) }
}

/// The message with the key that cancels the session's queries.
pub open spec fn backend_key_view(pid: u32, secret: u32) -> MessageView {
    MessageView { kind: KIND_BACKEND_KEY, body: be(pid as nat, 4) + be(secret as nat, 4) }
}

/// What a client is sent that is let in.
pub open spec fn greeting_view(
    application_name: Seq<char>,
    pid: u32,
    secret: u32,
    status: TransactionStatus,
) -> Seq<MessageView> {
    seq![
        authentication_view(),
        setting_view("server_version"@, "16.0"@),
        setting_view("server_version_num"@, "160000"@),
        setting_view("client_encoding"@, "UTF8"@),
        setting_view("DateStyle"@, "ISO, MDY"@),
        setting_view("TimeZone"@, "UTC"@),
        setting_view("standard_conforming_strings"@, "on"@),
        setting_view("integer_datetimes"@, "on"@),
        setting_view("application_name"@, application_name),
        backend_key_view(pid, secret),
        ready_view(status),
    ]
}

/// Greets a client, or refuses it where the session did not take the
/// application's name.
pub fn greeting(
    application_name: &str,
    name_taken: bool,
    pid: u32,
    secret: u32,
    status: TransactionStatus,
) -> (messages: Vec<Message>)
    ensures
        message_views(messages@) == if name_taken {
            greeting_view(application_name@, pid, secret, status)
        } else {
            seq![violation("invalid application_name"@)]
        },
{
    if !name_taken {
        return one_message(startup_error("invalid application_name"));
    }
    let mut zero: Vec<u8> = Vec::new();
    put_u32(&mut zero, 0);
    let authenticated = Message { kind: KIND_AUTHENTICATION, body: zero };
    assert(authenticated@ =~= authentication_view());
    let mut key: Vec<u8> = Vec::new();
    put_u32(&mut key, pid);
    put_u32(&mut key, secret);
    let backend_key = Message { kind: KIND_BACKEND_KEY, body: key };
    assert(backend_key@ =~= backend_key_view(pid, secret));
    let mut messages = one_message(authenticated);
    push_message(&mut messages, parameter("server_version", "16.0"));
    push_message(&mut messages, parameter("server_version_num", "160000"));
    push_message(&mut messages, parameter("client_encoding", "UTF8"));
    push_message(&mut messages, parameter("DateStyle", "ISO, MDY"));
    push_message(&mut messages, parameter("TimeZone", "UTC"));
    push_message(&mut messages, parameter("standard_conforming_strings", "on"));
    push_message(&mut messages, parameter("integer_datetimes", "on"));
    push_message(&mut messages, parameter("application_name", application_name));
    push_message(&mut messages, backend_key);
    push_message(&mut messages, ready(status));
    assert(message_views(messages@) =~= greeting_view(application_name@, pid, secret, status));
    messages
}

/// A client that asks for a later protocol or for reserved options is told so
/// first, whether it is then let in or refused for its parameters.
pub proof fn negotiation_comes_first(code: u32, body: Seq<u8>)
    requires
        code == PROTOCOL_VERSION_3_0 || code == PROTOCOL_VERSION_3_2,
        params_from(body, 0, Seq::empty()) is Ok,
        code == PROTOCOL_VERSION_3_2 || reserved_options(
            params_from(body, 0, Seq::empty())->Ok_0,
        ).len() > 0,
    ensures
        match startup_outcome(code, body) {
            StartupView::Refuse(messages) => messages.len() == 2 && messages[0].kind
                == KIND_NEGOTIATION,
            StartupView::Accept { before, .. } => before.len() == 1 && before[0].kind
                == KIND_NEGOTIATION,
            _ => false,
        },
{
}

} // verus!
