//! How a client is let in, told of errors and cancelled, and which parameters a
//! statement has.

use crate::bytes::{be, be_reads_back, lemma_span};
use crate::error::SqlErrorView;
use crate::pg_decode::zero_from;
use crate::pg_message::{body_length, error_body, error_view, state_code};
use crate::pg_query::{
    digit_byte, digits_end, digits_value, inferred_types, largest_parameter, says_nothing,
};
use crate::pg_server::{
    all_changed, deadline_from, wait_until, without_key, CancelChange, CancelRegistration, IdleStep,
};
use crate::pg_startup::{
    exact_value, folded_value, greeting_view, param_value, params_fault, params_from,
    startup_length, startup_outcome, startup_text, ParamList, StartupView, TransactionStatus,
};
use crate::pg_wire_laws::{client_text, numbers_stand_highest_byte_first, wire_u32};
use crate::text::{ascii_lower_text, digits, is_space};
use vstd::prelude::*;
use vstd::string::*;
use vstd::utf8::{decode_utf8, encode_utf8, valid_utf8};

verus! {

// ---------------------------------------------------------------------------
// Startup
// ---------------------------------------------------------------------------

/// What a client writes for its parameters: every name and value with a zero
/// byte behind it, and another at the end.
pub open spec fn written_params(list: Seq<(Seq<u8>, Seq<u8>)>) -> Seq<u8>
    decreases list.len(),
{
    if list.len() == 0 {
        seq![0u8]
    } else {
        list[0].0.push(0) + list[0].1.push(0) + written_params(list.drop_first())
    }
}

/// Whether bytes are a text without a zero byte.
pub open spec fn is_plain(text: Seq<u8>) -> bool {
    valid_utf8(text) && forall|k: int| 0 <= k < text.len() ==> #[trigger] text[k] != 0
}

/// Whether a client may write parameters: names that are not empty and take at
/// most 256 bytes, and values of at most 4,096.
pub open spec fn may_write(list: Seq<(Seq<u8>, Seq<u8>)>) -> bool {
    forall|i: int|
        0 <= i < list.len() ==> {
            let p = #[trigger] list[i];
            &&& is_plain(p.0) && is_plain(p.1)
            &&& decode_utf8(p.0).len() > 0
            &&& p.0.len() <= 256 && p.1.len() <= 4096
        }
}

/// The parameters as texts.
pub open spec fn as_texts(list: Seq<(Seq<u8>, Seq<u8>)>) -> ParamList {
    list.map_values(|p: (Seq<u8>, Seq<u8>)| (decode_utf8(p.0), decode_utf8(p.1)))
}

proof fn lemma_startup_text(front: Seq<u8>, text: Seq<u8>, rest: Seq<u8>)
    requires
        is_plain(text),
    ensures
        startup_text(front + text.push(0) + rest, front.len() as int) == Ok::<_, SqlErrorView>(
            (decode_utf8(text), (front.len() + text.len() + 1) as int),
        ),
{
    let body = front + text.push(0) + rest;
    let at = front.len() as int;
    let end = at + text.len();
    assert forall|k: int| at <= k < end implies #[trigger] body[k] != 0 by {
        assert(body[k] == text[k - at]);
    }
    lemma_first_zero(body, at, end);
    assert(body.subrange(at, end) =~= text);
}

proof fn lemma_first_zero(body: Seq<u8>, at: int, end: int)
    requires
        0 <= at <= end < body.len(),
        body[end] == 0,
        forall|k: int| at <= k < end ==> #[trigger] body[k] != 0,
    ensures
        zero_from(body, at) == Some(end),
    decreases end - at,
{
    if at < end {
        lemma_first_zero(body, at + 1, end);
    }
}

proof fn lemma_params_read(front: Seq<u8>, list: Seq<(Seq<u8>, Seq<u8>)>, read: ParamList)
    requires
        may_write(list),
    ensures
        params_from(front + written_params(list), front.len() as int, read) == Ok::<_, SqlErrorView>(
            read + as_texts(list),
        ),
    decreases list.len(),
{
    let body = front + written_params(list);
    if list.len() == 0 {
        let none = Seq::<u8>::empty();
        vstd::utf8::encode_utf8_valid_utf8(Seq::empty());
        vstd::utf8::encode_utf8_decode_utf8(Seq::empty());
        assert(encode_utf8(Seq::<char>::empty()) =~= none);
        assert(front + none.push(0) + none =~= body);
        lemma_startup_text(front, none, none);
        assert(read + as_texts(list) =~= read);
    } else {
        let (name, value) = list[0];
        let rest = list.drop_first();
        let tail = written_params(rest);
        assert(list[0] == (name, value));
        assert forall|i: int| 0 <= i < rest.len() implies {
            let p = #[trigger] rest[i];
            &&& is_plain(p.0) && is_plain(p.1)
            &&& decode_utf8(p.0).len() > 0
            &&& p.0.len() <= 256 && p.1.len() <= 4096
        } by {
            assert(rest[i] == list[i + 1]);
        }
        assert(body =~= front + name.push(0) + (value.push(0) + tail));
        lemma_startup_text(front, name, value.push(0) + tail);
        let middle = front + name.push(0);
        assert(body =~= middle + value.push(0) + tail);
        lemma_startup_text(middle, value, tail);
        let next = middle + value.push(0);
        assert(body =~= next + tail);
        let wider = read.push((decode_utf8(name), decode_utf8(value)));
        lemma_params_read(next, rest, wider);
        assert(wider + as_texts(rest) =~= read + as_texts(list)) by {
            assert(as_texts(list)[0] == (decode_utf8(name), decode_utf8(value)));
            assert forall|i: int| 0 <= i < as_texts(rest).len() implies as_texts(rest)[i]
                == #[trigger] as_texts(list)[i + 1] by {}
        }
    }
}

/// The parameters that a client writes are read as they are, in their order.
pub proof fn parameters_are_read_as_written(list: Seq<(Seq<u8>, Seq<u8>)>)
    requires
        may_write(list),
    ensures
        params_from(written_params(list), 0, Seq::empty()) == Ok::<_, SqlErrorView>(as_texts(list)),
{
    lemma_params_read(Seq::empty(), list, Seq::empty());
    assert(Seq::<u8>::empty() + written_params(list) =~= written_params(list));
    assert(Seq::empty() + as_texts(list) =~= as_texts(list));
}

/// A parameter whose name takes more than 256 bytes or whose value takes more
/// than 4,096 is refused, and so is whatever stands behind the end of the
/// parameters.
pub proof fn long_parameters_are_refused(
    list: Seq<(Seq<u8>, Seq<u8>)>,
    name: Seq<u8>,
    value: Seq<u8>,
    rest: Seq<u8>,
    extra: Seq<u8>,
)
    requires
        may_write(list),
        is_plain(name),
        is_plain(value),
        decode_utf8(name).len() > 0,
        name.len() > 256 || value.len() > 4096,
        extra.len() > 0,
    ensures
        params_from(
            written_fields(list) + (name.push(0) + value.push(0) + rest),
            0,
            Seq::empty(),
        ) matches Err(e) && e.code == "54000"@,
        params_from(written_params(list) + extra, 0, Seq::empty()) matches Err(e) && e.code
            == "08P01"@,
{
    let none = Seq::<u8>::empty();
    let tail = name.push(0) + value.push(0) + rest;
    lemma_fields_skipped(none, list, tail, Seq::empty());
    assert(none + written_fields(list) + tail =~= written_fields(list) + tail);
    let front = none + written_fields(list);
    assert(front + tail =~= front + name.push(0) + (value.push(0) + rest));
    lemma_startup_text(front, name, value.push(0) + rest);
    let middle = front + name.push(0);
    assert(front + tail =~= middle + value.push(0) + rest);
    lemma_startup_text(middle, value, rest);
    let end = seq![0u8] + extra;
    lemma_fields_skipped(none, list, end, Seq::empty());
    lemma_written_both(list);
    assert(none + written_fields(list) + end =~= written_params(list) + extra);
    vstd::utf8::encode_utf8_valid_utf8(Seq::empty());
    vstd::utf8::encode_utf8_decode_utf8(Seq::empty());
    assert(encode_utf8(Seq::<char>::empty()) =~= none);
    assert(front + none.push(0) + extra =~= front + end);
    lemma_startup_text(front, none, extra);
}

/// What a client writes for its parameters before the zero byte at the end.
pub open spec fn written_fields(list: Seq<(Seq<u8>, Seq<u8>)>) -> Seq<u8>
    decreases list.len(),
{
    if list.len() == 0 {
        Seq::empty()
    } else {
        list[0].0.push(0) + list[0].1.push(0) + written_fields(list.drop_first())
    }
}

proof fn lemma_written_both(list: Seq<(Seq<u8>, Seq<u8>)>)
    ensures
        written_params(list) == written_fields(list).push(0),
    decreases list.len(),
{
    if list.len() == 0 {
        assert(written_params(list) =~= written_fields(list).push(0));
    } else {
        lemma_written_both(list.drop_first());
        assert(written_params(list) =~= written_fields(list).push(0));
    }
}

proof fn lemma_fields_skipped(
    front: Seq<u8>,
    list: Seq<(Seq<u8>, Seq<u8>)>,
    tail: Seq<u8>,
    read: ParamList,
)
    requires
        may_write(list),
    ensures
        params_from(front + written_fields(list) + tail, front.len() as int, read) == params_from(
            front + written_fields(list) + tail,
            (front.len() + written_fields(list).len()) as int,
            read + as_texts(list),
        ),
    decreases list.len(),
{
    let body = front + written_fields(list) + tail;
    if list.len() == 0 {
        assert(read + as_texts(list) =~= read);
    } else {
        let (name, value) = list[0];
        let rest = list.drop_first();
        let more = written_fields(rest);
        assert(list[0] == (name, value));
        assert forall|i: int| 0 <= i < rest.len() implies {
            let p = #[trigger] rest[i];
            &&& is_plain(p.0) && is_plain(p.1)
            &&& decode_utf8(p.0).len() > 0
            &&& p.0.len() <= 256 && p.1.len() <= 4096
        } by {
            assert(rest[i] == list[i + 1]);
        }
        assert(body =~= front + name.push(0) + (value.push(0) + more + tail));
        lemma_startup_text(front, name, value.push(0) + more + tail);
        let middle = front + name.push(0);
        assert(body =~= middle + value.push(0) + (more + tail));
        lemma_startup_text(middle, value, more + tail);
        let next = middle + value.push(0);
        assert(body =~= next + more + tail);
        let wider = read.push((decode_utf8(name), decode_utf8(value)));
        lemma_fields_skipped(next, rest, tail, wider);
        assert(wider + as_texts(rest) =~= read + as_texts(list)) by {
            assert(as_texts(list)[0] == (decode_utf8(name), decode_utf8(value)));
            assert forall|i: int| 0 <= i < as_texts(rest).len() implies as_texts(rest)[i]
                == #[trigger] as_texts(list)[i + 1] by {}
        }
    }
}

proof fn lemma_exact(list: ParamList, name: Seq<char>, count: int)
    requires
        0 <= count <= list.len(),
    ensures
        exact_value(list, name, count) matches Some(v) ==> exists|i: int|
            0 <= i < count && (#[trigger] list[i]).0 == name && list[i].1 == v && (forall|j: int|
                i < j < count ==> (#[trigger] list[j]).0 != name),
        exact_value(list, name, count) is None <==> forall|i: int|
            0 <= i < count ==> (#[trigger] list[i]).0 != name,
    decreases count,
{
    if count > 0 {
        lemma_exact(list, name, count - 1);
        if list[count - 1].0 != name {
            if let Some(v) = exact_value(list, name, count - 1) {
                let i = choose|i: int|
                    0 <= i < count - 1 && (#[trigger] list[i]).0 == name && list[i].1 == v && (forall|
                        j: int,
                    |
                        i < j < count - 1 ==> (#[trigger] list[j]).0 != name);
                assert(forall|j: int| i < j < count ==> (#[trigger] list[j]).0 != name);
            }
        }
    }
}

proof fn lemma_folded(list: ParamList, name: Seq<char>, count: int)
    requires
        0 <= count <= list.len(),
    ensures
        folded_value(list, name, count) is None <==> forall|i: int|
            0 <= i < count ==> ascii_lower_text((#[trigger] list[i]).0) != ascii_lower_text(name),
        folded_value(list, name, count) matches Some(v) ==> exists|i: int|
            0 <= i < count && ascii_lower_text((#[trigger] list[i]).0) == ascii_lower_text(name)
                && list[i].1 == v,
    decreases count,
{
    if count > 0 {
        lemma_folded(list, name, count - 1);
    }
}

/// A parameter has the value that was given last under exactly its name, and
/// where there is none, one that was given under its name in other letters; it
/// has none exactly where no such name was given.
pub proof fn later_parameters_win(list: ParamList, name: Seq<char>)
    ensures
        param_value(list, name) is None <==> forall|i: int|
            0 <= i < list.len() ==> ascii_lower_text((#[trigger] list[i]).0) != ascii_lower_text(
                name,
            ),
        (exists|i: int| 0 <= i < list.len() && (#[trigger] list[i]).0 == name) ==> exists|i: int|
            0 <= i < list.len() && (#[trigger] list[i]).0 == name && param_value(list, name) == Some(
                list[i].1,
            ) && (forall|j: int| i < j < list.len() ==> (#[trigger] list[j]).0 != name),
        param_value(list, name) matches Some(v) ==> exists|i: int|
            0 <= i < list.len() && ascii_lower_text((#[trigger] list[i]).0) == ascii_lower_text(name)
                && list[i].1 == v,
{
    lemma_exact(list, name, list.len() as int);
    lemma_folded(list, name, list.len() as int);
    if let Some(v) = exact_value(list, name, list.len() as int) {
        let i = choose|i: int|
            0 <= i < list.len() && (#[trigger] list[i]).0 == name && list[i].1 == v && (forall|
                j: int,
            |
                i < j < list.len() ==> (#[trigger] list[j]).0 != name);
        assert(ascii_lower_text(list[i].0) == ascii_lower_text(name));
    }
}

/// A client is let in exactly where it names a user and asks for nothing but
/// UTF-8, the zone UTC and dates in ISO order.
pub proof fn plain_clients_are_let_in(list: ParamList)
    ensures
        ({
            let encoding = param_value(list, "client_encoding"@);
            let zone = param_value(list, "TimeZone"@);
            let style = param_value(list, "DateStyle"@);
            params_fault(list) is None <==> {
                &&& param_value(list, "user"@) matches Some(user) && user.len() > 0
                &&& encoding matches Some(text) ==> ascii_lower_text(text) == "utf8"@
                    || ascii_lower_text(text) == "utf-8"@
                &&& zone matches Some(text) ==> ascii_lower_text(text) == "utc"@
                &&& style matches Some(text) ==> text.len() >= 3 && ascii_lower_text(
                    text.subrange(0, 3),
                ) == "iso"@
            }
        }),
{
    reveal_strlit("utf8");
    reveal_strlit("utf-8");
    reveal_strlit("UTC");
    reveal_strlit("utc");
    reveal_strlit("ISO");
    reveal_strlit("iso");
    assert(ascii_lower_text("utf8"@) =~= "utf8"@);
    assert(ascii_lower_text("utf-8"@) =~= "utf-8"@);
    assert(ascii_lower_text("UTC"@) =~= "utc"@);
    assert(ascii_lower_text("ISO"@) =~= "iso"@);
}

/// The first words of a client are taken by their number: a wish for encryption
/// is declined, a cancellation names a process and its secret, the third
/// protocol is spoken in two versions, and everything else is refused.
pub proof fn first_words_are_taken_by_number(code: u32, body: Seq<u8>)
    ensures
        (code == 80_877_103 || code == 80_877_104) && body.len() == 0 ==> startup_outcome(
            code,
            body,
        ) == StartupView::Decline,
        (code == 80_877_103 || code == 80_877_104) && body.len() > 0 ==> startup_outcome(
            code,
            body,
        ) is Refuse,
        code == 80_877_102 && body.len() == 8 ==> startup_outcome(code, body) == (
        StartupView::Cancel {
            pid: wire_u32(body, 0) as nat,
            secret: wire_u32(body, 4) as nat,
        }),
        code == 80_877_102 && body.len() != 8 ==> startup_outcome(code, body) == StartupView::Hangup,
        code == 0x3_0000 || code == 0x3_0002 ==> match params_from(body, 0, Seq::empty()) {
            Ok(list) => if params_fault(list) is None {
                startup_outcome(code, body) matches StartupView::Accept { application_name, .. }
                    && application_name == match param_value(list, "application_name"@) {
                    Some(name) => name,
                    None => Seq::empty(),
                }
            } else {
                startup_outcome(code, body) is Refuse
            },
            Err(_) => startup_outcome(code, body) is Refuse,
        },
        ![80_877_102u32, 80_877_103, 80_877_104, 0x3_0000, 0x3_0002]@.contains(code)
            ==> startup_outcome(code, body) is Refuse,
{
    let known = [80_877_102u32, 80_877_103, 80_877_104, 0x3_0000, 0x3_0002]@;
    assert(known[0] == 80_877_102 && known[1] == 80_877_103 && known[2] == 80_877_104 && known[3]
        == 0x3_0000 && known[4] == 0x3_0002);
    if body.len() == 8 {
        let (a, b) = (body.subrange(0, 4), body.subrange(4, 8));
        numbers_stand_highest_byte_first(a);
        numbers_stand_highest_byte_first(b);
    }
}

/// A startup message is read where it is between eight bytes and 64 KiB long,
/// and its length counts itself and the number behind it.
pub proof fn startup_messages_are_bounded(length: u32)
    ensures
        startup_length(length) is Some <==> 8 <= length <= 64 * 1024,
        startup_length(length) matches Some(n) ==> n + 8 == length,
{
}

/// The greeting lets the client in, tells it the key by which its queries can be
/// cancelled, and ends with the state of its transaction.
pub proof fn greetings_tell_the_key(
    name: Seq<char>,
    pid: u32,
    secret: u32,
    status: TransactionStatus,
)
    ensures
        ({
            let m = greeting_view(name, pid, secret, status);
            let n = m.len() as int;
            &&& n >= 3
            &&& m[0].kind == 'R' as u8 && m[0].body == seq![0u8, 0, 0, 0]
            &&& m[n - 2].kind == 'K' as u8 && m[n - 2].body.len() == 8 && wire_u32(m[n - 2].body, 0)
                == pid && wire_u32(m[n - 2].body, 4) == secret
            &&& m[n - 1].kind == 'Z' as u8 && m[n - 1].body.len() == 1 && m[n - 1].body[0]
                == match status {
                TransactionStatus::Idle => 'I' as u8,
                TransactionStatus::Active => 'T' as u8,
                TransactionStatus::Failed => 'E' as u8,
            }
            &&& forall|i: int| 0 < i < n - 2 ==> (#[trigger] m[i]).kind == 'S' as u8
        }),
{
    lemma_span();
    reveal_with_fuel(be, 5);
    assert(be(0, 4) =~= seq![0u8, 0, 0, 0]);
    be_reads_back(pid as nat, 4);
    be_reads_back(secret as nat, 4);
    let (a, b) = (be(pid as nat, 4), be(secret as nat, 4));
    numbers_stand_highest_byte_first(a);
    numbers_stand_highest_byte_first(b);
    let body = a + b;
    assert(body[0] == a[0] && body[1] == a[1] && body[2] == a[2] && body[3] == a[3]);
    assert(body[4] == b[0] && body[5] == b[1] && body[6] == b[2] && body[7] == b[3]);
}

// ---------------------------------------------------------------------------
// Errors
// ---------------------------------------------------------------------------

/// The fields of an error from a place on, as a client reads them: a letter and
/// a text each, up to a zero byte at the end.
pub open spec fn read_error(body: Seq<u8>, at: int, fuel: nat) -> Option<Seq<(u8, Seq<u8>)>>
    decreases fuel,
{
    if fuel == 0 || at < 0 || at >= body.len() {
        None
    } else if body[at] == 0 {
        if at + 1 == body.len() {
            Some(Seq::empty())
        } else {
            None
        }
    } else {
        match client_text(body, at + 1) {
            None => None,
            Some(text) => match read_error(body, at + 1 + text.len() + 1, (fuel - 1) as nat) {
                None => None,
                Some(rest) => Some(seq![(body[at], text)] + rest),
            },
        }
    }
}

/// What a client is to be told of an error.
pub open spec fn error_fields(severity: Seq<char>, e: SqlErrorView) -> Seq<(u8, Seq<u8>)> {
    let first = seq![
        ('S' as u8, encode_utf8(severity)),
        ('C' as u8, encode_utf8(state_code(e.code))),
        ('M' as u8, encode_utf8(e.message)),
    ];
    let detail = match e.detail {
        Some(t) => first.push(('D' as u8, encode_utf8(t))),
        None => first,
    };
    let hint = match e.hint {
        Some(t) => detail.push(('H' as u8, encode_utf8(t))),
        None => detail,
    };
    match e.position {
        Some(p) => hint.push(('P' as u8, encode_utf8(digits(p as nat)))),
        None => hint,
    }
}

/// The bytes of fields, with the zero byte at the end.
pub open spec fn fields_written(fields: Seq<(u8, Seq<u8>)>) -> Seq<u8>
    decreases fields.len(),
{
    if fields.len() == 0 {
        seq![0u8]
    } else {
        seq![fields[0].0] + fields[0].1.push(0) + fields_written(fields.drop_first())
    }
}

proof fn lemma_fields_read(front: Seq<u8>, fields: Seq<(u8, Seq<u8>)>, fuel: nat)
    requires
        fuel > fields.len(),
        forall|i: int|
            0 <= i < fields.len() ==> (#[trigger] fields[i]).0 != 0 && (forall|k: int|
                0 <= k < fields[i].1.len() ==> #[trigger] fields[i].1[k] != 0),
    ensures
        read_error(front + fields_written(fields), front.len() as int, fuel) == Some(fields),
    decreases fields.len(),
{
    let body = front + fields_written(fields);
    let at = front.len() as int;
    if fields.len() == 0 {
        assert(fields =~= Seq::empty());
    } else {
        let (letter, text) = fields[0];
        let rest = fields.drop_first();
        let tail = fields_written(rest);
        assert(fields[0] == (letter, text));
        assert forall|i: int| 0 <= i < rest.len() implies (#[trigger] rest[i]).0 != 0 && (forall|
            k: int,
        |
            0 <= k < rest[i].1.len() ==> #[trigger] rest[i].1[k] != 0) by {
            assert(rest[i] == fields[i + 1]);
        }
        let next = front + seq![letter] + text.push(0);
        assert(body =~= next + tail);
        assert(body.subrange(at + 1, at + 1 + text.len()) =~= text);
        assert(body[at + 1 + text.len()] == 0);
        lemma_text_read(body, at + 1, text);
        lemma_fields_read(next, rest, (fuel - 1) as nat);
        assert(seq![(letter, text)] + rest =~= fields);
    }
}

proof fn lemma_text_read(body: Seq<u8>, at: int, text: Seq<u8>)
    requires
        0 <= at,
        at + text.len() < body.len(),
        body.subrange(at, at + text.len()) == text,
        body[at + text.len()] == 0,
        forall|k: int| 0 <= k < text.len() ==> #[trigger] text[k] != 0,
    ensures
        client_text(body, at) == Some(text),
    decreases text.len(),
{
    if text.len() == 0 {
        assert(text =~= Seq::empty());
    } else {
        let rest = text.subrange(1, text.len() as int);
        assert(body[at] == body.subrange(at, at + text.len())[0]);
        assert(body.subrange(at + 1, at + 1 + rest.len()) =~= rest) by {
            assert forall|k: int| 0 <= k < rest.len() implies body[at + 1 + k] == rest[k] by {
                assert(body.subrange(at, at + text.len())[k + 1] == text[k + 1]);
            }
        }
        lemma_text_read(body, at + 1, rest);
        assert(seq![text[0]] + rest =~= text);
    }
}

/// Whether none of the texts of an error holds a zero byte.
pub open spec fn texts_end(severity: Seq<char>, e: SqlErrorView) -> bool {
    forall|i: int, k: int|
        0 <= i < error_fields(severity, e).len() && 0 <= k < error_fields(severity, e)[i].1.len()
            ==> #[trigger] error_fields(severity, e)[i].1[k] != 0
}

/// A client reads of an error its severity, its code and its message, and its
/// detail, its hint and its position where there are any, and nothing else.
pub proof fn errors_are_read_as_sent(severity: Seq<char>, e: SqlErrorView)
    requires
        texts_end(severity, e),
    ensures
        error_view(severity, e).kind == 'E' as u8,
        read_error(error_view(severity, e).body, 0, 8) == Some(error_fields(severity, e)),
{
    let fields = error_fields(severity, e);
    assert forall|i: int| 0 <= i < fields.len() implies (#[trigger] fields[i]).0 != 0 && (forall|
        k: int,
    |
        0 <= k < fields[i].1.len() ==> #[trigger] fields[i].1[k] != 0) by {}
    lemma_fields_read(Seq::empty(), fields, 8);
    reveal_with_fuel(fields_written, 7);
    let written = fields_written(fields);
    assert(Seq::<u8>::empty() + written =~= written);
    lemma_error_body(severity, e);
}

#[verifier::spinoff_prover]
proof fn lemma_error_body(severity: Seq<char>, e: SqlErrorView)
    ensures
        error_body(severity, e) == fields_written(error_fields(severity, e)),
{
    let fields = error_fields(severity, e);
    let head = crate::pg_message::error_field(0x53, severity) + crate::pg_message::error_field(
        0x43,
        state_code(e.code),
    ) + crate::pg_message::error_field(0x4d, e.message);
    let first = fields.subrange(0, 3);
    assert(fields_front(first) =~= head) by {
        reveal_with_fuel(fields_front, 4);
        assert(first.drop_last().drop_last().drop_last() =~= Seq::empty());
    }
    let with_detail = if e.detail is Some {
        fields.subrange(0, 4)
    } else {
        first
    };
    let d = crate::pg_message::optional_field(0x44, e.detail);
    assert(fields_front(with_detail) =~= head + d) by {
        if e.detail is Some {
            assert(with_detail.drop_last() =~= first);
        }
    }
    let n = with_detail.len() as int;
    let with_hint = if e.hint is Some {
        fields.subrange(0, n + 1)
    } else {
        with_detail
    };
    let h = crate::pg_message::optional_field(0x48, e.hint);
    assert(fields_front(with_hint) =~= head + d + h) by {
        if e.hint is Some {
            assert(with_hint.drop_last() =~= with_detail);
        }
    }
    let p = crate::pg_message::optional_field(
        0x50,
        match e.position {
            Some(p) => Some(digits(p as nat)),
            None => None,
        },
    );
    assert(fields_front(fields) =~= head + d + h + p) by {
        if e.position is Some {
            assert(fields.drop_last() =~= with_hint);
        } else {
            assert(fields =~= with_hint);
        }
    }
    lemma_front_written(fields);
    assert(error_body(severity, e) =~= (head + d + h + p).push(0));
}

/// The bytes of fields without the zero byte at the end.
spec fn fields_front(fields: Seq<(u8, Seq<u8>)>) -> Seq<u8>
    decreases fields.len(),
{
    if fields.len() == 0 {
        Seq::empty()
    } else {
        fields_front(fields.drop_last()) + (seq![fields.last().0] + fields.last().1.push(0))
    }
}

proof fn lemma_front_cons(fields: Seq<(u8, Seq<u8>)>)
    requires
        fields.len() > 0,
    ensures
        fields_front(fields) == seq![fields[0].0] + fields[0].1.push(0) + fields_front(
            fields.drop_first(),
        ),
    decreases fields.len(),
{
    let one = seq![fields[0].0] + fields[0].1.push(0);
    if fields.len() == 1 {
        assert(fields.drop_last() =~= Seq::empty());
        assert(fields.drop_first() =~= Seq::empty());
        assert(fields_front(fields.drop_last()) == Seq::<u8>::empty());
        assert(fields_front(fields.drop_first()) == Seq::<u8>::empty());
        assert(fields_front(fields) =~= one);
        assert(one + Seq::<u8>::empty() =~= one);
    } else {
        let front = fields.drop_last();
        lemma_front_cons(front);
        assert(fields.drop_first().drop_last() =~= front.drop_first());
        assert(front[0] == fields[0]);
        assert(fields.drop_first().last() == fields.last());
        let last = seq![fields.last().0] + fields.last().1.push(0);
        assert(fields_front(fields) =~= one + (fields_front(front.drop_first()) + last));
    }
}

proof fn lemma_front_written(fields: Seq<(u8, Seq<u8>)>)
    ensures
        fields_written(fields) == fields_front(fields).push(0),
    decreases fields.len(),
{
    if fields.len() == 0 {
        assert(fields_written(fields) =~= fields_front(fields).push(0));
    } else {
        lemma_front_cons(fields);
        lemma_front_written(fields.drop_first());
        assert(fields_written(fields) =~= fields_front(fields).push(0));
    }
}

/// A code of five letters or digits is told as it is, and any other as that of
/// an internal error.
pub proof fn codes_are_five_letters(code: Seq<char>)
    ensures
        (code.len() == 5 && forall|i: int|
            0 <= i < 5 ==> ('0' <= #[trigger] code[i] <= '9' || 'a' <= code[i] <= 'z' || 'A'
                <= code[i] <= 'Z')) ==> state_code(code) == code,
        !(code.len() == 5 && forall|i: int|
            0 <= i < 5 ==> ('0' <= #[trigger] code[i] <= '9' || 'a' <= code[i] <= 'z' || 'A'
                <= code[i] <= 'Z')) ==> state_code(code) == "XX000"@,
{
    if code.len() == 5 {
        if forall|i: int| 0 <= i < 5 ==> crate::endpoint::is_alphanumeric(#[trigger] code[i]) {
            assert forall|i: int| 0 <= i < 5 implies ('0' <= #[trigger] code[i] <= '9' || 'a'
                <= code[i] <= 'z' || 'A' <= code[i] <= 'Z') by {
                assert(crate::endpoint::is_alphanumeric(code[i]));
            }
        } else {
            let i = choose|i: int|
                0 <= i < 5 && !crate::endpoint::is_alphanumeric(#[trigger] code[i]);
            assert(!('0' <= code[i] <= '9' || 'a' <= code[i] <= 'z' || 'A' <= code[i] <= 'Z'));
        }
    }
}

// ---------------------------------------------------------------------------
// Cancellation and time
// ---------------------------------------------------------------------------

/// A request to cancel reaches exactly the connections with its process and its
/// secret, and of these those that run a query; where a query begins or ends no
/// request is left.
pub proof fn requests_reach_their_connection(
    entries: Seq<CancelRegistration>,
    pid: u32,
    secret: u32,
    i: int,
)
    requires
        0 <= i < entries.len(),
    ensures
        ({
            let mine = entries[i].pid == pid && entries[i].secret == secret;
            let asked = all_changed(entries, pid, secret, CancelChange::Request);
            let begun = all_changed(entries, pid, secret, CancelChange::Begin);
            let ended = all_changed(entries, pid, secret, CancelChange::End);
            &&& asked.len() == entries.len() && begun.len() == entries.len() && ended.len()
                == entries.len()
            &&& !mine ==> asked[i] == entries[i] && begun[i] == entries[i] && ended[i] == entries[i]
            &&& mine ==> asked[i].requested == (entries[i].active || entries[i].requested)
                && asked[i].active == entries[i].active
            &&& mine ==> begun[i].active && !begun[i].requested
            &&& mine ==> !ended[i].active && !ended[i].requested
            &&& asked[i].pid == entries[i].pid && asked[i].secret == entries[i].secret
        }),
{
}

/// A connection that is taken out is gone, and every other stays.
pub proof fn connections_are_taken_out(entries: Seq<CancelRegistration>, pid: u32, secret: u32)
    ensures
        without_key(entries, pid, secret) == entries.filter(
            |e: CancelRegistration| !(e.pid == pid && e.secret == secret),
        ),
    decreases entries.len(),
{
    reveal(Seq::filter);
    if entries.len() > 0 {
        connections_are_taken_out(entries.drop_last(), pid, secret);
    }
}

/// A deadline lies so many milliseconds ahead, and is waited for until it is
/// there.
pub proof fn deadlines_lie_ahead(now: u128, timeout_ms: u64, later: u128)
    requires
        now + timeout_ms * 1_000_000 <= u128::MAX,
    ensures
        deadline_from(now, timeout_ms) == now + timeout_ms * 1_000_000,
        wait_until(deadline_from(now, timeout_ms), later) == IdleStep::Expired <==> later - now
            >= timeout_ms * 1_000_000,
        later - now < timeout_ms * 1_000_000 ==> (wait_until(
            deadline_from(now, timeout_ms),
            later,
        ) matches IdleStep::Wait(left) && left == now + timeout_ms * 1_000_000 - later),
{
}

// ---------------------------------------------------------------------------
// Parameters
// ---------------------------------------------------------------------------

/// Whether a parameter with a number is asked for at a place: a dollar sign
/// with digits behind it, all of them, that write the number.
pub open spec fn asks_at(sql: Seq<u8>, at: int, end: int, n: nat) -> bool {
    &&& 0 <= at
    &&& at + 1 < end <= sql.len()
    &&& sql[at] == '$' as u8
    &&& forall|k: int| at < k < end ==> '0' as u8 <= #[trigger] sql[k] <= '9' as u8
    &&& end < sql.len() ==> !('0' as u8 <= sql[end] <= '9' as u8)
    &&& n == digits_value(sql.subrange(at + 1, end))
}

/// Digits stand for what they are, and every further digit makes ten of what
/// stands before it.
pub proof fn parameter_numbers_are_decimal(s: Seq<u8>, d: u8)
    requires
        d < 10,
    ensures
        digits_value(Seq::empty()) == 0,
        digits_value(s.push((48 + d) as u8)) == 10 * digits_value(s) + d,
{
    assert(s.push((48 + d) as u8).drop_last() =~= s);
}

proof fn lemma_digits_run(sql: Seq<u8>, at: int, end: int)
    requires
        0 <= at <= end <= sql.len(),
        forall|k: int| at <= k < end ==> '0' as u8 <= #[trigger] sql[k] <= '9' as u8,
        end < sql.len() ==> !('0' as u8 <= sql[end] <= '9' as u8),
    ensures
        digits_end(sql, at) == end,
    decreases end - at,
{
    if at < end {
        lemma_digits_run(sql, at + 1, end);
    }
}

proof fn lemma_run_of(sql: Seq<u8>, at: int)
    requires
        0 <= at <= sql.len(),
    ensures
        at <= digits_end(sql, at) <= sql.len(),
        forall|k: int| at <= k < digits_end(sql, at) ==> '0' as u8 <= #[trigger] sql[k] <= '9' as u8,
        digits_end(sql, at) < sql.len() ==> !('0' as u8 <= sql[digits_end(sql, at)] <= '9' as u8),
    decreases sql.len() - at,
{
    if at < sql.len() && digit_byte(sql[at]) {
        lemma_run_of(sql, at + 1);
    }
}

proof fn lemma_largest(sql: Seq<u8>, at: int, most: nat)
    requires
        0 <= at <= sql.len(),
        forall|k: int| 0 <= k < sql.len() ==> #[trigger] sql[k] != 0x27 && sql[k] != 0x22,
    ensures
        largest_parameter(sql, at, most) matches Some(m) ==> {
            &&& m >= most
            &&& forall|a: int, e: int, n: nat| a >= at && #[trigger] asks_at(sql, a, e, n) ==> n <= m
            &&& m == most || exists|a: int, e: int| a >= at && #[trigger] asks_at(sql, a, e, m)
        },
        largest_parameter(sql, at, most) is None ==> exists|a: int, e: int, n: nat|
            a >= at && #[trigger] asks_at(sql, a, e, n) && n > 65_535,
    decreases sql.len() - at,
{
    if at < sql.len() {
        lemma_run_of(sql, at + 1);
        let end = digits_end(sql, at + 1);
        if sql[at] == 0x24 && end > at + 1 {
            let n = digits_value(sql.subrange(at + 1, end));
            assert(asks_at(sql, at, end, n));
            let more = if n > most {
                n
            } else {
                most
            };
            if n <= 65_535 {
                lemma_largest(sql, end, more);
                if let Some(m) = largest_parameter(sql, at, most) {
                    assert forall|a: int, e: int, x: nat|
                        a >= at && #[trigger] asks_at(sql, a, e, x) implies x <= m by {
                        if a == at {
                            lemma_digits_run(sql, at + 1, e);
                        } else if a < end {
                            assert(sql[a] == '$' as u8);
                            assert('0' as u8 <= sql[a] <= '9' as u8);
                        }
                    }
                    if m != most {
                        if m == more {
                            assert(asks_at(sql, at, end, m));
                        } else {
                            let (a, e) = choose|a: int, e: int|
                                a >= end && #[trigger] asks_at(sql, a, e, m);
                            assert(asks_at(sql, a, e, m));
                        }
                    }
                } else {
                    let (a, e, x) = choose|a: int, e: int, x: nat|
                        a >= end && #[trigger] asks_at(sql, a, e, x) && x > 65_535;
                    assert(asks_at(sql, a, e, x));
                }
            }
        } else {
            lemma_largest(sql, at + 1, most);
            if let Some(m) = largest_parameter(sql, at, most) {
                assert forall|a: int, e: int, x: nat|
                    a >= at && #[trigger] asks_at(sql, a, e, x) implies x <= m by {
                    if a == at {
                        lemma_digits_run(sql, at + 1, e);
                    }
                }
                if m != most {
                    let (a, e) = choose|a: int, e: int|
                        a >= at + 1 && #[trigger] asks_at(sql, a, e, m);
                    assert(asks_at(sql, a, e, m));
                }
            } else {
                let (a, e, x) = choose|a: int, e: int, x: nat|
                    a >= at + 1 && #[trigger] asks_at(sql, a, e, x) && x > 65_535;
                assert(asks_at(sql, a, e, x));
            }
        }
    }
}

/// A statement without quotation marks has as many parameters as the highest
/// number that it asks for, and no fewer than types were given; those that were
/// given stay, and the others have none. A number beyond 65,535 is refused.
pub proof fn statements_have_the_parameters_they_ask_for(sql: Seq<char>, supplied: Seq<u32>)
    requires
        forall|k: int|
            0 <= k < encode_utf8(sql).len() ==> #[trigger] encode_utf8(sql)[k] != '\'' as u8
                && encode_utf8(sql)[k] != '"' as u8,
    ensures
        inferred_types(sql, supplied) matches Ok(types) ==> {
            &&& types.len() >= supplied.len()
            &&& types.subrange(0, supplied.len() as int) == supplied
            &&& forall|i: int| supplied.len() <= i < types.len() ==> #[trigger] types[i] == 0
            &&& forall|a: int, e: int, n: nat| #[trigger]
                asks_at(encode_utf8(sql), a, e, n) ==> n <= types.len()
            &&& types.len() == supplied.len() || exists|a: int, e: int| #[trigger]
                asks_at(encode_utf8(sql), a, e, types.len())
        },
        inferred_types(sql, supplied) is Err ==> exists|a: int, e: int, n: nat| #[trigger]
            asks_at(encode_utf8(sql), a, e, n) && n > 65_535,
{
    let bytes = encode_utf8(sql);
    lemma_largest(bytes, 0, supplied.len());
    if let Ok(types) = inferred_types(sql, supplied) {
        assert(types.subrange(0, supplied.len() as int) =~= supplied);
        if types.len() != supplied.len() {
            let (a, e) = choose|a: int, e: int|
                a >= 0 && #[trigger] asks_at(bytes, a, e, types.len());
            assert(asks_at(bytes, a, e, types.len()));
        }
    } else {
        let (a, e, n) = choose|a: int, e: int, n: nat|
            a >= 0 && #[trigger] asks_at(bytes, a, e, n) && n > 65_535;
        assert(asks_at(bytes, a, e, n));
    }
}

/// A statement says nothing exactly where it has nothing but white space and
/// semicolons.
pub proof fn empty_statements_say_nothing(sql: Seq<char>)
    ensures
        says_nothing(sql) <==> !(exists|i: int|
            0 <= i < sql.len() && #[trigger] sql[i] != ';' && !is_space(sql[i])),
{
    if !says_nothing(sql) {
        let i = choose|i: int| 0 <= i < sql.len() && !(is_space(#[trigger] sql[i]) || sql[i] == ';');
        assert(sql[i] != ';' && !is_space(sql[i]));
    }
}

/// A message is read where it is between four bytes and 16 MiB long, and its
/// length counts itself.
pub proof fn messages_are_bounded(length: u32)
    ensures
        body_length(length) is Some <==> 4 <= length <= 16 * 1024 * 1024,
        body_length(length) matches Some(n) ==> n + 4 == length,
{
}

} // verus!
