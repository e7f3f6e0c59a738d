//! The fields of the messages that prepare, bind, describe, run and close
//! statements.

use crate::bytes::signed;
use crate::datum::{Datum, DatumView};
use crate::error::{sql_error, SqlError, SqlErrorView};
use crate::pg_decode::{bytes_at, end_at, number_at, text_at, Decoder, Step};
use crate::pg_message::{format_at, format_of, row_values};
use crate::pg_values::{decode_param, param_outcome, FloatReadings};
use crate::text::utf8_text;
use vstd::prelude::*;
use vstd::string::*;
use vstd::utf8::{decode_utf8, valid_utf8};

verus! {

pub const MAX_PARAMETER_BYTES: usize = 8_388_608;

// ---------------------------------------------------------------------------
// A text alone
// ---------------------------------------------------------------------------

/// A body that is one text and nothing else.
pub open spec fn only_text(body: Seq<u8>, text: Seq<char>, message: Seq<char>) -> Result<
    Seq<char>,
    SqlErrorView,
> {
    match text_at(body, 0, text) {
        Err(e) => Err(e),
        Ok((found, at)) => match end_at(body, at, message) {
            Err(e) => Err(e),
            Ok(()) => Ok(found),
        },
    }
}

/// Reads a body that is one text and nothing else.
pub fn read_only_text(body: &[u8], text: &'static str, message: &'static str) -> (result: Result<
    String,
    SqlError,
>)
    ensures
        match result {
            Ok(found) => only_text(body@, text@, message@) == Ok::<_, SqlErrorView>(found@),
            Err(e) => only_text(body@, text@, message@) == Err::<Seq<char>, _>(e@),
        },
{
    let mut decoder = Decoder::new(body);
    let found = match decoder.cstr(text) {
        Ok(found) => found,
        Err(e) => {
            return Err(e);
        },
    };
    match decoder.finish(message) {
        Ok(()) => Ok(found),
        Err(e) => Err(e),
    }
}

// ---------------------------------------------------------------------------
// Parse
// ---------------------------------------------------------------------------

/// The types that a Parse message gives, behind those that were read.
pub open spec fn types_from(body: Seq<u8>, at: int, left: nat, read: Seq<u32>) -> Step<Seq<u32>>
    decreases left,
{
    if left == 0 {
        Ok((read, at))
    } else {
        match number_at(body, at, 4, "Parse parameter type"@) {
            Err(e) => Err(e),
            Ok((oid, next)) => types_from(body, next, (left - 1) as nat, read.push(oid as u32)),
        }
    }
}

/// The name, the text and the types of a Parse message.
pub open spec fn parse_fields(body: Seq<u8>) -> Result<
    (Seq<char>, Seq<char>, Seq<u32>),
    SqlErrorView,
> {
    match text_at(body, 0, "statement name"@) {
        Err(e) => Err(e),
        Ok((name, a)) => match text_at(body, a, "Parse query"@) {
            Err(e) => Err(e),
            Ok((sql, b)) => match number_at(body, b, 2, "Parse parameter count"@) {
                Err(e) => Err(e),
                Ok((count, c)) => match types_from(body, c, count, Seq::empty()) {
                    Err(e) => Err(e),
                    Ok((types, d)) => match end_at(body, d, "Parse message"@) {
                        Err(e) => Err(e),
                        Ok(()) => Ok((name, sql, types)),
                    },
                },
            },
        },
    }
}

#[verifier::loop_isolation(false)]
fn read_types(decoder: &mut Decoder, count: u16) -> (result: Result<Vec<u32>, SqlError>)
    requires
        old(decoder).wf(),
    ensures
        final(decoder).wf(),
        final(decoder).body@ == old(decoder).body@,
        match result {
            Ok(types) => types_from(
                old(decoder).body@,
                old(decoder).pos as int,
                count as nat,
                Seq::empty(),
            ) == Ok::<_, SqlErrorView>((types@, final(decoder).pos as int)),
            Err(e) => types_from(
                old(decoder).body@,
                old(decoder).pos as int,
                count as nat,
                Seq::empty(),
            ) == Err::<(Seq<u32>, int), _>(e@),
        },
{
    let ghost body = decoder.body@;
    let ghost whole = types_from(body, decoder.pos as int, count as nat, Seq::empty());
    let mut types: Vec<u32> = Vec::new();
    assert(types@ =~= Seq::<u32>::empty());
    let mut left: u16 = count;
    while left > 0
        invariant
            decoder.wf(),
            decoder.body@ == body,
            types_from(body, decoder.pos as int, left as nat, types@) == whole,
        decreases left,
    {
        match decoder.u32("Parse parameter type") {
            Ok(oid) => types.push(oid),
            Err(e) => {
                return Err(e);
            },
        }
        left -= 1;
    }
    Ok(types)
}

/// Reads the name, the text and the types of a Parse message.
pub fn read_parse(body: &[u8]) -> (result: Result<(String, String, Vec<u32>), SqlError>)
    ensures
        match result {
            Ok((name, sql, types)) => parse_fields(body@) == Ok::<_, SqlErrorView>(
                (name@, sql@, types@),
            ),
            Err(e) => parse_fields(body@) == Err::<(Seq<char>, Seq<char>, Seq<u32>), _>(e@),
        },
{
    let mut decoder = Decoder::new(body);
    let name = match decoder.cstr("statement name") {
        Ok(name) => name,
        Err(e) => {
            return Err(e);
        },
    };
    let sql = match decoder.cstr("Parse query") {
        Ok(sql) => sql,
        Err(e) => {
            return Err(e);
        },
    };
    let count = match decoder.u16("Parse parameter count") {
        Ok(count) => count,
        Err(e) => {
            return Err(e);
        },
    };
    let types = match read_types(&mut decoder, count) {
        Ok(types) => types,
        Err(e) => {
            return Err(e);
        },
    };
    match decoder.finish("Parse message") {
        Ok(()) => Ok((name, sql, types)),
        Err(e) => Err(e),
    }
}

// ---------------------------------------------------------------------------
// Bind
// ---------------------------------------------------------------------------

/// Format codes, behind those that were read. Only text and binary exist.
pub open spec fn formats_from(
    body: Seq<u8>,
    at: int,
    left: nat,
    what: Seq<char>,
    refusal: Seq<char>,
    read: Seq<u16>,
) -> Step<Seq<u16>>
    decreases left,
{
    if left == 0 {
        Ok((read, at))
    } else {
        match number_at(body, at, 2, what) {
            Err(e) => Err(e),
            Ok((format, next)) => if format > 1 {
                Err(sql_error("08P01"@, refusal))
            } else {
                formats_from(
                    body,
                    next,
                    (left - 1) as nat,
                    what,
                    refusal,
                    read.push(format as u16),
                )
            },
        }
    }
}

#[verifier::loop_isolation(false)]
fn read_formats(
    decoder: &mut Decoder,
    count: u16,
    what: &'static str,
    refusal: &'static str,
) -> (result: Result<Vec<u16>, SqlError>)
    requires
        old(decoder).wf(),
    ensures
        final(decoder).wf(),
        final(decoder).body@ == old(decoder).body@,
        match result {
            Ok(formats) => formats_from(
                old(decoder).body@,
                old(decoder).pos as int,
                count as nat,
                what@,
                refusal@,
                Seq::empty(),
            ) == Ok::<_, SqlErrorView>((formats@, final(decoder).pos as int)),
            Err(e) => formats_from(
                old(decoder).body@,
                old(decoder).pos as int,
                count as nat,
                what@,
                refusal@,
                Seq::empty(),
            ) == Err::<(Seq<u16>, int), _>(e@),
        },
{
    let ghost body = decoder.body@;
    let ghost whole = formats_from(
        body,
        decoder.pos as int,
        count as nat,
        what@,
        refusal@,
        Seq::empty(),
    );
    let mut formats: Vec<u16> = Vec::new();
    assert(formats@ =~= Seq::<u16>::empty());
    let mut left: u16 = count;
    while left > 0
        invariant
            decoder.wf(),
            decoder.body@ == body,
            formats_from(body, decoder.pos as int, left as nat, what@, refusal@, formats@) == whole,
        decreases left,
    {
        match decoder.u16(what) {
            Ok(format) => {
                if format > 1 {
                    return Err(SqlError::new("08P01", refusal));
                }
                formats.push(format);
            },
            Err(e) => {
                return Err(e);
            },
        }
        left -= 1;
    }
    Ok(formats)
}

/// One parameter of a Bind message: its length, -1 for no value, and its bytes.
pub open spec fn param_at(
    body: Seq<u8>,
    at: int,
    format: Option<u16>,
    oid: u32,
    floats: FloatReadings,
) -> Step<DatumView> {
    match number_at(body, at, 4, "Bind parameter length"@) {
        Err(e) => Err(e),
        Ok((bits, next)) => {
            let length = signed(bits, 4);
            if length < -1 {
                Err(sql_error("08P01"@, "invalid Bind parameter length"@))
            } else if length < 0 {
                Ok((DatumView::Null, next))
            } else if length > MAX_PARAMETER_BYTES {
                Err(sql_error("54000"@, "Bind parameter exceeds configured limit"@))
            } else {
                match bytes_at(body, next, length, "Bind parameter"@) {
                    Err(e) => Err(e),
                    Ok((bytes, after)) => match format {
                        None => Err(
                            sql_error("08P01"@, "incorrect number of Bind parameter formats"@),
                        ),
                        Some(format) => match param_outcome(bytes, oid, format, floats) {
                            Err(e) => Err(e),
                            Ok(value) => Ok((value, after)),
                        },
                    },
                }
            }
        },
    }
}

/// The parameters of a Bind message, behind those that were read.
pub open spec fn params_at(
    body: Seq<u8>,
    at: int,
    declared: Seq<u32>,
    formats: Seq<u16>,
    floats: FloatReadings,
    read: Seq<DatumView>,
) -> Step<Seq<DatumView>>
    decreases declared.len() - read.len(),
{
    if read.len() >= declared.len() {
        Ok((read, at))
    } else {
        let i = read.len() as int;
        match param_at(body, at, format_of(formats, i), declared[i], floats) {
            Err(e) => Err(e),
            Ok((value, next)) => params_at(
                body,
                next,
                declared,
                formats,
                floats,
                read.push(value),
            ),
        }
    }
}

fn read_param(decoder: &mut Decoder, format: Option<u16>, oid: u32, floats: &FloatReadings) -> (result:
    Result<Datum, SqlError>)
    requires
        old(decoder).wf(),
    ensures
        final(decoder).wf(),
        final(decoder).body@ == old(decoder).body@,
        match result {
            Ok(value) => param_at(
                old(decoder).body@,
                old(decoder).pos as int,
                format,
                oid,
                *floats,
            ) == Ok::<_, SqlErrorView>((value@, final(decoder).pos as int)),
            Err(e) => param_at(
                old(decoder).body@,
                old(decoder).pos as int,
                format,
                oid,
                *floats,
            ) == Err::<(DatumView, int), _>(e@),
        },
{
    let length = match decoder.i32("Bind parameter length") {
        Ok(length) => length,
        Err(e) => {
            return Err(e);
        },
    };
    if length < -1 {
        return Err(SqlError::new("08P01", "invalid Bind parameter length"));
    }
    if length < 0 {
        return Ok(Datum::Null);
    }
    if length as usize > MAX_PARAMETER_BYTES {
        return Err(SqlError::new("54000", "Bind parameter exceeds configured limit"));
    }
    let bytes = match decoder.bytes(length as usize, "Bind parameter") {
        Ok(bytes) => bytes,
        Err(e) => {
            return Err(e);
        },
    };
    match format {
        None => Err(SqlError::new("08P01", "incorrect number of Bind parameter formats")),
        Some(format) => decode_param(bytes, oid, format, floats),
    }
}

#[verifier::loop_isolation(false)]
fn read_params(
    decoder: &mut Decoder,
    declared: &[u32],
    formats: &[u16],
    floats: &FloatReadings,
) -> (result: Result<Vec<Datum>, SqlError>)
    requires
        old(decoder).wf(),
    ensures
        final(decoder).wf(),
        final(decoder).body@ == old(decoder).body@,
        match result {
            Ok(params) => params_at(
                old(decoder).body@,
                old(decoder).pos as int,
                declared@,
                formats@,
                *floats,
                Seq::empty(),
            ) == Ok::<_, SqlErrorView>((row_values(params), final(decoder).pos as int)),
            Err(e) => params_at(
                old(decoder).body@,
                old(decoder).pos as int,
                declared@,
                formats@,
                *floats,
                Seq::empty(),
            ) == Err::<(Seq<DatumView>, int), _>(e@),
        },
{
    let ghost body = decoder.body@;
    let ghost whole = params_at(
        body,
        decoder.pos as int,
        declared@,
        formats@,
        *floats,
        Seq::empty(),
    );
    let mut params: Vec<Datum> = Vec::new();
    assert(row_values(params) =~= Seq::<DatumView>::empty());
    while params.len() < declared.len()
        invariant
            decoder.wf(),
            decoder.body@ == body,
            params@.len() <= declared@.len(),
            params_at(
                body,
                decoder.pos as int,
                declared@,
                formats@,
                *floats,
                row_values(params),
            ) == whole,
        decreases declared@.len() - params@.len(),
    {
        let i = params.len();
        let ghost before = row_values(params);
        match read_param(decoder, format_at(formats, i), declared[i], floats) {
            Ok(value) => {
                let ghost added = value@;
                params.push(value);
                assert(row_values(params) =~= before.push(added));
            },
            Err(e) => {
                return Err(e);
            },
        }
    }
    Ok(params)
}

/// What stands before the parameters of a Bind message: the names of the portal
/// and the statement, the formats, the count of the parameters, and the place
/// behind them.
pub open spec fn bind_start(body: Seq<u8>) -> Result<
    (Seq<char>, Seq<char>, Seq<u16>, nat, int),
    SqlErrorView,
> {
    match text_at(body, 0, "portal name"@) {
        Err(e) => Err(e),
        Ok((portal, a)) => match text_at(body, a, "statement name"@) {
            Err(e) => Err(e),
            Ok((statement, b)) => match number_at(body, b, 2, "Bind parameter format count"@) {
                Err(e) => Err(e),
                Ok((format_count, c)) => match formats_from(
                    body,
                    c,
                    format_count,
                    "Bind parameter format"@,
                    "invalid parameter format code"@,
                    Seq::empty(),
                ) {
                    Err(e) => Err(e),
                    Ok((formats, d)) => match number_at(body, d, 2, "Bind parameter count"@) {
                        Err(e) => Err(e),
                        Ok((count, next)) => if format_count != 0 && format_count != 1
                            && format_count != count {
                            Err(
                                sql_error("08P01"@, "incorrect number of Bind parameter formats"@),
                            )
                        } else {
                            Ok((portal, statement, formats, count, next))
                        },
                    },
                },
            },
        },
    }
}

/// What stands behind the parameters of a Bind message: the formats of the
/// result.
pub open spec fn bind_end(body: Seq<u8>, at: int) -> Result<Seq<u16>, SqlErrorView> {
    match number_at(body, at, 2, "Bind result format count"@) {
        Err(e) => Err(e),
        Ok((count, a)) => match formats_from(
            body,
            a,
            count,
            "Bind result format"@,
            "invalid result format code"@,
            Seq::empty(),
        ) {
            Err(e) => Err(e),
            Ok((formats, b)) => match end_at(body, b, "Bind message"@) {
                Err(e) => Err(e),
                Ok(()) => Ok(formats),
            },
        },
    }
}

/// The start of a Bind message.
pub struct BindStart {
    pub portal: String,
    pub statement: String,
    pub formats: Vec<u16>,
    pub count: u16,
    pub next: usize,
}

/// Reads the start of a Bind message.
pub fn read_bind_start(body: &[u8]) -> (result: Result<BindStart, SqlError>)
    ensures
        match result {
            Ok(s) => bind_start(body@) == Ok::<_, SqlErrorView>(
                (s.portal@, s.statement@, s.formats@, s.count as nat, s.next as int),
            ) && s.next <= body@.len(),
            Err(e) => bind_start(body@) == Err::<
                (Seq<char>, Seq<char>, Seq<u16>, nat, int),
                _,
            >(e@),
        },
{
    let mut decoder = Decoder::new(body);
    let portal = match decoder.cstr("portal name") {
        Ok(portal) => portal,
        Err(e) => {
            return Err(e);
        },
    };
    let statement = match decoder.cstr("statement name") {
        Ok(statement) => statement,
        Err(e) => {
            return Err(e);
        },
    };
    let format_count = match decoder.u16("Bind parameter format count") {
        Ok(count) => count,
        Err(e) => {
            return Err(e);
        },
    };
    let formats = match read_formats(
        &mut decoder,
        format_count,
        "Bind parameter format",
        "invalid parameter format code",
    ) {
        Ok(formats) => formats,
        Err(e) => {
            return Err(e);
        },
    };
    let count = match decoder.u16("Bind parameter count") {
        Ok(count) => count,
        Err(e) => {
            return Err(e);
        },
    };
    if format_count != 0 && format_count != 1 && format_count != count {
        return Err(SqlError::new("08P01", "incorrect number of Bind parameter formats"));
    }
    Ok(BindStart { portal, statement, formats, count, next: decoder.pos })
}

/// The parameters and the result formats of a Bind message, from the place
/// behind its start.
pub open spec fn bind_rest(
    body: Seq<u8>,
    at: int,
    declared: Seq<u32>,
    formats: Seq<u16>,
    floats: FloatReadings,
) -> Result<(Seq<DatumView>, Seq<u16>), SqlErrorView> {
    match params_at(body, at, declared, formats, floats, Seq::empty()) {
        Err(e) => Err(e),
        Ok((params, next)) => match bind_end(body, next) {
            Err(e) => Err(e),
            Ok(result_formats) => Ok((params, result_formats)),
        },
    }
}

/// Reads the parameters and the result formats of a Bind message.
pub fn read_bind_rest(
    body: &[u8],
    at: usize,
    declared: &[u32],
    formats: &[u16],
    floats: &FloatReadings,
) -> (result: Result<(Vec<Datum>, Vec<u16>), SqlError>)
    requires
        at <= body@.len(),
    ensures
        match result {
            Ok((params, result_formats)) => bind_rest(
                body@,
                at as int,
                declared@,
                formats@,
                *floats,
            ) == Ok::<_, SqlErrorView>((row_values(params), result_formats@)),
            Err(e) => bind_rest(body@, at as int, declared@, formats@, *floats) == Err::<
                (Seq<DatumView>, Seq<u16>),
                _,
            >(e@),
        },
{
    let mut decoder = Decoder { body, pos: at };
    let params = match read_params(&mut decoder, declared, formats, floats) {
        Ok(params) => params,
        Err(e) => {
            return Err(e);
        },
    };
    let count = match decoder.u16("Bind result format count") {
        Ok(count) => count,
        Err(e) => {
            return Err(e);
        },
    };
    let result_formats = match read_formats(
        &mut decoder,
        count,
        "Bind result format",
        "invalid result format code",
    ) {
        Ok(formats) => formats,
        Err(e) => {
            return Err(e);
        },
    };
    match decoder.finish("Bind message") {
        Ok(()) => Ok((params, result_formats)),
        Err(e) => Err(e),
    }
}

/// The texts among the parameters from a place on, behind those that were read:
/// those that could write floating-point numbers.
pub open spec fn texts_from(body: Seq<u8>, at: int, left: nat, read: Seq<Seq<char>>) -> Seq<
    Seq<char>,
>
    decreases left,
{
    if left == 0 {
        read
    } else {
        match number_at(body, at, 4, ""@) {
            Err(_) => read,
            Ok((bits, next)) => {
                let length = signed(bits, 4);
                if length < 0 {
                    texts_from(body, next, (left - 1) as nat, read)
                } else {
                    match bytes_at(body, next, length, ""@) {
                        Err(_) => read,
                        Ok((bytes, after)) => texts_from(
                            body,
                            after,
                            (left - 1) as nat,
                            if valid_utf8(bytes) {
                                read.push(decode_utf8(bytes))
                            } else {
                                read
                            },
                        ),
                    }
                }
            },
        }
    }
}

/// The texts of a Bind message that could write floating-point numbers.
pub open spec fn float_texts(body: Seq<u8>) -> Seq<Seq<char>> {
    match bind_start(body) {
        Err(_) => Seq::empty(),
        Ok((_, _, _, count, at)) => texts_from(body, at, count, Seq::empty()),
    }
}

/// Lists the texts of a Bind message that could write floating-point numbers.
#[verifier::loop_isolation(false)]
pub fn float_candidates(body: &[u8]) -> (texts: Vec<String>)
    ensures
        crate::status::texts(texts@) == float_texts(body@),
{
    let mut texts: Vec<String> = Vec::new();
    assert(crate::status::texts(texts@) =~= Seq::<Seq<char>>::empty());
    let start = match read_bind_start(body) {
        Ok(start) => start,
        Err(_) => {
            return texts;
        },
    };
    let mut decoder = Decoder { body, pos: start.next };
    let mut left: u16 = start.count;
    while left > 0
        invariant
            decoder.wf(),
            decoder.body@ == body@,
            texts_from(body@, decoder.pos as int, left as nat, crate::status::texts(texts@))
                == float_texts(body@),
        decreases left,
    {
        let length = match decoder.i32("") {
            Ok(length) => length,
            Err(_) => {
                return texts;
            },
        };
        if length >= 0 {
            match decoder.bytes(length as usize, "") {
                Ok(bytes) => {
                    if let Some(text) = utf8_text(bytes) {
                        let ghost before = crate::status::texts(texts@);
                        let ghost added = text@;
                        texts.push(text);
                        assert(crate::status::texts(texts@) =~= before.push(added));
                    }
                },
                Err(_) => {
                    return texts;
                },
            }
        }
        left -= 1;
    }
    texts
}

// ---------------------------------------------------------------------------
// Execute
// ---------------------------------------------------------------------------

/// The portal of an Execute message, and the most rows to send; zero for all.
pub open spec fn execute_fields(body: Seq<u8>) -> Result<(Seq<char>, nat), SqlErrorView> {
    match text_at(body, 0, "portal name"@) {
        Err(e) => Err(e),
        Ok((portal, a)) => match number_at(body, a, 4, "Execute max rows"@) {
            Err(e) => Err(e),
            Ok((max, b)) => match end_at(body, b, "Execute message"@) {
                Err(e) => Err(e),
                Ok(()) => Ok((portal, max)),
            },
        },
    }
}

/// Reads the fields of an Execute message.
pub fn read_execute(body: &[u8]) -> (result: Result<(String, u32), SqlError>)
    ensures
        match result {
            Ok((portal, max)) => execute_fields(body@) == Ok::<_, SqlErrorView>(
                (portal@, max as nat),
            ),
            Err(e) => execute_fields(body@) == Err::<(Seq<char>, nat), _>(e@),
        },
{
    let mut decoder = Decoder::new(body);
    let portal = match decoder.cstr("portal name") {
        Ok(portal) => portal,
        Err(e) => {
            return Err(e);
        },
    };
    let max = match decoder.u32("Execute max rows") {
        Ok(max) => max,
        Err(e) => {
            return Err(e);
        },
    };
    match decoder.finish("Execute message") {
        Ok(()) => Ok((portal, max)),
        Err(e) => Err(e),
    }
}

} // verus!
