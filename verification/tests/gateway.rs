//! The PostgreSQL gateway: startup, simple and extended queries, values on the
//! wire, accounting, cancellation and timeouts.

use chorus::datum::{Datum, FloatTexts, SqlType};
use chorus::error::SqlError;
use chorus::names::NameMap;
use chorus::pg_execute::{query_to_run, simple_query, unsupported, Route};
use chorus::pg_fields::float_candidates;
use chorus::pg_message::{
    error_message, format_at, frontend_body_length, row_description_body, sqlstate, write_message,
    Message, Output, QueryResult, ResultColumn,
};
use chorus::pg_query::{
    infer_parameter_types, is_empty_query, named_resource_limit_reached, statement_exceeds_limit,
    MAX_STATEMENT_BYTES,
};
use chorus::pg_retained::{
    datum_heap_bytes, heap_bytes, held_retained_bytes, pending_result_heap_bytes, portal_blocks,
    portal_retained_bytes, prepared_retained_bytes, projected_retained_bytes, Block, Portal,
    MAX_RETAINED_EXTENDED_QUERY_BYTES,
};
use chorus::pg_server::{
    backend_secret, drain_step, fatal_idle_transaction_timeout, next_backend_pid,
    prepare_unix_socket_path, remove_owned_unix_socket, CancelChange, CancelRegistry,
    ConnectionPermit, DrainStep, IdleStep, IdleTimer, PathStep, PgConfig, SocketPath,
    UnixSocketIdentity,
};
use chorus::pg_session::Connection;
use chorus::pg_startup::{
    greeting, ready, startup, startup_body_length, StartupParams, StartupStep, TransactionStatus,
    CANCEL_REQUEST_CODE, PROTOCOL_VERSION_3_0, PROTOCOL_VERSION_3_2, SSL_REQUEST_CODE,
};
use chorus::pg_text::{
    parse_bool, parse_bytea_text, parse_date_text, parse_timestamp_text, parse_uuid,
};
use chorus::pg_values::{
    decode_binary_param, decode_param, decode_text_param, encode_binary_result,
    encode_text_result, FloatReadings, MAX_PROTOCOL_ITEMS,
};

fn no_floats() -> FloatTexts {
    FloatTexts { entries: Vec::new() }
}

fn no_readings() -> FloatReadings {
    FloatReadings { entries: Vec::new() }
}

fn cstr_put(out: &mut Vec<u8>, text: &str) {
    out.extend_from_slice(text.as_bytes());
    out.push(0);
}

fn put_u16(out: &mut Vec<u8>, value: u16) {
    out.extend_from_slice(&value.to_be_bytes());
}

fn parse_body(name: &str, sql: &str, types: &[u32]) -> Vec<u8> {
    let mut body = Vec::new();
    cstr_put(&mut body, name);
    cstr_put(&mut body, sql);
    put_u16(&mut body, types.len() as u16);
    for oid in types {
        body.extend_from_slice(&oid.to_be_bytes());
    }
    body
}

fn bind_body(portal: &str, statement: &str, value: Option<&[u8]>) -> Vec<u8> {
    let mut body = Vec::new();
    cstr_put(&mut body, portal);
    cstr_put(&mut body, statement);
    put_u16(&mut body, 0);
    put_u16(&mut body, usize::from(value.is_some()) as u16);
    if let Some(value) = value {
        body.extend_from_slice(&(value.len() as i32).to_be_bytes());
        body.extend_from_slice(value);
    }
    put_u16(&mut body, 0);
    body
}

fn bind_formats_body(portal: &str, statement: &str, values: &[&[u8]], formats: &[u16]) -> Vec<u8> {
    let mut body = Vec::new();
    cstr_put(&mut body, portal);
    cstr_put(&mut body, statement);
    put_u16(&mut body, 0);
    put_u16(&mut body, values.len() as u16);
    for value in values {
        body.extend_from_slice(&(value.len() as i32).to_be_bytes());
        body.extend_from_slice(value);
    }
    put_u16(&mut body, formats.len() as u16);
    for format in formats {
        put_u16(&mut body, *format);
    }
    body
}

fn target_body(kind: u8, name: &str) -> Vec<u8> {
    let mut body = vec![kind];
    cstr_put(&mut body, name);
    body
}

fn execute_body(portal: &str, max: u32) -> Vec<u8> {
    let mut body = Vec::new();
    cstr_put(&mut body, portal);
    body.extend_from_slice(&max.to_be_bytes());
    body
}

fn query_body(sql: &str) -> Vec<u8> {
    let mut body = Vec::new();
    cstr_put(&mut body, sql);
    body
}

fn kinds(messages: &[Message]) -> Vec<u8> {
    messages.iter().map(|message| message.kind).collect()
}

fn column(name: &str, data_type: SqlType) -> ResultColumn {
    ResultColumn { name: name.into(), data_type, table_oid: 42, column_oid: 7 }
}

fn command(tag: &str) -> QueryResult {
    QueryResult {
        columns: Vec::new(),
        rows: Vec::new(),
        command_tag: tag.into(),
        affected_rows: 0,
        notices: Vec::new(),
    }
}

fn selected(rows: Vec<Vec<Datum>>) -> QueryResult {
    QueryResult {
        columns: vec![column("value", SqlType::Integer)],
        affected_rows: rows.len() as u64,
        rows,
        command_tag: "SELECT".into(),
        notices: Vec::new(),
    }
}

fn ints(values: &[i32]) -> Vec<Vec<Datum>> {
    values.iter().map(|value| vec![Datum::Int32(*value)]).collect()
}

fn batch(sql: &str, results: Vec<QueryResult>, error: Option<SqlError>, status: TransactionStatus) -> Output {
    simple_query(&query_body(sql), &results, &error, status, &no_floats())
}

fn recomputed_retained_bytes(connection: &Connection) -> usize {
    let mut total = 0;
    for at in 0..connection.prepared.len() {
        let name = connection.prepared.name_at(at);
        let item = connection.prepared.value_at(at);
        total += prepared_retained_bytes(name, &item.sql, &item.types).expect("prepared accounting");
    }
    for at in 0..connection.portals.len() {
        let name = connection.portals.name_at(at);
        total += portal_retained_bytes(name, connection.portals.value_at(at))
            .expect("portal accounting");
    }
    total
}

fn sql_of<'a>(connection: &'a Connection, name: &str) -> Option<&'a str> {
    connection.prepared.get(name).map(|item| item.sql.as_str())
}

// ---------------------------------------------------------------------------

#[test]
fn row_description_has_exact_postgres_field_layout() {
    let body = row_description_body(&[column("value", SqlType::Integer)], &[1])
        .expect("row description");
    assert_eq!(u16::from_be_bytes([body[0], body[1]]), 1);
    let mut p = 2;
    assert_eq!(&body[p..p + 6], b"value\0");
    p += 6;
    assert_eq!(u32::from_be_bytes(body[p..p + 4].try_into().unwrap()), 42);
    p += 4;
    assert_eq!(i16::from_be_bytes(body[p..p + 2].try_into().unwrap()), 7);
    p += 2;
    assert_eq!(u32::from_be_bytes(body[p..p + 4].try_into().unwrap()), 23);
    p += 4;
    assert_eq!(i16::from_be_bytes(body[p..p + 2].try_into().unwrap()), -1);
    p += 2;
    assert_eq!(i32::from_be_bytes(body[p..p + 4].try_into().unwrap()), -1);
    p += 4;
    assert_eq!(i16::from_be_bytes(body[p..p + 2].try_into().unwrap()), 1);
    p += 2;
    assert_eq!(p, body.len());
}

#[test]
fn named_resource_count_excludes_existing_and_unnamed_keys() {
    let mut resources = NameMap::new();
    resources.insert("one".to_string(), 1usize);
    resources.insert("two".to_string(), 2usize);
    assert!(named_resource_limit_reached(&resources, "new", 2));
    assert!(!named_resource_limit_reached(&resources, "one", 2));
    assert!(!named_resource_limit_reached(&resources, "", 0));

    resources.insert("one".to_string(), 3);
    resources.insert(String::new(), 4);
    assert_eq!(resources.len(), 3);
    assert_eq!(resources.get("one"), Some(&3));
    assert_eq!(resources.get(""), Some(&4));
    assert!(!named_resource_limit_reached(&resources, "new", 3));
}

#[test]
fn named_resource_rejection_does_not_mutate_and_close_releases_slot() {
    let mut resources = NameMap::new();
    resources.insert("one".to_string(), 1usize);
    resources.insert("two".to_string(), 2usize);
    let mut before = NameMap::new();
    before.insert("one".to_string(), 1usize);
    before.insert("two".to_string(), 2usize);
    if !named_resource_limit_reached(&resources, "three", 2) {
        resources.insert("three".to_string(), 3);
    }
    assert_eq!(resources, before);
    resources.remove("one");
    assert!(!named_resource_limit_reached(&resources, "three", 2));
}

#[test]
fn statement_size_limit_is_exact_and_uses_bytes() {
    assert!(!statement_exceeds_limit(&"x".repeat(MAX_STATEMENT_BYTES)));
    assert!(statement_exceeds_limit(&"x".repeat(MAX_STATEMENT_BYTES + 1)));
    assert!(statement_exceeds_limit(&"é".repeat(MAX_STATEMENT_BYTES / 2 + 1)));
}

#[test]
fn parse_budget_and_named_duplicate_reject_before_mutation() {
    let mut connection = Connection::new();
    connection.extended_query_state_limit = 0;
    let reply = connection.parse(&parse_body("limited", "SELECT 1", &[]), Ok(()));
    assert_eq!(reply.kind, b'E');
    assert!(connection.extended_error);
    assert!(!connection.prepared.contains_key("limited"));
    assert!(sql_of(&connection, "limited").is_none());
    assert_eq!(connection.retained_extended_query_bytes, 0);

    connection.extended_error = false;
    connection.extended_query_state_limit = MAX_RETAINED_EXTENDED_QUERY_BYTES;
    let reply = connection.parse(&parse_body("named", "SELECT 1", &[]), Ok(()));
    assert_eq!(reply.kind, b'1');
    let before = connection.retained_extended_query_bytes;
    let reply = connection.parse(&parse_body("named", "SELECT 2", &[]), Ok(()));
    assert_eq!(reply.kind, b'E');
    assert!(connection.extended_error);
    assert_eq!(sql_of(&connection, "named"), Some("SELECT 1"));
    assert_eq!(connection.retained_extended_query_bytes, before);
    assert_eq!(before, recomputed_retained_bytes(&connection));
}

#[test]
fn bind_budget_duplicate_and_close_preserve_exact_accounting() {
    let mut connection = Connection::new();
    connection.parse(&parse_body("statement", "SELECT $1", &[25]), Ok(()));
    let prepared_bytes = connection.retained_extended_query_bytes;

    connection.extended_query_state_limit = prepared_bytes;
    let reply =
        connection.bind(&bind_body("limited", "statement", Some(b"first")), &no_readings());
    assert_eq!(reply.kind, b'E');
    assert!(connection.extended_error);
    assert!(!connection.portals.contains_key("limited"));
    assert_eq!(connection.retained_extended_query_bytes, prepared_bytes);

    connection.extended_error = false;
    connection.extended_query_state_limit = MAX_RETAINED_EXTENDED_QUERY_BYTES;
    let reply = connection.bind(&bind_body("portal", "statement", Some(b"first")), &no_readings());
    assert_eq!(reply.kind, b'2');
    let with_portal = connection.retained_extended_query_bytes;
    let reply =
        connection.bind(&bind_body("portal", "statement", Some(b"replacement")), &no_readings());
    assert_eq!(reply.kind, b'E');
    assert!(connection.extended_error);
    assert_eq!(
        connection.portals.get("portal").unwrap().params[0],
        Datum::Text("first".into())
    );
    assert_eq!(connection.retained_extended_query_bytes, with_portal);

    connection.extended_error = false;
    assert_eq!(connection.close(&target_body(b'P', "portal")).kind, b'3');
    assert_eq!(connection.retained_extended_query_bytes, prepared_bytes);
    assert_eq!(connection.close(&target_body(b'S', "statement")).kind, b'3');
    assert_eq!(connection.retained_extended_query_bytes, 0);
    assert_eq!(0, recomputed_retained_bytes(&connection));
}

#[test]
fn unnamed_parse_replacement_releases_statement_and_portal_payload() {
    let mut connection = Connection::new();
    connection.parse(&parse_body("", "SELECT $1", &[25]), Ok(()));
    connection.bind(&bind_body("", "", Some(b"retained payload")), &no_readings());
    let before = connection.retained_extended_query_bytes;
    assert!(connection.portals.contains_key(""));

    connection.parse(&parse_body("", "SELECT 2", &[]), Ok(()));
    assert!(!connection.portals.contains_key(""));
    assert_eq!(sql_of(&connection, ""), Some("SELECT 2"));
    assert!(connection.retained_extended_query_bytes < before);
    assert_eq!(connection.retained_extended_query_bytes, recomputed_retained_bytes(&connection));
}

#[test]
fn parameter_number_is_bounded_before_type_vector_resize() {
    let error = infer_parameter_types("SELECT $65536", &[]).unwrap_err();
    assert_eq!(error.code, "54000");
    let types = infer_parameter_types("SELECT $65535", &[]).expect("protocol maximum");
    assert_eq!(types.len(), MAX_PROTOCOL_ITEMS);
}

#[test]
fn idle_transaction_timeout_is_fatal_even_for_a_partial_frontend_frame() {
    let mut timer = IdleTimer::new();
    let millisecond = 1_000_000u128;
    assert_eq!(
        timer.arm(TransactionStatus::Active, 20, 5 * millisecond),
        IdleStep::Wait(20 * millisecond)
    );
    // One byte of the frame has come; the rest of the time is what was left.
    assert_eq!(timer.before_read(15 * millisecond), IdleStep::Wait(10 * millisecond));
    assert_eq!(timer.before_read(25 * millisecond), IdleStep::Expired);
    assert!(timer.timed_out());
    let output = write_message(&fatal_idle_transaction_timeout()).unwrap();
    let text = String::from_utf8_lossy(&output);
    assert!(text.contains("FATAL"), "missing FATAL response: {text:?}");
    assert!(text.contains("25P03"), "missing SQLSTATE: {text:?}");
    assert!(text.contains("idle-in-transaction timeout"), "missing timeout detail: {text:?}");
}

#[test]
fn ordinary_idle_session_does_not_arm_transaction_timeout_and_reset_clears_it() {
    let mut timer = IdleTimer::new();
    assert_eq!(
        timer.arm(TransactionStatus::Idle, 20, 0),
        IdleStep::Unlimited { lift: false }
    );
    assert!(timer.deadline.is_none());

    assert!(matches!(timer.arm(TransactionStatus::Active, 20, 0), IdleStep::Wait(_)));
    assert!(timer.deadline.is_some());
    assert_eq!(
        timer.arm(TransactionStatus::Active, 0, 0),
        IdleStep::Unlimited { lift: true }
    );
    assert!(timer.deadline.is_none());
}

// ---------------------------------------------------------------------------

fn packet(parameters: &[(&str, &str)]) -> Vec<u8> {
    let mut body = Vec::new();
    for (name, value) in parameters {
        cstr_put(&mut body, name);
        cstr_put(&mut body, value);
    }
    body.push(0);
    body
}

fn begin(protocol: u32, parameters: &[(&str, &str)]) -> Vec<Message> {
    match startup(protocol, &packet(parameters)) {
        StartupStep::Refuse(messages) => messages,
        StartupStep::Accept { before, application_name } => {
            let mut messages = before;
            messages.extend(greeting(&application_name, true, 7, 9, TransactionStatus::Idle));
            messages
        }
        _ => panic!("not a session"),
    }
}

fn parse_negotiation(body: &[u8]) -> (u32, Vec<String>) {
    let version = u32::from_be_bytes(body[..4].try_into().unwrap());
    let count = u32::from_be_bytes(body[4..8].try_into().unwrap()) as usize;
    let mut position = 8;
    let mut names = Vec::new();
    for _ in 0..count {
        let end = position + body[position..].iter().position(|byte| *byte == 0).unwrap();
        names.push(String::from_utf8(body[position..end].to_vec()).unwrap());
        position = end + 1;
    }
    assert_eq!(position, body.len(), "trailing negotiation bytes");
    (version, names)
}

#[test]
fn startup_negotiates_honest_protocol_and_reports_reserved_options() {
    let messages = begin(PROTOCOL_VERSION_3_0, &[("user", "test")]);
    assert_eq!(messages.first().map(|message| message.kind), Some(b'R'));
    assert!(!messages.iter().any(|message| message.kind == b'v'));

    let messages = begin(PROTOCOL_VERSION_3_2, &[("user", "test")]);
    assert_eq!(messages.first().map(|message| message.kind), Some(b'v'));
    assert_eq!(parse_negotiation(&messages[0].body), (PROTOCOL_VERSION_3_0, vec![]));
    assert_eq!(messages.get(1).map(|message| message.kind), Some(b'R'));

    let refused = begin(PROTOCOL_VERSION_3_2, &[]);
    assert_eq!(refused[0].kind, b'v');
    assert_eq!(parse_negotiation(&refused[0].body), (PROTOCOL_VERSION_3_0, vec![]));
    assert_eq!(refused[1].kind, b'E', "protocol negotiation must precede startup validation");

    let messages = begin(
        PROTOCOL_VERSION_3_0,
        &[("user", "test"), ("_pq_.first", "one"), ("_pq_.second", "two")],
    );
    assert_eq!(messages.first().map(|message| message.kind), Some(b'v'));
    assert_eq!(
        parse_negotiation(&messages[0].body),
        (PROTOCOL_VERSION_3_0, vec!["_pq_.first".to_string(), "_pq_.second".to_string()])
    );
    assert_eq!(messages.get(1).map(|message| message.kind), Some(b'R'));

    let message = &begin(4 << 16, &[("user", "test")])[0];
    assert_eq!(message.kind, b'E', "wrong major must fail before auth");
}

#[test]
fn startup_packets_are_checked() {
    assert_eq!(startup_body_length(8).unwrap(), 0);
    assert!(startup_body_length(7).is_err());
    assert!(startup_body_length(65_537).is_err());
    assert!(matches!(startup(SSL_REQUEST_CODE, &[]), StartupStep::Decline));
    assert!(matches!(startup(SSL_REQUEST_CODE, &[0]), StartupStep::Refuse(_)));
    assert!(matches!(
        startup(CANCEL_REQUEST_CODE, &[0, 0, 0, 1, 0, 0, 0, 2]),
        StartupStep::Cancel { pid: 1, secret: 2 }
    ));
    assert!(matches!(startup(CANCEL_REQUEST_CODE, &[0]), StartupStep::Hangup));
    for (parameters, fault) in [
        (vec![("database", "x")], "did not include user"),
        (vec![("user", "a"), ("client_encoding", "LATIN1")], "client_encoding"),
        (vec![("user", "a"), ("TimeZone", "CET")], "TimeZone"),
        (vec![("user", "a"), ("DateStyle", "German")], "DateStyle"),
    ] {
        let messages = begin(PROTOCOL_VERSION_3_0, &parameters);
        assert_eq!(kinds(&messages), vec![b'E']);
        assert!(String::from_utf8_lossy(&messages[0].body).contains(fault));
    }
    let params = StartupParams::parse(&packet(&[("User", "x"), ("application_name", "app")])).unwrap();
    assert_eq!(params.get("user").as_deref(), Some("x"));
    assert_eq!(params.get("application_name").as_deref(), Some("app"));
    assert_eq!(params.get("other"), None);
    assert_eq!(StartupParams::parse(b"user").unwrap_err().code, "08P01");
    assert_eq!(StartupParams::parse(b"\xff\0a\0\0").unwrap_err().code, "22021");
    assert_eq!(
        StartupParams::parse(&packet(&[("user", &"x".repeat(5000))])).unwrap_err().code,
        "54000"
    );
    assert_eq!(kinds(&greeting("a", false, 1, 1, TransactionStatus::Idle)), vec![b'E']);
}

// ---------------------------------------------------------------------------

#[test]
fn simple_query_batch_emits_each_result_before_one_ready_for_query() {
    let output = batch(
        "SELECT 1; SELECT 2;",
        vec![selected(ints(&[1])), selected(ints(&[2]))],
        None,
        TransactionStatus::Idle,
    );
    assert_eq!(kinds(&output.messages), vec![b'T', b'D', b'C', b'T', b'D', b'C', b'Z']);
    assert_eq!(output.messages.last().unwrap().body, vec![b'I']);
}

#[test]
fn simple_query_transaction_boundaries_report_status_and_committed_prefix() {
    let opened = batch(
        "SELECT 1; BEGIN; SELECT 2;",
        vec![selected(ints(&[1])), command("BEGIN"), selected(ints(&[2]))],
        None,
        TransactionStatus::Active,
    );
    assert_eq!(
        kinds(&opened.messages),
        vec![b'T', b'D', b'C', b'C', b'T', b'D', b'C', b'Z']
    );
    assert_eq!(opened.messages.last().unwrap().body, vec![b'T']);

    let closed = batch(
        "COMMIT; SELECT 3;",
        vec![command("COMMIT"), selected(ints(&[3]))],
        None,
        TransactionStatus::Idle,
    );
    assert_eq!(kinds(&closed.messages), vec![b'C', b'T', b'D', b'C', b'Z']);
    assert_eq!(closed.messages.last().unwrap().body, vec![b'I']);

    let created = batch(
        "CREATE TABLE wire_segments (id integer primary key);",
        vec![command("CREATE TABLE")],
        None,
        TransactionStatus::Idle,
    );
    assert_eq!(kinds(&created.messages), vec![b'C', b'Z']);

    let failed = batch(
        "INSERT INTO wire_segments VALUES (1); COMMIT; INSERT INTO missing_wire_segment VALUES (2);",
        vec![command("INSERT 0 1"), command("COMMIT")],
        Some(SqlError::new("42P01", "table does not exist")),
        TransactionStatus::Idle,
    );
    assert_eq!(kinds(&failed.messages), vec![b'C', b'C', b'E', b'Z']);
    assert_eq!(failed.messages.last().unwrap().body, vec![b'I']);

    let count = batch(
        "SELECT count(*) FROM wire_segments;",
        vec![selected(ints(&[1]))],
        None,
        TransactionStatus::Idle,
    );
    assert_eq!(kinds(&count.messages), vec![b'T', b'D', b'C', b'Z']);
    assert_eq!(count.messages.last().unwrap().body, vec![b'I']);
}

#[test]
fn describe_statement_binds_zero_row_shape_and_commands_report_no_data() {
    let mut connection = Connection::new();
    let sql = "SELECT id, value FROM describe_wire WHERE false";
    assert_eq!(connection.parse(&parse_body("select_empty", sql, &[]), Ok(())).kind, b'1');
    let question = connection.shape_question(&target_body(b'S', "select_empty")).unwrap();
    assert_eq!(question.sql, sql);
    let described = connection.describe(
        &target_body(b'S', "select_empty"),
        Ok(Some(vec![column("id", SqlType::Integer), column("value", SqlType::Text)])),
    );
    assert_eq!(kinds(&described.messages), vec![b't', b'T']);
    assert_eq!(described.messages[0].body, vec![0, 0]);
    let fields = row_description(&described.messages[1].body);
    assert_eq!(fields.len(), 2);
    assert_eq!(fields[0].0, "id");
    assert_eq!(fields[0].1, 23);
    assert_eq!(fields[1].0, "value");
    assert_eq!(fields[1].1, 25);
    assert_eq!(connection.sync(TransactionStatus::Idle).body, vec![b'I']);

    let update = "UPDATE describe_wire SET value = 'updated' WHERE id = 1";
    connection.parse(&parse_body("update_no_rows", update, &[]), Ok(()));
    let no_data = connection.describe(&target_body(b'S', "update_no_rows"), Ok(None));
    assert_eq!(kinds(&no_data.messages), vec![b't', b'n']);

    connection.parse(&parse_body("missing", "SELECT * FROM missing_describe_wire", &[]), Ok(()));
    let missing = connection.describe(
        &target_body(b'S', "missing"),
        Err(SqlError::new("42P01", "table does not exist")),
    );
    assert_eq!(kinds(&missing.messages), vec![b'E']);
    assert!(missing.messages[0].body.windows(6).any(|window| window == b"42P01\0"));
    assert!(connection.extended_error);
    assert_eq!(connection.sync(TransactionStatus::Idle).body, vec![b'I']);
    assert!(!connection.extended_error);
}

/// The names, types and formats of a row description.
fn row_description(body: &[u8]) -> Vec<(String, u32, u16)> {
    let count = u16::from_be_bytes([body[0], body[1]]) as usize;
    let mut position = 2;
    let mut fields = Vec::new();
    for _ in 0..count {
        let end = position + body[position..].iter().position(|byte| *byte == 0).unwrap();
        let name = String::from_utf8(body[position..end].to_vec()).unwrap();
        position = end + 1;
        let oid = u32::from_be_bytes(body[position + 6..position + 10].try_into().unwrap());
        let format = u16::from_be_bytes(body[position + 16..position + 18].try_into().unwrap());
        position += 18;
        fields.push((name, oid, format));
    }
    assert_eq!(position, body.len());
    fields
}

#[test]
fn portal_describe_is_non_mutating_and_execute_uses_the_described_formats_once() {
    let mut connection = Connection::new();
    connection.parse(&parse_body("cast_value", "SELECT $1::integer", &[23]), Ok(()));
    let reply = connection
        .bind(&bind_formats_body("cast_portal", "cast_value", &[b"9"], &[1]), &no_readings());
    assert_eq!(reply.kind, b'2');
    let shape = || Ok(Some(vec![column("int4", SqlType::Integer)]));
    let described = connection.describe(&target_body(b'P', "cast_portal"), shape());
    assert_eq!(kinds(&described.messages), vec![b'T']);
    let fields = row_description(&described.messages[0].body);
    assert_eq!((fields[0].1, fields[0].2), (23, 1));
    let run = connection.run_question(&execute_body("cast_portal", 0)).unwrap();
    assert_eq!(run.params, vec![Datum::Int32(9)]);
    let executed =
        connection.execute(&execute_body("cast_portal", 0), Ok(selected(ints(&[9]))), &no_floats());
    assert_eq!(kinds(&executed.messages), vec![b'D', b'C']);
    let row = &executed.messages[0].body;
    assert_eq!(i32::from_be_bytes(row[6..10].try_into().unwrap()), 9);

    let insert = "INSERT INTO describe_portal VALUES ($1, 'bound') RETURNING id, value";
    connection.parse(&parse_body("insert_returning", insert, &[23]), Ok(()));
    connection.bind(
        &bind_formats_body("insert_portal", "insert_returning", &[b"7"], &[1, 0]),
        &no_readings(),
    );
    let columns = || vec![column("id", SqlType::Integer), column("value", SqlType::Text)];
    let described = connection.describe(&target_body(b'P', "insert_portal"), Ok(Some(columns())));
    assert_eq!(kinds(&described.messages), vec![b'T']);
    let fields = row_description(&described.messages[0].body);
    assert_eq!(
        fields.iter().map(|field| (field.1, field.2)).collect::<Vec<_>>(),
        vec![(23, 1), (25, 0)]
    );

    // Describe binds metadata only; the portal has still to run.
    assert!(connection.run_question(&execute_body("insert_portal", 0)).is_some());
    let result = QueryResult {
        columns: columns(),
        rows: vec![vec![Datum::Int32(7), Datum::Text("bound".into())]],
        command_tag: "INSERT 0 1".into(),
        affected_rows: 1,
        notices: Vec::new(),
    };
    let executed =
        connection.execute(&execute_body("insert_portal", 0), Ok(result), &no_floats());
    assert_eq!(
        kinds(&executed.messages),
        vec![b'D', b'C'],
        "Execute must not repeat the RowDescription already emitted by Describe"
    );
    let row = &executed.messages[0].body;
    assert_eq!(u16::from_be_bytes(row[0..2].try_into().unwrap()), 2);
    assert_eq!(i32::from_be_bytes(row[2..6].try_into().unwrap()), 4);
    assert_eq!(i32::from_be_bytes(row[6..10].try_into().unwrap()), 7);
}

#[test]
fn empty_simple_and_extended_queries_emit_empty_query_response() {
    for sql in ["", "  ; ;  "] {
        assert_eq!(query_to_run(&query_body(sql)), None);
        let output = batch(sql, Vec::new(), None, TransactionStatus::Idle);
        assert_eq!(kinds(&output.messages), vec![b'I', b'Z']);
        assert!(output.messages[0].body.is_empty());
        assert_eq!(output.messages[1].body, vec![b'I']);
    }

    let begun = batch("BEGIN", vec![command("BEGIN")], None, TransactionStatus::Active);
    assert_eq!(begun.messages.last().unwrap().body, vec![b'T']);
    let active_empty = batch(";", Vec::new(), None, TransactionStatus::Active);
    assert_eq!(kinds(&active_empty.messages), vec![b'I', b'Z']);
    assert_eq!(active_empty.messages.last().unwrap().body, vec![b'T']);
    assert_eq!(
        batch("ROLLBACK", vec![command("ROLLBACK")], None, TransactionStatus::Idle)
            .messages
            .last()
            .unwrap()
            .body,
        vec![b'I']
    );

    let mut connection = Connection::new();
    assert!(connection.statement_to_prepare(&parse_body("empty_statement", " ; ", &[])).is_none());
    let mut extended = vec![connection.parse(&parse_body("empty_statement", " ; ", &[]), Ok(()))];
    extended.push(
        connection
            .bind(&bind_formats_body("empty_portal", "empty_statement", &[], &[]), &no_readings()),
    );
    extended.extend(connection.describe(&target_body(b'S', "empty_statement"), Ok(None)).messages);
    extended.extend(connection.describe(&target_body(b'P', "empty_portal"), Ok(None)).messages);
    assert!(connection.run_question(&execute_body("empty_portal", 0)).is_none());
    extended.extend(
        connection
            .execute(&execute_body("empty_portal", 0), Ok(command("")), &no_floats())
            .messages,
    );
    extended.push(connection.sync(TransactionStatus::Idle));
    assert_eq!(kinds(&extended), vec![b'1', b'2', b't', b'n', b'n', b'I', b'Z']);
    assert_eq!(extended[2].body, vec![0, 0]);
    for index in [3usize, 4, 5] {
        assert!(extended[index].body.is_empty());
    }
    assert_eq!(extended.last().unwrap().body, vec![b'I']);

    let ordinary = batch("SELECT 1", vec![selected(ints(&[1]))], None, TransactionStatus::Idle);
    assert_eq!(kinds(&ordinary.messages), vec![b'T', b'D', b'C', b'Z']);

    let multi = parse_body("multi", "SELECT 1; SELECT 2", &[]);
    assert_eq!(
        connection.statement_to_prepare(&multi),
        Some(("multi".to_string(), "SELECT 1; SELECT 2".to_string()))
    );
    let refusal = SqlError::new("42601", "cannot insert multiple commands");
    assert_eq!(connection.parse(&multi, Err(refusal)).kind, b'E');
    assert_eq!(connection.sync(TransactionStatus::Idle).kind, b'Z');
}

#[test]
fn suspended_portals_send_the_rest_and_stay_accounted() {
    let mut connection = Connection::new();
    connection.parse(&parse_body("s", "SELECT x", &[]), Ok(()));
    connection.bind(&bind_formats_body("p", "s", &[], &[]), &no_readings());
    let first = connection.execute(
        &execute_body("p", 2),
        Ok(selected(ints(&[1, 2, 3]))),
        &no_floats(),
    );
    assert_eq!(kinds(&first.messages), vec![b'T', b'D', b'D', b's']);
    assert_eq!(connection.retained_extended_query_bytes, recomputed_retained_bytes(&connection));
    assert!(connection.run_question(&execute_body("p", 2)).is_none());
    let rest = connection.execute(
        &execute_body("p", 2),
        Err(SqlError::new("XX000", "must not be asked")),
        &no_floats(),
    );
    assert_eq!(kinds(&rest.messages), vec![b'T', b'D', b'C']);
    assert_eq!(rest.messages[2].body, b"SELECT 3\0");
    assert_eq!(connection.retained_extended_query_bytes, recomputed_retained_bytes(&connection));
}

#[test]
fn a_result_that_is_too_much_to_keep_drops_the_portal() {
    let mut connection = Connection::new();
    connection.parse(&parse_body("s", "SELECT x", &[]), Ok(()));
    connection.bind(&bind_formats_body("p", "s", &[], &[]), &no_readings());
    connection.extended_query_state_limit = connection.retained_extended_query_bytes;
    let output = connection.execute(
        &execute_body("p", 1),
        Ok(selected(ints(&[1, 2]))),
        &no_floats(),
    );
    assert_eq!(kinds(&output.messages), vec![b'E']);
    assert!(!connection.portals.contains_key("p"));
    assert_eq!(connection.retained_extended_query_bytes, recomputed_retained_bytes(&connection));
}

#[test]
fn errors_are_passed_over_until_sync() {
    let mut connection = Connection::new();
    assert_eq!(connection.route(b'Q'), Route::Query);
    assert_eq!(connection.route(b'?'), Route::Unsupported);
    assert_eq!(connection.bind(&bind_body("p", "none", None), &no_readings()).kind, b'E');
    assert_eq!(connection.route(b'Q'), Route::Ignore);
    assert_eq!(connection.route(b'H'), Route::Flush);
    assert_eq!(connection.route(b'X'), Route::Terminate);
    assert_eq!(connection.route(b'S'), Route::Sync);
    connection.sync(TransactionStatus::Failed);
    assert_eq!(connection.route(b'P'), Route::Parse);
    assert_eq!(kinds(&unsupported(TransactionStatus::Idle)), vec![b'E', b'Z']);
    assert_eq!(ready(TransactionStatus::Failed).body, vec![b'E']);
}

#[test]
fn malformed_messages_are_refused() {
    let code = |message: &Message| {
        let body = &message.body;
        let at = body.windows(2).position(|pair| pair == b"\0C").unwrap() + 2;
        String::from_utf8(body[at..at + 5].to_vec()).unwrap()
    };
    let fresh = Connection::new;
    assert_eq!(code(&fresh().parse(b"name", Ok(()))), "08P01");
    assert_eq!(code(&fresh().parse(b"\xff\0sql\0\0\0", Ok(()))), "22021");
    assert_eq!(code(&fresh().close(b"")), "08P01");
    assert_eq!(code(&fresh().close(&target_body(b'Q', "x"))), "08P01");
    assert_eq!(code(&fresh().bind(&bind_body("p", "none", None), &no_readings())), "26000");
    assert_eq!(code(&fresh().describe(&target_body(b'P', "x"), Ok(None)).messages[0]), "34000");
    assert_eq!(code(&fresh().describe(&target_body(b'S', "x"), Ok(None)).messages[0]), "26000");
    assert_eq!(code(&fresh().describe(b"", Ok(None)).messages[0]), "08P01");
    let run = fresh().execute(&execute_body("x", 0), Ok(command("")), &no_floats());
    assert_eq!(code(&run.messages[0]), "34000");
    let mut connection = Connection::new();
    connection.parse(&parse_body("s", "SELECT $1", &[23]), Ok(()));
    assert_eq!(
        code(&connection.bind(&bind_body("p", "s", Some(b"x")), &no_readings())),
        "22P02"
    );
    assert_eq!(code(&connection.bind(&bind_body("p", "s", None), &no_readings())), "08P01");
    let mut long = parse_body("s2", &"x".repeat(MAX_STATEMENT_BYTES + 1), &[]);
    assert_eq!(code(&connection.parse(&long, Ok(()))), "54000");
    long.clear();
}

#[test]
fn at_most_so_many_names_are_kept() {
    let mut connection = Connection::new();
    for number in 0..256 {
        let reply = connection.parse(&parse_body(&format!("s{number}"), "SELECT 1", &[]), Ok(()));
        assert_eq!(reply.kind, b'1');
    }
    assert_eq!(connection.parse(&parse_body("more", "SELECT 1", &[]), Ok(())).kind, b'E');
    assert_eq!(connection.parse(&parse_body("", "SELECT 1", &[]), Ok(())).kind, b'1');
}

#[test]
fn parameters_are_found_outside_of_quotes() {
    assert_eq!(infer_parameter_types("SELECT $2, '$9', \"$8\", 'it''s $7'", &[23]).unwrap(), vec![23, 0]);
    assert_eq!(infer_parameter_types("SELECT $", &[]).unwrap(), Vec::<u32>::new());
    assert_eq!(
        infer_parameter_types("SELECT $99999999999999999999999", &[]).unwrap_err().code,
        "54000"
    );
    assert!(is_empty_query(" ; \n"));
    assert!(!is_empty_query("x"));
}

#[test]
fn text_parameters_are_read() {
    assert_eq!(parse_bool(" YES "), Some(true));
    assert_eq!(parse_bool("off"), Some(false));
    assert_eq!(parse_bool("maybe"), None);
    assert_eq!(parse_bytea_text("\\x01fF"), Some(vec![1, 255]));
    assert_eq!(parse_bytea_text("\\x0"), None);
    assert_eq!(parse_bytea_text("01"), None);
    assert_eq!(parse_date_text("2024-01-01"), Some(19_723));
    assert_eq!(parse_date_text("2024-13-01"), None);
    assert_eq!(parse_date_text("99999999999-01-01"), None);
    assert_eq!(
        parse_timestamp_text("2024-01-01 00:00:00.123"),
        Some(1_704_067_200_123_000)
    );
    assert_eq!(
        parse_timestamp_text("2024-01-01T00:00:01+00:00"),
        Some(1_704_067_201_000_000)
    );
    assert_eq!(parse_timestamp_text("2024-01-01 24:00:00"), None);
    assert_eq!(
        parse_uuid("11111111-1111-1111-1111-111111111111"),
        Some([0x11; 16])
    );
    assert_eq!(parse_uuid("xyz"), None);
    let floats = FloatReadings { entries: vec![("1.5".into(), 1.5f64.to_bits())] };
    assert_eq!(
        decode_param(b"1.5", 701, 0, &floats).unwrap(),
        Datum::Float64(1.5f64.to_bits())
    );
    assert_eq!(decode_param(b"1.5", 0, 0, &floats).unwrap(), Datum::Float64(1.5f64.to_bits()));
    assert_eq!(decode_param(b"7", 0, 0, &floats).unwrap(), Datum::Int64(7));
    assert_eq!(decode_param(b"on", 0, 0, &floats).unwrap(), Datum::Boolean(true));
    assert_eq!(decode_param(b"x y", 0, 0, &floats).unwrap(), Datum::Text("x y".into()));
    assert_eq!(
        decode_param(b"{\"b\":1,\"a\":2}", 3802, 0, &floats).unwrap(),
        Datum::Jsonb("{\"a\":2,\"b\":1}".into())
    );
    assert_eq!(decode_param(b"40000", 21, 0, &floats).unwrap_err().code, "22P02");
    assert_eq!(decode_param(&[0xff], 25, 0, &floats).unwrap_err().code, "22021");
    assert_eq!(decode_param(&[1], 23, 1, &floats).unwrap_err().code, "22P03");
    assert_eq!(decode_param(&[1], 23, 2, &floats).unwrap_err().code, "08P01");
    assert_eq!(
        float_candidates(&bind_formats_body("p", "s", &[b"1.5", b"x"], &[])),
        vec!["1.5".to_string(), "x".to_string()]
    );
}

#[test]
fn binary_values_come_back() {
    let cases = vec![
        (Datum::Boolean(true), SqlType::Boolean),
        (Datum::Int16(-2), SqlType::SmallInt),
        (Datum::Int32(70_000), SqlType::Integer),
        (Datum::Int64(i64::MIN), SqlType::BigInt),
        (Datum::Float64(1.5f64.to_bits()), SqlType::Double),
        (Datum::Text("é".into()), SqlType::Text),
        (Datum::Bytes(vec![0, 1]), SqlType::Bytea),
        (Datum::Date(0), SqlType::Date),
        (Datum::Timestamp(1), SqlType::Timestamp),
        (Datum::TimestampTz(-1), SqlType::TimestampTz),
        (Datum::Uuid([8; 16]), SqlType::Uuid),
        (Datum::Jsonb("{\"a\":1}".into()), SqlType::Jsonb),
    ];
    for (value, ty) in cases {
        let bytes = encode_binary_result(&value, ty, &no_floats());
        assert_eq!(decode_binary_param(&bytes, ty.oid()), Some(value));
    }
    assert_eq!(
        encode_binary_result(&Datum::Date(10_957), SqlType::Date, &no_floats()),
        vec![0, 0, 0, 0]
    );
    assert_eq!(
        encode_binary_result(&Datum::Int32(5), SqlType::Text, &no_floats()),
        b"5".to_vec()
    );
}

#[test]
fn messages_are_framed_within_their_limits() {
    let bytes = write_message(&Message { kind: b'C', body: b"OK\0".to_vec() }).unwrap();
    assert_eq!(bytes, b"C\0\0\0\x07OK\0");
    assert!(write_message(&Message { kind: b'D', body: vec![0; 16 * 1024 * 1024] }).is_err());
    assert_eq!(frontend_body_length(4).unwrap(), 0);
    assert!(frontend_body_length(3).is_err());
    assert!(frontend_body_length(u32::MAX).is_err());
    assert_eq!(format_at(&[], 3), Some(0));
    assert_eq!(format_at(&[1], 3), Some(1));
    assert_eq!(format_at(&[0, 1], 2), None);
    assert!(row_description_body(&[column("a", SqlType::Text)], &[1, 1]).is_err());
    assert!(row_description_body(&[column("a", SqlType::Text)], &[2]).is_err());
    assert_eq!(sqlstate(&SqlError::new("bad", "x")), "XX000");
    let body = error_message(&SqlError::new("42601", "m").detail("d").hint("h").at(9)).body;
    assert_eq!(body, b"SERROR\0C42601\0Mm\0Dd\0Hh\0P9\0\0");
}

#[test]
fn broken_results_end_the_connection() {
    let mut narrow = selected(ints(&[1]));
    narrow.rows.push(Vec::new());
    let output = batch("SELECT 1", vec![narrow], None, TransactionStatus::Idle);
    assert_eq!(kinds(&output.messages), vec![b'T', b'D']);
    assert!(output.fault.is_some());
    let wide = QueryResult {
        columns: vec![column("t", SqlType::Text)],
        rows: vec![vec![Datum::Text("x".repeat(17 * 1024 * 1024))]],
        command_tag: "SELECT".into(),
        affected_rows: 1,
        notices: Vec::new(),
    };
    let output = batch("SELECT 1", vec![wide], None, TransactionStatus::Idle);
    assert_eq!(output.fault.as_deref(), Some("result row exceeds configured wire limit"));
}

#[test]
fn retained_bytes_are_projected() {
    assert_eq!(projected_retained_bytes(10, 4, 5, 11).unwrap(), 11);
    assert_eq!(projected_retained_bytes(10, 4, 6, 11).unwrap_err().code, "54000");
    assert_eq!(projected_retained_bytes(3, 4, 0, 11).unwrap_err().code, "XX000");
    assert_eq!(projected_retained_bytes(usize::MAX, 0, 1, 11).unwrap_err().code, "54000");
    assert_eq!(prepared_retained_bytes("ab", "SELECT", &[1, 2]).unwrap(), 72 + 4 + 6 + 8);
}

fn roomy(text: &str, room: usize) -> String {
    let mut out = String::with_capacity(room);
    out.push_str(text);
    out
}

#[test]
fn memory_is_charged_by_its_room() {
    let value = std::mem::size_of::<Datum>();
    assert_eq!(datum_heap_bytes(&Datum::Int64(7)), 0);
    let text = roomy("ab", 100);
    let room = text.capacity();
    assert!(room >= 100);
    assert_eq!(datum_heap_bytes(&Datum::Text(text)), room);

    let mut result = command("SELECT");
    result.rows = Vec::with_capacity(8);
    result.rows.push(vec![Datum::Jsonb(roomy("{}", 40)), Datum::Null]);
    result.notices = vec![roomy("note", 16)];
    let json = datum_heap_bytes(&result.rows[0][0]);
    let expected = result.rows.capacity() * std::mem::size_of::<Vec<Datum>>()
        + result.rows[0].capacity() * value
        + json
        + result.command_tag.capacity()
        + result.notices.capacity() * std::mem::size_of::<String>()
        + result.notices[0].capacity();
    assert!(json >= 40);
    assert_eq!(pending_result_heap_bytes(&result).unwrap(), expected);

    let mut portal = Portal {
        sql: roomy("SELECT 1", 64),
        params: Vec::with_capacity(5),
        result_formats: Vec::with_capacity(9),
        pending: None,
        described: false,
        heap: 0,
    };
    portal.params.push(Datum::Bytes(Vec::with_capacity(33)));
    let own = portal.sql.capacity()
        + portal.params.capacity() * value
        + datum_heap_bytes(&portal.params[0])
        + portal.result_formats.capacity() * 2;
    assert!(own >= 64 + 5 * value + 33 + 18);
    let place = std::mem::size_of::<Portal>();
    assert_eq!(heap_bytes(&portal_blocks(&portal)).unwrap(), own);
    assert_eq!(portal_retained_bytes("name", &portal).unwrap(), place + 4 + own);
    portal.pending = Some(result);
    assert_eq!(portal_retained_bytes("name", &portal).unwrap(), place + 4 + own + expected);

    assert_eq!(heap_bytes(&[]).unwrap(), 0);
    assert_eq!(
        heap_bytes(&[Block { room: 3, size: 8 }, Block { room: 5, size: 1 }]).unwrap(),
        29
    );
    assert_eq!(heap_bytes(&[Block { room: usize::MAX, size: 2 }]).unwrap_err().code, "54000");
    assert_eq!(held_retained_bytes("ab", 7).unwrap(), place + 2 + 7);
    assert_eq!(held_retained_bytes("ab", usize::MAX).unwrap_err().code, "54000");
}

#[test]
fn a_portal_is_kept_by_the_memory_that_it_has_taken() {
    let mut connection = Connection::new();
    connection.parse(&parse_body("s", "SELECT x", &[]), Ok(()));
    let before = connection.retained_extended_query_bytes;
    let body = bind_formats_body("p", "s", &[], &[]);
    let blocks = [Block { room: 10, size: 4 }, Block { room: 6, size: 1 }];
    let charge = std::mem::size_of::<Portal>() + 1 + 46;

    connection.extended_query_state_limit = before + charge - 1;
    let asked = connection.read_bind(&body, &no_readings());
    let refused = connection.keep_bound(asked, &blocks);
    assert_eq!(refused.kind, b'E');
    assert!(String::from_utf8_lossy(&refused.body).contains("C54000\0"));
    assert_eq!(connection.retained_extended_query_bytes, before);

    connection.extended_query_state_limit = before + charge;
    let asked = connection.read_bind(&body, &no_readings());
    assert_eq!(connection.keep_bound(asked, &blocks).kind, b'2');
    assert_eq!(connection.retained_extended_query_bytes, before + charge);

    let kept = |heap| Portal {
        sql: "SELECT x".into(),
        params: Vec::new(),
        result_formats: Vec::new(),
        pending: None,
        described: true,
        heap,
    };
    let sent = selected(ints(&[1]));
    let output = connection.settle_run(
        "p".into(),
        charge,
        kept(0),
        &sent,
        true,
        &no_floats(),
        &[Block { room: 45, size: 1 }],
    );
    assert_eq!(kinds(&output.messages), vec![b'D', b's']);
    assert_eq!(connection.retained_extended_query_bytes, before + charge - 1);
    let output = connection.settle_run(
        "p".into(),
        charge - 1,
        kept(0),
        &sent,
        false,
        &no_floats(),
        &[Block { room: 47, size: 1 }],
    );
    assert_eq!(kinds(&output.messages), vec![b'E']);
    assert!(!connection.portals.contains_key("p"));
    assert_eq!(connection.retained_extended_query_bytes, before);
}

#[test]
fn cancellation_reaches_running_queries_only() {
    let mut registry = CancelRegistry::new();
    registry.register(1, 2);
    registry.change(1, 2, CancelChange::Request);
    registry.change(1, 2, CancelChange::Begin);
    assert!(!registry.is_cancelled(1, 2));
    registry.change(1, 3, CancelChange::Request);
    assert!(!registry.is_cancelled(1, 2));
    registry.change(1, 2, CancelChange::Request);
    assert!(registry.is_cancelled(1, 2));
    registry.change(1, 2, CancelChange::End);
    assert!(!registry.is_cancelled(1, 2));
    registry.unregister(1, 2);
    assert!(registry.entries.is_empty());
    assert_eq!(next_backend_pid(100, 1), 228);
    assert_eq!(next_backend_pid(0, 0), 1);
    assert_eq!(backend_secret(1, 5), (1 << 13) + 5);
}

#[test]
fn permits_and_sockets_follow_their_rules() {
    assert_eq!(ConnectionPermit::try_acquire(1, 2), Some(2));
    assert_eq!(ConnectionPermit::try_acquire(2, 2), None);
    assert_eq!(ConnectionPermit::try_acquire(0, 0), None);
    assert_eq!(ConnectionPermit::release(2), 1);
    let own = UnixSocketIdentity { dev: 1, ino: 2 };
    let other = UnixSocketIdentity { dev: 1, ino: 3 };
    assert_eq!(prepare_unix_socket_path(SocketPath::Missing), PathStep::Bind);
    assert_eq!(prepare_unix_socket_path(SocketPath::Other), PathStep::RefuseOther);
    assert_eq!(
        prepare_unix_socket_path(SocketPath::Socket { identity: own, serving: false }),
        PathStep::RemoveAndBind
    );
    let serving = prepare_unix_socket_path(SocketPath::Socket { identity: own, serving: true });
    assert_eq!(serving.refusal(), Some("Unix socket is already serving"));
    let stands = |identity, serving| SocketPath::Socket { identity, serving };
    assert!(remove_owned_unix_socket(stands(own, false), Some(own)));
    assert!(!remove_owned_unix_socket(stands(own, true), Some(own)));
    assert!(!remove_owned_unix_socket(stands(other, false), Some(own)));
    assert!(!remove_owned_unix_socket(stands(own, false), None));
    assert_eq!(drain_step(0, 0, 1), DrainStep::Done);
    assert_eq!(drain_step(1, 0, 1), DrainStep::Wait);
    assert_eq!(drain_step(1, 1, 1), DrainStep::CloseAll);
    assert_eq!(PgConfig::default().max_connections, 32);
}

#[test]
fn text_values_come_back() {
    let cases = [
        (Datum::Boolean(true), 16, "true"),
        (Datum::Int32(-17), 23, "-17"),
        (Datum::Int64(i64::MIN), 20, "-9223372036854775808"),
        (Datum::Date(0), 1082, "1970-01-01"),
        (Datum::Date(-719_468), 1082, "0000-03-01"),
        (Datum::Date(-719_528), 1082, "0000-01-01"),
        (Datum::Uuid([0x12; 16]), 2950, "12121212-1212-1212-1212-121212121212"),
        (Datum::Bytes(vec![0, 255]), 17, "\\x00ff"),
    ];
    for (value, oid, text) in cases {
        assert_eq!(encode_text_result(&value, &no_floats()), text);
        assert_eq!(
            format!("{:?}", decode_text_param(text, oid, None)),
            format!("{:?}", Some(value))
        );
    }
}
