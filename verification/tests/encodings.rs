//! Rows, keys, commands, mutations, snapshots, values and their texts.

use chorus::bytes::{compare_bytes, Order};
use chorus::calendar::{days_from_civil, format_date, format_timestamp, unix_now_us};
use chorus::command::{decode_command, encode_command, COMMAND_VERSION};
use chorus::datum::{Datum, FloatTexts, SqlType};
use chorus::error::{checked_add_u64, ChorusError, CodecError, SqlError};
use chorus::ids::{hash32, sha32, ClusterId, LogId, OriginId, RequestId};
use chorus::json::canonical_json;
use chorus::key::{
    encode_composite, encode_memcomparable, encode_memcomparable_desc, successor, PhysicalKey,
};
use chorus::limits::Limits;
use chorus::mutation::{canonical_mutations, payload_hash, KvMutationV1};
use chorus::names::NameMap;
use chorus::row::{encode_datum_v1, EncodedRowV1};
use chorus::snapshot::{
    decode_snapshot_body, is_logical_backup, LogicalSnapshot, SnapshotHeader, SNAPSHOT_BLOCK_BYTES,
};
use chorus::snapshot_stream::{snapshot_magic, snapshot_stream_magic, SnapshotFile};
use chorus::transport::{decode_rpc_payload, encode_rpc_payload, RpcPayloadDomain};

fn no_floats() -> FloatTexts {
    FloatTexts { entries: Vec::new() }
}

fn number(value: u64) -> serde_json::Value {
    serde_json::Value::from(value)
}

fn numbers(values: &[u64]) -> serde_json::Value {
    serde_json::Value::Array(values.iter().map(|value| number(*value)).collect())
}

fn octets(values: &[u8]) -> serde_json::Value {
    serde_json::Value::Array(values.iter().map(|value| number(u64::from(*value))).collect())
}

fn position(id: LogId) -> serde_json::Value {
    let mut map = serde_json::Map::new();
    map.insert("term".into(), number(id.term));
    map.insert("index".into(), number(id.index));
    serde_json::Value::Object(map)
}

fn header_value(header: &SnapshotHeader) -> serde_json::Value {
    let mut map = serde_json::Map::new();
    map.insert("format_version".into(), number(u64::from(header.format_version)));
    map.insert("cluster_id".into(), octets(&header.cluster_id));
    map.insert("cluster_incarnation".into(), number(header.cluster_incarnation));
    map.insert("last_included".into(), position(header.last_included));
    map.insert("membership_log_id".into(), position(header.membership_log_id));
    map.insert("voters".into(), numbers(&header.voters));
    map.insert("learners".into(), numbers(&header.learners));
    map.insert("db_epoch".into(), number(header.db_epoch));
    map.insert("catalog_epoch".into(), number(header.catalog_epoch));
    map.insert("entry_count".into(), number(header.entry_count));
    map.insert("uncompressed_bytes".into(), number(header.uncompressed_bytes));
    map.insert("digest".into(), octets(&header.digest));
    serde_json::Value::Object(map)
}

fn read_number(value: &serde_json::Value) -> u64 {
    value.as_u64().unwrap()
}

fn read_numbers(value: &serde_json::Value) -> Vec<u64> {
    value.as_array().unwrap().iter().map(read_number).collect()
}

fn read_octets(value: &serde_json::Value) -> Vec<u8> {
    value.as_array().unwrap().iter().map(|item| read_number(item) as u8).collect()
}

fn read_position(value: &serde_json::Value) -> LogId {
    LogId { term: read_number(&value["term"]), index: read_number(&value["index"]) }
}

fn read_header(value: &serde_json::Value) -> SnapshotHeader {
    SnapshotHeader {
        format_version: read_number(&value["format_version"]) as u16,
        cluster_id: read_octets(&value["cluster_id"]).try_into().unwrap(),
        cluster_incarnation: read_number(&value["cluster_incarnation"]),
        last_included: read_position(&value["last_included"]),
        membership_log_id: read_position(&value["membership_log_id"]),
        voters: read_numbers(&value["voters"]),
        learners: read_numbers(&value["learners"]),
        db_epoch: read_number(&value["db_epoch"]),
        catalog_epoch: read_number(&value["catalog_epoch"]),
        entry_count: read_number(&value["entry_count"]),
        uncompressed_bytes: read_number(&value["uncompressed_bytes"]),
        digest: read_octets(&value["digest"]).try_into().unwrap(),
    }
}

fn encode(snapshot: &LogicalSnapshot) -> Vec<u8> {
    let header = serde_json::to_vec(&header_value(&snapshot.header)).unwrap();
    snapshot.encode(&header).unwrap()
}

fn decode(bytes: &[u8]) -> Result<LogicalSnapshot, String> {
    match SnapshotFile::open(bytes).map_err(|error| error.text())? {
        SnapshotFile::Stream { header_json, rest } => {
            let value: serde_json::Value =
                serde_json::from_slice(&header_json).map_err(|error| error.to_string())?;
            LogicalSnapshot::decode_stream(read_header(&value), &rest).map_err(|error| error.text())
        }
        SnapshotFile::Legacy { json } => {
            let value: serde_json::Value =
                serde_json::from_slice(&json).map_err(|error| error.to_string())?;
            let mut meta = NameMap::new();
            for (name, bytes) in value["meta"].as_object().unwrap() {
                meta.insert(name.clone(), read_octets(bytes));
            }
            let entries = value["entries"]
                .as_array()
                .unwrap()
                .iter()
                .map(|entry| (read_octets(&entry[0]), read_octets(&entry[1])))
                .collect();
            let snapshot = LogicalSnapshot { header: read_header(&value["header"]), meta, entries };
            snapshot.validate().map_err(|error| error.text())?;
            Ok(snapshot)
        }
    }
}

fn table(entries: Vec<(&str, Vec<u8>)>) -> NameMap<Vec<u8>> {
    let mut map = NameMap::new();
    for (name, value) in entries {
        map.insert(name.to_string(), value);
    }
    map
}

fn sample(meta: NameMap<Vec<u8>>, entries: Vec<(Vec<u8>, Vec<u8>)>) -> LogicalSnapshot {
    LogicalSnapshot::try_new(
        [7; 16],
        3,
        LogId { term: 2, index: 9 },
        LogId { term: 2, index: 4 },
        vec![1, 2, 3],
        vec![4],
        11,
        5,
        meta,
        entries,
    )
    .unwrap()
}

#[test]
fn row_roundtrip_and_order() {
    let row =
        EncodedRowV1::new(3, vec![(2, Datum::Text("x".into())), (1, Datum::Int64(4))]).unwrap();
    let decoded = EncodedRowV1::decode(&row.encode().unwrap()).unwrap();
    assert_eq!(decoded, row);
    assert!(
        encode_memcomparable(&Datum::Int64(-1)).unwrap()
            < encode_memcomparable(&Datum::Int64(1)).unwrap()
    );
}

#[test]
fn composite_prefix_successor() {
    let k = encode_composite(&[Datum::Int32(1)], &[false]).unwrap();
    assert!(successor(&k).is_some());
}

#[test]
fn command_roundtrip() {
    let c = serde_json::to_vec(&serde_json::Value::String("Noop".into())).unwrap();
    assert_eq!(decode_command(&encode_command(&c).unwrap()).unwrap(), c);
}

#[test]
fn hash32_uses_the_pinned_blake3_vector() {
    assert_eq!(
        hash32(b""),
        [
            0xaf, 0x13, 0x49, 0xb9, 0xf5, 0xf9, 0xa1, 0xa6, 0xa0, 0x40, 0x4d, 0xea, 0x36, 0xdc,
            0xc9, 0x49, 0x9b, 0xcb, 0x25, 0xc9, 0xad, 0xc1, 0x12, 0xb7, 0xcc, 0x9a, 0x93, 0xca,
            0xe4, 0x1f, 0x32, 0x62,
        ]
    );
}

#[test]
fn snapshot_stream_roundtrip_checks_blocks_and_reads_legacy_format() {
    let large_meta = vec![0x5a; SNAPSHOT_BLOCK_BYTES + 123];
    let snapshot = LogicalSnapshot::try_new(
        [7; 16],
        3,
        LogId { term: 2, index: 9 },
        LogId { term: 2, index: 4 },
        vec![1, 2, 3],
        vec![4],
        11,
        5,
        table(vec![("state", large_meta)]),
        vec![(vec![0x20, 0, 0, 0, 1], b"row".to_vec())],
    )
    .unwrap();
    assert!(snapshot.body().unwrap().len() > SNAPSHOT_BLOCK_BYTES);
    let encoded = encode(&snapshot);
    assert_eq!(&encoded[..16], snapshot_stream_magic());
    assert_eq!(snapshot, decode(&encoded).unwrap());

    let mut tampered = encoded.clone();
    let middle = tampered.len() / 2;
    tampered[middle] ^= 1;
    assert!(decode(&tampered).is_err());

    let mut meta = serde_json::Map::new();
    for at in 0..snapshot.meta.len() {
        meta.insert(snapshot.meta.name_at(at).into(), octets(snapshot.meta.value_at(at)));
    }
    let entries = snapshot
        .entries
        .iter()
        .map(|(key, value)| serde_json::Value::Array(vec![octets(key), octets(value)]))
        .collect();
    let mut map = serde_json::Map::new();
    map.insert("header".into(), header_value(&snapshot.header));
    map.insert("meta".into(), serde_json::Value::Object(meta));
    map.insert("entries".into(), serde_json::Value::Array(entries));
    let legacy_json = serde_json::to_vec(&serde_json::Value::Object(map)).unwrap();
    let mut legacy = snapshot_magic().to_vec();
    legacy.extend_from_slice(&(legacy_json.len() as u32).to_be_bytes());
    legacy.extend_from_slice(&legacy_json);
    legacy.extend_from_slice(&hash32(&legacy_json));
    assert_eq!(snapshot, decode(&legacy).unwrap());
}

#[test]
fn null_and_nan_order_is_deterministic() {
    assert!(Datum::Null < Datum::Int64(1));
    assert!(Datum::Float64(f64::NAN.to_bits()) > Datum::Float64(100.0f64.to_bits()));
    assert_eq!(Datum::Float64(f64::NAN.to_bits()), Datum::Float64(f64::NAN.to_bits()));
}

#[test]
fn json_is_canonicalized() {
    assert_eq!(
        Datum::canonical_json(r#"{"b":1,"a":2}"#).unwrap(),
        r#"{"a":2,"b":1}"#
    );
}

#[test]
fn temporal_text_is_stable() {
    assert_eq!(format_date(0), "1970-01-01");
    assert_eq!(format_date(19_723), "2024-01-01");
    assert_eq!(format_timestamp(1_704_067_200_123_000), "2024-01-01 00:00:00.123");
    assert_eq!(Datum::Date(0).display_text(&no_floats()), "1970-01-01");
}

#[test]
fn canonical_json_sorts_nests_and_reports_faults() {
    assert_eq!(
        canonical_json(" { \"z\" : [1, {\"y\":null,\"x\":true}], \"a\" : \"q\\\"\\n\" } ").unwrap(),
        "{\"a\":\"q\\\"\\n\",\"z\":[1,{\"x\":true,\"y\":null}]}"
    );
    let fault = canonical_json("{").unwrap_err();
    assert_eq!(fault.code, "22P02");
    assert!(!fault.message.is_empty());
}

#[test]
fn digests_differ_from_their_input() {
    // The digest of the three bytes `abc`.
    let digest = sha32(b"abc");
    assert_eq!(digest[..4], [0xba, 0x78, 0x16, 0xbf]);
    assert_eq!(digest[28..], [0xf2, 0x00, 0x15, 0xad]);
    let blake = hash32(b"abc");
    assert_eq!(blake[..4], [0x64, 0x37, 0xb3, 0xac]);
}

#[test]
fn cluster_names_have_short_stable_identities() {
    let id = ClusterId::from_name("chorus-local");
    assert_eq!(id, ClusterId::from_name("chorus-local"));
    assert_ne!(id, ClusterId::from_name("chorus-other"));
    assert_eq!(id.0[..], sha32(b"chorus-cluster-v1\0chorus-local")[..16]);
    assert_eq!(id.text().len(), 32);
}

#[test]
fn origins_of_two_runs_differ() {
    let first = OriginId::new(4);
    let second = OriginId::new(4);
    assert_eq!(first.node_id, 4);
    assert_ne!(first, second);
    assert_eq!(first.boot_nonce[6] >> 4, 4);
    assert_eq!(first.boot_nonce[8] >> 6, 2);
    let fixed = OriginId::with_nonce(4, [9; 16]);
    assert_eq!(RequestId::new(fixed, 2).origin.boot_nonce, [9; 16]);
}

#[test]
fn mutations_are_ordered_and_told_apart() {
    let put = |key: &[u8], value: &[u8]| KvMutationV1::Put { key: key.to_vec(), value: value.to_vec() };
    let a = canonical_mutations(&[put(b"b", b"2"), put(b"a", b"1")]).unwrap();
    let b = canonical_mutations(&[put(b"a", b"1"), put(b"b", b"2")]).unwrap();
    assert_eq!(a, b);
    let other = canonical_mutations(&[put(b"a", b"1"), KvMutationV1::Delete { key: b"b".to_vec() }]);
    assert_ne!(a, other.unwrap());
    let id = RequestId::new(OriginId::with_nonce(1, [0; 16]), 1);
    let next = RequestId::new(OriginId::with_nonce(1, [0; 16]), 2);
    assert_ne!(payload_hash(1, &id, 0, &a), payload_hash(1, &next, 0, &a));
    assert_ne!(payload_hash(1, &id, 0, &a), payload_hash(1, &id, 1, &a));
}

#[test]
fn oversized_mutations_are_refused() {
    let put = KvMutationV1::Put { key: vec![1], value: vec![0; 5 * 1024 * 1024] };
    assert!(matches!(canonical_mutations(&[put]), Err(CodecError::Limit(_))));
    let put = |len| KvMutationV1::Put { key: vec![1], value: vec![0; len] };
    let fits = put(4 * 1024 * 1024 - 4 - 10);
    assert_eq!(fits.encoded_len(), 4 * 1024 * 1024 - 4);
    assert_eq!(canonical_mutations(&[fits]).unwrap().len(), 4 * 1024 * 1024);
    let over = put(4 * 1024 * 1024 - 4 - 9);
    assert!(matches!(canonical_mutations(&[over]), Err(CodecError::Limit(_))));
}

#[test]
fn rows_keep_every_kind_of_value() {
    let values = vec![
        (1, Datum::Null),
        (2, Datum::Boolean(true)),
        (3, Datum::Int16(-7)),
        (4, Datum::Int32(70_000)),
        (5, Datum::Int64(i64::MIN)),
        (6, Datum::Float64(1.5f64.to_bits())),
        (7, Datum::Text("héllo".into())),
        (8, Datum::Bytes(vec![0, 255])),
        (9, Datum::Date(-1)),
        (10, Datum::Timestamp(5)),
        (11, Datum::TimestampTz(-5)),
        (12, Datum::Uuid([3; 16])),
        (13, Datum::Jsonb("{\"a\":2}".into())),
    ];
    let row = EncodedRowV1::new(1, values).unwrap();
    let read = EncodedRowV1::decode(&row.encode().unwrap()).unwrap();
    assert_eq!(read, row);
    assert_eq!(read.get(7), Some(&Datum::Text("héllo".into())));
    assert_eq!(read.get(99), None);
    assert!(EncodedRowV1::new(1, vec![(1, Datum::Null), (1, Datum::Null)]).is_err());
    let text = r#" { "b" : [ 1, -2, "\u0007\"" ], "a" : { "d" : null, "c" : true } } "#;
    let row = EncodedRowV1::new(1, vec![(1, Datum::Jsonb(text.into()))]).unwrap();
    let written = r#"{"a":{"c":true,"d":null},"b":[1,-2,"\u0007\""]}"#;
    assert_eq!(row.get(1), Some(&Datum::Jsonb(written.into())));
    assert_eq!(Datum::canonical_json(written).unwrap(), written);
    assert_eq!(EncodedRowV1::decode(&row.encode().unwrap()).unwrap(), row);
}

#[test]
fn rows_that_are_cut_off_or_tagged_wrongly_are_refused() {
    let row = EncodedRowV1::new(1, vec![(1, Datum::Int64(4))]).unwrap();
    let bytes = row.encode().unwrap();
    assert_eq!(EncodedRowV1::decode(&bytes[..bytes.len() - 1]), Err(CodecError::Truncated));
    for n in 0..bytes.len() {
        assert!(EncodedRowV1::decode(&bytes[..n]).is_err());
    }
    let mut longer = bytes.clone();
    longer.push(0);
    assert!(matches!(EncodedRowV1::decode(&longer), Err(CodecError::Malformed(_))));
    let mut version = bytes.clone();
    version[0] = 9;
    assert!(matches!(EncodedRowV1::decode(&version), Err(CodecError::InvalidVersion(_))));
    assert_eq!(encode_datum_v1(&Datum::Boolean(true)).unwrap().len(), 6);
}

#[test]
fn keys_stand_in_the_order_of_their_values() {
    let mut values = vec![
        Datum::Null,
        Datum::Boolean(false),
        Datum::Boolean(true),
        Datum::Int64(i64::MIN),
        Datum::Int64(-1),
        Datum::Int64(0),
        Datum::Int64(7),
        Datum::Float64((-1.5f64).to_bits()),
        Datum::Float64(2.5f64.to_bits()),
        Datum::Float64(f64::NAN.to_bits()),
        Datum::Text("".into()),
        Datum::Text("a".into()),
        Datum::Text("a\0b".into()),
        Datum::Text("b".into()),
        Datum::Bytes(vec![]),
        Datum::Bytes(vec![255]),
        Datum::Date(-1),
        Datum::Date(0),
        Datum::Timestamp(-7),
        Datum::Timestamp(0),
        Datum::TimestampTz(-7),
        Datum::Uuid([0; 16]),
        Datum::Uuid([9; 16]),
        Datum::Jsonb("1".into()),
    ];
    for pair in values.windows(2) {
        assert!(pair[0] < pair[1]);
    }
    let keys: Vec<_> = values.iter().map(|v| encode_memcomparable(v).unwrap()).collect();
    for pair in keys.windows(2) {
        assert!(pair[0] < pair[1]);
    }
    let down: Vec<_> =
        values.drain(3..7).map(|v| encode_memcomparable_desc(&v).unwrap()).collect();
    for pair in down.windows(2) {
        assert!(pair[0] > pair[1]);
    }
    let ab = encode_composite(&[Datum::Int32(1), Datum::Text("b".into())], &[false, false]).unwrap();
    let aa = encode_composite(&[Datum::Int32(1), Datum::Text("a".into())], &[false, false]).unwrap();
    assert!(aa < ab);
}

#[test]
fn successors_end_the_range_of_a_prefix() {
    assert_eq!(successor(&[1, 2, 255]), Some(vec![1, 3]));
    assert_eq!(successor(&[255, 255]), None);
    assert_eq!(successor(&[]), None);
}

#[test]
fn physical_keys_are_bounded() {
    assert!(PhysicalKey::new(vec![0; 8192]).is_ok());
    assert!(matches!(PhysicalKey::new(vec![0; 8193]), Err(CodecError::Limit(_))));
    assert!(PhysicalKey::row(5, b"k").unwrap().as_bytes().len() > 1);
}

#[test]
fn commands_are_framed_and_checked() {
    let frame = encode_command(b"{}").unwrap();
    assert_eq!(frame[0], COMMAND_VERSION);
    let mut wrong = frame.clone();
    wrong[0] = 77;
    assert_eq!(decode_command(&wrong), Err(CodecError::InvalidVersion(77)));
    assert!(decode_command(&frame[..3]).is_err());
}

#[test]
fn snapshot_bodies_read_back_and_are_compressed() {
    let snapshot = sample(
        table(vec![("b", vec![2; 4000]), ("a", vec![1])]),
        vec![(vec![9], vec![1]), (vec![3], vec![2])],
    );
    let (meta, entries) = decode_snapshot_body(&snapshot.body().unwrap()).unwrap();
    assert_eq!(meta, snapshot.meta);
    assert_eq!(entries, vec![(vec![3], vec![2]), (vec![9], vec![1])]);
    let encoded = encode(&snapshot);
    assert!(encoded.len() < 4000, "the stream holds compressed blocks");
    assert_eq!(decode(&encoded).unwrap(), snapshot);
    assert!(!is_logical_backup(&snapshot));
}

#[test]
fn snapshots_with_overlapping_members_are_refused() {
    let made = LogicalSnapshot::try_new(
        [7; 16],
        3,
        LogId { term: 2, index: 9 },
        LogId { term: 2, index: 4 },
        vec![1, 2, 3],
        vec![3],
        11,
        5,
        NameMap::new(),
        Vec::new(),
    );
    assert!(made.is_err());
    assert!(SnapshotFile::open(b"short").is_err());
}

#[test]
fn values_show_their_texts_and_types() {
    let floats = FloatTexts { entries: vec![(1.5f64.to_bits(), "1.5".into())] };
    assert_eq!(Datum::Float64(1.5f64.to_bits()).display_text(&floats), "1.5");
    assert_eq!(Datum::Bytes(vec![1, 255]).display_text(&floats), "\\x01ff");
    assert_eq!(Datum::Boolean(true).display_text(&floats), "true");
    assert_eq!(
        Datum::Uuid([0x11; 16]).display_text(&floats),
        "11111111-1111-1111-1111-111111111111"
    );
    assert_eq!(Datum::Int32(-5).as_i64(), Some(-5));
    assert_eq!(Datum::Text("x".into()).as_text(), Some("x"));
    assert_eq!(Datum::Boolean(false).truthy(), Some(false));
    assert_eq!(Datum::Null.sql_type(), None);
    assert_eq!(Datum::Int16(1).sql_type(), Some(SqlType::SmallInt));
    assert_eq!(SqlType::Jsonb.oid(), 3802);
    assert_eq!(Datum::Int64(1).compare(&Datum::Int64(2)), Order::Less);
    assert_eq!(compare_bytes(b"ab", b"b"), Order::Less);
}

#[test]
fn the_calendar_counts_days() {
    assert_eq!(format_date(days_from_civil(2000, 2, 29).unwrap() as i32), "2000-02-29");
    assert_eq!(days_from_civil(2000, 1, 1), Some(10_957));
    assert_eq!(days_from_civil(1969, 12, 31), Some(-1));
    assert_eq!(format_date(-1), "1969-12-31");
    assert!(unix_now_us() > 1_600_000_000_000_000);
}

#[test]
fn errors_show_their_parts() {
    let error = SqlError::new("42P01", "no table").detail("d").hint("h").at(3);
    assert_eq!(error.detail.as_deref(), Some("d"));
    assert_eq!(error.hint.as_deref(), Some("h"));
    assert_eq!(error.position, Some(3));
    assert_eq!(SqlError::failed_transaction().code, "25P02");
    assert_eq!(SqlError::cluster_unavailable("x").code, "57P03");
    assert_eq!(SqlError::serialization("x").code, "40001");
    assert_eq!(CodecError::Limit("a\"b".into()).text(), "Limit(\"a\\\"b\")");
    assert!(matches!(CodecError::Truncated.into_chorus(), ChorusError::Serialization(_)));
    assert_eq!(checked_add_u64(1, 2, "x").unwrap(), 3);
    assert!(matches!(checked_add_u64(u64::MAX, 1, "x"), Err(ChorusError::Limit(_))));
    assert_eq!(Limits::default().max_connections, 32);
}

#[test]
fn snapshot_files_have_one_end() {
    let snapshot = sample(table(vec![("state", vec![1])]), vec![(b"k".to_vec(), b"v".to_vec())]);
    let encoded = encode(&snapshot);
    assert_eq!(decode(&encoded).unwrap(), snapshot);
    let mut longer = encoded.clone();
    longer.push(0);
    assert!(decode(&longer).is_err());
    for cut in 1..40 {
        assert!(decode(&encoded[..encoded.len() - cut]).is_err());
    }
}

#[test]
fn payloads_are_kept_whole() {
    let domain = RpcPayloadDomain::AppendEntriesRequest;
    let encoded = encode_rpc_payload(domain, b"body").unwrap();
    assert_eq!(encoded.len(), 14 + 4 + 32);
    assert_eq!(decode_rpc_payload(domain, &encoded).unwrap(), b"body");
    assert!(decode_rpc_payload(RpcPayloadDomain::VoteRequest, &encoded).is_err());
    for at in 0..encoded.len() {
        let mut changed = encoded.clone();
        changed[at] ^= 1;
        assert!(decode_rpc_payload(domain, &changed).is_err());
        assert!(decode_rpc_payload(domain, &encoded[..at]).is_err());
    }
    let mut longer = encoded.clone();
    longer.push(0);
    assert!(decode_rpc_payload(domain, &longer).is_err());
}
