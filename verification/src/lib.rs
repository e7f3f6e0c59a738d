//! Chorus: the verified core of a small replicated SQL node.

pub mod address;
pub mod address_laws;
pub mod appending;
pub mod backup;
pub mod bytes;
pub mod calendar;
pub mod cluster;
pub mod codec_laws;
pub mod command;
pub mod config;
pub mod config_error;
pub mod config_laws;
pub mod datum;
pub mod datum_order;
pub mod endpoint;
pub mod error;
pub mod files;
pub mod identity;
pub mod forwarding;
pub mod ids;
pub mod json;
pub mod json_laws;
pub mod key;
pub mod key_order;
pub mod limits;
pub mod manifest;
pub mod manifest_laws;
pub mod members;
pub mod membership;
pub mod membership_laws;
pub mod mutation;
pub mod names;
pub mod network;
pub mod network_laws;
pub mod node_args;
pub mod node_identity;
pub mod node_laws;
pub mod node_map;
pub mod node_plan;
pub mod node_run;
pub mod opening;
pub mod peers;
pub mod pem;
pub mod pg_client_laws;
pub mod pg_decode;
pub mod pg_execute;
pub mod pg_fields;
pub mod pg_gateway_laws;
pub mod pg_laws;
pub mod pg_message;
pub mod pg_query;
pub mod pg_retained;
pub mod pg_server;
pub mod pg_session;
pub mod pg_startup;
pub mod pg_text;
pub mod pg_text_laws;
pub mod pg_values;
pub mod pg_wire_laws;
pub mod progress_laws;
pub mod proposal;
pub mod raft_log;
pub mod reading;
pub mod refusal_laws;
pub mod replay;
pub mod replication;
pub mod report_laws;
pub mod row;
pub mod rpc;
pub mod runtime;
pub mod runtime_laws;
pub mod runtime_machine;
pub mod signed_load;
pub mod signing_laws;
pub mod snapshot;
pub mod snapshot_laws;
pub mod snapshot_stream;
pub mod sorting;
pub mod status;
pub mod stream_laws;
pub mod text;
pub mod transport;
pub mod transport_laws;
pub mod value_laws;
pub mod wire;
