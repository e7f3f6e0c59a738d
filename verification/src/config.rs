//! The configuration of a node: its parts, their defaults, and what must hold
//! before a node opens its listeners.

use crate::address::{read_address, SocketAddress, SocketAddressView};
use crate::config_error::{
    both, invalid, refuse, refused, verdict, ConfigError, ConfigErrorView, Verdict,
};
use crate::error::optional_text;
use crate::endpoint::{
    decode_lower_hex, decode_sha256, dns_name_fault, endpoint_outcome, hex_bytes, is_sha256_text,
    lower_hex_outcome, parse_initial_endpoint, validate_dns_name,
};
use crate::files::{
    join_path, path_join, tls_file_verdict, validate_tls_file, FileLook,
};
use crate::ids::{cluster_name_bytes, sha_of, ClusterId};
use crate::limits::Limits;
use crate::members::has_id;
use crate::text::{
    digits, digits_text, joined, joined3, owned, same_text, text_bytes, text_chars, trim_chars,
    trimmed,
};
use vstd::prelude::*;
use vstd::string::*;
use vstd::utf8::encode_utf8;

verus! {

pub const MAX_CLUSTER_ID_BYTES: usize = 128;

pub const MAX_REPLICAS: usize = 16;

pub const MAX_VOTERS: usize = 5;

pub const MAX_CONNECTIONS: usize = 1024;

pub const MAX_QUERY_WORKERS: usize = 64;

pub const MAX_ROW_BYTES: usize = 1_048_576;

pub const MAX_TRANSACTION_BYTES: usize = 67_108_864;

pub const MAX_SQL_MESSAGE_BYTES: usize = 16_777_216;

pub const MAX_RETURNING_BYTES: usize = 67_108_864;

pub const MANIFEST_FORMAT_VERSION: u16 = 1;

/// Where and to how many clients a node speaks the PostgreSQL protocol.
#[derive(Clone, Debug)]
pub struct PostgresConfig {
    pub unix_socket_dir: Option<String>,
    pub listen: Option<String>,
    pub remote_listen: Option<String>,
    pub auth_file: Option<String>,
    pub max_connections: usize,
}

impl PostgresConfig {
    pub open spec fn is_standard(self) -> bool {
        &&& self.unix_socket_dir matches Some(dir) && dir@ == "/run/chorus"@
        &&& self.listen matches Some(listen) && listen@ == "127.0.0.1:5432"@
        &&& self.remote_listen is None
        &&& self.auth_file is None
        &&& self.max_connections == 32
    }
}

impl Default for PostgresConfig {
    fn default() -> (config: Self)
        ensures
            config.is_standard(),
    {
        PostgresConfig {
            unix_socket_dir: Some(owned("/run/chorus")),
            listen: Some(owned("127.0.0.1:5432")),
            remote_listen: None,
            auth_file: None,
            max_connections: 32,
        }
    }
}

/// How a node takes part in consensus.
#[derive(Clone, Debug)]
pub struct RaftConfig {
    pub listen: String,
    pub heartbeat_ms: u64,
    pub election_timeout_min_ms: u64,
    pub election_timeout_max_ms: u64,
    pub snapshot_entries: u64,
    pub snapshot_log_bytes: u64,
    pub max_message_bytes: usize,
    pub rpc_queue_capacity: usize,
}

impl RaftConfig {
    pub open spec fn is_standard(self) -> bool {
        &&& self.listen@ == "0.0.0.0:7001"@
        &&& self.heartbeat_ms == 250
        &&& self.election_timeout_min_ms == 1200
        &&& self.election_timeout_max_ms == 2400
        &&& self.snapshot_entries == 50_000
        &&& self.snapshot_log_bytes == 134_217_728
        &&& self.max_message_bytes == 8_388_608
        &&& self.rpc_queue_capacity == 128
    }
}

impl Default for RaftConfig {
    fn default() -> (config: Self)
        ensures
            config.is_standard(),
    {
        RaftConfig {
            listen: owned("0.0.0.0:7001"),
            heartbeat_ms: 250,
            election_timeout_min_ms: 1200,
            election_timeout_max_ms: 2400,
            snapshot_entries: 50_000,
            snapshot_log_bytes: 134_217_728,
            max_message_bytes: 8_388_608,
            rpc_queue_capacity: 128,
        }
    }
}

/// What a node may keep in memory and on disk.
#[derive(Clone, Debug)]
pub struct StorageConfig {
    pub state_cache_bytes: usize,
    pub raft_cache_bytes: usize,
    pub state_apply_durability: String,
    pub checkpoint_interval_ms: u64,
    pub checkpoint_commits: u64,
    pub snapshot_chunk_bytes: usize,
    pub snapshot_bandwidth_bytes_per_sec: usize,
    pub data_dir_budget_bytes: u64,
    pub low_space_watermark_bytes: u64,
    pub low_space_watermark_percent: u8,
}

impl StorageConfig {
    pub open spec fn is_standard(self) -> bool {
        &&& self.state_cache_bytes == 33_554_432
        &&& self.raft_cache_bytes == 8_388_608
        &&& self.state_apply_durability@ == "immediate"@
        &&& self.checkpoint_interval_ms == 250
        &&& self.checkpoint_commits == 128
        &&& self.snapshot_chunk_bytes == 1_048_576
        &&& self.snapshot_bandwidth_bytes_per_sec == 20_971_520
        &&& self.data_dir_budget_bytes == 4_294_967_296
        &&& self.low_space_watermark_bytes == 536_870_912
        &&& self.low_space_watermark_percent == 10
    }
}

impl Default for StorageConfig {
    fn default() -> (config: Self)
        ensures
            config.is_standard(),
    {
        StorageConfig {
            state_cache_bytes: 33_554_432,
            raft_cache_bytes: 8_388_608,
            state_apply_durability: owned("immediate"),
            checkpoint_interval_ms: 250,
            checkpoint_commits: 128,
            snapshot_chunk_bytes: 1_048_576,
            snapshot_bandwidth_bytes_per_sec: 20_971_520,
            data_dir_budget_bytes: 4_294_967_296,
            low_space_watermark_bytes: 536_870_912,
            low_space_watermark_percent: 10,
        }
    }
}

/// The paths of a node's TLS files.
#[derive(Clone, Debug)]
pub struct TlsConfig {
    pub ca: Option<String>,
    pub certificate: Option<String>,
    pub private_key: Option<String>,
}

impl Default for TlsConfig {
    fn default() -> (config: Self)
        ensures
            config.ca is None,
            config.certificate is None,
            config.private_key is None,
    {
        TlsConfig { ca: None, certificate: None, private_key: None }
    }
}

impl TlsConfig {
    pub open spec fn has_some(self) -> bool {
        self.ca is Some || self.certificate is Some || self.private_key is Some
    }

    pub open spec fn has_all(self) -> bool {
        self.ca is Some && self.certificate is Some && self.private_key is Some
    }

    /// Whether any TLS file is given.
    pub fn configured(&self) -> (configured: bool)
        ensures
            configured == self.has_some(),
    {
        self.ca.is_some() || self.certificate.is_some() || self.private_key.is_some()
    }

    /// Whether every TLS file is given.
    pub fn complete(&self) -> (complete: bool)
        ensures
            complete == self.has_all(),
    {
        self.ca.is_some() && self.certificate.is_some() && self.private_key.is_some()
    }
}

/// A node that the cluster starts with.
#[derive(Clone, Debug)]
pub struct InitialNode {
    pub node_id: u64,
    /// A bare socket address, or `https://IP:PORT` between authenticated
    /// peers.
    pub endpoint: String,
    pub voter: bool,
    /// The DNS name that the node's leaf certificate must carry.
    pub tls_dns_name: Option<String>,
    /// The SHA-256 digest of the leaf certificate in hexadecimal notation.
    pub tls_leaf_sha256: Option<String>,
}

/// What an [`InitialNode`] says.
#[verifier::ext_equal]
pub struct InitialNodeView {
    pub node_id: u64,
    pub endpoint: Seq<char>,
    pub voter: bool,
    pub tls_dns_name: Option<Seq<char>>,
    pub tls_leaf_sha256: Option<Seq<char>>,
}

impl View for InitialNode {
    type V = InitialNodeView;

    open spec fn view(&self) -> InitialNodeView {
        InitialNodeView {
            node_id: self.node_id,
            endpoint: self.endpoint@,
            voter: self.voter,
            tls_dns_name: optional_text(self.tls_dns_name),
            tls_leaf_sha256: optional_text(self.tls_leaf_sha256),
        }
    }
}

impl Default for InitialNode {
    fn default() -> (node: Self)
        ensures
            node.node_id == 0,
            node.endpoint@.len() == 0,
            !node.voter,
            node.tls_dns_name is None,
            node.tls_leaf_sha256 is None,
    {
        InitialNode {
            node_id: 0,
            endpoint: String::new(),
            voter: false,
            tls_dns_name: None,
            tls_leaf_sha256: None,
        }
    }
}

/// A copy of an optional text.
pub fn copy_optional(text: &Option<String>) -> (copy: Option<String>)
    ensures
        optional_text(copy) == optional_text(*text),
{
    match text {
        Some(text) => Some(owned(text.as_str())),
        None => None,
    }
}

/// The start of a message about a node.
pub open spec fn node_label(node_id: u64, rest: Seq<char>) -> Seq<char> {
    "initial node "@ + digits(node_id as nat) + rest
}

fn node_text(node_id: u64, rest: &str) -> (text: String)
    ensures
        text@ == node_label(node_id, rest@),
{
    joined3("initial node ", digits_text(node_id).as_str(), rest)
}

/// The fingerprint that a node's configuration gives.
pub open spec fn fingerprint_outcome(node: InitialNodeView) -> Result<Seq<u8>, ConfigErrorView> {
    match node.tls_leaf_sha256 {
        None => Err(
            ConfigErrorView::Invalid(node_label(node.node_id, " is missing tls_leaf_sha256"@)),
        ),
        Some(text) => if is_sha256_text(text) {
            Ok(hex_bytes(text))
        } else {
            Err(
                ConfigErrorView::Invalid(
                    node_label(
                        node.node_id,
                        " tls_leaf_sha256 "@ + "must be exactly 64 hexadecimal characters"@,
                    ),
                ),
            )
        },
    }
}

impl InitialNode {
    /// A copy of the node.
    pub fn copied(&self) -> (copy: InitialNode)
        ensures
            copy@ == self@,
    {
        InitialNode {
            node_id: self.node_id,
            endpoint: owned(self.endpoint.as_str()),
            voter: self.voter,
            tls_dns_name: copy_optional(&self.tls_dns_name),
            tls_leaf_sha256: copy_optional(&self.tls_leaf_sha256),
        }
    }

    /// The address of the endpoint.
    pub fn endpoint_socket_addr(&self) -> (result: Result<SocketAddress, ConfigError>)
        ensures
            match result {
                Ok(address) => endpoint_outcome(self.endpoint@) matches Ok((a, _)) && a == address@,
                Err(e) => endpoint_outcome(self.endpoint@) == Err::<(SocketAddressView, bool), _>(
                    e@,
                ),
            },
    {
        match parse_initial_endpoint(self.endpoint.as_str()) {
            Ok((address, _)) => Ok(address),
            Err(e) => Err(e),
        }
    }

    /// The fingerprint of the leaf certificate.
    pub fn tls_leaf_fingerprint(&self) -> (result: Result<[u8; 32], ConfigError>)
        ensures
            match result {
                Ok(digest) => fingerprint_outcome(self@) == Ok::<_, ConfigErrorView>(digest@),
                Err(e) => fingerprint_outcome(self@) == Err::<Seq<u8>, _>(e@),
            },
    {
        match &self.tls_leaf_sha256 {
            None => Err(
                ConfigError::Invalid(node_text(self.node_id, " is missing tls_leaf_sha256")),
            ),
            Some(text) => match decode_sha256(text.as_str()) {
                Ok(digest) => Ok(digest),
                Err(message) => Err(
                    ConfigError::Invalid(
                        node_text(self.node_id, joined(" tls_leaf_sha256 ", message).as_str()),
                    ),
                ),
            },
        }
    }
}

/// The signature over what the initial nodes agree on.
#[derive(Clone, Debug, PartialEq, Eq)]
pub struct BootstrapManifestSignature {
    pub format_version: u16,
    pub algorithm: String,
    pub generation: u64,
    /// The SHA-256 digest of the 32-byte Ed25519 public key, in lower-case
    /// hexadecimal notation.
    pub key_id: String,
    /// The SHA-256 digest of the set of trusted certificates, in lower-case
    /// hexadecimal notation.
    pub ca_sha256: String,
    /// The 64-byte Ed25519 signature in lower-case hexadecimal notation. It is
    /// the one field that the signature does not cover.
    pub signature: String,
}

/// The proof that a manifest was verified against a trusted key.
#[derive(Clone, Debug, PartialEq, Eq)]
pub struct VerifiedOpenRaftManifest {
    pub format_version: u16,
    pub generation: u64,
    pub signer_key_id: [u8; 32],
    pub manifest_digest: [u8; 32],
}

/// What a configuration can show of its manifest's verification. Only
/// verifying a manifest makes one that shows it.
#[derive(Clone, Debug)]
pub struct ManifestCapability {
    verified: Option<VerifiedOpenRaftManifest>,
}

impl ManifestCapability {
    /// The verified manifest, where there is one.
    pub closed spec fn manifest(&self) -> Option<VerifiedOpenRaftManifest> {
        self.verified
    }

    /// Nothing was verified.
    pub fn none() -> (capability: ManifestCapability)
        ensures
            capability.manifest() is None,
    {
        ManifestCapability { verified: None }
    }

    pub(crate) fn of(verified: VerifiedOpenRaftManifest) -> (capability: ManifestCapability)
        ensures
            capability.manifest() == Some(verified),
    {
        ManifestCapability { verified: Some(verified) }
    }

    /// The verified manifest, where there is one.
    pub fn verified(&self) -> (verified: Option<&VerifiedOpenRaftManifest>)
        ensures
            match verified {
                Some(v) => self.manifest() == Some(*v),
                None => self.manifest() is None,
            },
    {
        self.verified.as_ref()
    }
}

/// The contents of a node's TLS files.
#[derive(Clone, Debug, PartialEq, Eq)]
pub struct TransportTlsMaterial {
    pub ca_pem: Vec<u8>,
    pub certificate_pem: Vec<u8>,
    pub private_key_pem: Vec<u8>,
}

/// What looking at the configured TLS files gave; `None` where no path is
/// configured.
#[derive(Debug)]
pub struct TlsFiles {
    pub ca: Option<FileLook>,
    pub certificate: Option<FileLook>,
    pub private_key: Option<FileLook>,
}

/// The configuration of a node.
#[derive(Clone, Debug)]
pub struct Config {
    pub cluster_id: String,
    pub cluster_incarnation: u64,
    pub node_id: u64,
    pub data_dir: String,
    pub postgres: PostgresConfig,
    pub raft: RaftConfig,
    pub storage: StorageConfig,
    pub limits: Limits,
    pub tls: TlsConfig,
    /// Allows peers to speak without TLS, for development only.
    pub allow_insecure_dev: bool,
    pub initial_nodes: Vec<InitialNode>,
    /// The signature over what the initial nodes share. A node's own number
    /// and paths are not part of it.
    pub bootstrap_manifest: Option<BootstrapManifestSignature>,
    /// Set only where the manifest was verified: no configuration text can
    /// claim it.
    pub capability: ManifestCapability,
}

// ---------------------------------------------------------------------------
// What a configuration must hold
// ---------------------------------------------------------------------------

/// Who the node is.
pub open spec fn identity_verdict(c: Config) -> Verdict {
    if trimmed(c.cluster_id@).len() == 0 {
        refused("cluster_id is empty"@)
    } else if encode_utf8(c.cluster_id@).len() > MAX_CLUSTER_ID_BYTES {
        refused("cluster_id exceeds 128 bytes"@)
    } else if c.cluster_incarnation == 0 {
        refused("cluster_incarnation must be nonzero"@)
    } else if c.node_id == 0 {
        refused("node_id must be nonzero"@)
    } else if c.data_dir@.len() == 0 {
        refused("data_dir is empty"@)
    } else {
        Ok(())
    }
}

/// Whether an earlier node has the same number.
pub open spec fn repeats_id(nodes: Seq<InitialNode>, i: int) -> bool {
    exists|j: int| 0 <= j < i && (#[trigger] nodes[j]).node_id == nodes[i].node_id
}

/// Whether an earlier node has the same address.
pub open spec fn repeats_endpoint(nodes: Seq<InitialNode>, i: int) -> bool {
    exists|j: int|
        0 <= j < i && endpoint_outcome((#[trigger] nodes[j]).endpoint@)->Ok_0.0
            == endpoint_outcome(nodes[i].endpoint@)->Ok_0.0
}

/// A DNS name and a fingerprint come together.
pub open spec fn node_tls_verdict(node: InitialNode) -> Verdict {
    match (node.tls_dns_name, node.tls_leaf_sha256) {
        (None, None) => Ok(()),
        (Some(name), Some(_)) => match dns_name_fault(name@) {
            Some(fault) => refused(node_label(node.node_id, " tls_dns_name "@ + fault)),
            None => match fingerprint_outcome(node@) {
                Ok(_) => Ok(()),
                Err(e) => Err(e),
            },
        },
        _ => refused(
            node_label(
                node.node_id,
                " tls_dns_name and tls_leaf_sha256 must be configured together"@,
            ),
        ),
    }
}

/// One initial node, given that those before it are in order.
pub open spec fn node_verdict(nodes: Seq<InitialNode>, i: int) -> Verdict {
    let node = nodes[i];
    if node.node_id == 0 {
        refused("initial_nodes contains node_id 0"@)
    } else if repeats_id(nodes, i) {
        refused("duplicate initial node id "@ + digits(node.node_id as nat))
    } else {
        match endpoint_outcome(node.endpoint@) {
            Err(e) => Err(e),
            Ok(_) => if repeats_endpoint(nodes, i) {
                refused("duplicate initial node endpoint "@ + node.endpoint@)
            } else {
                node_tls_verdict(node)
            },
        }
    }
}

/// The initial nodes from the `i`th on.
pub open spec fn nodes_verdict(nodes: Seq<InitialNode>, i: int) -> Verdict
    decreases nodes.len() - i,
{
    if i < 0 || i >= nodes.len() {
        Ok(())
    } else {
        both(node_verdict(nodes, i), nodes_verdict(nodes, i + 1))
    }
}

/// How many of the nodes vote.
pub open spec fn voter_count(nodes: Seq<InitialNode>) -> nat
    decreases nodes.len(),
{
    if nodes.len() == 0 {
        0
    } else {
        voter_count(nodes.drop_last()) + if nodes.last().voter {
            1nat
        } else {
            0nat
        }
    }
}

/// Whether one of the nodes has a number.
pub open spec fn lists_node(nodes: Seq<InitialNode>, node_id: u64) -> bool {
    exists|j: int| 0 <= j < nodes.len() && (#[trigger] nodes[j]).node_id == node_id
}

/// The cluster that the node starts in.
pub open spec fn cluster_verdict(c: Config) -> Verdict {
    let nodes = c.initial_nodes@;
    let voters = voter_count(nodes);
    if nodes.len() == 0 {
        refused("initial_nodes must contain at least the local node"@)
    } else if nodes.len() > MAX_REPLICAS {
        refused("initial_nodes exceeds the 16-replica limit"@)
    } else {
        both(
            nodes_verdict(nodes, 0),
            if !lists_node(nodes, c.node_id) {
                refused("node_id must be present in initial_nodes"@)
            } else if voters == 0 || voters > MAX_VOTERS || (voters > 1 && voters % 2 == 0) {
                refused("voting membership must have 1, 3, or 5 voters"@)
            } else {
                Ok(())
            },
        )
    }
}

/// Where the peers reach the node.
pub open spec fn raft_listen_verdict(c: Config) -> Verdict {
    match read_address(c.raft.listen@) {
        None => refused("raft.listen is not a socket address"@),
        Some(address) => if address.port == 0 {
            refused("raft.listen port must be nonzero"@)
        } else {
            Ok(())
        },
    }
}

/// An address that is written down; an empty text counts as none.
pub open spec fn given(text: Option<String>) -> Option<Seq<char>> {
    match text {
        Some(text) => if text@.len() == 0 {
            None
        } else {
            Some(text@)
        },
        None => None,
    }
}

pub open spec fn postgres_listen_verdict(p: PostgresConfig) -> Verdict {
    match given(p.listen) {
        None => Ok(()),
        Some(text) => match read_address(text) {
            None => refused("postgres.listen is not a socket address"@),
            Some(address) => if address.port == 0 {
                refused("postgres.listen port must be nonzero"@)
            } else if !address.is_loopback() {
                refused(
                    "remote PostgreSQL TCP requires TLS/authentication; non-loopback listen is unsupported"@,
                )
            } else {
                Ok(())
            },
        },
    }
}

pub open spec fn postgres_remote_verdict(p: PostgresConfig) -> Verdict {
    match given(p.remote_listen) {
        None => Ok(()),
        Some(text) => if read_address(text) is None {
            refused("postgres.remote_listen is not a socket address"@)
        } else {
            refused(
                "postgres remote TCP is unsupported until TLS and authentication are implemented"@,
            )
        },
    }
}

pub open spec fn postgres_files_verdict(p: PostgresConfig) -> Verdict {
    if p.auth_file is Some {
        refused(
            "postgres authentication configuration is unsupported by the current trust-only gateway"@,
        )
    } else {
        match p.unix_socket_dir {
            None => Ok(()),
            Some(dir) => if dir@.len() == 0 {
                refused("postgres.unix_socket_dir is empty"@)
            } else if encode_utf8(dir@).len() > 90 {
                refused("postgres.unix_socket_dir is too long for a Unix socket"@)
            } else {
                Ok(())
            },
        }
    }
}

/// Where clients reach the node, and how many of them.
pub open spec fn postgres_verdict(c: Config) -> Verdict {
    let p = c.postgres;
    if p.max_connections == 0 || p.max_connections > MAX_CONNECTIONS {
        refused("postgres.max_connections must be between 1 and 1024"@)
    } else if p.max_connections != c.limits.max_connections {
        refused("postgres.max_connections must equal limits.max_connections"@)
    } else {
        both(
            postgres_listen_verdict(p),
            both(postgres_remote_verdict(p), postgres_files_verdict(p)),
        )
    }
}

/// The timing and the bounds of consensus.
pub open spec fn raft_verdict(r: RaftConfig) -> Verdict {
    if !(0 < r.heartbeat_ms < r.election_timeout_min_ms < r.election_timeout_max_ms) {
        refused("raft timing values are invalid"@)
    } else if !(0 < r.snapshot_entries && 0 < r.snapshot_log_bytes && 0 < r.max_message_bytes
        <= MAX_SQL_MESSAGE_BYTES && 0 < r.rpc_queue_capacity <= 4096) {
        refused("raft snapshot/message/queue limits are invalid"@)
    } else {
        Ok(())
    }
}

/// Whether every limit is positive and within its bound.
pub open spec fn limits_hold(l: Limits) -> bool {
    &&& 0 < l.query_workers <= MAX_QUERY_WORKERS
    &&& 0 < l.max_active_queries <= l.max_connections <= MAX_CONNECTIONS
    &&& 0 < l.idle_in_transaction_timeout_ms <= l.max_transaction_age_ms
    &&& 0 < l.max_transaction_bytes <= MAX_TRANSACTION_BYTES
    &&& 0 < l.max_mutations
    &&& 0 < l.max_row_bytes <= MAX_ROW_BYTES
    &&& 0 < l.max_sql_message_bytes <= MAX_SQL_MESSAGE_BYTES
    &&& 0 < l.max_returning_bytes <= MAX_RETURNING_BYTES
    &&& 0 < l.max_key_bytes
    &&& 0 < l.max_indexed_value_bytes
    &&& 0 < l.query_work_mem_bytes <= l.global_work_mem_bytes
}

pub open spec fn limits_verdict(l: Limits) -> Verdict {
    if limits_hold(l) {
        Ok(())
    } else {
        refused("resource limits must be positive"@)
    }
}

/// Whether every storage setting is within its bounds.
pub open spec fn storage_holds(s: StorageConfig, max_message_bytes: usize) -> bool {
    &&& 0 < s.state_cache_bytes
    &&& 0 < s.raft_cache_bytes
    &&& 0 < s.checkpoint_interval_ms
    &&& 0 < s.checkpoint_commits
    &&& 0 < s.snapshot_chunk_bytes <= max_message_bytes
    &&& 0 < s.snapshot_bandwidth_bytes_per_sec
    &&& s.low_space_watermark_bytes < s.data_dir_budget_bytes
    &&& 0 < s.low_space_watermark_percent < 100
}

pub open spec fn storage_verdict(c: Config) -> Verdict {
    if !storage_holds(c.storage, c.raft.max_message_bytes) {
        refused("storage cache/checkpoint/snapshot/disk limits are invalid"@)
    } else if c.storage.state_apply_durability@ != "immediate"@ {
        refused(
            "state_apply_durability=raft-backed is not supported until crash/replay gates pass; use immediate"@,
        )
    } else {
        Ok(())
    }
}

/// The TLS files, all or none.
pub open spec fn tls_verdict(tls: TlsConfig, files: TlsFiles) -> Verdict {
    if tls.has_some() && !tls.has_all() {
        refused("tls.ca, tls.certificate, and tls.private_key must be configured together"@)
    } else if tls.has_all() {
        both(
            tls_file_verdict(files.ca, "tls.ca"@, false),
            both(
                tls_file_verdict(files.certificate, "tls.certificate"@, false),
                tls_file_verdict(files.private_key, "tls.private_key"@, true),
            ),
        )
    } else {
        Ok(())
    }
}

/// The fields beside a manifest's signature.
pub open spec fn signature_verdict(m: BootstrapManifestSignature) -> Verdict {
    if m.format_version != MANIFEST_FORMAT_VERSION {
        refused(
            "bootstrap manifest format version "@ + digits(m.format_version as nat)
                + " is unsupported"@,
        )
    } else if m.algorithm@ != "ed25519"@ {
        refused("bootstrap manifest algorithm must be ed25519"@)
    } else if m.generation == 0 {
        refused("bootstrap manifest generation must be nonzero"@)
    } else {
        both(
            hex_field_verdict(m.key_id@, 32, "manifest key_id"@),
            both(
                hex_field_verdict(m.ca_sha256@, 32, "manifest ca_sha256"@),
                hex_field_verdict(m.signature@, 64, "manifest signature"@),
            ),
        )
    }
}

/// A field in lower-case hexadecimal notation.
pub open spec fn hex_field_verdict(value: Seq<char>, size: nat, label: Seq<char>) -> Verdict {
    match lower_hex_outcome(value, size, label) {
        Ok(_) => Ok(()),
        Err(e) => Err(e),
    }
}

/// What is wrong with a configuration, if anything, with what looking at its
/// TLS files gave.
pub open spec fn config_verdict(c: Config, files: TlsFiles) -> Verdict {
    both(
        identity_verdict(c),
        both(
            cluster_verdict(c),
            both(
                raft_listen_verdict(c),
                both(
                    postgres_verdict(c),
                    both(
                        raft_verdict(c.raft),
                        both(
                            limits_verdict(c.limits),
                            both(
                                storage_verdict(c),
                                both(
                                    tls_verdict(c.tls, files),
                                    match c.bootstrap_manifest {
                                        Some(m) => signature_verdict(m),
                                        None => Ok(()),
                                    },
                                ),
                            ),
                        ),
                    ),
                ),
            ),
        ),
    )
}

// ---------------------------------------------------------------------------
// Checking it
// ---------------------------------------------------------------------------

/// Whether nothing but white space stands in a text.
pub fn is_blank(text: &str) -> (blank: bool)
    ensures
        blank == (trimmed(text@).len() == 0),
{
    trim_chars(text_chars(text).as_slice()).len() == 0
}

/// Whether a text is empty.
fn is_empty(text: &str) -> (empty: bool)
    ensures
        empty == (text@.len() == 0),
{
    text_chars(text).len() == 0
}

fn check_hex_field(value: &str, size: usize, label: &str) -> (result: Result<(), ConfigError>)
    requires
        2 * size <= u32::MAX,
    ensures
        verdict(result) == hex_field_verdict(value@, size as nat, label@),
{
    match decode_lower_hex(value, size, label) {
        Ok(_) => Ok(()),
        Err(e) => Err(e),
    }
}

/// Checks the fields beside a manifest's signature.
pub fn validate_manifest_signature_metadata(manifest: &BootstrapManifestSignature) -> (result:
    Result<(), ConfigError>)
    ensures
        verdict(result) == signature_verdict(*manifest),
{
    if manifest.format_version != MANIFEST_FORMAT_VERSION {
        return Err(
            ConfigError::Invalid(
                joined3(
                    "bootstrap manifest format version ",
                    digits_text(manifest.format_version as u64).as_str(),
                    " is unsupported",
                ),
            ),
        );
    }
    if !same_text(manifest.algorithm.as_str(), "ed25519") {
        return refuse("bootstrap manifest algorithm must be ed25519");
    }
    if manifest.generation == 0 {
        return refuse("bootstrap manifest generation must be nonzero");
    }
    check_hex_field(manifest.key_id.as_str(), 32, "manifest key_id")?;
    check_hex_field(manifest.ca_sha256.as_str(), 32, "manifest ca_sha256")?;
    check_hex_field(manifest.signature.as_str(), 64, "manifest signature")
}

fn check_node_tls(node: &InitialNode) -> (result: Result<(), ConfigError>)
    ensures
        verdict(result) == node_tls_verdict(*node),
{
    match (&node.tls_dns_name, &node.tls_leaf_sha256) {
        (None, None) => Ok(()),
        (Some(name), Some(_)) => {
            match validate_dns_name(name.as_str()) {
                Ok(()) => {},
                Err(fault) => {
                    return Err(
                        ConfigError::Invalid(
                            node_text(node.node_id, joined(" tls_dns_name ", fault).as_str()),
                        ),
                    );
                },
            }
            match node.tls_leaf_fingerprint() {
                Ok(_) => Ok(()),
                Err(e) => Err(e),
            }
        },
        _ => Err(
            ConfigError::Invalid(
                node_text(
                    node.node_id,
                    " tls_dns_name and tls_leaf_sha256 must be configured together",
                ),
            ),
        ),
    }
}

fn has_address(addresses: &Vec<SocketAddress>, address: &SocketAddress) -> (found: bool)
    ensures
        found == exists|j: int| 0 <= j < addresses@.len() && (#[trigger] addresses@[j])@ == address@,
{
    let mut j: usize = 0;
    while j < addresses.len()
        invariant
            j <= addresses@.len(),
            forall|k: int| 0 <= k < j ==> (#[trigger] addresses@[k])@ != address@,
        decreases addresses@.len() - j,
    {
        if addresses[j].same_as(address) {
            return true;
        }
        j += 1;
    }
    false
}

#[verifier::loop_isolation(false)]
fn check_nodes(nodes: &Vec<InitialNode>) -> (result: Result<(), ConfigError>)
    ensures
        verdict(result) == nodes_verdict(nodes@, 0),
{
    let mut ids: Vec<u64> = Vec::new();
    let mut addresses: Vec<SocketAddress> = Vec::new();
    let mut i: usize = 0;
    while i < nodes.len()
        invariant
            i <= nodes@.len(),
            ids@.len() == i,
            addresses@.len() == i,
            forall|k: int| 0 <= k < i ==> #[trigger] ids@[k] == nodes@[k].node_id,
            forall|k: int|
                0 <= k < i ==> (#[trigger] addresses@[k])@ == endpoint_outcome(
                    nodes@[k].endpoint@,
                )->Ok_0.0,
            nodes_verdict(nodes@, 0) == nodes_verdict(nodes@, i as int),
        decreases nodes@.len() - i,
    {
        let node = &nodes[i];
        if node.node_id == 0 {
            return refuse("initial_nodes contains node_id 0");
        }
        let repeated = has_id(ids.as_slice(), node.node_id);
        proof {
            if repeated {
                let k = choose|k: int| 0 <= k < ids@.len() && ids@[k] == node.node_id;
                assert(nodes@[k].node_id == node.node_id);
            } else if repeats_id(nodes@, i as int) {
                let j = choose|j: int|
                    0 <= j < i && (#[trigger] nodes@[j]).node_id == nodes@[i as int].node_id;
                assert(ids@[j] == node.node_id);
            }
            assert(repeated == repeats_id(nodes@, i as int));
        }
        if repeated {
            return Err(
                ConfigError::Invalid(
                    joined("duplicate initial node id ", digits_text(node.node_id).as_str()),
                ),
            );
        }
        let address = match parse_initial_endpoint(node.endpoint.as_str()) {
            Ok((address, _)) => address,
            Err(e) => {
                return Err(e);
            },
        };
        let taken = has_address(&addresses, &address);
        proof {
            if taken {
                let k = choose|k: int|
                    0 <= k < addresses@.len() && (#[trigger] addresses@[k])@ == address@;
                assert(endpoint_outcome(nodes@[k].endpoint@)->Ok_0.0 == address@);
            } else if repeats_endpoint(nodes@, i as int) {
                let j = choose|j: int|
                    0 <= j < i && endpoint_outcome((#[trigger] nodes@[j]).endpoint@)->Ok_0.0
                        == endpoint_outcome(nodes@[i as int].endpoint@)->Ok_0.0;
                assert(addresses@[j]@ == address@);
            }
            assert(taken == repeats_endpoint(nodes@, i as int));
        }
        if taken {
            return Err(
                ConfigError::Invalid(
                    joined("duplicate initial node endpoint ", node.endpoint.as_str()),
                ),
            );
        }
        check_node_tls(node)?;
        ids.push(node.node_id);
        addresses.push(address);
        i += 1;
    }
    Ok(())
}

fn count_voters(nodes: &Vec<InitialNode>) -> (voters: usize)
    ensures
        voters == voter_count(nodes@),
{
    let mut voters: usize = 0;
    let mut i: usize = 0;
    assert(nodes@.subrange(0, 0) == Seq::<InitialNode>::empty());
    while i < nodes.len()
        invariant
            voters <= i <= nodes@.len(),
            voters == voter_count(nodes@.subrange(0, i as int)),
        decreases nodes@.len() - i,
    {
        assert(nodes@.subrange(0, i + 1).drop_last() == nodes@.subrange(0, i as int));
        if nodes[i].voter {
            voters += 1;
        }
        i += 1;
    }
    assert(nodes@.subrange(0, i as int) == nodes@);
    voters
}

fn has_node_id(nodes: &Vec<InitialNode>, node_id: u64) -> (found: bool)
    ensures
        found == lists_node(nodes@, node_id),
{
    let mut i: usize = 0;
    while i < nodes.len()
        invariant
            i <= nodes@.len(),
            forall|k: int| 0 <= k < i ==> (#[trigger] nodes@[k]).node_id != node_id,
        decreases nodes@.len() - i,
    {
        if nodes[i].node_id == node_id {
            return true;
        }
        i += 1;
    }
    false
}

fn check_postgres_addresses(p: &PostgresConfig) -> (result: Result<(), ConfigError>)
    ensures
        verdict(result) == both(postgres_listen_verdict(*p), postgres_remote_verdict(*p)),
{
    if let Some(listen) = &p.listen {
        if !is_empty(listen.as_str()) {
            match SocketAddress::parse(listen.as_str()) {
                None => {
                    return refuse("postgres.listen is not a socket address");
                },
                Some(address) => {
                    if address.port == 0 {
                        return refuse("postgres.listen port must be nonzero");
                    }
                    if !address.is_loopback() {
                        return refuse(
                            "remote PostgreSQL TCP requires TLS/authentication; non-loopback listen is unsupported",
                        );
                    }
                },
            }
        }
    }
    if let Some(remote) = &p.remote_listen {
        if !is_empty(remote.as_str()) {
            if SocketAddress::parse(remote.as_str()).is_none() {
                return refuse("postgres.remote_listen is not a socket address");
            }
            return refuse(
                "postgres remote TCP is unsupported until TLS and authentication are implemented",
            );
        }
    }
    Ok(())
}

fn check_postgres_files(p: &PostgresConfig) -> (result: Result<(), ConfigError>)
    ensures
        verdict(result) == postgres_files_verdict(*p),
{
    if p.auth_file.is_some() {
        return refuse(
            "postgres authentication configuration is unsupported by the current trust-only gateway",
        );
    }
    if let Some(dir) = &p.unix_socket_dir {
        if is_empty(dir.as_str()) {
            return refuse("postgres.unix_socket_dir is empty");
        }
        // A socket path has at most 108 bytes, and the gateway appends the
        // name of the socket.
        if text_bytes(dir.as_str()).len() > 90 {
            return refuse("postgres.unix_socket_dir is too long for a Unix socket");
        }
    }
    Ok(())
}

fn check_raft(r: &RaftConfig) -> (result: Result<(), ConfigError>)
    ensures
        verdict(result) == raft_verdict(*r),
{
    if r.heartbeat_ms == 0 || r.election_timeout_min_ms <= r.heartbeat_ms
        || r.election_timeout_min_ms >= r.election_timeout_max_ms {
        return refuse("raft timing values are invalid");
    }
    if r.snapshot_entries == 0 || r.snapshot_log_bytes == 0 || r.max_message_bytes == 0
        || r.max_message_bytes > MAX_SQL_MESSAGE_BYTES || r.rpc_queue_capacity == 0
        || r.rpc_queue_capacity > 4096 {
        return refuse("raft snapshot/message/queue limits are invalid");
    }
    Ok(())
}

fn check_limits(l: &Limits) -> (result: Result<(), ConfigError>)
    ensures
        verdict(result) == limits_verdict(*l),
{
    if l.query_workers == 0 || l.query_workers > MAX_QUERY_WORKERS || l.max_active_queries == 0
        || l.max_active_queries > l.max_connections || l.max_connections == 0 || l.max_connections
        > MAX_CONNECTIONS || l.max_transaction_age_ms == 0 || l.idle_in_transaction_timeout_ms == 0
        || l.idle_in_transaction_timeout_ms > l.max_transaction_age_ms || l.max_transaction_bytes
        == 0 || l.max_transaction_bytes > MAX_TRANSACTION_BYTES || l.max_mutations == 0
        || l.max_row_bytes == 0 || l.max_row_bytes > MAX_ROW_BYTES || l.max_sql_message_bytes == 0
        || l.max_sql_message_bytes > MAX_SQL_MESSAGE_BYTES || l.max_returning_bytes == 0
        || l.max_returning_bytes > MAX_RETURNING_BYTES || l.max_key_bytes == 0
        || l.max_indexed_value_bytes == 0 || l.query_work_mem_bytes == 0
        || l.global_work_mem_bytes == 0 || l.query_work_mem_bytes > l.global_work_mem_bytes {
        return refuse("resource limits must be positive");
    }
    Ok(())
}

fn check_storage(s: &StorageConfig, max_message_bytes: usize) -> (result: Result<(), ConfigError>)
    ensures
        verdict(result) == if !storage_holds(*s, max_message_bytes) {
            refused("storage cache/checkpoint/snapshot/disk limits are invalid"@)
        } else if s.state_apply_durability@ != "immediate"@ {
            refused(
                "state_apply_durability=raft-backed is not supported until crash/replay gates pass; use immediate"@,
            )
        } else {
            Ok(())
        },
{
    if s.state_cache_bytes == 0 || s.raft_cache_bytes == 0 || s.checkpoint_interval_ms == 0
        || s.checkpoint_commits == 0 || s.snapshot_chunk_bytes == 0 || s.snapshot_chunk_bytes
        > max_message_bytes || s.snapshot_bandwidth_bytes_per_sec == 0 || s.data_dir_budget_bytes
        == 0 || s.low_space_watermark_bytes >= s.data_dir_budget_bytes
        || s.low_space_watermark_percent == 0 || s.low_space_watermark_percent >= 100 {
        return refuse("storage cache/checkpoint/snapshot/disk limits are invalid");
    }
    if !same_text(s.state_apply_durability.as_str(), "immediate") {
        return refuse(
            "state_apply_durability=raft-backed is not supported until crash/replay gates pass; use immediate",
        );
    }
    Ok(())
}

fn check_tls(tls: &TlsConfig, files: &TlsFiles) -> (result: Result<(), ConfigError>)
    ensures
        verdict(result) == tls_verdict(*tls, *files),
{
    if tls.configured() && !tls.complete() {
        return refuse(
            "tls.ca, tls.certificate, and tls.private_key must be configured together",
        );
    }
    if tls.complete() {
        validate_tls_file(&files.ca, "tls.ca", false)?;
        validate_tls_file(&files.certificate, "tls.certificate", false)?;
        validate_tls_file(&files.private_key, "tls.private_key", true)?;
    }
    Ok(())
}

impl Config {
    /// The configuration of a node that is alone in its cluster.
    pub fn defaults(data_dir: &str, node_id: u64) -> (config: Config)
        ensures
            config.cluster_id@ == "chorus-local"@,
            config.cluster_incarnation == 1,
            config.node_id == node_id,
            config.data_dir@ == data_dir@,
            config.postgres.is_standard(),
            config.raft.is_standard(),
            config.storage.is_standard(),
            config.limits == Limits::standard(),
            !config.tls.has_some(),
            !config.allow_insecure_dev,
            config.initial_nodes@.len() == 1,
            config.initial_nodes@[0].node_id == node_id,
            config.initial_nodes@[0].endpoint@ == "127.0.0.1:7001"@,
            config.initial_nodes@[0].voter,
            config.initial_nodes@[0].tls_dns_name is None,
            config.initial_nodes@[0].tls_leaf_sha256 is None,
            config.bootstrap_manifest is None,
            config.capability.manifest() is None,
    {
        let mut initial_nodes: Vec<InitialNode> = Vec::new();
        initial_nodes.push(
            InitialNode {
                node_id,
                endpoint: owned("127.0.0.1:7001"),
                voter: true,
                tls_dns_name: None,
                tls_leaf_sha256: None,
            },
        );
        Config {
            cluster_id: owned("chorus-local"),
            cluster_incarnation: 1,
            node_id,
            data_dir: owned(data_dir),
            postgres: PostgresConfig::default(),
            raft: RaftConfig::default(),
            storage: StorageConfig::default(),
            limits: Limits::default(),
            tls: TlsConfig::default(),
            allow_insecure_dev: false,
            initial_nodes,
            bootstrap_manifest: None,
            capability: ManifestCapability::none(),
        }
    }

    fn check_identity(&self) -> (result: Result<(), ConfigError>)
        ensures
            verdict(result) == identity_verdict(*self),
    {
        if is_blank(self.cluster_id.as_str()) {
            return refuse("cluster_id is empty");
        }
        if text_bytes(self.cluster_id.as_str()).len() > MAX_CLUSTER_ID_BYTES {
            return refuse("cluster_id exceeds 128 bytes");
        }
        if self.cluster_incarnation == 0 {
            return refuse("cluster_incarnation must be nonzero");
        }
        if self.node_id == 0 {
            return refuse("node_id must be nonzero");
        }
        if is_empty(self.data_dir.as_str()) {
            return refuse("data_dir is empty");
        }
        Ok(())
    }

    fn check_cluster(&self) -> (result: Result<(), ConfigError>)
        ensures
            verdict(result) == cluster_verdict(*self),
    {
        if self.initial_nodes.len() == 0 {
            return refuse("initial_nodes must contain at least the local node");
        }
        if self.initial_nodes.len() > MAX_REPLICAS {
            return refuse("initial_nodes exceeds the 16-replica limit");
        }
        check_nodes(&self.initial_nodes)?;
        if !has_node_id(&self.initial_nodes, self.node_id) {
            return refuse("node_id must be present in initial_nodes");
        }
        let voters = count_voters(&self.initial_nodes);
        if voters == 0 || voters > MAX_VOTERS || (voters > 1 && voters % 2 == 0) {
            return refuse("voting membership must have 1, 3, or 5 voters");
        }
        Ok(())
    }

    fn check_raft_listen(&self) -> (result: Result<(), ConfigError>)
        ensures
            verdict(result) == raft_listen_verdict(*self),
    {
        match SocketAddress::parse(self.raft.listen.as_str()) {
            None => refuse("raft.listen is not a socket address"),
            Some(address) => {
                if address.port == 0 {
                    return refuse("raft.listen port must be nonzero");
                }
                Ok(())
            },
        }
    }

    fn check_postgres(&self) -> (result: Result<(), ConfigError>)
        ensures
            verdict(result) == postgres_verdict(*self),
    {
        if self.postgres.max_connections == 0 || self.postgres.max_connections > MAX_CONNECTIONS {
            return refuse("postgres.max_connections must be between 1 and 1024");
        }
        if self.postgres.max_connections != self.limits.max_connections {
            return refuse("postgres.max_connections must equal limits.max_connections");
        }
        check_postgres_addresses(&self.postgres)?;
        check_postgres_files(&self.postgres)
    }

    /// Checks the configuration, with what looking at its TLS files gave.
    pub fn validate(&self, files: &TlsFiles) -> (result: Result<(), ConfigError>)
        ensures
            verdict(result) == config_verdict(*self, *files),
    {
        self.check_identity()?;
        self.check_cluster()?;
        self.check_raft_listen()?;
        self.check_postgres()?;
        check_raft(&self.raft)?;
        check_limits(&self.limits)?;
        check_storage(&self.storage, self.raft.max_message_bytes)?;
        check_tls(&self.tls, files)?;
        match &self.bootstrap_manifest {
            Some(manifest) => validate_manifest_signature_metadata(manifest),
            None => Ok(()),
        }
    }

    /// The identity of the cluster.
    pub fn cluster_id(&self) -> (id: ClusterId)
        ensures
            id.0@ == sha_of(cluster_name_bytes(self.cluster_id@)).subrange(0, 16),
    {
        ClusterId::from_name(self.cluster_id.as_str())
    }

    /// The path of the state file.
    pub fn state_path(&self) -> (path: String)
        ensures
            path@ == path_join(path_join(self.data_dir@, "state"@), "active.json"@),
    {
        join_path(join_path(self.data_dir.as_str(), "state").as_str(), "active.json")
    }

    /// The path of the installation's identity.
    pub fn identity_path(&self) -> (path: String)
        ensures
            path@ == path_join(self.data_dir@, "identity.toml"@),
    {
        join_path(self.data_dir.as_str(), "identity.toml")
    }
}

} // verus!
