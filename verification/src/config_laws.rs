//! Which configurations, files and installations are accepted: every one that
//! holds what is asked for, and no other.

use crate::address::{read_address, SocketAddressView};
use crate::config::{
    cluster_verdict, config_verdict, fingerprint_outcome, identity_verdict, limits_verdict,
    lists_node, node_verdict, nodes_verdict, postgres_verdict, raft_listen_verdict, raft_verdict,
    repeats_endpoint, repeats_id, signature_verdict, storage_verdict, tls_verdict, voter_count,
    BootstrapManifestSignature, Config, InitialNode, RaftConfig, TlsConfig, TlsFiles,
};
use crate::config_error::{ConfigError, ConfigErrorView};
use crate::endpoint::{authority, dns_name_fault, endpoint_outcome};
use crate::files::{private_dir_verdict, snapshot_size_verdict, FileFacts, FileLook, FileRule};
use crate::identity::{
    access_outcome, binding_of, binding_outcome, binding_published, durable_artifact, identity_of,
    identity_opened_verdict, identity_outcome, identity_path_verdict, identity_published, log_among,
    store_verdict, unbound_verdict, BindingLook, BindingView, IdentityLook, IdentityView,
    InstallationIdentity, Listing, ManifestBinding, PathLook, Published, StateDirLook,
};
use crate::ids::sha_of;
use crate::limits::Limits;
use crate::opening::{opening_next, OpeningActionView, OpeningEvent, OpeningPhase};
use crate::peers::{
    address_of, material_outcome, mtls_verdict, peer_verdict, peers_verdict, repeats_fingerprint,
    repeats_name,
};
use crate::text::{ascii_lower_text, hex_value, trimmed};
use vstd::prelude::*;
use vstd::string::*;
use vstd::utf8::encode_utf8;

verus! {

// ---------------------------------------------------------------------------
// Sections
// ---------------------------------------------------------------------------

/// A configuration is accepted exactly where each of its sections is.
pub proof fn whole_configurations_are_accepted(c: Config, files: TlsFiles)
    ensures
        config_verdict(c, files) is Ok <==> {
            &&& identity_verdict(c) is Ok
            &&& cluster_verdict(c) is Ok
            &&& raft_listen_verdict(c) is Ok
            &&& postgres_verdict(c) is Ok
            &&& raft_verdict(c.raft) is Ok
            &&& limits_verdict(c.limits) is Ok
            &&& storage_verdict(c) is Ok
            &&& tls_verdict(c.tls, files) is Ok
            &&& c.bootstrap_manifest matches Some(m) ==> signature_verdict(m) is Ok
        },
{
}

/// A node's identity is accepted exactly where its cluster has a name that is
/// not blank and takes at most 128 bytes, its incarnation and its number are not
/// zero, and it has a directory.
pub proof fn named_nodes_are_accepted(c: Config)
    ensures
        identity_verdict(c) is Ok <==> trimmed(c.cluster_id@).len() > 0 && encode_utf8(
            c.cluster_id@,
        ).len() <= 128 && c.cluster_incarnation > 0 && c.node_id > 0 && c.data_dir@.len() > 0,
{
}

/// Whether an initial node can be listed: it has a number, an address, and
/// either both a name and a fingerprint for TLS, or neither.
pub open spec fn is_listable(node: InitialNode) -> bool {
    &&& node.node_id != 0
    &&& endpoint_outcome(node.endpoint@) is Ok
    &&& node.tls_dns_name is Some <==> node.tls_leaf_sha256 is Some
    &&& node.tls_dns_name matches Some(name) ==> dns_name_fault(name@) is None
        && fingerprint_outcome(node@) is Ok
}

proof fn lemma_nodes(nodes: Seq<InitialNode>, i: int)
    requires
        0 <= i <= nodes.len(),
    ensures
        nodes_verdict(nodes, i) is Ok <==> {
            &&& forall|k: int| i <= k < nodes.len() ==> is_listable(#[trigger] nodes[k])
            &&& forall|j: int, k: int|
                0 <= j < k && i <= k < nodes.len() ==> (#[trigger] nodes[j]).node_id != (
                #[trigger] nodes[k]).node_id && endpoint_outcome(nodes[j].endpoint@)->Ok_0.0
                    != endpoint_outcome(nodes[k].endpoint@)->Ok_0.0
        },
    decreases nodes.len() - i,
{
    if i < nodes.len() {
        lemma_nodes(nodes, i + 1);
        assert(i <= i < nodes.len());
        if repeats_id(nodes, i) {
            let j = choose|j: int| 0 <= j < i && (#[trigger] nodes[j]).node_id == nodes[i].node_id;
            assert(nodes[j].node_id == nodes[i].node_id);
        }
        if repeats_endpoint(nodes, i) {
            let j = choose|j: int|
                0 <= j < i && endpoint_outcome((#[trigger] nodes[j]).endpoint@)->Ok_0.0
                    == endpoint_outcome(nodes[i].endpoint@)->Ok_0.0;
            assert(endpoint_outcome(nodes[j].endpoint@)->Ok_0.0 == endpoint_outcome(
                nodes[i].endpoint@,
            )->Ok_0.0);
        }
        assert(node_verdict(nodes, i) is Ok <==> is_listable(nodes[i]) && !repeats_id(nodes, i)
            && !repeats_endpoint(nodes, i));
    }
}

proof fn lemma_voters(nodes: Seq<InitialNode>)
    ensures
        voter_count(nodes) == nodes.filter(|n: InitialNode| n.voter).len(),
    decreases nodes.len(),
{
    reveal(Seq::filter);
    if nodes.len() > 0 {
        lemma_voters(nodes.drop_last());
    }
}

/// The initial nodes are accepted exactly where there are at most sixteen, each
/// can be listed, no two share a number or an address, the node itself is among
/// them, and one, three or five of them vote.
pub proof fn initial_nodes_are_accepted(c: Config)
    ensures
        ({
            let nodes = c.initial_nodes@;
            let voters = nodes.filter(|n: InitialNode| n.voter).len();
            cluster_verdict(c) is Ok <==> {
                &&& 1 <= nodes.len() <= 16
                &&& forall|k: int| 0 <= k < nodes.len() ==> is_listable(#[trigger] nodes[k])
                &&& forall|j: int, k: int|
                    0 <= j < k < nodes.len() ==> (#[trigger] nodes[j]).node_id != (
                    #[trigger] nodes[k]).node_id && endpoint_outcome(nodes[j].endpoint@)->Ok_0.0
                        != endpoint_outcome(nodes[k].endpoint@)->Ok_0.0
                &&& exists|k: int| 0 <= k < nodes.len() && (#[trigger] nodes[k]).node_id == c.node_id
                &&& voters == 1 || voters == 3 || voters == 5
            }
        }),
{
    lemma_nodes(c.initial_nodes@, 0);
    lemma_voters(c.initial_nodes@);
    assert(lists_node(c.initial_nodes@, c.node_id) <==> exists|k: int|
        0 <= k < c.initial_nodes@.len() && (#[trigger] c.initial_nodes@[k]).node_id == c.node_id);
}

/// A node listens for peers at any address with a port.
pub proof fn peers_are_listened_for_at_a_port(c: Config)
    ensures
        raft_listen_verdict(c) is Ok <==> (read_address(c.raft.listen@) matches Some(a) && a.port
            > 0),
{
}

/// Whether an address is of the node itself alone: one that begins with 127, or
/// the one that is all zeros but for a last one.
pub open spec fn is_local(a: SocketAddressView) -> bool {
    if a.ip.len() == 4 {
        a.ip[0] == 127
    } else {
        a.ip.len() == 16 && a.ip[15] == 1 && forall|i: int| 0 <= i < 15 ==> #[trigger] a.ip[i] == 0
    }
}

/// The gateway is accepted exactly where it takes between one and 1,024
/// connections, as many as the limits say, listens on no address or on one of
/// the node itself with a port, on no remote address, has no file of passwords,
/// and its socket directory, if it has one, is named by at most 90 bytes.
pub proof fn local_gateways_are_accepted(c: Config)
    ensures
        ({
            let p = c.postgres;
            postgres_verdict(c) is Ok <==> {
                &&& 1 <= p.max_connections <= 1024
                &&& p.max_connections == c.limits.max_connections
                &&& (p.listen matches Some(text) && text@.len() > 0) ==> (read_address(
                    p.listen->0@,
                ) matches Some(a) && a.port > 0 && is_local(a))
                &&& p.remote_listen matches Some(text) ==> text@.len() == 0
                &&& p.auth_file is None
                &&& p.unix_socket_dir matches Some(dir) ==> dir@.len() > 0 && encode_utf8(
                    dir@,
                ).len() <= 90
            }
        }),
{
    let p = c.postgres;
    if let Some(text) = p.listen {
        if let Some(a) = read_address(text@) {
            crate::address::read_addresses_are_valid(text@);
            let one = Seq::new(15, |i: int| 0u8).push(1);
            if a.ip.len() == 16 {
                if a.ip == one {
                    assert forall|i: int| 0 <= i < 15 implies #[trigger] a.ip[i] == 0 by {
                        assert(one[i] == 0);
                    }
                } else if is_local(a) {
                    assert(a.ip =~= one);
                }
            }
        }
    }
}

/// The times of a group are accepted exactly where a heartbeat is shorter than
/// the shortest election timeout and that shorter than the longest, and its
/// sizes where they are not zero and within their limits.
pub proof fn timed_groups_are_accepted(r: RaftConfig)
    ensures
        raft_verdict(r) is Ok <==> 0 < r.heartbeat_ms && r.heartbeat_ms < r.election_timeout_min_ms
            && r.election_timeout_min_ms < r.election_timeout_max_ms && r.snapshot_entries > 0
            && r.snapshot_log_bytes > 0 && 1 <= r.max_message_bytes <= 16 * 1024 * 1024 && 1
            <= r.rpc_queue_capacity <= 4096,
{
}

/// Limits are accepted exactly where none is zero, and none is above its bound.
pub proof fn bounded_limits_are_accepted(l: Limits)
    ensures
        limits_verdict(l) is Ok <==> {
            &&& 1 <= l.query_workers <= 64
            &&& 1 <= l.max_active_queries && l.max_active_queries <= l.max_connections
            &&& l.max_connections <= 1024
            &&& 1 <= l.idle_in_transaction_timeout_ms && l.idle_in_transaction_timeout_ms
                <= l.max_transaction_age_ms
            &&& 1 <= l.max_transaction_bytes <= 64 * 1024 * 1024
            &&& 1 <= l.max_mutations
            &&& 1 <= l.max_row_bytes <= 1024 * 1024
            &&& 1 <= l.max_sql_message_bytes <= 16 * 1024 * 1024
            &&& 1 <= l.max_returning_bytes <= 64 * 1024 * 1024
            &&& 1 <= l.max_key_bytes
            &&& 1 <= l.max_indexed_value_bytes
            &&& 1 <= l.query_work_mem_bytes && l.query_work_mem_bytes <= l.global_work_mem_bytes
        },
{
}

/// Storage is accepted exactly where none of its sizes is zero, a piece of a
/// snapshot fits into a message, the reserve is less than the budget, and what
/// is applied is durable at once.
pub proof fn durable_storage_is_accepted(c: Config)
    ensures
        ({
            let s = c.storage;
            storage_verdict(c) is Ok <==> {
                &&& s.state_cache_bytes >= 1 && s.raft_cache_bytes >= 1
                &&& s.checkpoint_interval_ms >= 1 && s.checkpoint_commits >= 1
                &&& 1 <= s.snapshot_chunk_bytes && s.snapshot_chunk_bytes
                    <= c.raft.max_message_bytes
                &&& s.snapshot_bandwidth_bytes_per_sec >= 1
                &&& s.low_space_watermark_bytes < s.data_dir_budget_bytes
                &&& 1 <= s.low_space_watermark_percent <= 99
                &&& s.state_apply_durability@ == "immediate"@
            }
        }),
{
}

/// Whether a look at a TLS file shows one that can be used: a regular file of
/// one byte to a mebibyte, and a private one for its owner alone.
pub open spec fn is_usable_tls_file(look: Option<FileLook>, private: bool) -> bool {
    look matches Some(Ok(f)) && f.is_file && 1 <= f.len <= 1024 * 1024 && (private ==> f.mode & 0o077
        == 0)
}

/// TLS is accepted exactly where nothing is configured for it, or all three
/// files are and can be used.
pub proof fn whole_tls_is_accepted(tls: TlsConfig, files: TlsFiles)
    ensures
        tls_verdict(tls, files) is Ok <==> {
            ||| tls.ca is None && tls.certificate is None && tls.private_key is None
            ||| tls.ca is Some && tls.certificate is Some && tls.private_key is Some
                && is_usable_tls_file(files.ca, false) && is_usable_tls_file(
                files.certificate,
                false,
            ) && is_usable_tls_file(files.private_key, true)
        },
{
}

/// Whether a text is hexadecimal in small letters, two digits for each of some
/// bytes.
pub open spec fn is_small_hex(text: Seq<char>, bytes: nat) -> bool {
    text.len() == 2 * bytes && forall|i: int|
        0 <= i < text.len() ==> ('0' <= #[trigger] text[i] <= '9' || 'a' <= text[i] <= 'f')
}

/// A signature is accepted exactly where it is of the first version, by Ed25519,
/// of a generation, and its key, its trust and itself are written in hexadecimal
/// in their length.
pub proof fn written_signatures_are_accepted(m: BootstrapManifestSignature)
    ensures
        signature_verdict(m) is Ok <==> m.format_version == 1 && m.algorithm@ == "ed25519"@
            && m.generation > 0 && is_small_hex(m.key_id@, 32) && is_small_hex(m.ca_sha256@, 32)
            && is_small_hex(m.signature@, 64),
{
    lemma_small_hex(m.key_id@);
    lemma_small_hex(m.ca_sha256@);
    lemma_small_hex(m.signature@);
}

proof fn lemma_small_hex(text: Seq<char>)
    ensures
        crate::endpoint::all_lower_hex(text) <==> forall|i: int|
            0 <= i < text.len() ==> ('0' <= #[trigger] text[i] <= '9' || 'a' <= text[i] <= 'f'),
{
    if crate::endpoint::all_lower_hex(text) {
        assert forall|i: int| 0 <= i < text.len() implies ('0' <= #[trigger] text[i] <= '9' || 'a'
            <= text[i] <= 'f') by {
            assert(hex_value(text[i]) is Some);
        }
    } else {
        let i = choose|i: int|
            0 <= i < text.len() && !(hex_value(#[trigger] text[i]) is Some && !('A' <= text[i]
                && text[i] <= 'F'));
        assert(!('0' <= text[i] <= '9' || 'a' <= text[i] <= 'f'));
    }
}

/// An address of a node is taken exactly where it is a socket address with a
/// port, alone or behind the letters of HTTPS, and nothing else of a URL.
pub proof fn bare_addresses_are_taken(endpoint: Seq<char>)
    ensures
        ({
            let (text, https) = authority(endpoint);
            let plain = forall|i: int|
                0 <= i < text.len() ==> #[trigger] text[i] != '/' && text[i] != '?' && text[i]
                    != '#' && text[i] != '@';
            &&& endpoint_outcome(endpoint) is Ok <==> text.len() > 0 && plain && (read_address(
                text,
            ) matches Some(a) && a.port > 0)
            &&& endpoint_outcome(endpoint) matches Ok((a, secure)) ==> Some(a) == read_address(text)
                && secure == https
            &&& https ==> endpoint == seq!['h', 't', 't', 'p', 's', ':', '/', '/'] + text
            &&& !https ==> endpoint == text
        }),
{
    let (text, https) = authority(endpoint);
    reveal_strlit("https://");
    assert("https://"@ =~= seq!['h', 't', 't', 'p', 's', ':', '/', '/']);
    if https {
        assert(endpoint =~= "https://"@ + text);
    }
    if crate::endpoint::is_more_than_authority(text) {
        if text.contains('/') {
            let i = choose|i: int| 0 <= i < text.len() && text[i] == '/';
            assert(text[i] == '/');
        } else if text.contains('?') {
            let i = choose|i: int| 0 <= i < text.len() && text[i] == '?';
            assert(text[i] == '?');
        } else if text.contains('#') {
            let i = choose|i: int| 0 <= i < text.len() && text[i] == '#';
            assert(text[i] == '#');
        } else {
            let i = choose|i: int| 0 <= i < text.len() && text[i] == '@';
            assert(text[i] == '@');
        }
    } else {
        assert forall|i: int| 0 <= i < text.len() implies #[trigger] text[i] != '/' && text[i] != '?'
            && text[i] != '#' && text[i] != '@' by {
            assert(text.contains(text[i]));
        }
    }
}

// ---------------------------------------------------------------------------
// Authenticated peers
// ---------------------------------------------------------------------------

/// Whether a node can be a peer: it is reached by HTTPS, and has a valid name
/// and fingerprint.
pub open spec fn is_peer_node(node: InitialNode) -> bool {
    &&& endpoint_outcome(node.endpoint@) matches Ok((_, https)) && https
    &&& node.tls_dns_name matches Some(name) && dns_name_fault(name@) is None
    &&& fingerprint_outcome(node@) is Ok
}

proof fn lemma_peer_nodes(nodes: Seq<InitialNode>, i: int)
    requires
        0 <= i <= nodes.len(),
    ensures
        peers_verdict(nodes, i) is Ok <==> {
            &&& forall|k: int| i <= k < nodes.len() ==> is_peer_node(#[trigger] nodes[k])
            &&& forall|j: int, k: int|
                0 <= j < k && i <= k < nodes.len() ==> ascii_lower_text(
                    (#[trigger] nodes[j]).tls_dns_name->0@,
                ) != ascii_lower_text((#[trigger] nodes[k]).tls_dns_name->0@) && fingerprint_outcome(
                    nodes[j]@,
                )->Ok_0 != fingerprint_outcome(nodes[k]@)->Ok_0
        },
    decreases nodes.len() - i,
{
    if i < nodes.len() {
        lemma_peer_nodes(nodes, i + 1);
        if repeats_name(nodes, i) {
            let j = choose|j: int|
                0 <= j < i && ascii_lower_text((#[trigger] nodes[j]).tls_dns_name->0@)
                    == ascii_lower_text(nodes[i].tls_dns_name->0@);
            assert(ascii_lower_text(nodes[j].tls_dns_name->0@) == ascii_lower_text(
                nodes[i].tls_dns_name->0@,
            ));
        }
        if repeats_fingerprint(nodes, i) {
            let j = choose|j: int|
                0 <= j < i && fingerprint_outcome((#[trigger] nodes[j])@)->Ok_0
                    == fingerprint_outcome(nodes[i]@)->Ok_0;
            assert(fingerprint_outcome(nodes[j]@)->Ok_0 == fingerprint_outcome(nodes[i]@)->Ok_0);
        }
        assert(peer_verdict(nodes, i) is Ok <==> is_peer_node(nodes[i]) && !repeats_name(nodes, i)
            && !repeats_fingerprint(nodes, i));
    }
}

/// A configuration is accepted for authenticated peers exactly where it is
/// accepted, TLS is configured, every initial node can be a peer, no two share a
/// name or a fingerprint, and the node listens where its own address says: at
/// its port, and at its address or at every one.
pub proof fn authenticated_groups_are_accepted(c: Config, files: TlsFiles)
    ensures
        ({
            let nodes = c.initial_nodes@;
            mtls_verdict(c, files) is Ok <==> {
                &&& config_verdict(c, files) is Ok
                &&& c.tls.ca is Some && c.tls.certificate is Some && c.tls.private_key is Some
                &&& forall|k: int| 0 <= k < nodes.len() ==> is_peer_node(#[trigger] nodes[k])
                &&& forall|j: int, k: int|
                    0 <= j < k < nodes.len() ==> ascii_lower_text(
                        (#[trigger] nodes[j]).tls_dns_name->0@,
                    ) != ascii_lower_text((#[trigger] nodes[k]).tls_dns_name->0@)
                        && fingerprint_outcome(nodes[j]@)->Ok_0 != fingerprint_outcome(
                        nodes[k]@,
                    )->Ok_0
                &&& read_address(c.raft.listen@) matches Some(listen) && (address_of(
                    nodes,
                    c.node_id,
                ) matches Some(own) && listen.port == own.port && (listen.ip == own.ip || (forall|
                    i: int,
                |
                    0 <= i < listen.ip.len() ==> #[trigger] listen.ip[i] == 0)))
            }
        }),
{
    lemma_peer_nodes(c.initial_nodes@, 0);
    if let Some(listen) = read_address(c.raft.listen@) {
        let zero = Seq::new(listen.ip.len(), |i: int| 0u8);
        if listen.ip == zero {
            assert forall|i: int| 0 <= i < listen.ip.len() implies #[trigger] listen.ip[i] == 0 by {
                assert(zero[i] == 0);
            }
        } else if forall|i: int| 0 <= i < listen.ip.len() ==> #[trigger] listen.ip[i] == 0 {
            assert(listen.ip =~= zero);
        }
    }
}

// ---------------------------------------------------------------------------
// Files
// ---------------------------------------------------------------------------

/// A file is read by a rule exactly where it can be looked at, is a regular
/// file of one byte up to the limit, and only its owner may touch it as far as
/// the rule says; where it is opened it must be the same file still; and what
/// was read must be within the limit.
pub proof fn fitting_files_are_read(
    rule: FileRule,
    look: FileLook,
    opened: FileLook,
    current: FileLook,
    len: nat,
    label: Seq<char>,
)
    ensures
        ({
            let (limit, forbidden): (int, u32) = match rule {
                FileRule::Tls { private } => (
                    1_048_576,
                    if private {
                        0o077
                    } else {
                        0
                    },
                ),
                FileRule::Bounded { maximum, owner_writes_alone } => (
                    maximum as int,
                    if owner_writes_alone {
                        0o022
                    } else {
                        0
                    },
                ),
            };
            let fits = |f: FileFacts|
                f.is_file && 1 <= f.len <= limit && f.mode & forbidden == 0;
            &&& rule.path_verdict(look, label) is Ok <==> (look matches Ok(f) && fits(f))
            &&& rule.opened_verdict(opened, current, label) is Ok <==> (opened matches Ok(f) && fits(
                f,
            ) && (current matches Ok(g) && f.device == g.device && f.inode == g.inode))
            &&& rule.content_verdict(len, label) is Ok <==> len <= limit
        }),
{
    assert(forall|m: u32| #![auto] m & 0u32 == 0u32) by {
        assert forall|m: u32| #![auto] m & 0u32 == 0u32 by {
            assert(m & 0u32 == 0u32) by (bit_vector);
        }
    }
}

/// The three TLS files are handed on exactly where the configuration is
/// accepted and each was read and is within a mebibyte.
pub proof fn tls_material_is_handed_on(
    mtls: crate::config_error::Verdict,
    ca: Result<Vec<u8>, ConfigError>,
    certificate: Result<Vec<u8>, ConfigError>,
    key: Result<Vec<u8>, ConfigError>,
)
    ensures
        material_outcome(mtls, ca, certificate, key) is Ok <==> mtls is Ok && (ca matches Ok(a)
            && a@.len() <= 1024 * 1024) && (certificate matches Ok(b) && b@.len() <= 1024 * 1024)
            && (key matches Ok(k) && k@.len() <= 1024 * 1024),
{
}

/// A snapshot file is taken exactly where its size is known and at most ten
/// gibibytes; a path serves as a private directory where it is no symbolic link.
pub proof fn snapshot_files_are_bounded(
    size: Result<u64, String>,
    look: Option<FileFacts>,
    path: Seq<char>,
)
    ensures
        snapshot_size_verdict(size) is Ok <==> (size matches Ok(n) && n <= 10 * 1024 * 1024 * 1024),
        private_dir_verdict(look, path) is Ok <==> (look matches Some(f) ==> !f.is_symlink),
{
}

// ---------------------------------------------------------------------------
// Installations
// ---------------------------------------------------------------------------

/// An installation is accepted exactly where its identity is found and is the
/// configuration's, or where neither an identity nor durable state is found, and
/// then one is to be written.
pub proof fn own_installations_are_accepted(c: Config, look: IdentityLook)
    ensures
        identity_outcome(c, look) == Ok::<_, ConfigErrorView>(false) <==> (look matches
            IdentityLook::Found(Ok(i)) && i@.verdict() is Ok && i@.cluster_id == c.cluster_id@
            && i@.cluster_incarnation == c.cluster_incarnation && i@.node_id == c.node_id),
        identity_outcome(c, look) == Ok::<_, ConfigErrorView>(true) <==> (look matches
            IdentityLook::Missing(Ok(None))),
        ({
            let own = identity_of(c);
            own.cluster_id == c.cluster_id@ && own.cluster_incarnation == c.cluster_incarnation
                && own.node_id == c.node_id
        }),
{
}

/// An identity is valid exactly where it is of the first version and names a
/// cluster, an incarnation and a node.
pub proof fn named_identities_are_valid(i: IdentityView)
    ensures
        i.verdict() is Ok <==> i.format_version == 1 && trimmed(i.cluster_id).len() > 0
            && encode_utf8(i.cluster_id).len() <= 128 && i.cluster_incarnation > 0 && i.node_id > 0,
{
}

/// Writing an identity succeeds exactly where it was written, or where the one
/// that stood there first is valid and the same; and so for a binding.
pub proof fn first_writers_win(
    identity: IdentityView,
    wrote: Published<InstallationIdentity>,
    binding: BindingView,
    bound: Published<ManifestBinding>,
)
    ensures
        identity_published(identity, wrote) is Ok <==> (match wrote {
            Published::Linked => true,
            Published::Raced(Ok(other)) => other@ == identity && other@.verdict() is Ok,
            _ => false,
        }),
        binding_published(binding, bound) is Ok <==> (match bound {
            Published::Linked => true,
            Published::Raced(Ok(other)) => other@ == binding,
            _ => false,
        }),
{
}

/// A binding is accepted exactly where the one that is found is the expected
/// one, or where neither a binding nor durable state is found, and then one is
/// to be written.
pub proof fn own_bindings_are_accepted(expected: BindingView, look: BindingLook)
    ensures
        binding_outcome(expected, look) == Ok::<_, ConfigErrorView>(false) <==> (look matches
            BindingLook::Found(Ok(b)) && b@ == expected),
        binding_outcome(expected, look) == Ok::<_, ConfigErrorView>(true) <==> (look matches
            BindingLook::Missing(Ok(None))),
{
}

/// An installation may be opened by a signed configuration exactly where it was
/// verified and its binding is accepted, and by an unsigned one exactly where it
/// claims no verification and there is no binding.
pub proof fn installations_open_to_their_configuration(c: Config, look: BindingLook)
    ensures
        access_outcome(c, look) is Ok <==> match (c.bootstrap_manifest, c.capability.manifest()) {
            (Some(_), Some(verified)) => binding_outcome(binding_of(c, verified@), look) is Ok,
            (None, None) => look is Missing,
            _ => false,
        },
        access_outcome(c, look) == Ok::<_, ConfigErrorView>(true) ==> c.bootstrap_manifest is Some,
        unbound_verdict(c, PathLook::Missing) is Ok <==> c.bootstrap_manifest is None,
        unbound_verdict(c, PathLook::Found) is Err,
{
}

/// A store belongs to a configuration exactly where its path is no symbolic
/// link, and its cluster and incarnation are the configuration's.
pub proof fn own_stores_are_accepted(c: Config, link: bool, cluster: Seq<u8>, incarnation: u64)
    ensures
        store_verdict(c, link, cluster, incarnation) is Ok <==> !link && cluster == sha_of(
            encode_utf8("chorus-cluster-v1\0"@) + encode_utf8(c.cluster_id@),
        ).subrange(0, 16) && incarnation == c.cluster_incarnation,
{
}

/// The file of an identity is read exactly where it is a regular file, no link,
/// of at most 4,096 bytes, for its owner alone, and still the same when it is
/// open.
pub proof fn identity_files_are_private(f: FileFacts, opened: FileFacts, current: FileFacts)
    ensures
        identity_path_verdict(f) is Ok <==> f.is_file && !f.is_symlink && f.len <= 4096 && f.mode
            & 0o077 == 0,
        identity_opened_verdict(opened, current) is Ok <==> current.is_file && !current.is_symlink
            && opened.device == current.device && opened.inode == current.inode && opened.len
            <= 4096,
{
}

proof fn lemma_log_among(dir: Seq<char>, entries: Seq<Result<String, String>>, i: int)
    requires
        0 <= i <= entries.len(),
    ensures
        log_among(dir, entries, i) == Ok::<Option<Seq<char>>, ConfigErrorView>(None) <==> forall|
            k: int,
        |
            i <= k < entries.len() ==> ((#[trigger] entries[k]) matches Ok(name)
                && !crate::identity::ends_with(name@, ".raft.log"@)),
    decreases entries.len() - i,
{
    if i < entries.len() {
        lemma_log_among(dir, entries, i + 1);
        if log_among(dir, entries, i) != Ok::<Option<Seq<char>>, ConfigErrorView>(None)
            && log_among(dir, entries, i + 1) == Ok::<Option<Seq<char>>, ConfigErrorView>(None) {
            assert(!(entries[i] matches Ok(name) && !crate::identity::ends_with(
                name@,
                ".raft.log"@,
            )));
        }
    }
}

/// No durable state is found exactly where the directory of state files is not
/// there or is empty, there is no log database, and no file is a log.
pub proof fn empty_installations_hold_nothing(
    dir: Seq<char>,
    state: StateDirLook,
    database: PathLook,
    listing: Listing,
)
    ensures
        durable_artifact(dir, state, database, listing) == Ok::<
            Option<Seq<char>>,
            ConfigErrorView,
        >(None) <==> (match state {
            StateDirLook::Missing => true,
            StateDirLook::Directory(Ok(None)) => true,
            _ => false,
        }) && database is Missing && (listing matches Ok(entries) && forall|k: int|
            0 <= k < entries@.len() ==> ((#[trigger] entries@[k]) matches Ok(name)
                && !crate::identity::ends_with(name@, ".raft.log"@))),
{
    if let Ok(entries) = listing {
        lemma_log_among(dir, entries@, 0);
    }
}

/// An installation whose binding and identity are accepted is opened: step by
/// step, and with what is missing written on the way.
pub proof fn accepted_installations_are_opened(
    c: Config,
    binding: BindingLook,
    identity: IdentityLook,
)
    ensures
        opening_next(c, OpeningPhase::PreparingBinding, OpeningEvent::Done).1
            == OpeningActionView::LookForBinding,
        access_outcome(c, binding) == Ok::<_, ConfigErrorView>(false) ==> opening_next(
            c,
            OpeningPhase::LookingForBinding,
            OpeningEvent::Binding(binding),
        ) == (OpeningPhase::MakingPrivate, OpeningActionView::MakePrivate),
        access_outcome(c, binding) == Ok::<_, ConfigErrorView>(true) ==> opening_next(
            c,
            OpeningPhase::LookingForBinding,
            OpeningEvent::Binding(binding),
        ).1 == OpeningActionView::WriteBinding(binding_of(c, c.capability.manifest()->0@)),
        opening_next(
            c,
            OpeningPhase::WritingBinding,
            OpeningEvent::BindingWritten(Published::Linked),
        ) == (OpeningPhase::MakingPrivate, OpeningActionView::MakePrivate),
        opening_next(c, OpeningPhase::MakingPrivate, OpeningEvent::Done) == (
            OpeningPhase::LookingForIdentity,
            OpeningActionView::LookForIdentity,
        ),
        identity_outcome(c, identity) == Ok::<_, ConfigErrorView>(false) ==> opening_next(
            c,
            OpeningPhase::LookingForIdentity,
            OpeningEvent::Identity(identity),
        ) == (OpeningPhase::LookingAtState, OpeningActionView::LookAtState),
        identity_outcome(c, identity) == Ok::<_, ConfigErrorView>(true) ==> opening_next(
            c,
            OpeningPhase::LookingForIdentity,
            OpeningEvent::Identity(identity),
        ).1 == OpeningActionView::WriteIdentity(identity_of(c)),
        opening_next(
            c,
            OpeningPhase::WritingIdentity,
            OpeningEvent::IdentityWritten(Published::Linked),
        ) == (OpeningPhase::LookingAtState, OpeningActionView::LookAtState),
        opening_next(
            c,
            OpeningPhase::LookingAtState,
            OpeningEvent::StatePath { is_symlink: false },
        ) == (OpeningPhase::OpeningStore, OpeningActionView::OpenStore),
        opening_next(
            c,
            OpeningPhase::LookingAtState,
            OpeningEvent::StatePath { is_symlink: true },
        ).1 is Fail,
        opening_next(c, OpeningPhase::Hardening, OpeningEvent::Done).1 == OpeningActionView::Done,
{
}

/// A store that was opened is kept exactly where it holds the state of the
/// configuration's cluster and incarnation.
pub proof fn own_stores_are_kept(c: Config, event: OpeningEvent)
    ensures
        event matches OpeningEvent::Opened { cluster_id, cluster_incarnation } ==> (opening_next(
            c,
            OpeningPhase::OpeningStore,
            event,
        ) == (OpeningPhase::Hardening, OpeningActionView::Harden) <==> store_verdict(
            c,
            false,
            cluster_id@,
            cluster_incarnation,
        ) is Ok),
{
}

} // verus!
