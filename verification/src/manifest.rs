//! The bootstrap manifest: what the initial nodes of a cluster agree on, as the
//! bytes that an operator signs, and the check of that signature.

use crate::address::{SocketAddress, SocketAddressView};
use crate::bytes::{be, bytes_less, lex_less, lex_total, put_bytes, put_u16, put_u32, put_u64};
use crate::config::{
    fingerprint_outcome, signature_verdict, validate_manifest_signature_metadata,
    BootstrapManifestSignature, Config, InitialNode, InitialNodeView, TlsFiles,
    VerifiedOpenRaftManifest,
};
use crate::config_error::{invalid, ConfigError, ConfigErrorView};
use crate::endpoint::{
    decode_lower_hex, endpoint_outcome, lower_hex_outcome, parse_initial_endpoint,
};
use crate::files::FileRule;
use crate::ids::{cluster_name_bytes, sha_of};
use crate::pem::{byte_lists, pem_certificate_list, pem_certificates};
use crate::peers::{mtls_verdict, peer_label, peer_text};
use crate::sorting::{in_order, sort, sorting_permutes, views, Ranked, SortItem};
use crate::text::{ascii_lower_text, joined, lower_char, same_bytes, text_bytes, text_chars, utf8_text};
use vstd::prelude::*;
use vstd::string::*;
use vstd::utf8::{decode_utf8, encode_utf8, valid_utf8};

verus! {

pub const MAX_MANIFEST_CANONICAL_BYTES: usize = 65_536;

pub const MAX_MANIFEST_KEY_BYTES: u64 = 64;

pub const MAX_MANIFEST_BYTES: u64 = 1_048_576;

// ---------------------------------------------------------------------------
// Digest and signature
// ---------------------------------------------------------------------------

/// The SHA-256 digest that keys and manifests are known by.
pub uninterp spec fn ring_sha256(bytes: Seq<u8>) -> Seq<u8>;

/// `ring::digest::digest` with SHA-256: the digest depends on the bytes alone.
/// Which digest it is is left unsaid.
#[verifier::external_body]
fn ring_digest(bytes: &[u8]) -> (digest: Vec<u8>)
    ensures
        digest@ == ring_sha256(bytes@),
        digest@.len() == 32,
{
    ring::digest::digest(&ring::digest::SHA256, bytes).as_ref().to_vec()
}

/// The SHA-256 digest of a byte string.
pub fn sha256(bytes: &[u8]) -> (digest: [u8; 32])
    ensures
        digest@ == ring_sha256(bytes@),
        ring_sha256(bytes@).len() == 32,
{
    crate::bytes::array32(ring_digest(bytes).as_slice())
}

/// Whether a signature over a message holds under an Ed25519 public key.
pub uninterp spec fn ed25519_holds(key: Seq<u8>, message: Seq<u8>, signature: Seq<u8>) -> bool;

/// `ring::signature::UnparsedPublicKey::verify` with Ed25519: the answer
/// depends on the key, the message and the signature alone. Which signatures
/// hold is left unsaid.
#[verifier::external_body]
fn ed25519_verify(key: &[u8], message: &[u8], signature: &[u8]) -> (holds: bool)
    ensures
        holds == ed25519_holds(key@, message@, signature@),
{
    ring::signature::UnparsedPublicKey::new(&ring::signature::ED25519, key).verify(
        message,
        signature,
    ).is_ok()
}

// ---------------------------------------------------------------------------
// The canonical bytes
// ---------------------------------------------------------------------------

/// Bytes that grow, or what stopped them.
pub type Growing = Result<Seq<u8>, ConfigErrorView>;

/// The canonical bytes with one more field behind its length.
pub open spec fn with_field(out: Seq<u8>, value: Seq<u8>) -> Growing {
    if value.len() > u16::MAX {
        Err(ConfigErrorView::Invalid("bootstrap manifest field is too long"@))
    } else if out.len() + 2 + value.len() > usize::MAX {
        Err(ConfigErrorView::Invalid("bootstrap manifest length overflow"@))
    } else if out.len() + 2 + value.len() > MAX_MANIFEST_CANONICAL_BYTES {
        Err(ConfigErrorView::Invalid("canonical bootstrap manifest exceeds 64 KiB"@))
    } else {
        Ok(out + (be(value.len(), 2) + value))
    }
}

/// Appends a field behind its length.
pub fn put_manifest_bytes(out: &mut Vec<u8>, value: &[u8]) -> (result: Result<(), ConfigError>)
    ensures
        match result {
            Ok(()) => with_field(old(out)@, value@) == Ok::<_, ConfigErrorView>(final(out)@),
            Err(e) => with_field(old(out)@, value@) == Err::<Seq<u8>, _>(e@) && final(out)@ == old(
                out,
            )@,
        },
{
    if value.len() > u16::MAX as usize {
        return Err(invalid("bootstrap manifest field is too long"));
    }
    let next = match out.len().checked_add(2) {
        Some(next) => next.checked_add(value.len()),
        None => None,
    };
    match next {
        None => Err(invalid("bootstrap manifest length overflow")),
        Some(next) => {
            if next > MAX_MANIFEST_CANONICAL_BYTES {
                return Err(invalid("canonical bootstrap manifest exceeds 64 KiB"));
            }
            put_u16(out, value.len() as u16);
            put_bytes(out, value);
            assert(out@ =~= old(out)@ + (be(value@.len(), 2) + value@));
            Ok(())
        },
    }
}

/// What the initial nodes of a cluster agree on.
#[verifier::ext_equal]
pub struct ManifestView {
    pub format_version: u16,
    pub algorithm: Seq<char>,
    pub generation: u64,
    pub key_id: Seq<u8>,
    pub cluster_name: Seq<char>,
    pub cluster_incarnation: u64,
    pub ca_digest: Seq<u8>,
    pub nodes: Seq<InitialNodeView>,
}

/// Nodes stand in the order of their numbers.
impl Ranked for InitialNodeView {
    open spec fn before(self, other: InitialNodeView) -> bool {
        self.node_id < other.node_id
    }

    proof fn never_both_ways(a: InitialNodeView, b: InitialNodeView) {
    }

    proof fn order_carries_over(a: InitialNodeView, b: InitialNodeView, c: InitialNodeView) {
    }
}

impl SortItem for InitialNode {
    fn is_before(&self, other: &InitialNode) -> (before: bool) {
        self.node_id < other.node_id
    }
}

/// The bytes of an address: its kind, its bytes, its port, and for IPv6 the
/// flow and the scope.
pub open spec fn address_bytes(a: SocketAddressView) -> Seq<u8> {
    if a.is_v4() {
        seq![4u8] + a.ip + be(a.port as nat, 2)
    } else {
        seq![6u8] + a.ip + be(a.port as nat, 2) + be(a.flowinfo as nat, 4) + be(a.scope as nat, 4)
    }
}

pub open spec fn flag_byte(flag: bool) -> u8 {
    if flag {
        1
    } else {
        0
    }
}

/// What stands before the DNS name of a node: its number, whether it votes,
/// and its address.
pub open spec fn node_start(n: InitialNodeView, address: SocketAddressView) -> Seq<u8> {
    be(n.node_id as nat, 8) + (seq![flag_byte(n.voter)] + address_bytes(address))
}

/// The canonical bytes with one more node.
pub open spec fn with_node(out: Seq<u8>, n: InitialNodeView) -> Growing {
    match endpoint_outcome(n.endpoint) {
        Err(e) => Err(e),
        Ok((address, https)) => if !https {
            Err(ConfigErrorView::Invalid(peer_label(n.node_id, " endpoint must use https://"@)))
        } else {
            match n.tls_dns_name {
                None => Err(
                    ConfigErrorView::Invalid(peer_label(n.node_id, " is missing tls_dns_name"@)),
                ),
                Some(name) => match with_field(
                    out + node_start(n, address),
                    encode_utf8(ascii_lower_text(name)),
                ) {
                    Err(e) => Err(e),
                    Ok(named) => match fingerprint_outcome(n) {
                        Err(e) => Err(e),
                        Ok(fingerprint) => if named.len() + fingerprint.len()
                            > MAX_MANIFEST_CANONICAL_BYTES {
                            Err(
                                ConfigErrorView::Invalid(
                                    "canonical bootstrap manifest exceeds 64 KiB"@,
                                ),
                            )
                        } else {
                            Ok(named + fingerprint)
                        },
                    },
                },
            }
        },
    }
}

/// The canonical bytes with the nodes from the `i`th on.
pub open spec fn with_nodes(out: Seq<u8>, nodes: Seq<InitialNodeView>, i: int) -> Growing
    decreases nodes.len() - i,
{
    if i < 0 || i >= nodes.len() {
        Ok(out)
    } else {
        match with_node(out, nodes[i]) {
            Ok(more) => with_nodes(more, nodes, i + 1),
            Err(e) => Err(e),
        }
    }
}

/// The text that sets manifests apart from anything else that is signed.
pub open spec fn manifest_domain() -> Seq<u8> {
    encode_utf8("chorus/openraft-bootstrap-manifest/v1\0"@)
}

/// What stands before the cluster's name, behind the algorithm.
pub open spec fn key_part(m: ManifestView) -> Seq<u8> {
    be(m.generation as nat, 8) + m.key_id
}

/// What stands behind the cluster's name, before the nodes.
pub open spec fn cluster_part(m: ManifestView) -> Seq<u8> {
    sha_of(cluster_name_bytes(m.cluster_name)).subrange(0, 16) + be(
        m.cluster_incarnation as nat,
        8,
    ) + m.ca_digest
}

/// The bytes of a manifest: its domain, its version, and its fields, with the
/// nodes in the order of their numbers.
pub open spec fn manifest_bytes(m: ManifestView) -> Growing {
    match with_field(
        manifest_domain() + be(m.format_version as nat, 2),
        encode_utf8(m.algorithm),
    ) {
        Err(e) => Err(e),
        Ok(named) => match with_field(named + key_part(m), encode_utf8(m.cluster_name)) {
            Err(e) => Err(e),
            Ok(clustered) => if m.nodes.len() > u16::MAX {
                Err(ConfigErrorView::Invalid("bootstrap manifest has too many nodes"@))
            } else {
                with_nodes(
                    clustered + cluster_part(m) + be(m.nodes.len(), 2),
                    in_order(m.nodes),
                    0,
                )
            },
        },
    }
}

/// What a configuration and its signature's fields say of the manifest.
pub open spec fn manifest_of(c: Config, m: BootstrapManifestSignature) -> ManifestView {
    ManifestView {
        format_version: m.format_version,
        algorithm: m.algorithm@,
        generation: m.generation,
        key_id: lower_hex_outcome(m.key_id@, 32, "manifest key_id"@)->Ok_0,
        cluster_name: c.cluster_id@,
        cluster_incarnation: c.cluster_incarnation,
        ca_digest: lower_hex_outcome(m.ca_sha256@, 32, "manifest ca_sha256"@)->Ok_0,
        nodes: views(c.initial_nodes@),
    }
}

/// The bytes that the signature of a configuration covers.
pub open spec fn canonical_outcome(c: Config) -> Growing {
    match c.bootstrap_manifest {
        None => Err(
            ConfigErrorView::Invalid(
                "authenticated OpenRaft requires bootstrap_manifest signature metadata"@,
            ),
        ),
        Some(m) => match signature_verdict(m) {
            Err(e) => Err(e),
            Ok(()) => manifest_bytes(manifest_of(c, m)),
        },
    }
}

/// Whether growing came out as it should.
pub open spec fn grows(outcome: Growing, result: Result<Vec<u8>, ConfigError>) -> bool {
    match result {
        Ok(bytes) => outcome == Ok::<_, ConfigErrorView>(bytes@),
        Err(e) => outcome == Err::<Seq<u8>, _>(e@),
    }
}

fn lower_bytes(name: &str) -> (bytes: Vec<u8>)
    ensures
        bytes@ == encode_utf8(ascii_lower_text(name@)),
{
    let chars = text_chars(name);
    let mut text = String::new();
    let mut i: usize = 0;
    while i < chars.len()
        invariant
            i <= chars@.len(),
            text@.len() == i,
            forall|k: int|
                0 <= k < i ==> text@[k] == crate::text::ascii_lower(#[trigger] chars@[k]),
        decreases chars@.len() - i,
    {
        text.push(lower_char(chars[i]));
        i += 1;
    }
    assert(text@ =~= ascii_lower_text(name@));
    text_bytes(text.as_str())
}

fn put_address(out: &mut Vec<u8>, address: &SocketAddress)
    ensures
        final(out)@ == old(out)@ + address_bytes(address@),
{
    if address.is_v4() {
        out.push(4);
        put_bytes(out, address.ip.as_slice());
        put_u16(out, address.port);
    } else {
        out.push(6);
        put_bytes(out, address.ip.as_slice());
        put_u16(out, address.port);
        put_u32(out, address.flowinfo);
        put_u32(out, address.scope);
    }
    assert(out@ =~= old(out)@ + address_bytes(address@));
}

fn put_node(bytes: Vec<u8>, node: &InitialNode) -> (result: Result<Vec<u8>, ConfigError>)
    ensures
        grows(with_node(bytes@, node@), result),
{
    let mut out = bytes;
    let ghost start = out@;
    put_u64(&mut out, node.node_id);
    out.push(
        if node.voter {
            1
        } else {
            0
        },
    );
    let (address, https) = match parse_initial_endpoint(node.endpoint.as_str()) {
        Ok(found) => found,
        Err(e) => {
            return Err(e);
        },
    };
    if !https {
        return Err(ConfigError::Invalid(peer_text(node.node_id, " endpoint must use https://")));
    }
    put_address(&mut out, &address);
    assert(out@ =~= start + node_start(node@, address@));
    let name = match &node.tls_dns_name {
        Some(name) => name,
        None => {
            return Err(ConfigError::Invalid(peer_text(node.node_id, " is missing tls_dns_name")));
        },
    };
    match put_manifest_bytes(&mut out, lower_bytes(name.as_str()).as_slice()) {
        Ok(()) => {},
        Err(e) => {
            return Err(e);
        },
    }
    let fingerprint = match node.tls_leaf_fingerprint() {
        Ok(fingerprint) => fingerprint,
        Err(e) => {
            return Err(e);
        },
    };
    put_bytes(&mut out, fingerprint.as_slice());
    if out.len() > MAX_MANIFEST_CANONICAL_BYTES {
        return Err(invalid("canonical bootstrap manifest exceeds 64 KiB"));
    }
    Ok(out)
}

fn sorted_nodes(nodes: &Vec<InitialNode>) -> (sorted: Vec<InitialNode>)
    ensures
        views(sorted@) == in_order(views(nodes@)),
{
    let mut copies: Vec<InitialNode> = Vec::new();
    let mut i: usize = 0;
    while i < nodes.len()
        invariant
            i <= nodes@.len(),
            copies@.len() == i,
            forall|k: int| 0 <= k < i ==> (#[trigger] copies@[k])@ == nodes@[k]@,
        decreases nodes@.len() - i,
    {
        copies.push(nodes[i].copied());
        i += 1;
    }
    assert(views(copies@) =~= views(nodes@));
    sort(copies)
}

#[verifier::loop_isolation(false)]
fn put_nodes(bytes: Vec<u8>, nodes: &Vec<InitialNode>) -> (result: Result<Vec<u8>, ConfigError>)
    ensures
        grows(with_nodes(bytes@, views(nodes@), 0), result),
{
    let ghost all = with_nodes(bytes@, views(nodes@), 0);
    let mut out = bytes;
    let mut i: usize = 0;
    while i < nodes.len()
        invariant
            i <= nodes@.len(),
            with_nodes(out@, views(nodes@), i as int) == all,
        decreases nodes@.len() - i,
    {
        assert(views(nodes@)[i as int] == nodes@[i as int]@);
        match put_node(out, &nodes[i]) {
            Ok(more) => {
                out = more;
            },
            Err(e) => {
                return Err(e);
            },
        }
        i += 1;
    }
    Ok(out)
}

/// The bytes that the signature of a configuration covers.
pub fn canonical_openraft_manifest(config: &Config) -> (result: Result<Vec<u8>, ConfigError>)
    ensures
        grows(canonical_outcome(*config), result),
{
    let manifest = match &config.bootstrap_manifest {
        Some(manifest) => manifest,
        None => {
            return Err(
                invalid("authenticated OpenRaft requires bootstrap_manifest signature metadata"),
            );
        },
    };
    match validate_manifest_signature_metadata(manifest) {
        Ok(()) => {},
        Err(e) => {
            return Err(e);
        },
    }
    let key_id = match decode_lower_hex(manifest.key_id.as_str(), 32, "manifest key_id") {
        Ok(bytes) => bytes,
        Err(e) => {
            return Err(e);
        },
    };
    let ca_digest = match decode_lower_hex(manifest.ca_sha256.as_str(), 32, "manifest ca_sha256") {
        Ok(bytes) => bytes,
        Err(e) => {
            return Err(e);
        },
    };
    let ghost m = manifest_of(*config, *manifest);
    let mut out = text_bytes("chorus/openraft-bootstrap-manifest/v1\0");
    put_u16(&mut out, manifest.format_version);
    match put_manifest_bytes(&mut out, text_bytes(manifest.algorithm.as_str()).as_slice()) {
        Ok(()) => {},
        Err(e) => {
            return Err(e);
        },
    }
    let ghost named = out@;
    put_u64(&mut out, manifest.generation);
    put_bytes(&mut out, key_id.as_slice());
    assert(out@ =~= named + key_part(m));
    match put_manifest_bytes(&mut out, text_bytes(config.cluster_id.as_str()).as_slice()) {
        Ok(()) => {},
        Err(e) => {
            return Err(e);
        },
    }
    let ghost clustered = out@;
    put_bytes(&mut out, config.cluster_id().0.as_slice());
    put_u64(&mut out, config.cluster_incarnation);
    put_bytes(&mut out, ca_digest.as_slice());
    if config.initial_nodes.len() > u16::MAX as usize {
        return Err(invalid("bootstrap manifest has too many nodes"));
    }
    put_u16(&mut out, config.initial_nodes.len() as u16);
    assert(out@ =~= clustered + cluster_part(m) + be(m.nodes.len(), 2));
    let nodes = sorted_nodes(&config.initial_nodes);
    put_nodes(out, &nodes)
}

// ---------------------------------------------------------------------------
// The trusted certificates
// ---------------------------------------------------------------------------

/// Byte strings stand in the order of their bytes.
impl Ranked for Seq<u8> {
    open spec fn before(self, other: Seq<u8>) -> bool {
        lex_less(self, other)
    }

    proof fn never_both_ways(a: Seq<u8>, b: Seq<u8>) {
        lex_total(a, b);
    }

    proof fn order_carries_over(a: Seq<u8>, b: Seq<u8>, c: Seq<u8>) {
        lex_total(a, b);
        lex_total(b, c);
        lex_total(a, c);
        if lex_less(a, b) && lex_less(b, c) {
            crate::bytes::lex_transitive(a, b, c);
        }
    }
}

impl SortItem for Vec<u8> {
    fn is_before(&self, other: &Vec<u8>) -> (before: bool) {
        bytes_less(self.as_slice(), other.as_slice())
    }
}

/// Whether two neighbours are the same.
pub open spec fn repeats_neighbour(list: Seq<Seq<u8>>) -> bool {
    exists|i: int| 0 <= i < list.len() - 1 && #[trigger] list[i] == list[i + 1]
}

/// Certificates behind their lengths, from the `i`th on.
pub open spec fn with_certificates(out: Seq<u8>, list: Seq<Seq<u8>>, i: int) -> Growing
    decreases list.len() - i,
{
    if i < 0 || i >= list.len() {
        Ok(out)
    } else if list[i].len() > u32::MAX {
        Err(ConfigErrorView::Invalid("tls.ca certificate is too large"@))
    } else {
        with_certificates(out + (be(list[i].len(), 4) + list[i]), list, i + 1)
    }
}

/// The bytes of a set of trusted certificates: their count, and each behind its
/// length, in the order of their bytes.
pub open spec fn trust_set_outcome(list: Seq<Seq<u8>>) -> Growing {
    if list.len() == 0 || list.len() > 64 {
        Err(ConfigErrorView::Invalid("tls.ca must contain between 1 and 64 certificates"@))
    } else if repeats_neighbour(in_order(list)) {
        Err(ConfigErrorView::Invalid("tls.ca contains a duplicate certificate"@))
    } else {
        with_certificates(
            encode_utf8("chorus/ca-trust-set/v1\0"@) + be(list.len(), 2),
            in_order(list),
            0,
        )
    }
}

/// The digest of a set of trusted certificates in PEM notation.
pub open spec fn ca_digest_outcome(pem: Seq<u8>) -> Growing {
    match pem_certificate_list(pem) {
        Err(fault) => Err(ConfigErrorView::Invalid("could not parse tls.ca: "@ + fault)),
        Ok(list) => match trust_set_outcome(list) {
            Err(e) => Err(e),
            Ok(bytes) => Ok(ring_sha256(bytes)),
        },
    }
}

fn neighbour_repeats(list: &Vec<Vec<u8>>) -> (found: bool)
    ensures
        found == repeats_neighbour(byte_lists(list@)),
{
    let mut i: usize = 1;
    let ghost all = byte_lists(list@);
    while i < list.len()
        invariant
            1 <= i,
            i <= list@.len() || list@.len() == 0,
            all == byte_lists(list@),
            forall|k: int| 0 <= k < i - 1 && k < all.len() - 1 ==> #[trigger] all[k] != all[k + 1],
        decreases list@.len() - i,
    {
        assert(all[i - 1] == list@[i - 1]@ && all[i as int] == list@[i as int]@);
        if same_bytes(list[i - 1].as_slice(), list[i].as_slice()) {
            assert(all[i - 1] == all[(i - 1) + 1]);
            return true;
        }
        i += 1;
    }
    false
}

/// The bytes of a set of trusted certificates.
#[verifier::loop_isolation(false)]
pub fn canonical_trust_set(list: Vec<Vec<u8>>) -> (result: Result<Vec<u8>, ConfigError>)
    ensures
        grows(trust_set_outcome(byte_lists(list@)), result),
{
    if list.len() == 0 || list.len() > 64 {
        return Err(invalid("tls.ca must contain between 1 and 64 certificates"));
    }
    let count: u16 = list.len() as u16;
    assert(views(list@) =~= byte_lists(list@));
    let sorted = sort(list);
    assert(views(sorted@) =~= byte_lists(sorted@));
    let ghost all = byte_lists(sorted@);
    proof {
        sorting_permutes(byte_lists(list@));
    }
    if neighbour_repeats(&sorted) {
        return Err(invalid("tls.ca contains a duplicate certificate"));
    }
    let mut out = text_bytes("chorus/ca-trust-set/v1\0");
    put_u16(&mut out, count);
    let ghost whole = with_certificates(out@, all, 0);
    let mut i: usize = 0;
    while i < sorted.len()
        invariant
            i <= sorted@.len(),
            with_certificates(out@, all, i as int) == whole,
        decreases sorted@.len() - i,
    {
        let der = &sorted[i];
        assert(all[i as int] == der@);
        if der.len() > u32::MAX as usize {
            return Err(invalid("tls.ca certificate is too large"));
        }
        let ghost before = out@;
        put_u32(&mut out, der.len() as u32);
        put_bytes(&mut out, der.as_slice());
        assert(out@ =~= before + (be(der@.len(), 4) + der@));
        i += 1;
    }
    Ok(out)
}

/// The digest of a set of trusted certificates in PEM notation.
pub fn canonical_ca_trust_digest(pem: &[u8]) -> (result: Result<[u8; 32], ConfigError>)
    ensures
        match result {
            Ok(digest) => ca_digest_outcome(pem@) == Ok::<_, ConfigErrorView>(digest@),
            Err(e) => ca_digest_outcome(pem@) == Err::<Seq<u8>, _>(e@),
        },
{
    let list = match pem_certificates(pem) {
        Ok(list) => list,
        Err(fault) => {
            return Err(ConfigError::Invalid(joined("could not parse tls.ca: ", fault.as_str())));
        },
    };
    match canonical_trust_set(list) {
        Ok(bytes) => Ok(sha256(bytes.as_slice())),
        Err(e) => Err(e),
    }
}

// ---------------------------------------------------------------------------
// Verifying a manifest
// ---------------------------------------------------------------------------

/// The rule that the file of a trusted key is read by.
pub open spec fn key_rule() -> FileRule {
    FileRule::Bounded { maximum: MAX_MANIFEST_KEY_BYTES, owner_writes_alone: true }
}

/// The rule that the file of a trusted key is read by.
pub fn key_file() -> (rule: FileRule)
    ensures
        rule == key_rule(),
{
    FileRule::Bounded { maximum: MAX_MANIFEST_KEY_BYTES, owner_writes_alone: true }
}

/// The key that a file holds, with what reading the file gave.
pub open spec fn public_key_outcome(file: Result<Vec<u8>, ConfigError>) -> Growing {
    match file {
        Err(e) => Err(e@),
        Ok(bytes) => match key_rule().content_verdict(bytes@.len(), "manifest trust key"@) {
            Err(e) => Err(e),
            Ok(()) => if !valid_utf8(bytes@) {
                Err(ConfigErrorView::Invalid("manifest trust key is not ASCII hex"@))
            } else {
                lower_hex_outcome(decode_utf8(bytes@), 32, "manifest trust key"@)
            },
        },
    }
}

/// Reads the key that a file holds.
pub fn read_manifest_public_key(file: &Result<Vec<u8>, ConfigError>) -> (result: Result<
    [u8; 32],
    ConfigError,
>)
    ensures
        match result {
            Ok(key) => public_key_outcome(*file) == Ok::<_, ConfigErrorView>(key@),
            Err(e) => public_key_outcome(*file) == Err::<Seq<u8>, _>(e@),
        },
{
    let bytes = match file {
        Ok(bytes) => bytes,
        Err(e) => {
            return Err(e.copied());
        },
    };
    match key_file().check_content(bytes.as_slice(), "manifest trust key") {
        Ok(()) => {},
        Err(e) => {
            return Err(e);
        },
    }
    match utf8_text(bytes.as_slice()) {
        None => Err(invalid("manifest trust key is not ASCII hex")),
        Some(text) => match decode_lower_hex(text.as_str(), 32, "manifest trust key") {
            Ok(key) => Ok(crate::bytes::array32(key.as_slice())),
            Err(e) => Err(e),
        },
    }
}

/// What a [`VerifiedOpenRaftManifest`] says.
#[verifier::ext_equal]
pub struct VerifiedView {
    pub format_version: u16,
    pub generation: u64,
    pub signer_key_id: Seq<u8>,
    pub manifest_digest: Seq<u8>,
}

impl View for VerifiedOpenRaftManifest {
    type V = VerifiedView;

    open spec fn view(&self) -> VerifiedView {
        VerifiedView {
            format_version: self.format_version,
            generation: self.generation,
            signer_key_id: self.signer_key_id@,
            manifest_digest: self.manifest_digest@,
        }
    }
}

/// What the files beside a configuration say: whether its manifest names the
/// key and the certificates, and whether the signature holds.
pub open spec fn signed_outcome(
    c: Config,
    m: BootstrapManifestSignature,
    key: Growing,
    ca_digest: Growing,
) -> Result<VerifiedView, ConfigErrorView> {
    let key_id = lower_hex_outcome(m.key_id@, 32, "manifest key_id"@);
    let ca_sha256 = lower_hex_outcome(m.ca_sha256@, 32, "manifest ca_sha256"@);
    let signature = lower_hex_outcome(m.signature@, 64, "manifest signature"@);
    match (key, key_id) {
        (Err(e), _) => Err(e),
        (_, Err(e)) => Err(e),
        (Ok(key), Ok(key_id)) => if ring_sha256(key) != key_id {
            Err(
                ConfigErrorView::Invalid(
                    "trusted manifest key does not match bootstrap_manifest.key_id"@,
                ),
            )
        } else {
            match (ca_digest, ca_sha256) {
                (Err(e), _) => Err(e),
                (_, Err(e)) => Err(e),
                (Ok(actual), Ok(configured)) => if actual != configured {
                    Err(
                        ConfigErrorView::Invalid(
                            "tls.ca trust set does not match the signed manifest digest"@,
                        ),
                    )
                } else {
                    match (canonical_outcome(c), signature) {
                        (Err(e), _) => Err(e),
                        (_, Err(e)) => Err(e),
                        (Ok(signed), Ok(signature)) => if !ed25519_holds(key, signed, signature) {
                            Err(
                                ConfigErrorView::Invalid(
                                    "bootstrap manifest signature is invalid"@,
                                ),
                            )
                        } else {
                            Ok(
                                VerifiedView {
                                    format_version: m.format_version,
                                    generation: m.generation,
                                    signer_key_id: ring_sha256(key),
                                    manifest_digest: ring_sha256(signed),
                                },
                            )
                        },
                    }
                },
            }
        },
    }
}

/// The digest of the trusted certificates, with what reading their file gave.
pub open spec fn trusted_digest_outcome(ca: Result<Vec<u8>, ConfigError>) -> Growing {
    match (FileRule::Tls { private: false }).read_verdict(ca, "tls.ca"@) {
        Err(e) => Err(e),
        Ok(()) => ca_digest_outcome(ca->Ok_0@),
    }
}

/// The verification of a configuration's manifest, with what reading the key
/// and the trusted certificates gave.
pub open spec fn verification_outcome(
    c: Config,
    files: TlsFiles,
    key: Result<Vec<u8>, ConfigError>,
    ca: Result<Vec<u8>, ConfigError>,
) -> Result<VerifiedView, ConfigErrorView> {
    match mtls_verdict(c, files) {
        Err(e) => Err(e),
        Ok(()) => match c.bootstrap_manifest {
            None => Err(
                ConfigErrorView::Invalid(
                    "authenticated OpenRaft requires bootstrap_manifest signature metadata"@,
                ),
            ),
            Some(m) => signed_outcome(
                c,
                m,
                public_key_outcome(key),
                trusted_digest_outcome(ca),
            ),
        },
    }
}

/// Whether a verification came out as it should.
pub open spec fn verifies(
    outcome: Result<VerifiedView, ConfigErrorView>,
    result: Result<VerifiedOpenRaftManifest, ConfigError>,
) -> bool {
    match result {
        Ok(v) => outcome == Ok::<_, ConfigErrorView>(v@),
        Err(e) => outcome == Err::<VerifiedView, _>(e@),
    }
}

/// Checks a manifest's key, certificates and signature.
pub fn verify_signed(
    config: &Config,
    manifest: &BootstrapManifestSignature,
    key: Result<[u8; 32], ConfigError>,
    ca_digest: Result<[u8; 32], ConfigError>,
) -> (result: Result<VerifiedOpenRaftManifest, ConfigError>)
    ensures
        verifies(
            signed_outcome(
                *config,
                *manifest,
                match key {
                    Ok(k) => Ok(k@),
                    Err(e) => Err(e@),
                },
                match ca_digest {
                    Ok(d) => Ok(d@),
                    Err(e) => Err(e@),
                },
            ),
            result,
        ),
{
    let public_key = match key {
        Ok(key) => key,
        Err(e) => {
            return Err(e);
        },
    };
    let key_id = sha256(public_key.as_slice());
    let configured_key_id = match decode_lower_hex(
        manifest.key_id.as_str(),
        32,
        "manifest key_id",
    ) {
        Ok(bytes) => bytes,
        Err(e) => {
            return Err(e);
        },
    };
    if !same_bytes(key_id.as_slice(), configured_key_id.as_slice()) {
        return Err(invalid("trusted manifest key does not match bootstrap_manifest.key_id"));
    }
    let actual = match ca_digest {
        Ok(digest) => digest,
        Err(e) => {
            return Err(e);
        },
    };
    let configured = match decode_lower_hex(
        manifest.ca_sha256.as_str(),
        32,
        "manifest ca_sha256",
    ) {
        Ok(bytes) => bytes,
        Err(e) => {
            return Err(e);
        },
    };
    if !same_bytes(actual.as_slice(), configured.as_slice()) {
        return Err(invalid("tls.ca trust set does not match the signed manifest digest"));
    }
    let signed = match canonical_openraft_manifest(config) {
        Ok(bytes) => bytes,
        Err(e) => {
            return Err(e);
        },
    };
    let signature = match decode_lower_hex(
        manifest.signature.as_str(),
        64,
        "manifest signature",
    ) {
        Ok(bytes) => bytes,
        Err(e) => {
            return Err(e);
        },
    };
    if !ed25519_verify(public_key.as_slice(), signed.as_slice(), signature.as_slice()) {
        return Err(invalid("bootstrap manifest signature is invalid"));
    }
    Ok(
        VerifiedOpenRaftManifest {
            format_version: manifest.format_version,
            generation: manifest.generation,
            signer_key_id: key_id,
            manifest_digest: sha256(signed.as_slice()),
        },
    )
}

impl Config {
    /// The bytes that the bootstrap signature covers. The signature itself is
    /// not among them; every other field beside it is.
    pub fn openraft_manifest_signing_bytes(&self, files: &TlsFiles) -> (result: Result<
        Vec<u8>,
        ConfigError,
    >)
        ensures
            grows(
                match mtls_verdict(*self, *files) {
                    Err(e) => Err(e),
                    Ok(()) => canonical_outcome(*self),
                },
                result,
            ),
    {
        match self.validate_openraft_mtls(files) {
            Ok(()) => canonical_openraft_manifest(self),
            Err(e) => Err(e),
        }
    }

    /// Verifies the manifest against a trusted key, with what reading the key
    /// and the trusted certificates gave.
    pub fn verify_openraft_manifest(
        &self,
        files: &TlsFiles,
        key: &Result<Vec<u8>, ConfigError>,
        ca: &Result<Vec<u8>, ConfigError>,
    ) -> (result: Result<VerifiedOpenRaftManifest, ConfigError>)
        ensures
            verifies(verification_outcome(*self, *files, *key, *ca), result),
    {
        match self.validate_openraft_mtls(files) {
            Ok(()) => {},
            Err(e) => {
                return Err(e);
            },
        }
        let manifest = match &self.bootstrap_manifest {
            Some(manifest) => manifest,
            None => {
                return Err(
                    invalid(
                        "authenticated OpenRaft requires bootstrap_manifest signature metadata",
                    ),
                );
            },
        };
        let digest = match ca {
            Ok(pem) => match (FileRule::Tls { private: false }).check_content(
                pem.as_slice(),
                "tls.ca",
            ) {
                Ok(()) => canonical_ca_trust_digest(pem.as_slice()),
                Err(e) => Err(e),
            },
            Err(e) => Err(e.copied()),
        };
        verify_signed(self, manifest, read_manifest_public_key(key), digest)
    }
}

} // verus!
