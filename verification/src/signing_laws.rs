//! Which signed manifests and TLS files are accepted, and what a signature
//! covers.

use crate::bytes::{be, lex_less, lex_total};
use crate::config::{BootstrapManifestSignature, Config, TlsFiles, TransportTlsMaterial};
use crate::config_error::{ConfigError, ConfigErrorView};
use crate::endpoint::{all_lower_hex, endpoint_outcome, hex_bytes, lower_hex_outcome};
use crate::manifest::{
    address_bytes, canonical_outcome, ed25519_holds, public_key_outcome, repeats_neighbour,
    ring_sha256, trust_set_outcome, trusted_digest_outcome, verification_outcome, with_certificates,
    with_field, with_node,
};
use crate::node_identity::{
    are_peers, files_fault, first_with, has_peer, identity_fault, is_identity, leaf_fault,
    Certificates,
};
use crate::node_map::{has_node, node_value};
use crate::peers::{first_voter, mtls_verdict, no_voter};
use crate::sorting::{
    in_order, is_sorted, ranks_tell_apart, sorting_forgets_order, sorting_permutes,
};
use crate::text::ascii_lower_text;
use crate::transport::TransportTlsIdentity;
use vstd::prelude::*;
use vstd::string::*;
use vstd::utf8::{decode_utf8, encode_utf8, valid_utf8};

verus! {

/// A digest, a key or a signature is accepted exactly where it is written in
/// lower-case hexadecimal digits, two to a byte.
pub proof fn hexadecimal_is_read(value: Seq<char>, size: nat, label: Seq<char>)
    ensures
        lower_hex_outcome(value, size, label) is Ok <==> (value.len() == 2 * size && forall|i: int|
            0 <= i < value.len() ==> ('0' <= #[trigger] value[i] <= '9' || 'a' <= value[i] <= 'f')),
        lower_hex_outcome(value, size, label) matches Ok(bytes) ==> (bytes.len() == size && forall|
            i: int,
        |
            0 <= i < size ==> #[trigger] bytes[i] == 16 * digit_of(value[2 * i]) + digit_of(
                value[2 * i + 1],
            )),
{
    assert(all_lower_hex(value) <==> forall|i: int|
        0 <= i < value.len() ==> ('0' <= #[trigger] value[i] <= '9' || 'a' <= value[i] <= 'f')) by {
        if all_lower_hex(value) {
            assert forall|i: int| 0 <= i < value.len() implies ('0' <= #[trigger] value[i] <= '9'
                || 'a' <= value[i] <= 'f') by {
                assert(crate::text::hex_value(value[i]) is Some);
            }
        }
    }
    if let Ok(bytes) = lower_hex_outcome(value, size, label) {
        assert forall|i: int| 0 <= i < size implies #[trigger] bytes[i] == 16 * digit_of(
            value[2 * i],
        ) + digit_of(value[2 * i + 1]) by {
            assert('0' <= value[2 * i] <= '9' || 'a' <= value[2 * i] <= 'f');
            assert('0' <= value[2 * i + 1] <= '9' || 'a' <= value[2 * i + 1] <= 'f');
        }
    }
}

/// What a lower-case hexadecimal digit stands for.
pub open spec fn digit_of(c: char) -> int {
    if c <= '9' {
        c as int - '0' as int
    } else {
        10 + c as int - 'a' as int
    }
}

/// A configuration is verified exactly where it is accepted for authenticated
/// peers, its trusted key is the one that the manifest names, its certificates
/// are those that the manifest names, and the signature of that key covers what
/// the configuration says; the key and the manifest are then told by their
/// digests.
pub proof fn signed_configurations_are_verified(
    c: Config,
    files: TlsFiles,
    key: Result<Vec<u8>, ConfigError>,
    ca: Result<Vec<u8>, ConfigError>,
)
    ensures
        verification_outcome(c, files, key, ca) is Ok <==> {
            &&& mtls_verdict(c, files) is Ok
            &&& c.bootstrap_manifest matches Some(m) && holds(c, m, key, ca)
        },
        verification_outcome(c, files, key, ca) matches Ok(v) ==> {
            &&& v.generation == c.bootstrap_manifest->0.generation
            &&& v.format_version == c.bootstrap_manifest->0.format_version
            &&& v.signer_key_id == hex_bytes(c.bootstrap_manifest->0.key_id@)
            &&& v.manifest_digest == ring_sha256(canonical_outcome(c)->Ok_0)
        },
{
}

/// Whether a manifest holds: the key, the certificates and the signature are
/// the right ones.
pub open spec fn holds(
    c: Config,
    m: BootstrapManifestSignature,
    key: Result<Vec<u8>, ConfigError>,
    ca: Result<Vec<u8>, ConfigError>,
) -> bool {
    &&& public_key_outcome(key) is Ok
    &&& lower_hex_outcome(m.key_id@, 32, ""@) == Ok::<_, ConfigErrorView>(
        ring_sha256(public_key_outcome(key)->Ok_0),
    )
    &&& trusted_digest_outcome(ca) is Ok
    &&& lower_hex_outcome(m.ca_sha256@, 32, ""@) == trusted_digest_outcome(ca)
    &&& canonical_outcome(c) is Ok
    &&& lower_hex_outcome(m.signature@, 64, ""@) is Ok
    &&& ed25519_holds(
        public_key_outcome(key)->Ok_0,
        canonical_outcome(c)->Ok_0,
        hex_bytes(m.signature@),
    )
}

/// A trusted key is a file of sixty-four lower-case hexadecimal digits.
pub proof fn trusted_keys_are_read(file: Result<Vec<u8>, ConfigError>)
    ensures
        public_key_outcome(file) is Ok <==> (file matches Ok(bytes) && bytes@.len() <= 64
            && valid_utf8(bytes@) && lower_hex_outcome(decode_utf8(bytes@), 32, ""@) is Ok),
        public_key_outcome(file) matches Ok(key) ==> key == hex_bytes(decode_utf8(file->Ok_0@)),
{
}

// ---------------------------------------------------------------------------
// Trust sets
// ---------------------------------------------------------------------------

proof fn lemma_neighbours(list: Seq<Seq<u8>>, i: int, j: int)
    requires
        is_sorted(list),
        0 <= i < j < list.len(),
        list[i] == list[j],
    ensures
        repeats_neighbour(list),
{
    lex_total(list[i], list[i + 1]);
    if i + 1 < j {
        assert(!lex_less(list[j], list[i + 1]));
        assert(!lex_less(list[i + 1], list[i]));
    }
    assert(list[i] == list[i + 1]);
}

proof fn lemma_repeats(list: Seq<Seq<u8>>)
    ensures
        repeats_neighbour(in_order(list)) <==> !list.no_duplicates(),
{
    let sorted = in_order(list);
    sorting_permutes(list);
    list.to_multiset_ensures();
    sorted.to_multiset_ensures();
    if list.no_duplicates() {
        list.lemma_multiset_has_no_duplicates();
        assert(sorted.to_multiset() == list.to_multiset());
        sorted.lemma_multiset_has_no_duplicates_conv();
        assert(sorted.no_duplicates());
        if repeats_neighbour(sorted) {
            let i = choose|i: int| 0 <= i < sorted.len() - 1 && #[trigger] sorted[i] == sorted[i + 1];
            assert(sorted[i] != sorted[i + 1]);
        }
    } else if !repeats_neighbour(sorted) {
        assert(sorted.no_duplicates()) by {
            assert forall|i: int, j: int|
                0 <= i < sorted.len() && 0 <= j < sorted.len() && i != j implies sorted[i]
                != sorted[j] by {
                if sorted[i] == sorted[j] {
                    if i < j {
                        lemma_neighbours(sorted, i, j);
                    } else {
                        lemma_neighbours(sorted, j, i);
                    }
                }
            }
        }
        sorted.lemma_multiset_has_no_duplicates();
        list.lemma_multiset_has_no_duplicates_conv();
    }
}

/// The bytes of certificates, each behind its length in four bytes.
pub open spec fn framed_all(list: Seq<Seq<u8>>) -> Seq<u8>
    decreases list.len(),
{
    if list.len() == 0 {
        Seq::empty()
    } else {
        framed_all(list.drop_last()) + be(list.last().len(), 4) + list.last()
    }
}

proof fn lemma_with_certificates(out: Seq<u8>, list: Seq<Seq<u8>>, i: int)
    requires
        0 <= i <= list.len(),
        forall|k: int| 0 <= k < list.len() ==> (#[trigger] list[k]).len() <= u32::MAX,
    ensures
        with_certificates(out + framed_all(list.subrange(0, i)), list, i) == Ok::<
            _,
            ConfigErrorView,
        >(out + framed_all(list)),
    decreases list.len() - i,
{
    if i == list.len() {
        assert(list.subrange(0, i) =~= list);
    } else {
        let front = list.subrange(0, i);
        let more = list.subrange(0, i + 1);
        assert(more.drop_last() =~= front);
        assert(out + framed_all(front) + (be(list[i].len(), 4) + list[i]) =~= out + framed_all(
            more,
        ));
        lemma_with_certificates(out, list, i + 1);
    }
}

proof fn lemma_too_large(out: Seq<u8>, list: Seq<Seq<u8>>, i: int, at: int)
    requires
        0 <= i <= at < list.len(),
        list[at].len() > u32::MAX,
    ensures
        with_certificates(out, list, i) is Err,
    decreases at - i,
{
    if i < at && list[i].len() <= u32::MAX {
        lemma_too_large(out + (be(list[i].len(), 4) + list[i]), list, i + 1, at);
    }
}

/// Between one and sixty-four certificates make a trust set where none is there
/// twice, and its bytes are those of all of them by their order, each behind
/// its length, whatever order they were given in.
pub proof fn trust_sets_hold_every_certificate(list: Seq<Seq<u8>>, other: Seq<Seq<u8>>)
    requires
        forall|k: int| 0 <= k < list.len() ==> (#[trigger] list[k]).len() <= u32::MAX,
    ensures
        trust_set_outcome(list) is Ok <==> 1 <= list.len() <= 64 && list.no_duplicates(),
        trust_set_outcome(list) matches Ok(bytes) ==> exists|sorted: Seq<Seq<u8>>|
            is_sorted(sorted) && sorted.to_multiset() == list.to_multiset() && bytes == encode_utf8(
                "chorus/ca-trust-set/v1\0"@,
            ) + seq![0u8, list.len() as u8] + #[trigger] framed_all(sorted),
        other.to_multiset() == list.to_multiset() ==> trust_set_outcome(other) == trust_set_outcome(
            list,
        ),
{
    let sorted = in_order(list);
    sorting_permutes(list);
    lemma_repeats(list);
    list.to_multiset_ensures();
    sorted.to_multiset_ensures();
    assert forall|k: int| 0 <= k < sorted.len() implies (#[trigger] sorted[k]).len() <= u32::MAX by {
        assert(sorted.contains(sorted[k]));
        assert(list.to_multiset().count(sorted[k]) > 0);
        assert(list.contains(sorted[k]));
    }
    if list.len() <= 64 {
        reveal_with_fuel(be, 3);
        let out = encode_utf8("chorus/ca-trust-set/v1\0"@) + be(list.len(), 2);
        assert(be(list.len(), 2) =~= seq![0u8, list.len() as u8]);
        lemma_with_certificates(out, sorted, 0);
        assert(sorted.subrange(0, 0) =~= Seq::empty());
        assert(out + framed_all(Seq::empty()) =~= out);
    }
    if other.to_multiset() == list.to_multiset() {
        assert(ranks_tell_apart(list)) by {
            assert forall|a: Seq<u8>, b: Seq<u8>|
                list.contains(a) && list.contains(b) && !lex_less(a, b) && !lex_less(
                    b,
                    a,
                ) implies a == b by {
                lex_total(a, b);
            }
        }
        sorting_forgets_order(list, other);
        other.to_multiset_ensures();
        assert(other.len() == list.len());
    }
}

// ---------------------------------------------------------------------------
// What is signed
// ---------------------------------------------------------------------------

/// A field fits where the bytes stay within 64 KiB, and stands behind its
/// length in two bytes.
pub proof fn fields_stand_behind_their_length(out: Seq<u8>, value: Seq<u8>)
    requires
        out.len() + value.len() + 2 <= usize::MAX,
    ensures
        with_field(out, value) is Ok <==> out.len() + 2 + value.len() <= 65_536,
        with_field(out, value) matches Ok(bytes) ==> bytes == out + seq![
            (value.len() / 256) as u8,
            (value.len() % 256) as u8,
        ] + value,
{
    if value.len() <= u16::MAX {
        reveal_with_fuel(be, 3);
        let n = value.len();
        assert(be(n, 2) =~= seq![(n / 256) as u8, (n % 256) as u8]);
        assert(out + (be(n, 2) + value) =~= out + be(n, 2) + value);
    }
}

/// What is signed of a node is its number, whether it votes, its address, its
/// DNS name in small letters and its fingerprint, in this order.
pub proof fn nodes_are_signed_whole(out: Seq<u8>, n: crate::config::InitialNodeView)
    ensures
        with_node(out, n) matches Ok(bytes) ==> {
            let name = encode_utf8(ascii_lower_text(n.tls_dns_name->0));
            let (address, https) = endpoint_outcome(n.endpoint)->Ok_0;
            &&& https
            &&& n.tls_dns_name is Some
            &&& bytes == out + be(n.node_id as nat, 8) + seq![
                if n.voter {
                    1u8
                } else {
                    0u8
                },
            ] + address_bytes(address) + be(name.len(), 2) + name
                + crate::config::fingerprint_outcome(n)->Ok_0
            &&& address.ip.len() == 4 ==> address_bytes(address) == seq![4u8] + address.ip + be(
                address.port as nat,
                2,
            )
            &&& address.ip.len() == 16 ==> address_bytes(address) == seq![6u8] + address.ip + be(
                address.port as nat,
                2,
            ) + be(address.flowinfo as nat, 4) + be(address.scope as nat, 4)
        },
{
    if let Ok(bytes) = with_node(out, n) {
        let name = encode_utf8(ascii_lower_text(n.tls_dns_name->0));
        let (address, _) = endpoint_outcome(n.endpoint)->Ok_0;
        let fingerprint = crate::config::fingerprint_outcome(n)->Ok_0;
        let flag = seq![
            if n.voter {
                1u8
            } else {
                0u8
            },
        ];
        let start = out + (be(n.node_id as nat, 8) + (flag + address_bytes(address)));
        assert(bytes == start + (be(name.len(), 2) + name) + fingerprint);
        assert(bytes =~= out + be(n.node_id as nat, 8) + flag + address_bytes(address) + be(
            name.len(),
            2,
        ) + name + fingerprint);
    }
}

// ---------------------------------------------------------------------------
// TLS files of a node
// ---------------------------------------------------------------------------

proof fn lemma_first_with(nodes: Seq<crate::config::InitialNode>, id: u64, i: int)
    requires
        0 <= i <= nodes.len(),
    ensures
        first_with(nodes, id, i) matches Some(k) ==> i <= k < nodes.len() && nodes[k].node_id == id
            && forall|j: int| i <= j < k ==> (#[trigger] nodes[j]).node_id != id,
        first_with(nodes, id, i) is None ==> forall|j: int|
            i <= j < nodes.len() ==> (#[trigger] nodes[j]).node_id != id,
    decreases nodes.len() - i,
{
    if i < nodes.len() && nodes[i].node_id != id {
        lemma_first_with(nodes, id, i + 1);
    }
}

/// The TLS files of a node are fit exactly where there are trusted
/// certificates, a certificate of its own and a private key.
pub proof fn complete_files_are_fit(
    ca: Certificates,
    certificates: Certificates,
    key: Result<bool, Seq<char>>,
)
    ensures
        files_fault(ca, certificates, key) is None <==> {
            &&& ca matches Ok(trusted) && trusted.len() > 0
            &&& certificates matches Ok(own) && own.len() > 0
            &&& key == Ok::<bool, Seq<char>>(true)
        },
{
}

/// A node proves itself with the certificate whose digest stands beside its own
/// number in the manifest, and with no other.
pub proof fn own_certificates_are_accepted(config: Config, leaf: Seq<u8>, i: int)
    requires
        0 <= i < config.initial_nodes@.len(),
        config.initial_nodes@[i].node_id == config.node_id,
        forall|j: int|
            0 <= j < i ==> (#[trigger] config.initial_nodes@[j]).node_id != config.node_id,
    ensures
        leaf_fault(config, leaf) is None <==> crate::config::fingerprint_outcome(
            config.initial_nodes@[i]@,
        ) == Ok::<_, ConfigErrorView>(crate::ids::sha_of(leaf)),
{
    lemma_first_with(config.initial_nodes@, config.node_id, 0);
}

/// A node that is in no manifest proves itself with no certificate.
pub proof fn strangers_have_no_certificate(config: Config, leaf: Seq<u8>)
    requires
        forall|j: int|
            0 <= j < config.initial_nodes@.len() ==> (#[trigger] config.initial_nodes@[j]).node_id
                != config.node_id,
    ensures
        leaf_fault(config, leaf) is Some,
{
    lemma_first_with(config.initial_nodes@, config.node_id, 0);
}

/// An identity is made where the configuration is accepted, the files are fit,
/// and the first certificate is the node's own.
pub proof fn fit_nodes_have_an_identity(
    config: Config,
    files: TlsFiles,
    ca: Certificates,
    certificates: Certificates,
    key: Result<bool, Seq<char>>,
)
    ensures
        identity_fault(config, files, ca, certificates, key) is None <==> (mtls_verdict(
            config,
            files,
        ) is Ok && files_fault(ca, certificates, key) is None && leaf_fault(
            config,
            certificates->Ok_0[0],
        ) is None),
{
}

/// An identity is that of the node and of its cluster, with the files that were
/// read, and it knows every other node of the manifest as the manifest lists it.
pub proof fn identities_are_those_of_the_manifest(
    id: TransportTlsIdentity,
    config: Config,
    material: TransportTlsMaterial,
    i: int,
)
    requires
        is_identity(id, config, material),
        0 <= i < config.initial_nodes@.len(),
    ensures
        id.node_id == config.node_id,
        id.cluster_incarnation == config.cluster_incarnation,
        id.ca_pem@ == material.ca_pem@,
        id.certificate_pem@ == material.certificate_pem@,
        id.private_key_pem@ == material.private_key_pem@,
        !has_node(id.peers@, config.node_id),
        config.initial_nodes@[i].node_id != config.node_id ==> {
            let node = config.initial_nodes@[i];
            &&& node_value(id.peers@, node.node_id) matches Some(peer) && {
                &&& peer.node_id == node.node_id
                &&& peer.endpoint@ == node.endpoint@
                &&& node.tls_dns_name is Some && peer.dns_name@ == node.tls_dns_name->0@
                &&& crate::config::fingerprint_outcome(node@) == Ok::<_, ConfigErrorView>(
                    peer.leaf_sha256@,
                )
            }
        },
{
    assert(are_peers(id.peers@, config));
    if config.initial_nodes@[i].node_id != config.node_id {
        assert(has_peer(id.peers@, config.initial_nodes@[i]));
    }
}

/// A group is started by the voter with the lowest number.
pub proof fn lowest_voters_start_the_group(nodes: Seq<crate::config::InitialNode>, id: u64, i: int)
    requires
        0 <= i < nodes.len(),
        nodes[i].node_id == id,
        nodes[i].voter,
        forall|j: int|
            0 <= j < nodes.len() && (#[trigger] nodes[j]).node_id < id ==> !nodes[j].voter,
    ensures
        first_voter(nodes, id),
        !no_voter(nodes),
        forall|other: u64| #[trigger] first_voter(nodes, other) ==> other == id,
{
    assert(nodes[i].voter && nodes[i].node_id == id);
    assert forall|j: int| 0 <= j < nodes.len() && (#[trigger] nodes[j]).voter implies id
        <= nodes[j].node_id by {
        assert(nodes[j].node_id < id ==> !nodes[j].voter);
    }
}

} // verus!
