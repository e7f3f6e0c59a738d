//! Who a node is to its peers, made of its configuration and its TLS files.

use crate::config::{fingerprint_outcome, Config, InitialNode, TlsFiles, TransportTlsMaterial};
use crate::config_error::{ConfigError, ConfigErrorView};
use crate::ids::sha_of;
use crate::node_map::{has_node, node_value, nodes_ascend, NodeMap};
use crate::node_plan::cluster_of;
use crate::peers::{accepted_nodes_are_distinct, accepted_peers_are_distinct, material_outcome, mtls_verdict};
use crate::pem::{
    byte_lists, pem_certificate_list, pem_certificates, pem_key_found, pem_private_key,
};
use crate::text::{joined, owned, same_bytes};
use crate::transport::{identity_verdict, leaf_fingerprint, PeerTlsConfig, TransportTlsIdentity};
use vstd::prelude::*;
use vstd::string::*;

verus! {

/// What reading certificates gave.
pub type Certificates = Result<Seq<Seq<u8>>, Seq<char>>;

/// What is wrong with the contents of the TLS files, if anything: there must be
/// a trusted certificate, a leaf certificate and a private key.
pub open spec fn files_fault(
    ca: Certificates,
    certificates: Certificates,
    key: Result<bool, Seq<char>>,
) -> Option<Seq<char>> {
    match (ca, certificates, key) {
        (Err(fault), _, _) => Some("could not parse tls.ca: "@ + fault),
        (Ok(list), _, _) if list.len() == 0 => Some("tls.ca contains no certificate"@),
        (_, Err(fault), _) => Some("could not parse tls.certificate: "@ + fault),
        (_, Ok(list), _) if list.len() == 0 => Some(
            "tls.certificate contains no leaf certificate"@,
        ),
        (_, _, Err(fault)) => Some("could not parse tls.private_key: "@ + fault),
        (_, _, Ok(false)) => Some("tls.private_key contains no private key"@),
        _ => None,
    }
}

/// The first node with a number.
pub open spec fn first_with(nodes: Seq<InitialNode>, node_id: u64, i: int) -> Option<int>
    decreases nodes.len() - i,
{
    if i < 0 || i >= nodes.len() {
        None
    } else if nodes[i].node_id == node_id {
        Some(i)
    } else {
        first_with(nodes, node_id, i + 1)
    }
}

/// What keeps a leaf certificate from being the one that the configuration
/// gives this node, if anything.
pub open spec fn leaf_fault(config: Config, leaf: Seq<u8>) -> Option<Seq<char>> {
    match first_with(config.initial_nodes@, config.node_id, 0) {
        None => Some("local node is missing from the peer manifest"@),
        Some(i) => match fingerprint_outcome(config.initial_nodes@[i]@) {
            Err(e) => Some(e.text()),
            Ok(fingerprint) => if sha_of(leaf) != fingerprint {
                Some("local TLS leaf does not match the peer manifest fingerprint"@)
            } else {
                None
            },
        },
    }
}

/// Whether a peer is the one that a configuration lists.
pub open spec fn is_peer(peer: PeerTlsConfig, node: InitialNode) -> bool {
    &&& peer.node_id == node.node_id
    &&& peer.endpoint@ == node.endpoint@
    &&& node.tls_dns_name matches Some(name) && peer.dns_name@ == name@
    &&& fingerprint_outcome(node@) == Ok::<_, ConfigErrorView>(peer.leaf_sha256@)
}

/// Whether a table has a node of a configuration as a peer.
pub open spec fn has_peer(peers: Seq<(u64, PeerTlsConfig)>, node: InitialNode) -> bool {
    match node_value(peers, node.node_id) {
        Some(peer) => is_peer(peer, node),
        None => false,
    }
}

/// Whether a table has the other nodes of a configuration and no one else.
pub open spec fn are_peers(peers: Seq<(u64, PeerTlsConfig)>, config: Config) -> bool {
    &&& nodes_ascend(peers)
    &&& forall|i: int|
        0 <= i < config.initial_nodes@.len() && (#[trigger] config.initial_nodes@[i]).node_id
            != config.node_id ==> has_peer(peers, config.initial_nodes@[i])
    &&& forall|id: u64| #[trigger]
        has_node(peers, id) ==> id != config.node_id && exists|i: int|
            0 <= i < config.initial_nodes@.len() && (
            #[trigger] config.initial_nodes@[i]).node_id == id
}

/// Whether an identity is the one of a configuration and its TLS files.
pub open spec fn is_identity(
    id: TransportTlsIdentity,
    config: Config,
    material: TransportTlsMaterial,
) -> bool {
    &&& id.cluster_id@ == cluster_of(config)
    &&& id.cluster_incarnation == config.cluster_incarnation
    &&& id.node_id == config.node_id
    &&& id.ca_pem@ == material.ca_pem@
    &&& id.certificate_pem@ == material.certificate_pem@
    &&& id.private_key_pem@ == material.private_key_pem@
    &&& are_peers(id.peers@, config)
}

/// Whether making an identity came out as it should.
pub open spec fn identity_comes_out(
    config: Config,
    material: TransportTlsMaterial,
    fault: Option<Seq<char>>,
    result: Result<TransportTlsIdentity, String>,
) -> bool {
    match result {
        Ok(id) => fault is None && is_identity(id, config, material) && identity_verdict(id) is Ok,
        Err(text) => fault == Some(text@) || (fault is None && exists|id: TransportTlsIdentity|
            #[trigger] is_identity(id, config, material) && (identity_verdict(id) matches Err(e)
                && text@ == e.text())),
    }
}

/// What certificates were read.
pub open spec fn certificates_of(result: Result<Vec<Vec<u8>>, String>) -> Certificates {
    match result {
        Ok(list) => Ok(byte_lists(list@)),
        Err(fault) => Err(fault@),
    }
}

/// Whether a key was read.
pub open spec fn key_of(result: Result<bool, String>) -> Result<bool, Seq<char>> {
    match result {
        Ok(found) => Ok(found),
        Err(fault) => Err(fault@),
    }
}

/// The first thing that is wrong with a configuration, the contents of its TLS
/// files and the leaf certificate among them.
pub open spec fn identity_fault(
    config: Config,
    files: TlsFiles,
    ca: Certificates,
    certificates: Certificates,
    key: Result<bool, Seq<char>>,
) -> Option<Seq<char>> {
    match mtls_verdict(config, files) {
        Err(e) => Some(e.text()),
        Ok(()) => match files_fault(ca, certificates, key) {
            Some(fault) => Some(fault),
            None => leaf_fault(config, certificates->Ok_0[0]),
        },
    }
}

fn check_files(
    ca: &Result<Vec<Vec<u8>>, String>,
    certificates: &Result<Vec<Vec<u8>>, String>,
    key: &Result<bool, String>,
) -> (fault: Option<String>)
    ensures
        crate::error::optional_text(fault) == files_fault(
            certificates_of(*ca),
            certificates_of(*certificates),
            key_of(*key),
        ),
{
    match ca {
        Err(fault) => {
            return Some(joined("could not parse tls.ca: ", fault.as_str()));
        },
        Ok(list) => {
            if list.len() == 0 {
                return Some(owned("tls.ca contains no certificate"));
            }
        },
    }
    match certificates {
        Err(fault) => {
            return Some(joined("could not parse tls.certificate: ", fault.as_str()));
        },
        Ok(list) => {
            if list.len() == 0 {
                return Some(owned("tls.certificate contains no leaf certificate"));
            }
        },
    }
    match key {
        Err(fault) => Some(joined("could not parse tls.private_key: ", fault.as_str())),
        Ok(found) => if *found {
            None
        } else {
            Some(owned("tls.private_key contains no private key"))
        },
    }
}

fn find_first(nodes: &Vec<InitialNode>, node_id: u64) -> (place: Option<usize>)
    ensures
        match place {
            Some(i) => first_with(nodes@, node_id, 0) == Some(i as int) && i < nodes@.len(),
            None => first_with(nodes@, node_id, 0) is None,
        },
{
    let mut i: usize = 0;
    while i < nodes.len()
        invariant
            i <= nodes@.len(),
            first_with(nodes@, node_id, 0) == first_with(nodes@, node_id, i as int),
        decreases nodes@.len() - i,
    {
        if nodes[i].node_id == node_id {
            return Some(i);
        }
        i += 1;
    }
    None
}

fn check_leaf(config: &Config, leaf: &[u8]) -> (fault: Option<String>)
    ensures
        crate::error::optional_text(fault) == leaf_fault(*config, leaf@),
{
    let i = match find_first(&config.initial_nodes, config.node_id) {
        Some(i) => i,
        None => {
            return Some(owned("local node is missing from the peer manifest"));
        },
    };
    match config.initial_nodes[i].tls_leaf_fingerprint() {
        Err(e) => Some(e.text()),
        Ok(fingerprint) => {
            let own = leaf_fingerprint(leaf);
            if !same_bytes(own.as_slice(), fingerprint.as_slice()) {
                return Some(
                    owned("local TLS leaf does not match the peer manifest fingerprint"),
                );
            }
            None
        },
    }
}

// Whether a table has those of the first nodes that are not this one, and no
// one else.
spec fn has_first(
    peers: Seq<(u64, PeerTlsConfig)>,
    nodes: Seq<InitialNode>,
    own: u64,
    count: int,
) -> bool {
    &&& nodes_ascend(peers)
    &&& forall|k: int|
        0 <= k < count && (#[trigger] nodes[k]).node_id != own ==> has_peer(peers, nodes[k])
    &&& forall|id: u64| #[trigger]
        has_node(peers, id) ==> id != own && exists|k: int|
            0 <= k < count && (#[trigger] nodes[k]).node_id == id
}

proof fn lemma_skip_peer(
    peers: Seq<(u64, PeerTlsConfig)>,
    nodes: Seq<InitialNode>,
    own: u64,
    i: int,
)
    requires
        0 <= i < nodes.len(),
        has_first(peers, nodes, own, i),
        nodes[i].node_id == own,
    ensures
        has_first(peers, nodes, own, i + 1),
{
    assert forall|id: u64| #[trigger] has_node(peers, id) implies id != own && exists|k: int|
        0 <= k < i + 1 && (#[trigger] nodes[k]).node_id == id by {
        let k = choose|k: int| 0 <= k < i && (#[trigger] nodes[k]).node_id == id;
        assert(nodes[k].node_id == id);
    }
}

proof fn lemma_add_peer(
    before: Seq<(u64, PeerTlsConfig)>,
    after: Seq<(u64, PeerTlsConfig)>,
    nodes: Seq<InitialNode>,
    own: u64,
    i: int,
    peer: PeerTlsConfig,
)
    requires
        0 <= i < nodes.len(),
        has_first(before, nodes, own, i),
        nodes[i].node_id != own,
        forall|k: int| 0 <= k < i ==> (#[trigger] nodes[k]).node_id != nodes[i].node_id,
        is_peer(peer, nodes[i]),
        nodes_ascend(after),
        forall|n: u64|
            #[trigger] node_value(after, n) == if n == nodes[i].node_id {
                Some(peer)
            } else {
                node_value(before, n)
            },
    ensures
        has_first(after, nodes, own, i + 1),
{
    assert(node_value(after, nodes[i].node_id) == Some(peer));
    assert forall|id: u64| #[trigger] has_node(after, id) implies id != own && exists|k: int|
        0 <= k < i + 1 && (#[trigger] nodes[k]).node_id == id by {
        if id == nodes[i].node_id {
            assert(nodes[i].node_id == id);
        } else {
            assert(node_value(after, id) == node_value(before, id));
            assert(has_node(before, id));
            let k = choose|k: int| 0 <= k < i && (#[trigger] nodes[k]).node_id == id;
            assert(nodes[k].node_id == id);
        }
    }
    assert forall|k: int| 0 <= k < i + 1 && (#[trigger] nodes[k]).node_id != own implies has_peer(
        after,
        nodes[k],
    ) by {
        if k < i {
            assert(node_value(after, nodes[k].node_id) == node_value(before, nodes[k].node_id));
            assert(has_peer(before, nodes[k]));
        }
    }
}

fn make_peer(node: &InitialNode) -> (peer: Option<PeerTlsConfig>)
    ensures
        match peer {
            Some(p) => is_peer(p, *node),
            None => node.tls_dns_name is None || fingerprint_outcome(node@) is Err,
        },
{
    match (&node.tls_dns_name, node.tls_leaf_fingerprint()) {
        (Some(name), Ok(leaf_sha256)) => Some(
            PeerTlsConfig {
                node_id: node.node_id,
                endpoint: owned(node.endpoint.as_str()),
                dns_name: owned(name.as_str()),
                leaf_sha256,
            },
        ),
        _ => None,
    }
}

/// The other nodes of a configuration as peers.
fn collect_peers(config: &Config, files: Ghost<TlsFiles>) -> (peers: NodeMap<PeerTlsConfig>)
    requires
        mtls_verdict(*config, files@) is Ok,
    ensures
        are_peers(peers@, *config),
{
    let nodes = &config.initial_nodes;
    let mut peers: NodeMap<PeerTlsConfig> = NodeMap::new();
    proof {
        accepted_nodes_are_distinct(*config, files@);
        accepted_peers_are_distinct(*config, files@);
    }
    let ghost own = config.node_id;
    let mut i: usize = 0;
    while i < nodes.len()
        invariant
            i <= nodes@.len(),
            own == config.node_id,
            has_first(peers@, nodes@, own, i as int),
            forall|k: int, j: int|
                0 <= k < j < nodes@.len() ==> (#[trigger] nodes@[k]).node_id != (
                #[trigger] nodes@[j]).node_id,
            forall|k: int|
                0 <= k < nodes@.len() ==> (#[trigger] nodes@[k]).tls_dns_name is Some
                    && fingerprint_outcome(nodes@[k]@) is Ok,
        decreases nodes@.len() - i,
    {
        let ghost before = peers@;
        assert(nodes@[i as int].tls_dns_name is Some);
        if nodes[i].node_id != config.node_id {
            if let Some(peer) = make_peer(&nodes[i]) {
                peers.insert(nodes[i].node_id, peer);
                proof {
                    lemma_add_peer(before, peers@, nodes@, own, i as int, peer);
                }
            }
        } else {
            proof {
                lemma_skip_peer(before, nodes@, own, i as int);
            }
        }
        i += 1;
    }
    peers
}

/// Makes the identity of a node, with what reading its certificates and its key
/// gave.
pub fn bind_identity(
    config: &Config,
    files: &TlsFiles,
    material: TransportTlsMaterial,
    ca: &Result<Vec<Vec<u8>>, String>,
    certificates: &Result<Vec<Vec<u8>>, String>,
    key: &Result<bool, String>,
) -> (result: Result<TransportTlsIdentity, String>)
    ensures
        identity_comes_out(
            *config,
            material,
            identity_fault(
                *config,
                *files,
                certificates_of(*ca),
                certificates_of(*certificates),
                key_of(*key),
            ),
            result,
        ),
{
    match config.validate_openraft_mtls(files) {
        Ok(()) => {},
        Err(e) => {
            return Err(e.text());
        },
    }
    if let Some(fault) = check_files(ca, certificates, key) {
        return Err(fault);
    }
    match certificates {
        Err(fault) => {
            assert(false);
            return Err(owned(fault.as_str()));
        },
        Ok(list) => {
            assert(byte_lists(list@)[0] == list@[0]@);
            if let Some(fault) = check_leaf(config, list[0].as_slice()) {
                return Err(fault);
            }
        },
    }
    let peers = collect_peers(config, Ghost(*files));
    let identity = TransportTlsIdentity {
        cluster_id: config.cluster_id().0,
        cluster_incarnation: config.cluster_incarnation,
        node_id: config.node_id,
        ca_pem: material.ca_pem,
        certificate_pem: material.certificate_pem,
        private_key_pem: material.private_key_pem,
        peers,
    };
    assert(is_identity(identity, *config, material));
    match identity.validate() {
        Ok(()) => Ok(identity),
        Err(e) => Err(e.text()),
    }
}

/// Makes the identity of a node from its configuration and its TLS files, with
/// what reading each file gave.
pub fn openraft_transport_identity(
    config: &Config,
    files: &TlsFiles,
    ca: Result<Vec<u8>, ConfigError>,
    certificate: Result<Vec<u8>, ConfigError>,
    private_key: Result<Vec<u8>, ConfigError>,
) -> (result: Result<TransportTlsIdentity, String>)
    ensures
        match material_outcome(mtls_verdict(*config, *files), ca, certificate, private_key) {
            Err(e) => result matches Err(text) && text@ == e.text(),
            Ok(()) => {
                let material = TransportTlsMaterial {
                    ca_pem: ca->Ok_0,
                    certificate_pem: certificate->Ok_0,
                    private_key_pem: private_key->Ok_0,
                };
                identity_comes_out(
                    *config,
                    material,
                    identity_fault(
                        *config,
                        *files,
                        pem_certificate_list(material.ca_pem@),
                        pem_certificate_list(material.certificate_pem@),
                        pem_key_found(material.private_key_pem@),
                    ),
                    result,
                )
            },
        },
{
    let material = match config.transport_tls_material(files, ca, certificate, private_key) {
        Ok(material) => material,
        Err(e) => {
            return Err(e.text());
        },
    };
    let ca_list = pem_certificates(material.ca_pem.as_slice());
    let certificates = pem_certificates(material.certificate_pem.as_slice());
    let key = pem_private_key(material.private_key_pem.as_slice());
    bind_identity(config, files, material, &ca_list, &certificates, &key)
}

} // verus!
