//! The initial nodes as authenticated peers.

use crate::address::{read_address, SocketAddress, SocketAddressView};
use crate::config::{
    config_verdict, fingerprint_outcome, lists_node, node_label, node_verdict, nodes_verdict,
    voter_count, Config, InitialNode, TlsFiles, TransportTlsMaterial,
};
use crate::config_error::{
    both, invalid, refuse, refused, verdict, ConfigError, ConfigErrorView, Verdict};
use crate::endpoint::{dns_name_fault, endpoint_outcome, parse_initial_endpoint, validate_dns_name};
use crate::files::{FileRule, MAX_TLS_FILE_BYTES};
use crate::runtime::settings_fault;
use crate::text::{
    ascii_lower_text, digits, digits_text, joined, joined3, same_bytes, same_text_ignoring_case,
};
use vstd::prelude::*;
use vstd::string::*;

verus! {

/// The start of a message about an authenticated peer.
pub open spec fn peer_label(node_id: u64, rest: Seq<char>) -> Seq<char> {
    "authenticated OpenRaft node "@ + digits(node_id as nat) + rest
}

pub fn peer_text(node_id: u64, rest: &str) -> (text: String)
    ensures
        text@ == peer_label(node_id, rest@),
{
    joined3("authenticated OpenRaft node ", digits_text(node_id).as_str(), rest)
}

/// Whether an earlier node has the same DNS name but for the case.
pub open spec fn repeats_name(nodes: Seq<InitialNode>, i: int) -> bool {
    exists|j: int|
        0 <= j < i && ascii_lower_text((#[trigger] nodes[j]).tls_dns_name->0@) == ascii_lower_text(
            nodes[i].tls_dns_name->0@,
        )
}

/// Whether an earlier node has the same fingerprint.
pub open spec fn repeats_fingerprint(nodes: Seq<InitialNode>, i: int) -> bool {
    exists|j: int|
        0 <= j < i && fingerprint_outcome((#[trigger] nodes[j])@)->Ok_0 == fingerprint_outcome(nodes[i]@)->Ok_0
}

/// One initial node as an authenticated peer, given that those before it are
/// in order.
pub open spec fn peer_verdict(nodes: Seq<InitialNode>, i: int) -> Verdict {
    let node = nodes[i];
    match endpoint_outcome(node.endpoint@) {
        Err(e) => Err(e),
        Ok((_, https)) => if !https {
            refused(peer_label(node.node_id, " endpoint must use https://"@))
        } else {
            match node.tls_dns_name {
                None => refused(peer_label(node.node_id, " is missing tls_dns_name"@)),
                Some(name) => match dns_name_fault(name@) {
                    Some(fault) => refused(node_label(node.node_id, " tls_dns_name "@ + fault)),
                    None => match fingerprint_outcome(node@) {
                        Err(e) => Err(e),
                        Ok(_) => if repeats_name(nodes, i) {
                            refused("authenticated OpenRaft DNS names must be unique"@)
                        } else if repeats_fingerprint(nodes, i) {
                            refused("authenticated OpenRaft leaf fingerprints must be unique"@)
                        } else {
                            Ok(())
                        },
                    },
                },
            }
        },
    }
}

/// The initial nodes from the `i`th on, as authenticated peers.
pub open spec fn peers_verdict(nodes: Seq<InitialNode>, i: int) -> Verdict
    decreases nodes.len() - i,
{
    if i < 0 || i >= nodes.len() {
        Ok(())
    } else {
        both(peer_verdict(nodes, i), peers_verdict(nodes, i + 1))
    }
}

/// The address of the last node with a number.
pub open spec fn address_of(nodes: Seq<InitialNode>, node_id: u64) -> Option<SocketAddressView>
    decreases nodes.len(),
{
    if nodes.len() == 0 {
        None
    } else if nodes.last().node_id == node_id {
        Some(endpoint_outcome(nodes.last().endpoint@)->Ok_0.0)
    } else {
        address_of(nodes.drop_last(), node_id)
    }
}

/// Whether a node that listens at `listen` is reached at `address`.
pub open spec fn is_reached(listen: SocketAddressView, address: SocketAddressView) -> bool {
    listen.port == address.port && (listen.is_unspecified() || listen.ip == address.ip)
}

/// What is wrong with a configuration for authenticated peers, if anything.
pub open spec fn mtls_verdict(c: Config, files: TlsFiles) -> Verdict {
    both(
        config_verdict(c, files),
        if !c.tls.has_all() {
            refused(
                "authenticated OpenRaft requires tls.ca, tls.certificate, and tls.private_key"@,
            )
        } else {
            match read_address(c.raft.listen@) {
                None => refused("raft.listen is not a socket address"@),
                Some(listen) => both(
                    peers_verdict(c.initial_nodes@, 0),
                    match address_of(c.initial_nodes@, c.node_id) {
                        None => refused("local node is missing from the OpenRaft manifest"@),
                        Some(address) => if is_reached(listen, address) {
                            Ok(())
                        } else {
                            refused(
                                "raft.listen does not match the local OpenRaft manifest endpoint"@,
                            )
                        },
                    },
                ),
            }
        },
    )
}

#[verifier::loop_isolation(false)]
fn name_repeats(nodes: &Vec<InitialNode>, i: usize, name: &str) -> (found: bool)
    requires
        i < nodes@.len(),
        nodes@[i as int].tls_dns_name matches Some(n) && n@ == name@,
        forall|k: int| 0 <= k < i ==> (#[trigger] nodes@[k]).tls_dns_name is Some,
    ensures
        found == repeats_name(nodes@, i as int),
{
    let mut j: usize = 0;
    while j < i
        invariant
            j <= i,
            forall|k: int|
                0 <= k < j ==> ascii_lower_text((#[trigger] nodes@[k]).tls_dns_name->0@)
                    != ascii_lower_text(name@),
        decreases i - j,
    {
        if let Some(other) = &nodes[j].tls_dns_name {
            if same_text_ignoring_case(other.as_str(), name) {
                assert(ascii_lower_text(nodes@[j as int].tls_dns_name->0@) == ascii_lower_text(
                    name@,
                ));
                return true;
            }
        }
        j += 1;
    }
    false
}

fn has_fingerprint(list: &Vec<[u8; 32]>, fingerprint: &[u8; 32]) -> (found: bool)
    ensures
        found == exists|j: int| 0 <= j < list@.len() && (#[trigger] list@[j])@ == fingerprint@,
{
    let mut j: usize = 0;
    while j < list.len()
        invariant
            j <= list@.len(),
            forall|k: int| 0 <= k < j ==> (#[trigger] list@[k])@ != fingerprint@,
        decreases list@.len() - j,
    {
        if same_bytes(list[j].as_slice(), fingerprint.as_slice()) {
            return true;
        }
        j += 1;
    }
    false
}

/// Whether a list has the fingerprints of the first nodes.
pub open spec fn fingerprints_of(
    fingerprints: Seq<[u8; 32]>,
    nodes: Seq<InitialNode>,
    count: int,
) -> bool {
    &&& fingerprints.len() == count
    &&& forall|k: int|
        0 <= k < count ==> (#[trigger] fingerprints[k])@ == fingerprint_outcome(nodes[k]@)->Ok_0
}

fn fingerprint_repeats(
    nodes: &Vec<InitialNode>,
    i: usize,
    fingerprints: &Vec<[u8; 32]>,
    fingerprint: &[u8; 32],
) -> (found: bool)
    requires
        i < nodes@.len(),
        fingerprints_of(fingerprints@, nodes@, i as int),
        fingerprint_outcome(nodes@[i as int]@) == Ok::<_, ConfigErrorView>(fingerprint@),
    ensures
        found == repeats_fingerprint(nodes@, i as int),
{
    let found = has_fingerprint(fingerprints, fingerprint);
    proof {
        if found {
            let k = choose|k: int|
                0 <= k < fingerprints@.len() && (#[trigger] fingerprints@[k])@ == fingerprint@;
            assert(fingerprint_outcome(nodes@[k]@)->Ok_0 == fingerprint@);
        } else if repeats_fingerprint(nodes@, i as int) {
            let j = choose|j: int|
                0 <= j < i && fingerprint_outcome((#[trigger] nodes@[j])@)->Ok_0
                    == fingerprint_outcome(nodes@[i as int]@)->Ok_0;
            assert(fingerprints@[j]@ == fingerprint@);
        }
    }
    found
}

/// Checks one node as a peer: its address and its fingerprint.
fn check_peer(nodes: &Vec<InitialNode>, i: usize, fingerprints: &Vec<[u8; 32]>) -> (result: Result<
    (SocketAddress, [u8; 32]),
    ConfigError,
>)
    requires
        i < nodes@.len(),
        fingerprints_of(fingerprints@, nodes@, i as int),
        forall|k: int| 0 <= k < i ==> (#[trigger] nodes@[k]).tls_dns_name is Some,
    ensures
        match result {
            Ok((address, fingerprint)) => {
                &&& peer_verdict(nodes@, i as int) is Ok
                &&& endpoint_outcome(nodes@[i as int].endpoint@)->Ok_0.0 == address@
                &&& fingerprint_outcome(nodes@[i as int]@)->Ok_0 == fingerprint@
                &&& nodes@[i as int].tls_dns_name is Some
            },
            Err(e) => peer_verdict(nodes@, i as int) == Err::<(), _>(e@),
        },
{
    let node = &nodes[i];
    let (address, https) = match parse_initial_endpoint(node.endpoint.as_str()) {
        Ok(found) => found,
        Err(e) => {
            return Err(e);
        },
    };
    if !https {
        return Err(ConfigError::Invalid(peer_text(node.node_id, " endpoint must use https://")));
    }
    let name = match &node.tls_dns_name {
        Some(name) => name,
        None => {
            return Err(ConfigError::Invalid(peer_text(node.node_id, " is missing tls_dns_name")));
        },
    };
    match validate_dns_name(name.as_str()) {
        Ok(()) => {},
        Err(fault) => {
            return Err(
                ConfigError::Invalid(
                    joined3(
                        "initial node ",
                        digits_text(node.node_id).as_str(),
                        joined(" tls_dns_name ", fault).as_str(),
                    ),
                ),
            );
        },
    }
    let fingerprint = match node.tls_leaf_fingerprint() {
        Ok(fingerprint) => fingerprint,
        Err(e) => {
            return Err(e);
        },
    };
    if name_repeats(nodes, i, name.as_str()) {
        return Err(invalid("authenticated OpenRaft DNS names must be unique"));
    }
    if fingerprint_repeats(nodes, i, fingerprints, &fingerprint) {
        return Err(invalid("authenticated OpenRaft leaf fingerprints must be unique"));
    }
    Ok((address, fingerprint))
}

/// Checks the nodes as peers and finds the address of one of them.
fn check_peers(nodes: &Vec<InitialNode>, node_id: u64) -> (result: Result<
    Option<SocketAddress>,
    ConfigError,
>)
    ensures
        match result {
            Ok(address) => peers_verdict(nodes@, 0) is Ok && match address {
                Some(a) => address_of(nodes@, node_id) == Some(a@),
                None => address_of(nodes@, node_id) is None,
            },
            Err(e) => peers_verdict(nodes@, 0) == Err::<(), _>(e@),
        },
{
    let mut fingerprints: Vec<[u8; 32]> = Vec::new();
    let mut local: Option<SocketAddress> = None;
    let mut i: usize = 0;
    assert(nodes@.subrange(0, 0) == Seq::<InitialNode>::empty());
    while i < nodes.len()
        invariant
            i <= nodes@.len(),
            fingerprints_of(fingerprints@, nodes@, i as int),
            forall|k: int| 0 <= k < i ==> (#[trigger] nodes@[k]).tls_dns_name is Some,
            match local {
                Some(a) => address_of(nodes@.subrange(0, i as int), node_id) == Some(a@),
                None => address_of(nodes@.subrange(0, i as int), node_id) is None,
            },
            peers_verdict(nodes@, 0) == peers_verdict(nodes@, i as int),
        decreases nodes@.len() - i,
    {
        match check_peer(nodes, i, &fingerprints) {
            Err(e) => {
                return Err(e);
            },
            Ok((address, fingerprint)) => {
                assert(nodes@.subrange(0, i + 1).drop_last() == nodes@.subrange(0, i as int));
                if nodes[i].node_id == node_id {
                    local = Some(address);
                }
                fingerprints.push(fingerprint);
            },
        }
        i += 1;
    }
    assert(nodes@.subrange(0, i as int) == nodes@);
    Ok(local)
}

/// Whether some node is the voter with the smallest number.
pub open spec fn first_voter(nodes: Seq<InitialNode>, node_id: u64) -> bool {
    &&& exists|i: int|
        0 <= i < nodes.len() && (#[trigger] nodes[i]).voter && nodes[i].node_id == node_id
    &&& forall|i: int|
        0 <= i < nodes.len() && (#[trigger] nodes[i]).voter ==> node_id <= nodes[i].node_id
}

/// Whether no node votes.
pub open spec fn no_voter(nodes: Seq<InitialNode>) -> bool {
    forall|i: int| 0 <= i < nodes.len() ==> !(#[trigger] nodes[i]).voter
}

/// The first thing that went wrong with three TLS files, by what reading each
/// of them gave: none is too long.
pub open spec fn material_outcome(
    mtls: Verdict,
    ca: Result<Vec<u8>, ConfigError>,
    certificate: Result<Vec<u8>, ConfigError>,
    private_key: Result<Vec<u8>, ConfigError>,
) -> Verdict {
    both(
        mtls,
        both(
            FileRule::Tls { private: false }.read_verdict(ca, "tls.ca"@),
            both(
                FileRule::Tls { private: false }.read_verdict(certificate, "tls.certificate"@),
                FileRule::Tls { private: true }.read_verdict(private_key, "tls.private_key"@),
            ),
        ),
    )
}

impl Config {
    /// Checks the configuration for authenticated peers. That the manifest is
    /// signed is checked elsewhere.
    pub fn validate_openraft_mtls(&self, files: &TlsFiles) -> (result: Result<(), ConfigError>)
        ensures
            verdict(result) == mtls_verdict(*self, *files),
    {
        self.validate(files)?;
        if !self.tls.complete() {
            return refuse(
                "authenticated OpenRaft requires tls.ca, tls.certificate, and tls.private_key",
            );
        }
        let listen = match SocketAddress::parse(self.raft.listen.as_str()) {
            Some(listen) => listen,
            None => {
                return refuse("raft.listen is not a socket address");
            },
        };
        let local = match check_peers(&self.initial_nodes, self.node_id) {
            Ok(local) => local,
            Err(e) => {
                return Err(e);
            },
        };
        match local {
            None => refuse("local node is missing from the OpenRaft manifest"),
            Some(address) => {
                if listen.port != address.port || (!listen.is_unspecified() && !same_bytes(
                    listen.ip.as_slice(),
                    address.ip.as_slice(),
                )) {
                    return refuse(
                        "raft.listen does not match the local OpenRaft manifest endpoint",
                    );
                }
                Ok(())
            },
        }
    }

    /// The voter that starts the cluster: the one with the smallest number.
    pub fn openraft_bootstrap_node_id(&self) -> (result: Result<u64, ConfigError>)
        ensures
            match result {
                Ok(id) => first_voter(self.initial_nodes@, id),
                Err(e) => no_voter(self.initial_nodes@) && e@ == ConfigErrorView::Invalid(
                    "OpenRaft voter set is empty"@,
                ),
            },
    {
        let nodes = &self.initial_nodes;
        let mut least: Option<u64> = None;
        let mut i: usize = 0;
        while i < nodes.len()
            invariant
                i <= nodes@.len(),
                match least {
                    None => forall|k: int| 0 <= k < i ==> !(#[trigger] nodes@[k]).voter,
                    Some(id) => {
                        &&& exists|k: int|
                            0 <= k < i && (#[trigger] nodes@[k]).voter && nodes@[k].node_id == id
                        &&& forall|k: int|
                            0 <= k < i && (#[trigger] nodes@[k]).voter ==> id <= nodes@[k].node_id
                    },
                },
            decreases nodes@.len() - i,
        {
            if nodes[i].voter {
                let id = nodes[i].node_id;
                assert(nodes@[i as int].voter);
                least =
                match least {
                    None => Some(id),
                    Some(other) => if id < other {
                        Some(id)
                    } else {
                        Some(other)
                    },
                };
            }
            i += 1;
        }
        match least {
            Some(id) => Ok(id),
            None => Err(invalid("OpenRaft voter set is empty")),
        }
    }

    /// The contents of the TLS files, with what reading each of them gave.
    pub fn transport_tls_material(
        &self,
        files: &TlsFiles,
        ca: Result<Vec<u8>, ConfigError>,
        certificate: Result<Vec<u8>, ConfigError>,
        private_key: Result<Vec<u8>, ConfigError>,
    ) -> (result: Result<TransportTlsMaterial, ConfigError>)
        ensures
            match result {
                Ok(m) => material_outcome(
                    mtls_verdict(*self, *files),
                    ca,
                    certificate,
                    private_key,
                ) is Ok && ca == Ok::<_, ConfigError>(m.ca_pem) && certificate == Ok::<
                    _,
                    ConfigError,
                >(m.certificate_pem) && private_key == Ok::<_, ConfigError>(m.private_key_pem)
                    && m.ca_pem@.len() <= MAX_TLS_FILE_BYTES && m.certificate_pem@.len()
                    <= MAX_TLS_FILE_BYTES && m.private_key_pem@.len() <= MAX_TLS_FILE_BYTES,
                Err(e) => material_outcome(
                    mtls_verdict(*self, *files),
                    ca,
                    certificate,
                    private_key,
                ) == Err::<(), _>(e@),
            },
    {
        match self.validate_openraft_mtls(files) {
            Ok(()) => {},
            Err(e) => {
                return Err(e);
            },
        }
        let ca_pem = match (FileRule::Tls { private: false }).accept(ca, "tls.ca") {
            Ok(bytes) => bytes,
            Err(e) => {
                return Err(e);
            },
        };
        let certificate_pem = match (FileRule::Tls { private: false }).accept(certificate, "tls.certificate") {
            Ok(bytes) => bytes,
            Err(e) => {
                return Err(e);
            },
        };
        let private_key_pem = match (FileRule::Tls { private: true }).accept(private_key, "tls.private_key") {
            Ok(bytes) => bytes,
            Err(e) => {
                return Err(e);
            },
        };
        Ok(TransportTlsMaterial { ca_pem, certificate_pem, private_key_pem })
    }
}

proof fn lemma_nodes_in_order(nodes: Seq<InitialNode>, i: int, k: int)
    requires
        0 <= i <= k < nodes.len(),
        nodes_verdict(nodes, i) is Ok,
    ensures
        node_verdict(nodes, k) is Ok,
    decreases k - i,
{
    if i < k {
        lemma_nodes_in_order(nodes, i + 1, k);
    }
}

proof fn lemma_peers_in_order(nodes: Seq<InitialNode>, i: int, k: int)
    requires
        0 <= i <= k < nodes.len(),
        peers_verdict(nodes, i) is Ok,
    ensures
        peer_verdict(nodes, k) is Ok,
    decreases k - i,
{
    if i < k {
        lemma_peers_in_order(nodes, i + 1, k);
    }
}

/// In an accepted configuration no two nodes share a number or an address, the
/// node itself is listed, and one, three or five nodes vote.
pub proof fn accepted_nodes_are_distinct(c: Config, files: TlsFiles)
    requires
        config_verdict(c, files) is Ok,
    ensures
        lists_node(c.initial_nodes@, c.node_id),
        voter_count(c.initial_nodes@) == 1 || voter_count(c.initial_nodes@) == 3 || voter_count(
            c.initial_nodes@,
        ) == 5,
        forall|i: int, j: int|
            0 <= i < j < c.initial_nodes@.len() ==> (#[trigger] c.initial_nodes@[i]).node_id != (
            #[trigger] c.initial_nodes@[j]).node_id && endpoint_outcome(
                c.initial_nodes@[i].endpoint@,
            )->Ok_0.0 != endpoint_outcome(c.initial_nodes@[j].endpoint@)->Ok_0.0,
{
    let nodes = c.initial_nodes@;
    assert forall|i: int, j: int| 0 <= i < j < nodes.len() implies (#[trigger] nodes[i]).node_id
        != (#[trigger] nodes[j]).node_id && endpoint_outcome(nodes[i].endpoint@)->Ok_0.0
        != endpoint_outcome(nodes[j].endpoint@)->Ok_0.0 by {
        lemma_nodes_in_order(nodes, 0, j);
    }
}

/// The times of a configuration that is accepted are ones that a node of an
/// authenticated group runs with.
pub proof fn accepted_times_are_runnable(c: Config, files: TlsFiles)
    requires
        config_verdict(c, files) is Ok,
    ensures
        settings_fault(
            c.raft.heartbeat_ms,
            c.raft.election_timeout_min_ms,
            c.raft.election_timeout_max_ms,
            Some(4096),
        ) is None,
{
}

/// In a configuration that is accepted for authenticated peers every node has
/// an HTTPS endpoint, and no two share a DNS name or a fingerprint.
pub proof fn accepted_peers_are_distinct(c: Config, files: TlsFiles)
    requires
        mtls_verdict(c, files) is Ok,
    ensures
        forall|i: int|
            0 <= i < c.initial_nodes@.len() ==> (endpoint_outcome(
                (#[trigger] c.initial_nodes@[i]).endpoint@,
            ) matches Ok((_, https)) && https) && c.initial_nodes@[i].tls_dns_name is Some
                && fingerprint_outcome(c.initial_nodes@[i]@) is Ok,
        forall|i: int, j: int|
            0 <= i < j < c.initial_nodes@.len() ==> fingerprint_outcome((#[trigger] c.initial_nodes@[i])@)->Ok_0 != fingerprint_outcome((#[trigger] c.initial_nodes@[j])@)->Ok_0
                && ascii_lower_text(c.initial_nodes@[i].tls_dns_name->0@) != ascii_lower_text(
                c.initial_nodes@[j].tls_dns_name->0@,
            ),
{
    let nodes = c.initial_nodes@;
    assert forall|i: int| 0 <= i < nodes.len() implies (endpoint_outcome(
        (#[trigger] nodes[i]).endpoint@,
    ) matches Ok((_, https)) && https) && nodes[i].tls_dns_name is Some && fingerprint_outcome(nodes[i]@) is Ok by {
        lemma_peers_in_order(nodes, 0, i);
    }
    assert forall|i: int, j: int| 0 <= i < j < nodes.len() implies fingerprint_outcome((#[trigger] nodes[i])@)->Ok_0 != fingerprint_outcome((#[trigger] nodes[j])@)->Ok_0 && ascii_lower_text(
        nodes[i].tls_dns_name->0@,
    ) != ascii_lower_text(nodes[j].tls_dns_name->0@) by {
        lemma_peers_in_order(nodes, 0, j);
    }
}

} // verus!
