//! What the bytes of a bootstrap manifest keep of it, and what they forget.

use crate::address::{read_address, read_addresses_are_valid, SocketAddressView};
use crate::bytes::{be, be_reads_back, lemma_be_len, lemma_span, span};
use crate::config::{fingerprint_outcome, Config, InitialNodeView, TlsFiles};
use crate::endpoint::{authority, endpoint_outcome, hex_bytes, is_sha256_text};
use crate::manifest::{
    address_bytes, canonical_outcome, cluster_part, flag_byte, key_part, manifest_bytes,
    manifest_domain, manifest_of, node_start, with_field, with_node, with_nodes, ManifestView,
};
use crate::peers::{accepted_nodes_are_distinct, mtls_verdict};
use crate::sorting::{in_order, slot, sorting_forgets_order, sorting_permutes, views, Ranked};
use crate::text::{ascii_lower_text, hex_value};
use vstd::prelude::*;
use vstd::utf8::{encode_utf8, encode_utf8_decode_utf8};

verus! {

/// Whether no two nodes share a number.
pub open spec fn numbers_differ(nodes: Seq<InitialNodeView>) -> bool {
    forall|a: InitialNodeView, b: InitialNodeView|
        nodes.contains(a) && nodes.contains(b) && (#[trigger] a.node_id) == (#[trigger] b.node_id)
            ==> a == b
}

/// The bytes of a manifest do not depend on the order in which its nodes are
/// listed.
pub proof fn manifest_forgets_node_order(m: ManifestView, nodes: Seq<InitialNodeView>)
    requires
        numbers_differ(m.nodes),
        nodes.to_multiset() == m.nodes.to_multiset(),
    ensures
        manifest_bytes(ManifestView { nodes, ..m }) == manifest_bytes(m),
{
    assert forall|a: InitialNodeView, b: InitialNodeView|
        m.nodes.contains(a) && m.nodes.contains(b) && !(#[trigger] a.before(b)) && !b.before(
            a,
        ) implies a == b by {
        assert(a.node_id == b.node_id);
    }
    sorting_forgets_order(m.nodes, nodes);
    nodes.to_multiset_ensures();
    m.nodes.to_multiset_ensures();
    assert(nodes.len() == m.nodes.len());
    let other = ManifestView { nodes, ..m };
    assert(key_part(other) == key_part(m));
    assert(cluster_part(other) == cluster_part(m));
}

/// A node with the letters of its DNS name and its fingerprint in lower case.
pub open spec fn lowered(n: InitialNodeView) -> InitialNodeView {
    InitialNodeView {
        tls_dns_name: match n.tls_dns_name {
            Some(name) => Some(ascii_lower_text(name)),
            None => None,
        },
        tls_leaf_sha256: match n.tls_leaf_sha256 {
            Some(text) => Some(ascii_lower_text(text)),
            None => None,
        },
        ..n
    }
}

/// Nodes with the letters of their DNS names and fingerprints in lower case.
pub open spec fn all_lowered(nodes: Seq<InitialNodeView>) -> Seq<InitialNodeView> {
    Seq::new(nodes.len(), |i: int| lowered(nodes[i]))
}

/// Whether two configurations agree on what a manifest binds: the cluster, what
/// stands beside the signature, and the nodes, in whatever order and with DNS
/// names and fingerprints in letters of either case. They may differ in all
/// else: in which node they are for, its directory and TLS files, and in the
/// signature.
pub open spec fn same_manifest(c: Config, d: Config) -> bool {
    &&& c.cluster_id@ == d.cluster_id@
    &&& c.cluster_incarnation == d.cluster_incarnation
    &&& all_lowered(views(c.initial_nodes@)).to_multiset() == all_lowered(
        views(d.initial_nodes@),
    ).to_multiset()
    &&& match (c.bootstrap_manifest, d.bootstrap_manifest) {
        (Some(m), Some(n)) => {
            &&& m.format_version == n.format_version
            &&& m.algorithm@ == n.algorithm@
            &&& m.generation == n.generation
            &&& m.key_id@ == n.key_id@
            &&& m.ca_sha256@ == n.ca_sha256@
        },
        _ => false,
    }
}

/// The bytes that are signed are the same on every initial node: two accepted
/// configurations that agree on what a manifest binds have the same ones,
/// whatever the order of the nodes, the case of letters in DNS names and
/// fingerprints, and everything else.
pub proof fn signing_bytes_are_shared(c: Config, cf: TlsFiles, d: Config, df: TlsFiles)
    requires
        mtls_verdict(c, cf) is Ok,
        mtls_verdict(d, df) is Ok,
        same_manifest(c, d),
    ensures
        canonical_outcome(d) == canonical_outcome(c),
{
    let (a, b) = (views(c.initial_nodes@), views(d.initial_nodes@));
    let (la, lb) = (all_lowered(a), all_lowered(b));
    accepted_nodes_are_distinct(c, cf);
    assert forall|x: InitialNodeView, y: InitialNodeView|
        la.contains(x) && la.contains(y) && (#[trigger] x.node_id) == (
        #[trigger] y.node_id) implies x == y by {
        let i = choose|i: int| 0 <= i < la.len() && la[i] == x;
        let j = choose|j: int| 0 <= j < la.len() && la[j] == y;
        assert(c.initial_nodes@[i].node_id == a[i].node_id);
        assert(c.initial_nodes@[j].node_id == a[j].node_id);
        if i < j {
            assert(c.initial_nodes@[i].node_id != c.initial_nodes@[j].node_id);
        } else if j < i {
            assert(c.initial_nodes@[j].node_id != c.initial_nodes@[i].node_id);
        }
    }
    let m = manifest_of(c, c.bootstrap_manifest->0);
    let n = manifest_of(d, d.bootstrap_manifest->0);
    lemma_lowered(m);
    lemma_lowered(n);
    manifest_forgets_node_order(ManifestView { nodes: la, ..m }, lb);
    assert(ManifestView { nodes: lb, ..m } =~= ManifestView { nodes: lb, ..n });
}

proof fn lemma_lowered(m: ManifestView)
    ensures
        manifest_bytes(ManifestView { nodes: all_lowered(m.nodes), ..m }) == manifest_bytes(m),
{
    let other = ManifestView { nodes: all_lowered(m.nodes), ..m };
    assert(key_part(other) == key_part(m));
    assert(cluster_part(other) == cluster_part(m));
    sorting_permutes(m.nodes);
    lemma_sorted_lowered(m.nodes);
    assert forall|out: Seq<u8>| with_nodes(out, in_order(other.nodes), 0) == with_nodes(
        out,
        in_order(m.nodes),
        0,
    ) by {
        lemma_nodes_lowered(out, in_order(m.nodes), 0);
    }
}

proof fn lemma_slot_lowered(sorted: Seq<InitialNodeView>, item: InitialNodeView)
    ensures
        slot(all_lowered(sorted), lowered(item)) == slot(sorted, item),
        0 <= slot(sorted, item) <= sorted.len(),
    decreases sorted.len(),
{
    let other = all_lowered(sorted);
    if sorted.len() > 0 {
        assert(other.last() == lowered(sorted.last()));
        assert(other.drop_last() =~= all_lowered(sorted.drop_last()));
        lemma_slot_lowered(sorted.drop_last(), item);
    }
}

proof fn lemma_sorted_lowered(nodes: Seq<InitialNodeView>)
    ensures
        in_order(all_lowered(nodes)) == all_lowered(in_order(nodes)),
    decreases nodes.len(),
{
    let other = all_lowered(nodes);
    if nodes.len() > 0 {
        let front = nodes.drop_last();
        assert(other.drop_last() =~= all_lowered(front));
        assert(other.last() == lowered(nodes.last()));
        lemma_sorted_lowered(front);
        lemma_slot_lowered(in_order(front), nodes.last());
        let at = slot(in_order(front), nodes.last());
        assert(all_lowered(in_order(front)).insert(at, lowered(nodes.last())) =~= all_lowered(
            in_order(front).insert(at, nodes.last()),
        ));
    } else {
        assert(other =~= nodes);
    }
}

proof fn lemma_nodes_lowered(out: Seq<u8>, nodes: Seq<InitialNodeView>, i: int)
    ensures
        with_nodes(out, all_lowered(nodes), i) == with_nodes(out, nodes, i),
    decreases nodes.len() - i,
{
    if 0 <= i < nodes.len() {
        lemma_node_lowered(out, nodes[i]);
        if let Ok(more) = with_node(out, nodes[i]) {
            lemma_nodes_lowered(more, nodes, i + 1);
        }
    }
}

proof fn lemma_node_lowered(out: Seq<u8>, n: InitialNodeView)
    ensures
        with_node(out, lowered(n)) == with_node(out, n),
{
    if let Some(name) = n.tls_dns_name {
        assert(ascii_lower_text(ascii_lower_text(name)) =~= ascii_lower_text(name));
    }
    if let Some(text) = n.tls_leaf_sha256 {
        lemma_digest_lowered(text);
    }
}

proof fn lemma_digest_lowered(text: Seq<char>)
    ensures
        is_sha256_text(ascii_lower_text(text)) == is_sha256_text(text),
        hex_bytes(ascii_lower_text(text)) == hex_bytes(text),
{
    let lower = ascii_lower_text(text);
    assert forall|i: int| 0 <= i < text.len() implies hex_value(#[trigger] lower[i]) == hex_value(
        text[i],
    ) by {}
    if is_sha256_text(lower) {
        assert forall|i: int| 0 <= i < text.len() implies hex_value(#[trigger] text[i]) is Some by {
            assert(hex_value(lower[i]) is Some);
        }
    }
    assert(hex_bytes(lower) =~= hex_bytes(text)) by {
        assert forall|i: int| 0 <= i < hex_bytes(text).len() implies #[trigger] hex_bytes(lower)[i]
            == hex_bytes(text)[i] by {
            assert(hex_value(lower[2 * i]) == hex_value(text[2 * i]));
            assert(hex_value(lower[2 * i + 1]) == hex_value(text[2 * i + 1]));
        }
    }
}

/// What a manifest binds of a node: its number, whether it votes, its address,
/// its DNS name in lower case and its fingerprint.
pub open spec fn bound_facts(n: InitialNodeView) -> (u64, bool, SocketAddressView, Seq<char>, Seq<
    u8,
>) {
    (
        n.node_id,
        n.voter,
        endpoint_outcome(n.endpoint)->Ok_0.0,
        ascii_lower_text(n.tls_dns_name->0),
        fingerprint_outcome(n)->Ok_0,
    )
}

/// Two manifests with the same bytes agree on everything that a manifest
/// binds.
pub proof fn manifests_tell_apart(a: ManifestView, b: ManifestView)
    requires
        a.key_id.len() == b.key_id.len(),
        a.ca_digest.len() == b.ca_digest.len(),
        manifest_bytes(a) is Ok,
        manifest_bytes(b) == manifest_bytes(a),
    ensures
        a.format_version == b.format_version,
        a.algorithm == b.algorithm,
        a.generation == b.generation,
        a.key_id == b.key_id,
        a.cluster_name == b.cluster_name,
        a.cluster_incarnation == b.cluster_incarnation,
        a.ca_digest == b.ca_digest,
        a.nodes.len() == b.nodes.len(),
        forall|i: int|
            0 <= i < a.nodes.len() ==> bound_facts(#[trigger] in_order(a.nodes)[i]) == bound_facts(
                in_order(b.nodes)[i],
            ),
{
    lemma_layout(a);
    lemma_layout(b);
    lemma_key_parts_len(a, b);
    lemma_heads(
        a.format_version,
        b.format_version,
        encode_utf8(a.algorithm),
        encode_utf8(b.algorithm),
        key_part(a),
        key_part(b),
        encode_utf8(a.cluster_name),
        encode_utf8(b.cluster_name),
        tail(a),
        tail(b),
    );
    lemma_texts(a.algorithm, b.algorithm);
    lemma_texts(a.cluster_name, b.cluster_name);
    lemma_keys(a, b);
    lemma_tails(a, b);
}

proof fn lemma_texts(a: Seq<char>, b: Seq<char>)
    requires
        encode_utf8(a) == encode_utf8(b),
    ensures
        a == b,
{
    encode_utf8_decode_utf8(a);
    encode_utf8_decode_utf8(b);
}

proof fn lemma_key_parts_len(a: ManifestView, b: ManifestView)
    requires
        a.key_id.len() == b.key_id.len(),
    ensures
        key_part(a).len() == key_part(b).len(),
{
    lemma_be_len(a.generation as nat, 8);
    lemma_be_len(b.generation as nat, 8);
}

proof fn lemma_keys(a: ManifestView, b: ManifestView)
    requires
        key_part(a) == key_part(b),
    ensures
        a.generation == b.generation,
        a.key_id == b.key_id,
{
    lemma_span();
    lemma_number(a.generation as nat, b.generation as nat, 8, a.key_id, b.key_id);
}

// The bytes before the tail of a manifest.
spec fn headed(
    version: u16,
    algorithm: Seq<u8>,
    key: Seq<u8>,
    cluster: Seq<u8>,
    rest: Seq<u8>,
) -> Seq<u8> {
    manifest_domain() + (be(version as nat, 2) + (field(algorithm) + (key + (field(cluster)
        + rest))))
}

proof fn lemma_heads(
    va: u16,
    vb: u16,
    ga: Seq<u8>,
    gb: Seq<u8>,
    ka: Seq<u8>,
    kb: Seq<u8>,
    ca: Seq<u8>,
    cb: Seq<u8>,
    ta: Seq<u8>,
    tb: Seq<u8>,
)
    requires
        ga.len() <= u16::MAX,
        gb.len() <= u16::MAX,
        ca.len() <= u16::MAX,
        cb.len() <= u16::MAX,
        ka.len() == kb.len(),
        headed(va, ga, ka, ca, ta) == headed(vb, gb, kb, cb, tb),
    ensures
        va == vb,
        ga == gb,
        ka == kb,
        ca == cb,
        ta == tb,
{
    lemma_span();
    let (xa, xb) = (field(ca) + ta, field(cb) + tb);
    let (ya, yb) = (field(ga) + (ka + xa), field(gb) + (kb + xb));
    lemma_cut(
        manifest_domain(),
        be(va as nat, 2) + ya,
        manifest_domain(),
        be(vb as nat, 2) + yb,
    );
    lemma_number(va as nat, vb as nat, 2, ya, yb);
    lemma_field(ga, gb, ka + xa, kb + xb);
    lemma_cut(ka, xa, kb, xb);
    lemma_field(ca, cb, ta, tb);
}

// A field behind its length.
spec fn field(value: Seq<u8>) -> Seq<u8> {
    be(value.len(), 2) + value
}

// Whether two nodes agree on what a manifest binds of them.
#[verifier::opaque]
spec fn agree(a: InitialNodeView, b: InitialNodeView) -> bool {
    bound_facts(a) == bound_facts(b)
}

// What the bytes of a node are.
#[verifier::opaque]
spec fn node_bytes(n: InitialNodeView) -> Seq<u8> {
    node_start(n, endpoint_outcome(n.endpoint)->Ok_0.0) + (field(
        encode_utf8(ascii_lower_text(n.tls_dns_name->0)),
    ) + fingerprint_outcome(n)->Ok_0)
}

// What the bytes of the nodes from the `i`th on are.
spec fn list_bytes(nodes: Seq<InitialNodeView>, i: int) -> Seq<u8>
    decreases nodes.len() - i,
{
    if i < 0 || i >= nodes.len() {
        Seq::empty()
    } else {
        node_bytes(nodes[i]) + list_bytes(nodes, i + 1)
    }
}

// Everything behind the cluster's name.
spec fn tail(m: ManifestView) -> Seq<u8> {
    cluster_part(m) + (be(m.nodes.len(), 2) + list_bytes(in_order(m.nodes), 0))
}

// Whether the parts of a node can be written.
#[verifier::opaque]
spec fn writable(n: InitialNodeView) -> bool {
    &&& endpoint_outcome(n.endpoint) is Ok
    &&& fingerprint_outcome(n) is Ok
    &&& encode_utf8(ascii_lower_text(n.tls_dns_name->0)).len() <= u16::MAX
}

proof fn lemma_cut(a: Seq<u8>, x: Seq<u8>, b: Seq<u8>, y: Seq<u8>)
    requires
        a + x == b + y,
        a.len() == b.len(),
    ensures
        a == b,
        x == y,
{
    let whole = a + x;
    assert(a =~= whole.subrange(0, a.len() as int));
    assert(b =~= whole.subrange(0, a.len() as int));
    assert(x =~= whole.subrange(a.len() as int, whole.len() as int));
    assert(y =~= whole.subrange(a.len() as int, whole.len() as int));
}

proof fn lemma_number(a: nat, b: nat, len: nat, x: Seq<u8>, y: Seq<u8>)
    requires
        a < span(len),
        b < span(len),
        be(a, len) + x == be(b, len) + y,
    ensures
        a == b,
        x == y,
{
    lemma_be_len(a, len);
    lemma_be_len(b, len);
    lemma_cut(be(a, len), x, be(b, len), y);
    be_reads_back(a, len);
    be_reads_back(b, len);
}

proof fn lemma_field(a: Seq<u8>, b: Seq<u8>, x: Seq<u8>, y: Seq<u8>)
    requires
        a.len() <= u16::MAX,
        b.len() <= u16::MAX,
        field(a) + x == field(b) + y,
    ensures
        a == b,
        x == y,
{
    lemma_span();
    assert(field(a) + x =~= be(a.len(), 2) + (a + x));
    assert(field(b) + y =~= be(b.len(), 2) + (b + y));
    lemma_number(a.len(), b.len(), 2, a + x, b + y);
    lemma_cut(a, x, b, y);
}

proof fn lemma_with_nodes(out: Seq<u8>, nodes: Seq<InitialNodeView>, i: int)
    requires
        0 <= i <= nodes.len(),
        with_nodes(out, nodes, i) is Ok,
    ensures
        with_nodes(out, nodes, i)->Ok_0 == out + list_bytes(nodes, i),
        forall|k: int| i <= k < nodes.len() ==> writable(#[trigger] nodes[k]),
    decreases nodes.len() - i,
{
    if i < nodes.len() {
        let more = with_node(out, nodes[i])->Ok_0;
        lemma_with_nodes(more, nodes, i + 1);
        reveal(node_bytes);
        reveal(writable);
        assert(more =~= out + node_bytes(nodes[i]));
        assert(more + list_bytes(nodes, i + 1) =~= out + list_bytes(nodes, i));
    } else {
        assert(out + list_bytes(nodes, i) =~= out);
    }
}

proof fn lemma_regroup(
    d: Seq<u8>,
    v: Seq<u8>,
    g: Seq<u8>,
    k: Seq<u8>,
    c: Seq<u8>,
    p: Seq<u8>,
    n: Seq<u8>,
    l: Seq<u8>,
)
    ensures
        d + v + g + k + c + p + n + l == d + (v + (g + (k + (c + (p + (n + l)))))),
{
    assert(d + v + g + k + c + p + n + l =~= d + (v + (g + (k + (c + (p + (n + l)))))));
}

proof fn lemma_layout(m: ManifestView)
    requires
        manifest_bytes(m) is Ok,
    ensures
        manifest_bytes(m)->Ok_0 == headed(
            m.format_version,
            encode_utf8(m.algorithm),
            key_part(m),
            encode_utf8(m.cluster_name),
            tail(m),
        ),
        encode_utf8(m.algorithm).len() <= u16::MAX,
        encode_utf8(m.cluster_name).len() <= u16::MAX,
        m.nodes.len() <= u16::MAX,
        forall|k: int|
            0 <= k < in_order(m.nodes).len() ==> writable(#[trigger] in_order(m.nodes)[k]),
{
    let start = manifest_domain() + be(m.format_version as nat, 2);
    let named = with_field(start, encode_utf8(m.algorithm))->Ok_0;
    let clustered = with_field(named + key_part(m), encode_utf8(m.cluster_name))->Ok_0;
    let begun = clustered + cluster_part(m) + be(m.nodes.len(), 2);
    lemma_with_nodes(begun, in_order(m.nodes), 0);
    lemma_regroup(
        manifest_domain(),
        be(m.format_version as nat, 2),
        field(encode_utf8(m.algorithm)),
        key_part(m),
        field(encode_utf8(m.cluster_name)),
        cluster_part(m),
        be(m.nodes.len(), 2),
        list_bytes(in_order(m.nodes), 0),
    );
}

proof fn lemma_addresses(a: SocketAddressView, b: SocketAddressView, x: Seq<u8>, y: Seq<u8>)
    requires
        a.is_valid(),
        b.is_valid(),
        a.is_v4() ==> a.flowinfo == 0 && a.scope == 0,
        b.is_v4() ==> b.flowinfo == 0 && b.scope == 0,
        address_bytes(a) + x == address_bytes(b) + y,
    ensures
        a == b,
        x == y,
{
    lemma_span();
    let (pa, pb) = (be(a.port as nat, 2), be(b.port as nat, 2));
    let (fa, fb) = (be(a.flowinfo as nat, 4), be(b.flowinfo as nat, 4));
    let (sa, sb) = (be(a.scope as nat, 4), be(b.scope as nat, 4));
    assert((address_bytes(a) + x)[0] == if a.is_v4() {
        4u8
    } else {
        6u8
    });
    assert((address_bytes(b) + y)[0] == if b.is_v4() {
        4u8
    } else {
        6u8
    });
    assert(a.is_v4() == b.is_v4());
    if a.is_v4() {
        assert(address_bytes(a) + x =~= (seq![4u8] + a.ip) + (pa + x));
        assert(address_bytes(b) + y =~= (seq![4u8] + b.ip) + (pb + y));
        lemma_cut(seq![4u8] + a.ip, pa + x, seq![4u8] + b.ip, pb + y);
        lemma_cut(seq![4u8], a.ip, seq![4u8], b.ip);
        lemma_number(a.port as nat, b.port as nat, 2, x, y);
    } else {
        assert(address_bytes(a) + x =~= (seq![6u8] + a.ip) + (pa + (fa + (sa + x))));
        assert(address_bytes(b) + y =~= (seq![6u8] + b.ip) + (pb + (fb + (sb + y))));
        lemma_cut(seq![6u8] + a.ip, pa + (fa + (sa + x)), seq![6u8] + b.ip, pb + (fb + (sb + y)));
        lemma_cut(seq![6u8], a.ip, seq![6u8], b.ip);
        lemma_number(a.port as nat, b.port as nat, 2, fa + (sa + x), fb + (sb + y));
        lemma_number(a.flowinfo as nat, b.flowinfo as nat, 4, sa + x, sb + y);
        lemma_number(a.scope as nat, b.scope as nat, 4, x, y);
    }
    assert(a =~= b);
}

proof fn lemma_endpoint(endpoint: Seq<char>)
    requires
        endpoint_outcome(endpoint) is Ok,
    ensures
        endpoint_outcome(endpoint)->Ok_0.0.is_valid(),
        endpoint_outcome(endpoint)->Ok_0.0.is_v4() ==> endpoint_outcome(endpoint)->Ok_0.0.flowinfo
            == 0 && endpoint_outcome(endpoint)->Ok_0.0.scope == 0,
{
    let text = authority(endpoint).0;
    read_addresses_are_valid(text);
    assert(read_address(text) == Some(endpoint_outcome(endpoint)->Ok_0.0));
}

// The bytes of a node with what follows it.
spec fn node_parts(
    id: u64,
    flag: u8,
    address: SocketAddressView,
    name: Seq<u8>,
    rest: Seq<u8>,
) -> Seq<u8> {
    be(id as nat, 8) + (seq![flag] + (address_bytes(address) + (field(name) + rest)))
}

proof fn lemma_node_parts(n: InitialNodeView, x: Seq<u8>)
    ensures
        node_bytes(n) + x == node_parts(
            n.node_id,
            flag_byte(n.voter),
            endpoint_outcome(n.endpoint)->Ok_0.0,
            encode_utf8(ascii_lower_text(n.tls_dns_name->0)),
            fingerprint_outcome(n)->Ok_0 + x,
        ),
{
    reveal(node_bytes);
    let address = endpoint_outcome(n.endpoint)->Ok_0.0;
    let name = encode_utf8(ascii_lower_text(n.tls_dns_name->0));
    let f = fingerprint_outcome(n)->Ok_0;
    assert(node_bytes(n) + x =~= node_parts(n.node_id, flag_byte(n.voter), address, name, f + x));
}

proof fn lemma_parts_differ(
    ia: u64,
    ib: u64,
    va: u8,
    vb: u8,
    ea: SocketAddressView,
    eb: SocketAddressView,
    na: Seq<u8>,
    nb: Seq<u8>,
    x: Seq<u8>,
    y: Seq<u8>,
)
    requires
        ea.is_valid(),
        eb.is_valid(),
        ea.is_v4() ==> ea.flowinfo == 0 && ea.scope == 0,
        eb.is_v4() ==> eb.flowinfo == 0 && eb.scope == 0,
        na.len() <= u16::MAX,
        nb.len() <= u16::MAX,
        node_parts(ia, va, ea, na, x) == node_parts(ib, vb, eb, nb, y),
    ensures
        ia == ib,
        va == vb,
        ea == eb,
        na == nb,
        x == y,
{
    lemma_span();
    let (ra, rb) = (field(na) + x, field(nb) + y);
    let (sa, sb) = (address_bytes(ea) + ra, address_bytes(eb) + rb);
    lemma_number(ia as nat, ib as nat, 8, seq![va] + sa, seq![vb] + sb);
    lemma_cut(seq![va], sa, seq![vb], sb);
    assert(seq![va][0] == seq![vb][0]);
    lemma_addresses(ea, eb, ra, rb);
    lemma_field(na, nb, x, y);
}

proof fn lemma_nodes_differ(a: InitialNodeView, b: InitialNodeView, x: Seq<u8>, y: Seq<u8>)
    requires
        writable(a),
        writable(b),
        node_bytes(a) + x == node_bytes(b) + y,
    ensures
        agree(a, b),
        x == y,
{
    reveal(writable);
    reveal(agree);
    let (na, nb) = (ascii_lower_text(a.tls_dns_name->0), ascii_lower_text(b.tls_dns_name->0));
    let (fa, fb) = (fingerprint_outcome(a)->Ok_0, fingerprint_outcome(b)->Ok_0);
    lemma_endpoint(a.endpoint);
    lemma_endpoint(b.endpoint);
    lemma_node_parts(a, x);
    lemma_node_parts(b, y);
    lemma_parts_differ(
        a.node_id,
        b.node_id,
        flag_byte(a.voter),
        flag_byte(b.voter),
        endpoint_outcome(a.endpoint)->Ok_0.0,
        endpoint_outcome(b.endpoint)->Ok_0.0,
        encode_utf8(na),
        encode_utf8(nb),
        fa + x,
        fb + y,
    );
    lemma_texts(na, nb);
    lemma_cut(fa, x, fb, y);
}

proof fn lemma_lists(a: Seq<InitialNodeView>, b: Seq<InitialNodeView>, i: int)
    requires
        0 <= i <= a.len(),
        a.len() == b.len(),
        forall|k: int| 0 <= k < a.len() ==> writable(#[trigger] a[k]),
        forall|k: int| 0 <= k < b.len() ==> writable(#[trigger] b[k]),
        list_bytes(a, i) == list_bytes(b, i),
    ensures
        forall|k: int| i <= k < a.len() ==> agree(#[trigger] a[k], b[k]),
    decreases a.len() - i,
{
    if i < a.len() {
        assert(writable(a[i]) && writable(b[i]));
        lemma_nodes_differ(a[i], b[i], list_bytes(a, i + 1), list_bytes(b, i + 1));
        lemma_lists(a, b, i + 1);
    }
}

proof fn lemma_tails(a: ManifestView, b: ManifestView)
    requires
        tail(a) == tail(b),
        a.ca_digest.len() == b.ca_digest.len(),
        a.nodes.len() <= u16::MAX,
        b.nodes.len() <= u16::MAX,
        forall|k: int|
            0 <= k < in_order(a.nodes).len() ==> writable(#[trigger] in_order(a.nodes)[k]),
        forall|k: int|
            0 <= k < in_order(b.nodes).len() ==> writable(#[trigger] in_order(b.nodes)[k]),
    ensures
        a.cluster_incarnation == b.cluster_incarnation,
        a.ca_digest == b.ca_digest,
        a.nodes.len() == b.nodes.len(),
        forall|i: int|
            0 <= i < a.nodes.len() ==> bound_facts(#[trigger] in_order(a.nodes)[i]) == bound_facts(
                in_order(b.nodes)[i],
            ),
{
    lemma_span();
    sorting_permutes(a.nodes);
    sorting_permutes(b.nodes);
    let (la, lb) = (list_bytes(in_order(a.nodes), 0), list_bytes(in_order(b.nodes), 0));
    let (ia, ib) = (a.cluster_incarnation as nat, b.cluster_incarnation as nat);
    lemma_be_len(ia, 8);
    lemma_be_len(ib, 8);
    lemma_cut(
        cluster_part(a),
        be(a.nodes.len(), 2) + la,
        cluster_part(b),
        be(b.nodes.len(), 2) + lb,
    );
    lemma_number(a.nodes.len(), b.nodes.len(), 2, la, lb);
    let ha = cluster_part(a).subrange(0, 16);
    let hb = cluster_part(b).subrange(0, 16);
    assert(cluster_part(a) =~= ha + (be(ia, 8) + a.ca_digest));
    assert(cluster_part(b) =~= hb + (be(ib, 8) + b.ca_digest));
    lemma_cut(ha, be(ia, 8) + a.ca_digest, hb, be(ib, 8) + b.ca_digest);
    lemma_number(ia, ib, 8, a.ca_digest, b.ca_digest);
    lemma_lists(in_order(a.nodes), in_order(b.nodes), 0);
    reveal(agree);
}

} // verus!
