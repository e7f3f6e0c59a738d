//! Configuration, the signed manifest, installation identity, reports and the
//! command line of a node.

use chorus::address::SocketAddress;
use chorus::backup::{logical_backup_from_store, merge_toml_table, StoreContents};
use chorus::cluster::ConsensusStatus;
use chorus::config::{
    BootstrapManifestSignature, Config, InitialNode, ManifestCapability, TlsConfig, TlsFiles,
    MANIFEST_FORMAT_VERSION,
};
use chorus::config_error::ConfigError;
use chorus::endpoint::{
    decode_lower_hex, decode_sha256, encode_lower_hex, parse_initial_endpoint, validate_dns_name,
};
use chorus::files::{
    check_config_size, ensure_private_dir, join_path, private_mode, same_file,
    snapshot_file_within_limit, FileFacts, FileRule, MAX_SNAPSHOT_BYTES, MAX_TLS_FILE_BYTES,
};
use chorus::identity::{
    check_binding_mode, check_binding_size, check_identity_opened, check_identity_path,
    check_identity_size, check_opened_store, check_state_path, create_installation_identity,
    create_manifest_binding, ensure_installation_identity, ensure_manifest_authorizes_state_access,
    ensure_ordinary_config_is_unbound, existing_durable_artifact,
    existing_manifest_bound_artifact, staging_name, BindingLook, BindingStep, IdentityLook,
    IdentityStep, InstallationIdentity, ManifestBinding, PathLook, Published, StateDirLook,
    MAX_IDENTITY_BYTES,
};
use chorus::ids::LogId;
use chorus::manifest::{
    canonical_ca_trust_digest, canonical_trust_set, put_manifest_bytes, read_manifest_public_key,
    sha256, MAX_MANIFEST_BYTES, MAX_MANIFEST_KEY_BYTES,
};
use chorus::names::NameMap;
use chorus::node_args::{
    arg_value, config_path, dispatch, has_flag, help_text, load_command_config,
    require_cluster_confirmation, Command, ConfigSource,
};
use chorus::node_identity::{bind_identity, openraft_transport_identity};
use chorus::node_plan::{
    check_bootstrap_node, check_bootstrapped, check_empty_state, check_output_path, check_report,
    check_restore_target, check_static_voters, configured_members, edit_membership, edited_node,
    ensure_openraft_legacy_state_empty, inspected_file, member_command, missing_config,
    next_term_position, openraft_paths, plan_backup, plan_bootstrap, plan_restore, plan_run,
    restore_snapshot, snapshot_command, socket_path, validate_openraft_single_node,
    validate_redb_target, BootstrapPlan, LegacyState, MemberCommand, ServingMode, SnapshotCommand,
    TargetLook,
};
use chorus::node_run::{
    node_endpoints, run_steps, runtime_options, settle_activation, Activation, RunStep,
};
use chorus::opening::{open_store, OpeningAction, OpeningEvent};
use chorus::signed_load::{Looked, Written};
use chorus::snapshot::{is_logical_backup, LogicalSnapshot};
use chorus::status::{render_metrics, status, StoreIdentity, StoreStatus};
use chorus::transport::leaf_fingerprint;
use rcgen::{BasicConstraints, CertificateParams, IsCa, KeyPair as RcgenKeyPair};
use ring::signature::{Ed25519KeyPair, KeyPair as RingKeyPair};

fn file(len: u64, mode: u32) -> FileFacts {
    FileFacts {
        is_file: true,
        is_dir: false,
        is_symlink: false,
        len,
        mode,
        device: 1,
        inode: 2,
    }
}

fn tls_files() -> TlsFiles {
    TlsFiles {
        ca: Some(Ok(file(7, 0o644))),
        certificate: Some(Ok(file(16, 0o644))),
        private_key: Some(Ok(file(16, 0o600))),
    }
}

fn no_tls_files() -> TlsFiles {
    TlsFiles { ca: None, certificate: None, private_key: None }
}

fn fingerprint(byte: u8) -> String {
    format!("{byte:02x}").repeat(32)
}

fn authenticated_config() -> Config {
    let mut config = Config::defaults("/tests/data", 1);
    config.tls = TlsConfig {
        ca: Some("/tests/ca.pem".into()),
        certificate: Some("/tests/node.pem".into()),
        private_key: Some("/tests/node-key.pem".into()),
    };
    config.initial_nodes = (1..=3u64)
        .map(|node_id| InitialNode {
            node_id,
            endpoint: format!("https://127.0.0.1:{}", 7000 + node_id),
            voter: true,
            tls_dns_name: Some(format!("node-{node_id}.chorus.test")),
            tls_leaf_sha256: Some(fingerprint(node_id as u8)),
        })
        .collect();
    config
}

fn ed25519_key(seed: u8) -> Ed25519KeyPair {
    Ed25519KeyPair::from_seed_unchecked(&[seed; 32]).expect("test Ed25519 seed")
}

fn valid_ca_pem() -> String {
    let mut params = CertificateParams::new(Vec::new()).expect("CA parameters");
    params.is_ca = IsCa::Ca(BasicConstraints::Unconstrained);
    let key = RcgenKeyPair::generate().expect("CA key");
    params.self_signed(&key).expect("CA certificate").pem()
}

fn sign_manifest(config: &mut Config, ca: &[u8], key: &Ed25519KeyPair, generation: u64) {
    config.bootstrap_manifest = Some(BootstrapManifestSignature {
        format_version: MANIFEST_FORMAT_VERSION,
        algorithm: "ed25519".into(),
        generation,
        key_id: encode_lower_hex(&sha256(key.public_key().as_ref())),
        ca_sha256: encode_lower_hex(&canonical_ca_trust_digest(ca).expect("CA digest")),
        signature: "00".repeat(64),
    });
    let signed =
        config.openraft_manifest_signing_bytes(&tls_files()).expect("canonical manifest");
    config.bootstrap_manifest.as_mut().expect("manifest metadata").signature =
        encode_lower_hex(key.sign(&signed).as_ref());
}

fn signed_config(seed: u8) -> (Config, Vec<u8>, Vec<u8>, Ed25519KeyPair) {
    let mut config = authenticated_config();
    let ca = valid_ca_pem().into_bytes();
    let key = ed25519_key(seed);
    let trust_key = encode_lower_hex(key.public_key().as_ref()).into_bytes();
    sign_manifest(&mut config, &ca, &key, 1);
    (config, ca, trust_key, key)
}

fn load_into(
    config: &Config,
    trust_key: &[u8],
    ca: &[u8],
    looked: Looked,
    written: Written,
) -> Result<Config, ConfigError> {
    config.clone().load_openraft_signed(
        &tls_files(),
        &Ok(trust_key.to_vec()),
        &Ok(ca.to_vec()),
        &looked,
        &written,
    )
}

/// Loads into a directory that holds nothing.
fn load(config: &Config, trust_key: &[u8], ca: &[u8]) -> Result<Config, ConfigError> {
    load_into(config, trust_key, ca, Ok(BindingLook::Missing(Ok(None))), Ok(Published::Linked))
}

fn args(words: &[&str]) -> Vec<String> {
    words.iter().map(|word| word.to_string()).collect()
}

// ---------------------------------------------------------------------------

#[test]
fn authenticated_openraft_manifest_is_complete_unique_and_listen_bound() {
    let config = authenticated_config();
    config.validate_openraft_mtls(&tls_files()).expect("valid manifest");
    assert_eq!(1, config.openraft_bootstrap_node_id().unwrap());
    assert_eq!([1; 32], config.initial_nodes[0].tls_leaf_fingerprint().unwrap());

    let mut bare_endpoint = config.clone();
    bare_endpoint.initial_nodes[0].endpoint = "127.0.0.1:7001".into();
    assert!(bare_endpoint
        .validate_openraft_mtls(&tls_files())
        .unwrap_err()
        .text()
        .contains("https://"));

    let mut duplicate_identity = config.clone();
    duplicate_identity.initial_nodes[1].tls_leaf_sha256 =
        duplicate_identity.initial_nodes[0].tls_leaf_sha256.clone();
    assert!(duplicate_identity
        .validate_openraft_mtls(&tls_files())
        .unwrap_err()
        .text()
        .contains("fingerprints must be unique"));

    let mut mismatched_listen = config.clone();
    mismatched_listen.raft.listen = "127.0.0.1:7999".into();
    assert!(mismatched_listen
        .validate_openraft_mtls(&tls_files())
        .unwrap_err()
        .text()
        .contains("raft.listen"));

    let mut same_name = config.clone();
    same_name.initial_nodes[1].tls_dns_name = Some("NODE-1.chorus.test".into());
    assert!(same_name
        .validate_openraft_mtls(&tls_files())
        .unwrap_err()
        .text()
        .contains("DNS names must be unique"));

    let mut partial_identity = config;
    partial_identity.initial_nodes[2].tls_dns_name = None;
    assert!(partial_identity.validate(&tls_files()).is_err());
}

#[test]
fn metrics_render_low_cardinality_health_and_replication_gauges() {
    let config = Config::defaults("/tests/data", 7);
    let store = StoreStatus { healthy: true, db_epoch: 0, catalog_epoch: 0 };
    let rendered = render_metrics(&status(&config, store, None, None, None));
    assert!(rendered.contains("# TYPE chorus_storage_healthy gauge"));
    assert!(rendered.contains("chorus_local_ready "));
    assert!(rendered.contains("chorus_strict_ready "));
    assert!(rendered.contains("chorus_node_info{node_id=\"7\",role=\"unknown\"} 1"));
    assert!(!rendered.contains("cluster_id"));
    assert!(!rendered.contains("SELECT"));
}

#[test]
fn signed_manifest_verifies_canonical_order_and_pins_first_open() {
    let (mut config, ca, trust_key, _) = signed_config(7);
    let canonical = config.openraft_manifest_signing_bytes(&tls_files()).unwrap();
    let loaded = load(&config, &trust_key, &ca).unwrap();
    assert_eq!(canonical, loaded.openraft_manifest_signing_bytes(&tls_files()).unwrap());
    let step = ensure_manifest_authorizes_state_access(&loaded, BindingLook::Missing(Ok(None)));
    let binding = match step.unwrap() {
        BindingStep::Create(binding) => binding,
        BindingStep::Settled => panic!("nothing is bound yet"),
    };

    config.initial_nodes.reverse();
    for node in &mut config.initial_nodes {
        node.tls_dns_name = node.tls_dns_name.as_ref().map(|name| name.to_uppercase());
        node.tls_leaf_sha256 = node.tls_leaf_sha256.as_ref().map(|text| text.to_uppercase());
    }
    let reordered = load(&config, &trust_key, &ca).unwrap();
    assert_eq!(canonical, reordered.openraft_manifest_signing_bytes(&tls_files()).unwrap());
    let step =
        ensure_manifest_authorizes_state_access(&reordered, BindingLook::Found(Ok(binding)));
    assert!(matches!(step, Ok(BindingStep::Settled)));
}

#[test]
fn signed_manifest_cannot_downgrade_to_ordinary_load_or_state_access() {
    let (config, ca, trust_key, _) = signed_config(18);
    let error = ensure_ordinary_config_is_unbound(&config, &PathLook::Missing).unwrap_err();
    assert!(error.text().contains("load_openraft_signed"));
    let error =
        ensure_manifest_authorizes_state_access(&config, BindingLook::Missing(Ok(None)))
            .unwrap_err();
    assert!(error.text().contains("was not verified"));

    let verified = load(&config, &trust_key, &ca).unwrap();
    assert!(verified.capability.verified().is_some());
    let mut stripped = verified;
    stripped.bootstrap_manifest = None;
    let error =
        ensure_manifest_authorizes_state_access(&stripped, BindingLook::Missing(Ok(None)))
            .unwrap_err();
    assert!(error.text().contains("does not match the configuration"));
    stripped.capability = ManifestCapability::none();
    let error = ensure_ordinary_config_is_unbound(&stripped, &PathLook::Found).unwrap_err();
    assert!(error.text().contains("manifest binding"));
    let error = ensure_ordinary_config_is_unbound(&stripped, &PathLook::Fault("x".into()));
    assert!(matches!(error, Err(ConfigError::Io(_))));
}

#[test]
fn signed_manifest_rejects_tamper_wrong_key_and_invalid_signature_before_binding() {
    let (mut tampered, ca, trust_key, _) = signed_config(8);
    tampered.initial_nodes[1].endpoint = "https://127.0.0.1:7202".into();
    let error = load(&tampered, &trust_key, &ca).unwrap_err();
    assert!(error.text().contains("signature is invalid"));

    let (mut bad_signature, ca, trust_key, _) = signed_config(9);
    bad_signature.bootstrap_manifest.as_mut().unwrap().signature.replace_range(..2, "01");
    let error = load(&bad_signature, &trust_key, &ca).unwrap_err();
    assert!(error.text().contains("signature is invalid"));

    let (wrong_key, ca, _, _) = signed_config(10);
    let other = encode_lower_hex(ed25519_key(11).public_key().as_ref()).into_bytes();
    let error = load(&wrong_key, &other, &ca).unwrap_err();
    assert!(error.text().contains("does not match"));

    let (wrong_ca, _, trust_key, _) = signed_config(10);
    let error = load(&wrong_ca, &trust_key, valid_ca_pem().as_bytes()).unwrap_err();
    assert!(error.text().contains("trust set does not match"));
}

#[test]
fn manifest_binding_rejects_content_signer_rotation_and_missing_pin_with_artifacts() {
    let (original, ca, trust_key, key) = signed_config(12);
    let loaded = load(&original, &trust_key, &ca).unwrap();
    let first = ManifestBinding::of(&loaded, loaded.capability.verified().unwrap());
    first.validate().unwrap();

    let mut changed = original.clone();
    changed.initial_nodes[1].endpoint = "https://127.0.0.1:7302".into();
    sign_manifest(&mut changed, &ca, &key, 2);
    let standing = || Ok(BindingLook::Found(Ok(first.clone())));
    let unused = || Ok(Published::Linked);
    let error = load_into(&changed, &trust_key, &ca, standing(), unused()).unwrap_err();
    assert!(error.text().contains("binding does not match"));
    let step = changed.manifest_binding_step(
        &tls_files(),
        &Ok(trust_key.clone()),
        &Ok(ca.clone()),
        &standing(),
    );
    assert!(step.unwrap_err().text().contains("binding does not match"));
    assert!(load_into(&original, &trust_key, &ca, standing(), unused()).is_ok());

    let replacement_key = ed25519_key(13);
    let mut rekeyed = original.clone();
    sign_manifest(&mut rekeyed, &ca, &replacement_key, 1);
    let key_text = encode_lower_hex(replacement_key.public_key().as_ref()).into_bytes();
    let error = load_into(&rekeyed, &key_text, &ca, standing(), unused()).unwrap_err();
    assert!(error.text().contains("binding does not match"));

    let artifact = existing_durable_artifact(
        &loaded,
        &StateDirLook::Missing,
        &PathLook::Found,
        &Ok(Vec::new()),
    );
    let artifact = existing_manifest_bound_artifact(&loaded, &PathLook::Missing, artifact);
    let looked = Ok(BindingLook::Missing(artifact));
    let error = load_into(&original, &trust_key, &ca, looked, unused()).unwrap_err();
    assert!(error.text().contains("binding is missing"));
    assert!(error.text().contains("/tests/data/raft.redb"));

    let empty = || Ok(BindingLook::Missing(Ok(None)));
    let step = original.manifest_binding_step(
        &tls_files(),
        &Ok(trust_key.clone()),
        &Ok(ca.clone()),
        &empty(),
    );
    match step.unwrap() {
        BindingStep::Create(binding) => assert_eq!(binding, first),
        BindingStep::Settled => panic!("nothing is bound yet"),
    }
    let raced = Ok(Published::Raced(Ok(first.clone())));
    assert!(load_into(&original, &trust_key, &ca, empty(), raced).is_ok());
    let refused = || Err(ConfigError::Invalid("not bound".into()));
    let error = load_into(&original, &trust_key, &ca, empty(), refused()).unwrap_err();
    assert!(error.text().contains("not bound"));
    let unready = Err(ConfigError::Invalid("not private".into()));
    let error = load_into(&original, &trust_key, &ca, unready, unused()).unwrap_err();
    assert!(error.text().contains("not private"));
    let mut other = first.clone();
    other.generation = 9;
    assert!(create_manifest_binding(&first, &Published::Linked).is_ok());
    assert!(create_manifest_binding(&first, &Published::Raced(Ok(first.clone()))).is_ok());
    assert!(create_manifest_binding(&first, &Published::Fault("disk".into())).is_err());
    assert!(create_manifest_binding(&first, &Published::Raced(Ok(other.clone()))).is_err());
    let raced = Ok(Published::Raced(Ok(other)));
    let error = load_into(&original, &trust_key, &ca, empty(), raced).unwrap_err();
    assert!(error.text().contains("won concurrent first-open creation"));
    assert!(check_binding_mode(0o600).is_ok() && check_binding_mode(0o640).is_err());
    assert!(check_binding_size(1).is_ok() && check_binding_size(0).is_err());
    assert!(check_binding_size(4097).is_err());
}

#[test]
fn manifest_key_and_config_size_bounds_fail_before_binding() {
    let key_rule =
        FileRule::Bounded { maximum: MAX_MANIFEST_KEY_BYTES, owner_writes_alone: true };
    let oversized = file(MAX_MANIFEST_KEY_BYTES + 1, 0o644);
    assert!(key_rule.check_path(&Ok(oversized), "manifest trust key").is_err());
    let config_rule = FileRule::Bounded { maximum: MAX_MANIFEST_BYTES, owner_writes_alone: true };
    let oversized = file(MAX_MANIFEST_BYTES + 1, 0o644);
    assert!(config_rule.check_path(&Ok(oversized), "signed configuration").is_err());
    assert!(check_config_size(MAX_MANIFEST_BYTES).is_ok());
    assert!(check_config_size(MAX_MANIFEST_BYTES + 1).is_err());
    assert!(read_manifest_public_key(&Ok(vec![b'a'; 65])).is_err());
    assert!(read_manifest_public_key(&Ok(vec![0xff])).is_err());
    assert!(read_manifest_public_key(&Err(ConfigError::Io("x".into()))).is_err());
    assert_eq!(read_manifest_public_key(&Ok(b"07".repeat(32))).unwrap(), [7; 32]);
}

#[test]
fn signed_manifest_rejects_config_and_key_symlinks() {
    let rule = FileRule::Bounded { maximum: MAX_MANIFEST_BYTES, owner_writes_alone: true };
    let mut link = file(10, 0o644);
    link.is_file = false;
    link.is_symlink = true;
    let error = rule.check_path(&Ok(link), "signed configuration").unwrap_err();
    assert!(error.text().contains("is not a regular file"));
    let mut replaced = file(10, 0o644);
    replaced.inode = 9;
    assert!(!same_file(&file(10, 0o644), &replaced));
    let error = rule.check_opened(&Ok(file(10, 0o644)), &Ok(replaced), "manifest trust key");
    assert!(error.unwrap_err().text().contains("changed while it was being opened"));
    assert!(rule.check_opened(&Err("gone".into()), &Ok(replaced), "x").is_err());
    assert!(rule.check_opened(&Ok(file(10, 0o644)), &Err("gone".into()), "x").is_err());
    assert!(rule.check_path(&Err("gone".into()), "x").is_err());
}

#[test]
fn signed_manifest_rejects_group_or_world_writable_inputs_before_binding() {
    let rule = FileRule::Bounded { maximum: 64, owner_writes_alone: true };
    let error = rule.check_path(&Ok(file(10, 0o620)), "signed configuration").unwrap_err();
    assert!(error.text().contains("group/world-writable"));
    let error = rule.check_path(&Ok(file(10, 0o666)), "manifest trust key").unwrap_err();
    assert!(error.text().contains("group/world-writable"));
    assert!(rule.check_path(&Ok(file(10, 0o600)), "signed configuration").is_ok());
    assert!(rule.check_content(&[0; 65], "x").is_err());
}

#[test]
fn authenticated_tls_material_reads_exact_bounded_private_files() {
    let config = authenticated_config();
    let read = || -> Result<_, ConfigError> {
        config.transport_tls_material(
            &tls_files(),
            Ok(b"test CA".to_vec()),
            Ok(b"test certificate".to_vec()),
            Ok(b"test private key".to_vec()),
        )
    };
    let material = read().expect("read TLS material");
    assert_eq!(b"test CA", material.ca_pem.as_slice());
    assert_eq!(b"test certificate", material.certificate_pem.as_slice());
    assert_eq!(b"test private key", material.private_key_pem.as_slice());

    let mut files = tls_files();
    files.ca = Some(Ok(file(MAX_TLS_FILE_BYTES + 1, 0o644)));
    let error = config
        .transport_tls_material(&files, Ok(Vec::new()), Ok(Vec::new()), Ok(Vec::new()))
        .unwrap_err();
    assert!(error.text().contains("exceeds"));
    let long = || Ok(vec![1; MAX_TLS_FILE_BYTES as usize + 1]);
    let good = || Ok(vec![1; MAX_TLS_FILE_BYTES as usize]);
    let text = |ca, certificate, private_key| {
        let read = config.transport_tls_material(&tls_files(), ca, certificate, private_key);
        read.unwrap_err().text()
    };
    assert!(text(long(), good(), good()).contains("tls.ca exceeds 1048576 bytes"));
    assert!(text(good(), long(), good()).contains("tls.certificate exceeds 1048576 bytes"));
    assert!(text(good(), good(), long()).contains("tls.private_key exceeds 1048576 bytes"));
    assert!(config.transport_tls_material(&tls_files(), good(), good(), good()).is_ok());
    let emptied = config.transport_tls_material(&tls_files(), good(), good(), Ok(Vec::new()));
    assert!(emptied.expect("a file cut short after the looks").private_key_pem.is_empty());
    let rule = FileRule::Tls { private: true };
    assert!(rule.check_path(&Ok(file(5, 0o640)), "tls.private_key").is_err());
    assert!(rule.check_path(&Ok(file(0, 0o600)), "tls.private_key").is_err());
    assert!(rule.check_content(&vec![0; MAX_TLS_FILE_BYTES as usize + 1], "tls.ca").is_err());
}

#[test]
fn first_open_creates_private_identity_and_same_config_reopens() {
    let config = Config::defaults("/tests/data", 1);
    let step = ensure_installation_identity(&config, IdentityLook::Missing(Ok(None))).unwrap();
    let identity = match step {
        IdentityStep::Create(identity) => identity,
        IdentityStep::Settled => panic!("there is no identity yet"),
    };
    assert_eq!(identity, InstallationIdentity::from_config(&config));
    assert_eq!(private_mode(false), 0o600);
    assert_eq!(private_mode(true), 0o700);
    assert_eq!(staging_name("identity.toml", 5, 6), ".identity.toml.5.6.tmp");
    create_installation_identity(&identity, Published::Linked).unwrap();
    let step = ensure_installation_identity(&config, IdentityLook::Found(Ok(identity))).unwrap();
    assert!(matches!(step, IdentityStep::Settled));
    assert_eq!(config.identity_path(), "/tests/data/identity.toml");
    assert_eq!(config.state_path(), "/tests/data/state/active.json");
    assert_eq!(join_path("/tests/", "x"), "/tests/x");
}

#[test]
fn identity_mismatch_rejects_before_durable_state_access() {
    let config = Config::defaults("/tests/data", 1);
    let written = InstallationIdentity::from_config(&config);
    let open = |config: &Config| {
        ensure_installation_identity(config, IdentityLook::Found(Ok(written.clone())))
    };

    let mut wrong_node = config.clone();
    wrong_node.node_id = 2;
    wrong_node.initial_nodes[0].node_id = 2;
    assert!(open(&wrong_node).is_err());

    let mut wrong_cluster = config.clone();
    wrong_cluster.cluster_id = "other-cluster".into();
    assert!(open(&wrong_cluster).is_err());

    let mut wrong_incarnation = config.clone();
    wrong_incarnation.cluster_incarnation += 1;
    assert!(open(&wrong_incarnation).is_err());
    assert!(open(&config).is_ok());

    let own = config.cluster_id().0;
    assert!(check_opened_store(&config, &own, 1).is_ok());
    assert!(check_opened_store(&config, &own, 2).is_err());
    assert!(check_opened_store(&config, &[1; 16], 1).is_err());
    assert!(check_state_path(true).is_err());
}

#[test]
fn missing_identity_never_rebinds_existing_state_or_raft_log() {
    let config = Config::defaults("/tests/data", 1);
    let found = |state: StateDirLook, log: PathLook, names: Vec<Result<String, String>>| {
        existing_durable_artifact(&config, &state, &log, &Ok(names))
    };
    let with_state = found(
        StateDirLook::Directory(Ok(Some("active.json".into()))),
        PathLook::Missing,
        Vec::new(),
    );
    let error =
        ensure_installation_identity(&config, IdentityLook::Missing(with_state)).unwrap_err();
    assert!(error.text().contains("identity is missing"));
    assert!(error.text().contains("/tests/data/state/active.json"));

    let orphan = found(
        StateDirLook::Missing,
        PathLook::Missing,
        vec![Ok("notes.txt".into()), Ok("orphan.raft.log".into())],
    );
    assert_eq!(orphan.as_ref().unwrap().as_deref(), Some("/tests/data/orphan.raft.log"));
    assert!(ensure_installation_identity(&config, IdentityLook::Missing(orphan)).is_err());
    assert_eq!(
        found(StateDirLook::Directory(Ok(None)), PathLook::Missing, Vec::new()).unwrap(),
        None
    );
    assert_eq!(
        found(StateDirLook::Other, PathLook::Missing, Vec::new()).unwrap().as_deref(),
        Some("/tests/data/state")
    );
    assert!(found(StateDirLook::Fault("x".into()), PathLook::Missing, Vec::new()).is_err());
    assert!(found(StateDirLook::Missing, PathLook::Missing, vec![Err("x".into())]).is_err());
    let bound = existing_manifest_bound_artifact(&config, &PathLook::Found, Ok(None)).unwrap();
    assert_eq!(bound.as_deref(), Some("/tests/data/identity.toml"));
}

#[test]
fn malformed_and_oversize_identity_files_fail_closed() {
    let config = Config::defaults("/tests/data", 1);
    let malformed = IdentityLook::Found(Err(ConfigError::Parse("identity".into())));
    assert!(matches!(
        ensure_installation_identity(&config, malformed),
        Err(ConfigError::Parse(_))
    ));
    assert!(check_identity_path(&file(MAX_IDENTITY_BYTES + 1, 0o600)).is_err());
    assert!(check_identity_path(&file(10, 0o644)).is_err());
    assert!(check_identity_path(&file(10, 0o600)).is_ok());
    assert!(check_identity_size(MAX_IDENTITY_BYTES as usize + 1).is_err());
    assert!(check_identity_opened(&file(10, 0o600), &file(10, 0o600)).is_ok());
    let good = InstallationIdentity::from_config(&config);
    for (change, text) in [
        (InstallationIdentity { format_version: 2, ..good.clone() }, "version 2"),
        (InstallationIdentity { cluster_id: " ".into(), ..good.clone() }, "cluster_id is empty"),
        (InstallationIdentity { cluster_id: "x".repeat(129), ..good.clone() }, "exceeds 128"),
        (InstallationIdentity { cluster_incarnation: 0, ..good.clone() }, "incarnation"),
        (InstallationIdentity { node_id: 0, ..good.clone() }, "node_id"),
    ] {
        assert!(change.validate().unwrap_err().text().contains(text));
    }
    let mut other = good.clone();
    other.node_id = 5;
    assert!(create_installation_identity(&good, Published::Raced(Ok(good.clone()))).is_ok());
    assert!(create_installation_identity(&good, Published::Raced(Ok(other))).is_err());
    assert!(create_installation_identity(&good, Published::Fault("disk".into())).is_err());
}

#[test]
fn identity_symlink_is_rejected_without_opening_state() {
    let mut link = file(10, 0o600);
    link.is_file = false;
    link.is_symlink = true;
    assert!(check_identity_path(&link).unwrap_err().text().contains("symbolic link"));
    assert!(check_identity_opened(&file(10, 0o600), &link).is_err());
    assert!(ensure_private_dir(&Some(link), "/tests/data").is_err());
    assert!(ensure_private_dir(&None, "/tests/data").is_ok());
}

#[test]
fn logical_backup_roundtrip_keeps_kv_in_single_entry_stream() {
    let entries = vec![(b"b".to_vec(), b"2".to_vec()), (b"a".to_vec(), b"1".to_vec())];
    let contents = StoreContents {
        cluster_id: [7; 16],
        cluster_incarnation: 4,
        last_applied: LogId { term: 2, index: 9 },
        membership_log_id: LogId { term: 1, index: 1 },
        voters: vec![1, 2, 3],
        learners: vec![4],
        origins: b"{\"1\":2}".to_vec(),
        db_epoch: 3,
        catalog_epoch: 1,
        catalog: b"{}".to_vec(),
        entries,
    };
    let state = contents.state_to_back_up();
    assert_eq!((state.cluster_id, state.cluster_incarnation), ([0; 16], 1));
    assert_eq!((state.last_applied, state.membership_log_id), (LogId::zero(), LogId::zero()));
    assert!(state.voters.is_empty() && state.learners.is_empty() && state.origins.is_empty());
    assert!(state.entries.is_empty());
    assert_eq!((state.db_epoch, state.catalog_epoch, state.catalog), (3, 1, b"{}".to_vec()));
    let mut elsewhere = contents.clone();
    elsewhere.cluster_id = [8; 16];
    elsewhere.voters = vec![9];
    let other = logical_backup_from_store(elsewhere, b"{}".to_vec());
    let backup = logical_backup_from_store(contents, b"{}".to_vec());
    assert_eq!(format!("{backup:?}"), format!("{other:?}"));
    assert!(is_logical_backup(&backup));
    assert_eq!(backup.header.cluster_id, [0; 16]);
    assert_eq!(backup.header.cluster_incarnation, 1);
    assert_eq!(backup.header.last_included, LogId::zero());
    assert!(backup.header.voters.is_empty());
    assert_eq!(
        backup.entries,
        vec![(b"a".to_vec(), b"1".to_vec()), (b"b".to_vec(), b"2".to_vec())]
    );
    assert_eq!(backup.meta.get("state"), Some(&b"{}".to_vec()));
    backup.validate().unwrap();

    let config = Config::defaults("/tests/data", 1);
    let restored = restore_snapshot(&config, backup).unwrap();
    assert_eq!(restored.header.cluster_id, config.cluster_id().0);
    assert_eq!(restored.header.db_epoch, 3);
    assert!(is_logical_backup(&restored));
}

// ---------------------------------------------------------------------------

#[test]
fn default_configurations_are_valid() {
    assert!(Config::defaults("/tests/data", 1).validate(&no_tls_files()).is_ok());
    assert!(Config::defaults("/tests/data", 9).validate(&no_tls_files()).is_ok());
}

#[test]
fn every_part_of_a_configuration_is_checked() {
    let refuse = |change: &dyn Fn(&mut Config), text: &str| {
        let mut config = Config::defaults("/tests/data", 1);
        change(&mut config);
        let shown = config.validate(&no_tls_files()).unwrap_err().text();
        assert!(shown.contains(text), "{shown} does not say {text}");
    };
    refuse(&|c| c.cluster_id = "  ".into(), "cluster_id is empty");
    refuse(&|c| c.cluster_id = "x".repeat(129), "exceeds 128 bytes");
    refuse(&|c| c.cluster_incarnation = 0, "cluster_incarnation");
    refuse(&|c| c.node_id = 0, "node_id must be nonzero");
    refuse(&|c| c.data_dir = String::new(), "data_dir");
    refuse(&|c| c.initial_nodes.clear(), "at least the local node");
    refuse(&|c| c.initial_nodes[0].node_id = 0, "node_id 0");
    refuse(&|c| c.initial_nodes.push(c.initial_nodes[0].clone()), "duplicate initial node id");
    refuse(
        &|c| {
            let mut other = c.initial_nodes[0].clone();
            other.node_id = 2;
            c.initial_nodes.push(other);
        },
        "duplicate initial node endpoint",
    );
    refuse(&|c| c.initial_nodes[0].endpoint = "nowhere".into(), "is not a socket address");
    refuse(&|c| c.initial_nodes[0].endpoint = "a/b".into(), "bare socket address");
    refuse(&|c| c.initial_nodes[0].endpoint = "127.0.0.1:0".into(), "port must be nonzero");
    refuse(&|c| c.initial_nodes[0].voter = false, "1, 3, or 5 voters");
    refuse(&|c| c.node_id = 4, "must be present in initial_nodes");
    refuse(&|c| c.raft.listen = "x".into(), "raft.listen is not a socket address");
    refuse(&|c| c.raft.listen = "0.0.0.0:0".into(), "raft.listen port");
    refuse(&|c| c.postgres.max_connections = 0, "between 1 and 1024");
    refuse(&|c| c.postgres.max_connections = 33, "must equal");
    refuse(&|c| c.postgres.listen = Some("0.0.0.0:5432".into()), "non-loopback");
    refuse(&|c| c.postgres.listen = Some("x".into()), "postgres.listen is not");
    refuse(&|c| c.postgres.listen = Some("127.0.0.1:0".into()), "postgres.listen port");
    refuse(&|c| c.postgres.remote_listen = Some("x".into()), "remote_listen is not");
    refuse(&|c| c.postgres.remote_listen = Some("1.2.3.4:5".into()), "unsupported until TLS");
    refuse(&|c| c.postgres.auth_file = Some("f".into()), "authentication configuration");
    refuse(&|c| c.postgres.unix_socket_dir = Some(String::new()), "unix_socket_dir is empty");
    refuse(&|c| c.postgres.unix_socket_dir = Some("x".repeat(91)), "too long");
    refuse(&|c| c.raft.heartbeat_ms = 0, "timing");
    refuse(&|c| c.raft.rpc_queue_capacity = 4097, "queue limits");
    refuse(&|c| c.limits.query_workers = 0, "resource limits");
    refuse(&|c| c.storage.low_space_watermark_percent = 100, "disk limits");
    refuse(&|c| c.storage.state_apply_durability = "later".into(), "use immediate");
    refuse(&|c| c.tls.ca = Some("x".into()), "configured together");
    refuse(
        &|c| {
            c.tls.ca = Some("a".into());
            c.tls.certificate = Some("b".into());
            c.tls.private_key = Some("c".into());
        },
        "tls.ca is missing",
    );
    let signature = || BootstrapManifestSignature {
        format_version: 1,
        algorithm: "ed25519".into(),
        generation: 1,
        key_id: "00".repeat(32),
        ca_sha256: "00".repeat(32),
        signature: "00".repeat(64),
    };
    refuse(
        &|c| c.bootstrap_manifest = Some(BootstrapManifestSignature { format_version: 2, ..signature() }),
        "format version 2",
    );
    refuse(
        &|c| c.bootstrap_manifest = Some(BootstrapManifestSignature { algorithm: "rsa".into(), ..signature() }),
        "algorithm",
    );
    refuse(
        &|c| c.bootstrap_manifest = Some(BootstrapManifestSignature { generation: 0, ..signature() }),
        "generation",
    );
    refuse(
        &|c| c.bootstrap_manifest = Some(BootstrapManifestSignature { key_id: "0G".repeat(32), ..signature() }),
        "exactly 64 lower-case",
    );
}

#[test]
fn addresses_are_read_in_every_notation() {
    let read = |text: &str| SocketAddress::parse(text);
    let four = read("127.0.0.1:80").unwrap();
    assert_eq!(four.ip, vec![127, 0, 0, 1]);
    assert_eq!(four.port, 80);
    assert!(four.is_loopback() && !four.is_unspecified() && four.is_v4());
    assert!(read("0.0.0.0:1").unwrap().is_unspecified());
    let six = read("[::1]:5432").unwrap();
    assert!(six.is_loopback() && !six.is_v4());
    assert!(read("[::]:1").unwrap().is_unspecified());
    let scoped = read("[fe80::1%3]:9").unwrap();
    assert_eq!(scoped.scope, 3);
    assert_eq!(scoped.ip[..2], [0xfe, 0x80]);
    let mapped = read("[::ffff:1.2.3.4]:9").unwrap();
    assert_eq!(mapped.ip[10..], [255, 255, 1, 2, 3, 4]);
    let full = read("[1:2:3:4:5:6:7:8]:9").unwrap();
    assert_eq!(full.ip[14..], [0, 8]);
    assert_eq!(read("1.2.3.4:00080").unwrap().port, 80);
    for text in [
        "", "1.2.3.4", "1.2.3:4", "1.2.3.4.5:6", "256.1.1.1:1", "01.2.3.4:5", "1.2.3.4:65536",
        "1.2.3.4:+1", "[::1]", "[::1", "::1:80", "[1::2::3]:4", "[1:2:3:4:5:6:7:8:9]:1",
        "[1:2:3:4:5:6:7::8]:1x", "[12345::]:1", "[1:2:3:4:5:6:7:8::]:1", "[1.2.3.4::]:1",
        "[::1%]:1", "[::1%x]:1", " 1.2.3.4:5",
    ] {
        assert!(read(text).is_none(), "{text} is no address");
    }
    assert!(read("[1:2:3:4:5:6:7::]:1").is_some());
    let (address, https) = parse_initial_endpoint("https://127.0.0.1:7001").unwrap();
    assert!(https && address.port == 7001);
    let error = parse_initial_endpoint("a\"b").unwrap_err();
    assert!(error.text().contains("\"a\\\"b\""));
}

#[test]
fn names_and_digests_are_checked() {
    assert!(validate_dns_name("node-1.chorus.test").is_ok());
    for name in ["", "a..b", "-a", "a-", "a_b", "é", &"a".repeat(64), &"a.".repeat(130)] {
        assert!(validate_dns_name(name).is_err(), "{name}");
    }
    assert_eq!(decode_sha256(&"Ff".repeat(32)).unwrap(), [255; 32]);
    assert!(decode_sha256("00").is_err());
    assert_eq!(decode_lower_hex("00ff", 2, "x").unwrap(), vec![0, 255]);
    assert!(decode_lower_hex("00FF", 2, "x").is_err());
    assert_eq!(encode_lower_hex(&[0, 255]), "00ff");
}

#[test]
fn trust_sets_are_sorted_and_have_no_repetition() {
    let a = canonical_trust_set(vec![vec![2], vec![1, 1]]).unwrap();
    let b = canonical_trust_set(vec![vec![1, 1], vec![2]]).unwrap();
    assert_eq!(a, b);
    assert_eq!(a, b"chorus/ca-trust-set/v1\0\0\x02\0\0\0\x02\x01\x01\0\0\0\x01\x02");
    assert!(canonical_trust_set(vec![vec![1], vec![1]]).is_err());
    assert!(canonical_trust_set(Vec::new()).is_err());
    assert!(canonical_trust_set(vec![vec![1]; 65]).is_err());
    let pem = valid_ca_pem();
    assert_eq!(
        canonical_ca_trust_digest(pem.as_bytes()).unwrap(),
        canonical_ca_trust_digest(format!("# note\n{pem}").as_bytes()).unwrap()
    );
    assert!(canonical_ca_trust_digest(b"no certificate").is_err());
    assert!(canonical_ca_trust_digest(b"-----BEGIN CERTIFICATE-----\n!\n-----END CERTIFICATE-----\n").is_err());
    assert_eq!(sha256(b"abc")[..4], [0xba, 0x78, 0x16, 0xbf]);
}

#[test]
fn manifest_fields_are_bounded() {
    let mut out = Vec::new();
    put_manifest_bytes(&mut out, b"ab").unwrap();
    assert_eq!(out, vec![0, 2, b'a', b'b']);
    assert!(put_manifest_bytes(&mut out, &vec![0; 65_536]).is_err());
    assert!(put_manifest_bytes(&mut out, &vec![0; 65_535]).is_err());
    assert_eq!(out.len(), 4);
}

#[test]
fn section_defaults_fill_gaps_only() {
    let mut table = NameMap::new();
    table.insert("a".to_string(), 1);
    merge_toml_table(&mut table, vec![("a".to_string(), 5), ("b".to_string(), 6)]);
    assert_eq!(table.get("a"), Some(&1));
    assert_eq!(table.get("b"), Some(&6));
    assert_eq!(table.len(), 2);
}

#[test]
fn reports_say_what_a_node_knows() {
    let config = Config::defaults("/tests/data", 7);
    let store = StoreStatus { healthy: true, db_epoch: 2, catalog_epoch: 1 };
    let identity =
        Some(StoreIdentity { cluster_id: config.cluster_id().0, cluster_incarnation: 1 });
    let consensus = |leader, commit| {
        Some(ConsensusStatus {
            node_id: 7,
            leader_id: leader,
            term: 3,
            commit_index: commit,
            applied_index: 9,
            quorum: true,
            voters: vec![7],
            learners: vec![],
        })
    };
    let report = status(&config, store, identity, consensus(Some(7), 9), Some(10));
    assert!(report.local_ready && report.strict_ready && report.disk_write_admission);
    assert_eq!(report.role, "leader");
    assert!(report.warnings.is_empty());
    assert!(check_report(&report).is_ok());
    let text = render_metrics(&report);
    assert!(text.contains("chorus_state_file_bytes 10\n"));
    assert!(text.contains("chorus_consensus_term 3\n"));
    assert!(text.starts_with("# HELP chorus_storage_healthy Whether the local state store is healthy\n# TYPE chorus_storage_healthy gauge\nchorus_storage_healthy 1\n"));

    let behind = status(&config, store, identity, consensus(Some(1), 12), None);
    assert_eq!(behind.replication_lag, 3);
    assert_eq!(behind.role, "follower");
    assert!(!behind.strict_ready);
    let foreign = status(&config, store, None, None, Some(u64::MAX));
    assert!(!foreign.disk_write_admission && !foreign.identity_ok);
    assert_eq!(foreign.warnings.len(), 3);
    assert!(check_report(&foreign).unwrap_err().starts_with("local check failed: persisted"));
    assert!(check_report(&foreign).unwrap_err().contains("; data-directory"));
}

// ---------------------------------------------------------------------------

#[test]
fn openraft_mode_rejects_multi_node_without_authenticated_transport() {
    let mut cfg = Config::defaults("unused", 1);
    cfg.initial_nodes.push(InitialNode {
        node_id: 2,
        endpoint: "127.0.0.1:7002".into(),
        voter: true,
        tls_dns_name: None,
        tls_leaf_sha256: None,
    });
    let error = validate_openraft_single_node(&cfg).unwrap_err();
    assert!(error.contains("authenticated Tonic/Rustls transport"));

    cfg.initial_nodes.truncate(1);
    cfg.initial_nodes[0].voter = false;
    let error = validate_openraft_single_node(&cfg).unwrap_err();
    assert!(error.contains("sole configured member"));
}

struct Leaf {
    pem: Vec<u8>,
    key: Vec<u8>,
    fingerprint: [u8; 32],
}

fn test_leaf(name: &str) -> Leaf {
    let params = CertificateParams::new(vec![name.to_owned()]).unwrap();
    let key = RcgenKeyPair::generate().unwrap();
    let certificate = params.self_signed(&key).unwrap();
    Leaf {
        pem: certificate.pem().into_bytes(),
        key: key.serialize_pem().into_bytes(),
        fingerprint: leaf_fingerprint(certificate.der().as_ref()),
    }
}

fn leaf_config(leaves: &[Leaf]) -> Config {
    let mut config = authenticated_config();
    for (node, leaf) in config.initial_nodes.iter_mut().zip(leaves) {
        node.tls_leaf_sha256 = Some(encode_lower_hex(&leaf.fingerprint));
    }
    config
}

#[test]
fn openraft_mtls_identity_binds_local_leaf_and_peer_manifest_before_runtime() {
    let leaves: Vec<_> =
        (1..=3).map(|id| test_leaf(&format!("node-{id}.chorus.test"))).collect();
    let config = leaf_config(&leaves);
    let ca = valid_ca_pem().into_bytes();
    let make = |config: &Config| {
        openraft_transport_identity(
            config,
            &tls_files(),
            Ok(ca.clone()),
            Ok(leaves[0].pem.clone()),
            Ok(leaves[0].key.clone()),
        )
    };
    let identity = match make(&config) {
        Ok(identity) => identity,
        Err(error) => panic!("{error}"),
    };
    assert_eq!(config.cluster_id().0, identity.cluster_id);
    assert_eq!(1, identity.node_id);
    assert_eq!(identity.peers.len(), 2);
    assert!(identity.peers.contains(2) && identity.peers.contains(3));
    assert_eq!(identity.peers.get(2).unwrap().leaf_sha256, leaves[1].fingerprint);

    let mut wrong_leaf = config.clone();
    wrong_leaf.initial_nodes[0].tls_leaf_sha256 = Some("00".repeat(32));
    let error = match make(&wrong_leaf) {
        Ok(_) => panic!("mismatched local leaf must be rejected"),
        Err(error) => error,
    };
    assert!(error.contains("local TLS leaf"));

    let refuse = |ca: Result<Vec<Vec<u8>>, String>, leaf, key| {
        let material = config
            .transport_tls_material(&tls_files(), Ok(vec![1]), Ok(vec![2]), Ok(vec![3]))
            .unwrap();
        match bind_identity(&config, &tls_files(), material, &ca, &leaf, &key) {
            Ok(_) => panic!("must be refused"),
            Err(error) => error,
        }
    };
    let one = || -> Result<Vec<Vec<u8>>, String> { Ok(vec![vec![1]]) };
    assert!(refuse(Ok(vec![]), one(), Ok(true)).contains("tls.ca contains no"));
    assert!(refuse(Err("x".into()), one(), Ok(true)).contains("could not parse tls.ca: x"));
    assert!(refuse(one(), Ok(vec![]), Ok(true)).contains("no leaf certificate"));
    assert!(refuse(one(), Err("x".into()), Ok(true)).contains("parse tls.certificate"));
    assert!(refuse(one(), one(), Ok(false)).contains("no private key"));
    assert!(refuse(one(), one(), Err("x".into())).contains("parse tls.private_key"));
    let missing_key = openraft_transport_identity(
        &config,
        &tls_files(),
        Ok(ca.clone()),
        Ok(leaves[0].pem.clone()),
        Ok(leaves[0].pem.clone()),
    );
    assert!(missing_key.err().unwrap().contains("no private key"));
}

#[test]
fn openraft_mtls_requires_external_manifest_key_before_state_access() {
    let error = load_command_config(&args(&["run", "--openraft-mtls"]), true).unwrap_err();
    assert!(error.contains("--manifest-key"));
    let source =
        load_command_config(&args(&["run", "--manifest-key", "/tests/key"]), true).unwrap();
    assert!(matches!(source, ConfigSource::Signed { trust_key } if trust_key == "/tests/key"));
    assert!(matches!(
        load_command_config(&args(&["status"]), false),
        Ok(ConfigSource::Plain)
    ));
}

#[test]
fn maintenance_command_cannot_downgrade_signed_config_without_manifest_key() {
    let mut config = authenticated_config();
    config.bootstrap_manifest = Some(BootstrapManifestSignature {
        format_version: 1,
        algorithm: "ed25519".into(),
        generation: 1,
        key_id: "00".repeat(32),
        ca_sha256: "00".repeat(32),
        signature: "00".repeat(64),
    });
    config.validate(&tls_files()).unwrap();
    assert!(matches!(
        load_command_config(&args(&["status"]), false),
        Ok(ConfigSource::Plain)
    ));
    let error = ensure_ordinary_config_is_unbound(&config, &PathLook::Missing).unwrap_err();
    assert!(error.text().contains("load_openraft_signed"));
}

#[test]
fn openraft_run_refuses_legacy_bootstrap_before_creating_redb_files() {
    let unused = LegacyState {
        last_applied: LogId::zero(),
        membership: LogId::zero(),
        db_epoch: 0,
        catalog_epoch: 0,
        catalog_is_empty: true,
        entries: 0,
        origins: 0,
    };
    ensure_openraft_legacy_state_empty(&unused).unwrap();
    let first = LogId { term: 1, index: 1 };
    let used = LegacyState { last_applied: first, membership: first, ..unused };
    let error = ensure_openraft_legacy_state_empty(&used).unwrap_err();
    assert!(error.contains("refuses nonempty legacy state"));
    let config = Config::defaults("/tests/data", 1);
    let (raft, state) = openraft_paths(&config);
    assert_eq!(raft, "/tests/data/raft.redb");
    assert_eq!(state, "/tests/data/state/active.redb");
}

#[test]
fn command_lines_are_read() {
    let line = args(&["bootstrap", "--config", "a.toml", "--confirm"]);
    assert_eq!(dispatch(&line).unwrap(), Command::Bootstrap);
    assert_eq!(dispatch(&[]).unwrap(), Command::Run);
    assert_eq!(dispatch(&args(&["--help"])).unwrap(), Command::Help);
    assert_eq!(dispatch(&args(&["fly"])).unwrap_err(), "unknown command fly; use --help");
    assert_eq!(config_path(&line), "a.toml");
    assert_eq!(config_path(&[]), "chorus.toml");
    assert_eq!(arg_value(&line, "--confirm"), None);
    assert!(has_flag(&line, "--confirm") && !has_flag(&line, "--offline"));
    assert!(help_text().contains("chorus restore --input PATH"));
    let config = Config::defaults("/tests/data", 1);
    assert!(require_cluster_confirmation(&line, &config).is_err());
    assert!(require_cluster_confirmation(&args(&["--cluster-id", "x"]), &config).is_err());
    assert!(
        require_cluster_confirmation(&args(&["--cluster-id", "chorus-local"]), &config).is_ok()
    );
}

#[test]
fn bootstraps_are_planned() {
    let plan = |words: &[&str], exists| plan_bootstrap(&args(words), "c.toml", exists);
    assert!(plan(&["bootstrap", "--openraft-mtls"], true).unwrap_err().contains("--confirm"));
    assert!(plan(&["bootstrap", "--openraft-mtls", "--confirm"], false)
        .unwrap_err()
        .contains("operator-provisioned"));
    assert!(matches!(
        plan(&["bootstrap", "--openraft-mtls", "--confirm"], true),
        Ok(BootstrapPlan::Authenticated)
    ));
    assert!(plan(&["bootstrap"], true).unwrap_err().contains("existing c.toml"));
    assert!(plan(&["bootstrap", "--node-id", "x"], false).is_err());
    match plan(&["bootstrap", "--node-id", "5", "--openraft-single-node"], false).unwrap() {
        BootstrapPlan::Fresh { node_id, data_dir, openraft } => {
            assert_eq!((node_id, data_dir.as_str(), openraft), (5, "./chorus-data", true));
        }
        BootstrapPlan::Authenticated => panic!("not authenticated"),
    }
    let mut config = authenticated_config();
    assert!(check_bootstrap_node(&config).is_ok());
    assert!(check_static_voters(&config).is_ok());
    config.node_id = 2;
    assert!(check_bootstrap_node(&config).unwrap_err().contains("lowest"));
    config.initial_nodes[1].voter = false;
    assert!(check_static_voters(&config).is_err());
    assert_eq!(configured_members(&config), (vec![1, 3], vec![2]));
    for node in &mut config.initial_nodes {
        node.voter = false;
    }
    assert!(check_bootstrap_node(&config).unwrap_err().contains("voter set is empty"));
    assert!(check_empty_state(LogId::zero(), 0, 0).is_ok());
    assert!(check_empty_state(LogId::zero(), 1, 0).is_err());
    assert!(check_bootstrapped(LogId::zero()).is_err());
    assert!(check_bootstrapped(LogId { term: 1, index: 1 }).is_ok());
}

#[test]
fn nodes_serve_in_the_mode_that_is_asked_for() {
    let alone = Config::defaults("/tests/data", 1);
    let plan = |config: &Config, words: &[&str]| plan_run(&args(words), config);
    assert_eq!(plan(&alone, &["run"]).unwrap(), ServingMode::Standalone);
    assert_eq!(
        plan(&alone, &["run", "--openraft-single-node"]).unwrap(),
        ServingMode::OpenRaftSingleNode
    );
    assert!(plan(&alone, &["run", "--openraft-single-node", "--openraft-mtls"])
        .unwrap_err()
        .contains("only one"));
    let many = authenticated_config();
    assert!(plan(&many, &["run"]).unwrap_err().contains("plaintext"));
    assert_eq!(plan(&many, &["run", "--allow-insecure-dev"]).unwrap(), ServingMode::Network);
    assert_eq!(
        plan(&many, &["run", "--openraft-mtls"]).unwrap(),
        ServingMode::OpenRaftAuthenticated
    );
    assert_eq!(socket_path(&alone).as_deref(), Some("/run/chorus/.s.PGSQL.5432"));
    assert!(missing_config("c").contains("configuration c does not exist"));
    assert!(validate_redb_target(&TargetLook::Missing, "raft.redb").is_ok());
    assert!(validate_redb_target(&TargetLook::Found(file(1, 0o600)), "raft.redb").is_ok());
    let mut link = file(1, 0o600);
    link.is_symlink = true;
    assert!(validate_redb_target(&TargetLook::Found(link), "raft.redb").is_err());
    assert_eq!(
        validate_redb_target(&TargetLook::Fault("x".into()), "raft.redb").unwrap_err(),
        "could not inspect raft.redb path: x"
    );
}

#[test]
fn snapshots_and_restores_are_planned() {
    let config = Config::defaults("/tests/data", 1);
    assert_eq!(
        snapshot_command(&args(&["snapshot", "export"])).unwrap(),
        SnapshotCommand::Create
    );
    assert_eq!(
        snapshot_command(&args(&["snapshot", "inspect"])).unwrap(),
        SnapshotCommand::Inspect
    );
    assert!(snapshot_command(&args(&["snapshot"])).is_err());
    assert!(plan_backup(&args(&["--offline"]), &config, false).is_err());
    assert!(plan_backup(&args(&[]), &config, true).is_err());
    assert_eq!(
        plan_backup(&args(&["--offline"]), &config, true).unwrap(),
        "/tests/data/snapshot.chorus"
    );
    assert!(inspected_file(&args(&[])).is_err());
    assert!(check_output_path("", false).is_err() && check_output_path("x", true).is_err());
    assert!(snapshot_file_within_limit(Ok(MAX_SNAPSHOT_BYTES)).is_ok());
    assert!(snapshot_file_within_limit(Ok(MAX_SNAPSHOT_BYTES + 1)).is_err());
    assert!(snapshot_file_within_limit(Err("x".into())).is_err());
    assert!(plan_restore(&args(&["--confirm", "--input", "f"])).is_err());
    assert!(plan_restore(&args(&["--confirm", "--force-new-cluster"])).is_err());
    assert_eq!(
        plan_restore(&args(&["--confirm", "--force-new-cluster", "--input", "f"])).unwrap(),
        "f"
    );
    let recovery = |cluster_id, incarnation| {
        LogicalSnapshot::new(
            cluster_id,
            incarnation,
            LogId::zero(),
            LogId::zero(),
            Vec::new(),
            Vec::new(),
            0,
            0,
            NameMap::new(),
            Vec::new(),
        )
    };
    let mut target = config.clone();
    target.cluster_incarnation = 3;
    let own = target.cluster_id().0;
    assert!(restore_snapshot(&target, recovery([1; 16], 1)).unwrap_err().contains("cluster_id"));
    assert!(restore_snapshot(&target, recovery(own, 3)).unwrap_err().contains("greater"));
    assert_eq!(restore_snapshot(&target, recovery(own, 2)).unwrap(), recovery(own, 2));
    assert!(check_restore_target(&target, &[0; 16]).is_ok());
    assert!(check_restore_target(&target, &own).is_ok());
    assert!(check_restore_target(&target, &[1; 16]).is_err());
    assert_eq!(next_term_position(LogId::zero()), LogId { term: 1, index: 1 });
    assert_eq!(
        next_term_position(LogId { term: u64::MAX, index: u64::MAX }),
        LogId { term: u64::MAX, index: u64::MAX }
    );
}

#[test]
fn members_are_edited_offline() {
    let config = Config::defaults("/tests/data", 1);
    assert_eq!(member_command(&args(&["member"])).unwrap(), MemberCommand::List);
    assert_eq!(member_command(&args(&["member", "promote"])).unwrap(), MemberCommand::Promote);
    assert!(member_command(&args(&["member", "x"])).is_err());
    let line = |rest: &[&str]| {
        let mut words = vec!["member", "promote"];
        words.extend_from_slice(rest);
        edited_node(&args(&words), &config)
    };
    assert!(line(&[]).is_err());
    let confirmed = ["--confirm", "--offline", "--cluster-id", "chorus-local", "--node-id"];
    assert!(line(&confirmed[..4]).unwrap_err().contains("requires --node-id"));
    assert!(line(&[&confirmed[..], &["x"]].concat()).unwrap_err().contains("invalid"));
    assert!(line(&[&confirmed[..], &["0"]].concat()).unwrap_err().contains("nonzero"));
    assert_eq!(line(&[&confirmed[..], &["4"]].concat()).unwrap(), 4);
    let edit = |command, id| edit_membership(command, id, 1, &[3, 1, 2], &[5, 4]);
    assert_eq!(edit(MemberCommand::AddLearner, 6).unwrap(), (vec![1, 2, 3], vec![4, 5, 6]));
    assert!(edit(MemberCommand::Promote, 4).unwrap_err().contains("invalid voter set"));
    assert!(edit(MemberCommand::Demote, 3).is_err());
    assert!(edit(MemberCommand::Remove, 1).unwrap_err().contains("local node"));
    assert_eq!(edit(MemberCommand::Remove, 4).unwrap(), (vec![1, 2, 3], vec![5]));
    let overlapping = edit_membership(MemberCommand::Remove, 9, 1, &[1, 2, 3], &[3]);
    assert!(overlapping.unwrap_err().contains("overlap"));
}

#[test]
fn nodes_come_to_serve_in_steps() {
    let alone = run_steps(ServingMode::OpenRaftSingleNode);
    assert_eq!(alone[0], RunStep::OpenStore);
    assert_eq!(alone[1], RunStep::CheckLegacyState);
    assert_eq!(alone[5], RunStep::Activate);
    assert_eq!(run_steps(ServingMode::OpenRaftAuthenticated).len(), 8);
    assert_eq!(
        run_steps(ServingMode::Standalone),
        [
            RunStep::OpenStore,
            RunStep::CheckBootstrapped,
            RunStep::OpenConsensus,
            RunStep::Activate,
        ]
    );
    let fault = || Some("no leader".to_string());
    assert_eq!(
        settle_activation(ServingMode::OpenRaftAuthenticated, fault()),
        Ok(Activation::Pending)
    );
    assert_eq!(settle_activation(ServingMode::Network, fault()), Err("no leader".to_string()));
    assert_eq!(settle_activation(ServingMode::Network, None), Ok(Activation::Active));
}

#[test]
fn runtime_is_given_what_is_configured() {
    let mut config = Config::defaults("/tmp/node", 1);
    let options = runtime_options(&config).unwrap();
    assert_eq!(options.listen_port, 7001);
    assert_eq!(options.heartbeat_ms, 250);
    assert!(chorus::runtime::authenticated_config(&options).is_ok());
    let endpoints = node_endpoints(&config);
    assert_eq!(endpoints.get(1), Some(&config.initial_nodes[0].endpoint));
    assert_eq!(endpoints.get(2), None);
    config.raft.listen = "nowhere".to_string();
    assert_eq!(runtime_options(&config).unwrap_err(), "raft.listen is not a socket address");
}

#[test]
fn stores_are_opened_step_by_step() {
    let config = Config::defaults("/tests/data", 1);
    let cluster_id = config.cluster_id().0;
    let opened = |cluster_incarnation| OpeningEvent::Opened { cluster_id, cluster_incarnation };
    let (mut opening, action) = open_store(&config, &no_tls_files()).unwrap();
    assert!(matches!(action, OpeningAction::LookForBinding));
    let action = opening.step(&config, OpeningEvent::Binding(BindingLook::Missing(Ok(None))));
    assert!(matches!(action, OpeningAction::MakePrivate));
    let action = opening.step(&config, OpeningEvent::Done);
    assert!(matches!(action, OpeningAction::LookForIdentity));
    let action = opening.step(&config, OpeningEvent::Identity(IdentityLook::Missing(Ok(None))));
    match action {
        OpeningAction::WriteIdentity(identity) => {
            assert_eq!(identity, InstallationIdentity::from_config(&config));
        }
        other => panic!("unexpected {other:?}"),
    }
    let action = opening.step(&config, OpeningEvent::IdentityWritten(Published::Linked));
    assert!(matches!(action, OpeningAction::LookAtState));
    let action = opening.step(&config, OpeningEvent::StatePath { is_symlink: false });
    assert!(matches!(action, OpeningAction::OpenStore));
    assert!(matches!(opening.step(&config, opened(1)), OpeningAction::Harden));
    assert!(matches!(opening.step(&config, OpeningEvent::Done), OpeningAction::Done));
}

#[test]
fn stores_of_others_are_not_opened() {
    let config = Config::defaults("/tests/data", 1);
    let cluster_id = config.cluster_id().0;
    let own = InstallationIdentity::from_config(&config);
    let walk = |events: Vec<OpeningEvent>| {
        let (mut opening, _) = open_store(&config, &no_tls_files()).unwrap();
        let mut text = String::new();
        for event in events {
            if let OpeningAction::Fail(error) = opening.step(&config, event) {
                text = error.text();
                break;
            }
        }
        text
    };
    let unbound = || OpeningEvent::Binding(BindingLook::Missing(Ok(None)));
    let mine = || OpeningEvent::Identity(IdentityLook::Found(Ok(own.clone())));
    assert!(walk(vec![OpeningEvent::Binding(BindingLook::Fault("x".into()))]).contains("x"));
    let orphan = OpeningEvent::Identity(IdentityLook::Missing(Ok(Some("/tests/data/state".into()))));
    assert!(walk(vec![unbound(), OpeningEvent::Done, orphan]).contains("identity is missing"));
    let link = OpeningEvent::StatePath { is_symlink: true };
    assert!(walk(vec![unbound(), OpeningEvent::Done, mine(), link]).contains("symbolic link"));
    let path = || OpeningEvent::StatePath { is_symlink: false };
    let foreign = OpeningEvent::Opened { cluster_id: [1; 16], cluster_incarnation: 1 };
    assert!(walk(vec![unbound(), OpeningEvent::Done, mine(), path(), foreign])
        .contains("persisted cluster_id does not match"));
    let later = OpeningEvent::Opened { cluster_id, cluster_incarnation: 2 };
    assert!(walk(vec![unbound(), OpeningEvent::Done, mine(), path(), later])
        .contains("cluster_incarnation"));
}

#[test]
fn verified_configurations_bind_their_manifest_when_opened() {
    let (config, ca, trust_key, _) = signed_config(21);
    let loaded = load(&config, &trust_key, &ca).unwrap();
    let (mut opening, action) = open_store(&loaded, &tls_files()).unwrap();
    assert!(matches!(action, OpeningAction::MakePrivate));
    opening.step(&loaded, OpeningEvent::Done);
    let action = opening.step(&loaded, OpeningEvent::Binding(BindingLook::Missing(Ok(None))));
    let binding = match action {
        OpeningAction::WriteBinding(binding) => binding,
        other => panic!("unexpected {other:?}"),
    };
    assert_eq!(binding, ManifestBinding::of(&loaded, loaded.capability.verified().unwrap()));
    let action = opening.step(&loaded, OpeningEvent::BindingWritten(Published::Raced(Ok(binding))));
    assert!(matches!(action, OpeningAction::MakePrivate));
}
