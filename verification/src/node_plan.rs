//! What the commands of a node decide before and between the steps that touch
//! files and stores.

use crate::config::{Config, InitialNode};
use crate::files::{join_path, path_join, FileFacts};
use crate::ids::{cluster_name_bytes, sha_of, LogId};
use crate::members::{copy_ids, has_id, ids_overlap, overlap, sorted_unique, sorts};
use crate::node_args::{
    arg_value, confirmation_fault, fault_of, has_flag, node_number, parse_node_number,
    require_cluster_confirmation, value_of, words,
};
use crate::snapshot::{
    is_logical_backup, made, marked_as_backup, HeaderView, LogicalSnapshot, SnapshotView,
};
use crate::status::{texts, NodeStatus};
use crate::text::{joined, joined3, owned, same_bytes, same_text};
use vstd::prelude::*;
use vstd::string::*;

verus! {

// ---------------------------------------------------------------------------
// Bootstrap
// ---------------------------------------------------------------------------

/// What a bootstrap command asks for.
#[derive(Clone, Debug)]
pub enum BootstrapPlan {
    /// Start the authenticated cluster of the configuration that is there.
    Authenticated,
    /// Write a configuration of this node and start it alone.
    Fresh { node_id: u64, data_dir: String, openraft: bool },
}

/// What is wrong with a bootstrap command, if anything.
pub open spec fn bootstrap_fault(args: Seq<Seq<char>>, path: Seq<char>, config_exists: bool) -> Option<
    Seq<char>,
> {
    let confirmed = args.contains("--confirm"@);
    if args.contains("--openraft-mtls"@) {
        if !confirmed {
            Some("authenticated OpenRaft bootstrap requires --confirm"@)
        } else if !config_exists {
            Some("authenticated OpenRaft bootstrap requires an operator-provisioned config"@)
        } else {
            None
        }
    } else if config_exists && !confirmed {
        Some("bootstrap refuses to overwrite existing "@ + path + "; pass --confirm"@)
    } else {
        match value_of(args, "--node-id"@) {
            Some(text) => if node_number(text) is None {
                Some("invalid --node-id"@)
            } else {
                None
            },
            None => None,
        }
    }
}

/// Plans a bootstrap.
pub fn plan_bootstrap(args: &[String], path: &str, config_exists: bool) -> (result: Result<
    BootstrapPlan,
    String,
>)
    ensures
        ({
            let all = words(args@);
            match result {
                Err(text) => bootstrap_fault(all, path@, config_exists) == Some(text@),
                Ok(BootstrapPlan::Authenticated) => bootstrap_fault(
                    all,
                    path@,
                    config_exists,
                ) is None && all.contains("--openraft-mtls"@),
                Ok(BootstrapPlan::Fresh { node_id, data_dir, openraft }) => {
                    &&& bootstrap_fault(all, path@, config_exists) is None
                    &&& !all.contains("--openraft-mtls"@)
                    &&& node_id == match value_of(all, "--node-id"@) {
                        Some(text) => node_number(text)->0,
                        None => 1,
                    }
                    &&& data_dir@ == match value_of(all, "--data-dir"@) {
                        Some(dir) => dir,
                        None => "./chorus-data"@,
                    }
                    &&& openraft == all.contains("--openraft-single-node"@)
                },
            }
        }),
{
    if has_flag(args, "--openraft-mtls") {
        if !has_flag(args, "--confirm") {
            return Err(owned("authenticated OpenRaft bootstrap requires --confirm"));
        }
        if !config_exists {
            return Err(
                owned("authenticated OpenRaft bootstrap requires an operator-provisioned config"),
            );
        }
        return Ok(BootstrapPlan::Authenticated);
    }
    if config_exists && !has_flag(args, "--confirm") {
        return Err(
            joined3("bootstrap refuses to overwrite existing ", path, "; pass --confirm"),
        );
    }
    let node_id: u64 = match arg_value(args, "--node-id") {
        Some(text) => match parse_node_number(text.as_str()) {
            Some(node_id) => node_id,
            None => {
                return Err(owned("invalid --node-id"));
            },
        },
        None => 1,
    };
    let data_dir = match arg_value(args, "--data-dir") {
        Some(dir) => dir,
        None => owned("./chorus-data"),
    };
    Ok(
        BootstrapPlan::Fresh {
            node_id,
            data_dir,
            openraft: has_flag(args, "--openraft-single-node"),
        },
    )
}

/// Checks that this node is the one that starts an authenticated cluster: the
/// voter with the smallest number.
pub fn check_bootstrap_node(config: &Config) -> (result: Result<(), String>)
    ensures
        match result {
            Ok(()) => crate::peers::first_voter(config.initial_nodes@, config.node_id),
            Err(text) => if crate::peers::no_voter(config.initial_nodes@) {
                text@ == "invalid configuration: "@ + "OpenRaft voter set is empty"@
            } else {
                !crate::peers::first_voter(config.initial_nodes@, config.node_id) && text@
                    == "only the lowest configured voter may bootstrap authenticated OpenRaft"@
            },
        },
{
    match config.openraft_bootstrap_node_id() {
        Err(e) => Err(e.text()),
        Ok(id) => {
            if config.node_id != id {
                return Err(
                    owned("only the lowest configured voter may bootstrap authenticated OpenRaft"),
                );
            }
            Ok(())
        },
    }
}

/// Checks that a store is empty before a cluster is started in it.
pub fn check_empty_state(last_applied: LogId, db_epoch: u64, entries: usize) -> (result: Result<
    (),
    String,
>)
    ensures
        fault_of(result) == if last_applied != LogId::zero() || db_epoch != 0 || entries != 0 {
            Some("bootstrap requires an empty durable state directory"@)
        } else {
            None
        },
{
    if last_applied != LogId::zero() || db_epoch != 0 || entries != 0 {
        return Err(owned("bootstrap requires an empty durable state directory"));
    }
    Ok(())
}

/// The numbers of the nodes that vote, or of those that do not, in the order in
/// which they are listed.
pub open spec fn numbers(nodes: Seq<InitialNode>, voting: bool) -> Seq<u64>
    decreases nodes.len(),
{
    if nodes.len() == 0 {
        Seq::empty()
    } else {
        let before = numbers(nodes.drop_last(), voting);
        if nodes.last().voter == voting {
            before.push(nodes.last().node_id)
        } else {
            before
        }
    }
}

/// The voters and the learners that a configuration lists.
pub fn configured_members(config: &Config) -> (members: (Vec<u64>, Vec<u64>))
    ensures
        members.0@ == numbers(config.initial_nodes@, true),
        members.1@ == numbers(config.initial_nodes@, false),
{
    let nodes = &config.initial_nodes;
    let mut voters: Vec<u64> = Vec::new();
    let mut learners: Vec<u64> = Vec::new();
    let mut i: usize = 0;
    assert(nodes@.subrange(0, 0) == Seq::<InitialNode>::empty());
    while i < nodes.len()
        invariant
            i <= nodes@.len(),
            voters@ == numbers(nodes@.subrange(0, i as int), true),
            learners@ == numbers(nodes@.subrange(0, i as int), false),
        decreases nodes@.len() - i,
    {
        assert(nodes@.subrange(0, i + 1).drop_last() == nodes@.subrange(0, i as int));
        if nodes[i].voter {
            voters.push(nodes[i].node_id);
        } else {
            learners.push(nodes[i].node_id);
        }
        i += 1;
    }
    assert(nodes@.subrange(0, i as int) == nodes@);
    (voters, learners)
}

// ---------------------------------------------------------------------------
// Check
// ---------------------------------------------------------------------------

/// Texts with semicolons between them.
pub open spec fn listed_texts(list: Seq<Seq<char>>) -> Seq<char>
    decreases list.len(),
{
    if list.len() == 0 {
        Seq::empty()
    } else if list.len() == 1 {
        list[0]
    } else {
        listed_texts(list.drop_last()) + "; "@ + list.last()
    }
}

/// Checks a node's own report.
pub fn check_report(status: &NodeStatus) -> (result: Result<(), String>)
    ensures
        fault_of(result) == if !status.local_ready || !status.identity_ok {
            Some("local check failed: "@ + listed_texts(texts(status.warnings@)))
        } else {
            None
        },
{
    if status.local_ready && status.identity_ok {
        return Ok(());
    }
    let ghost all = texts(status.warnings@);
    let mut text = owned("local check failed: ");
    let ghost start = text@;
    let mut i: usize = 0;
    assert(all.subrange(0, 0) == Seq::<Seq<char>>::empty());
    assert(start + listed_texts(all.subrange(0, 0)) =~= start);
    while i < status.warnings.len()
        invariant
            all == texts(status.warnings@),
            i <= status.warnings@.len(),
            text@ == start + listed_texts(all.subrange(0, i as int)),
        decreases status.warnings@.len() - i,
    {
        let ghost before = listed_texts(all.subrange(0, i as int));
        assert(all.subrange(0, i + 1).drop_last() == all.subrange(0, i as int));
        assert(all.subrange(0, i + 1).last() == status.warnings@[i as int]@);
        if i > 0 {
            text.append("; ");
        }
        text.append(status.warnings[i].as_str());
        i += 1;
        assert(text@ =~= start + listed_texts(all.subrange(0, i as int)));
    }
    assert(all.subrange(0, i as int) == all);
    Err(text)
}

// ---------------------------------------------------------------------------
// Run
// ---------------------------------------------------------------------------

/// How a node serves.
#[derive(Clone, Copy, Debug, PartialEq, Eq, Structural)]
pub enum ServingMode {
    OpenRaftAuthenticated,
    OpenRaftSingleNode,
    Network,
    Standalone,
}

/// Checks that a configuration is for one node alone.
pub fn validate_openraft_single_node(config: &Config) -> (result: Result<(), String>)
    ensures
        fault_of(result) == single_node_fault(*config),
{
    if config.initial_nodes.len() != 1 {
        return Err(
            owned(
                "OpenRaft multi-node serving requires the authenticated Tonic/Rustls transport; --openraft-single-node accepts exactly one configured voter",
            ),
        );
    }
    if !config.initial_nodes[0].voter || config.initial_nodes[0].node_id != config.node_id {
        return Err(
            owned(
                "--openraft-single-node requires the sole configured member to be the local voter",
            ),
        );
    }
    Ok(())
}

/// What keeps a configuration from being for one node alone, if anything.
pub open spec fn single_node_fault(config: Config) -> Option<Seq<char>> {
    let nodes = config.initial_nodes@;
    if nodes.len() != 1 {
        Some(
            "OpenRaft multi-node serving requires the authenticated Tonic/Rustls transport; --openraft-single-node accepts exactly one configured voter"@,
        )
    } else if !nodes[0].voter || nodes[0].node_id != config.node_id {
        Some(
            "--openraft-single-node requires the sole configured member to be the local voter"@,
        )
    } else {
        None
    }
}

/// What is wrong with a run command, if anything.
pub open spec fn run_fault(args: Seq<Seq<char>>, config: Config) -> Option<Seq<char>> {
    let single = args.contains("--openraft-single-node"@);
    let authenticated = args.contains("--openraft-mtls"@);
    if single && authenticated {
        Some("choose only one OpenRaft serving mode"@)
    } else if single && single_node_fault(config) is Some {
        single_node_fault(config)
    } else if config.initial_nodes@.len() > 1 && !authenticated && !config.allow_insecure_dev
        && !args.contains("--allow-insecure-dev"@) {
        Some(
            "multi-node startup requires the mTLS peer transport; current adapter is plaintext, so pass allow_insecure_dev in config or --allow-insecure-dev for an explicit development-only run"@,
        )
    } else {
        None
    }
}

/// How a run command serves.
pub open spec fn mode_of(args: Seq<Seq<char>>, config: Config) -> ServingMode {
    if args.contains("--openraft-mtls"@) {
        ServingMode::OpenRaftAuthenticated
    } else if args.contains("--openraft-single-node"@) {
        ServingMode::OpenRaftSingleNode
    } else if config.initial_nodes@.len() > 1 {
        ServingMode::Network
    } else {
        ServingMode::Standalone
    }
}

/// Decides how a node serves. Several nodes speak to each other without TLS only
/// where that is asked for.
pub fn plan_run(args: &[String], config: &Config) -> (result: Result<ServingMode, String>)
    ensures
        match result {
            Ok(mode) => run_fault(words(args@), *config) is None && mode == mode_of(
                words(args@),
                *config,
            ),
            Err(text) => run_fault(words(args@), *config) == Some(text@),
        },
{
    let single = has_flag(args, "--openraft-single-node");
    let authenticated = has_flag(args, "--openraft-mtls");
    if single && authenticated {
        return Err(owned("choose only one OpenRaft serving mode"));
    }
    if single {
        match validate_openraft_single_node(config) {
            Ok(()) => {},
            Err(text) => {
                return Err(text);
            },
        }
    }
    if config.initial_nodes.len() > 1 && !authenticated && !config.allow_insecure_dev && !has_flag(
        args,
        "--allow-insecure-dev",
    ) {
        return Err(
            owned(
                "multi-node startup requires the mTLS peer transport; current adapter is plaintext, so pass allow_insecure_dev in config or --allow-insecure-dev for an explicit development-only run",
            ),
        );
    }
    if authenticated {
        Ok(ServingMode::OpenRaftAuthenticated)
    } else if single {
        Ok(ServingMode::OpenRaftSingleNode)
    } else if config.initial_nodes.len() > 1 {
        Ok(ServingMode::Network)
    } else {
        Ok(ServingMode::Standalone)
    }
}

/// Says that a configuration is missing.
pub fn missing_config(path: &str) -> (text: String)
    ensures
        text@ == "configuration "@ + path@
            + " does not exist; run chorus bootstrap explicitly"@,
{
    joined3("configuration ", path, " does not exist; run chorus bootstrap explicitly")
}

/// Checks that a cluster was started in a store.
pub fn check_bootstrapped(membership: LogId) -> (result: Result<(), String>)
    ensures
        fault_of(result) == if membership == LogId::zero() {
            Some(
                "cluster is not bootstrapped; run chorus bootstrap (or an explicit admin bootstrap) before run"@,
            )
        } else {
            None
        },
{
    if membership == LogId::zero() {
        return Err(
            owned(
                "cluster is not bootstrapped; run chorus bootstrap (or an explicit admin bootstrap) before run",
            ),
        );
    }
    Ok(())
}

/// The path of the Unix socket, where one is configured.
pub fn socket_path(config: &Config) -> (path: Option<String>)
    ensures
        crate::error::optional_text(path) == match config.postgres.unix_socket_dir {
            Some(dir) => Some(path_join(dir@, ".s.PGSQL.5432"@)),
            None => None,
        },
{
    match &config.postgres.unix_socket_dir {
        Some(dir) => Some(join_path(dir.as_str(), ".s.PGSQL.5432")),
        None => None,
    }
}

/// Whether every node votes.
pub open spec fn all_vote(nodes: Seq<InitialNode>) -> bool {
    forall|i: int| 0 <= i < nodes.len() ==> (#[trigger] nodes[i]).voter
}

/// Checks that an authenticated cluster starts with voters alone.
pub fn check_static_voters(config: &Config) -> (result: Result<(), String>)
    ensures
        fault_of(result) == if all_vote(config.initial_nodes@) {
            None
        } else {
            Some(
                "authenticated static bootstrap currently requires every initial node to be a voter; add learners through live membership after bootstrap"@,
            )
        },
{
    let nodes = &config.initial_nodes;
    let mut i: usize = 0;
    while i < nodes.len()
        invariant
            i <= nodes@.len(),
            nodes == &config.initial_nodes,
            forall|k: int| 0 <= k < i ==> (#[trigger] nodes@[k]).voter,
        decreases nodes@.len() - i,
    {
        if !nodes[i].voter {
            assert(!nodes@[i as int].voter);
            return Err(
                owned(
                    "authenticated static bootstrap currently requires every initial node to be a voter; add learners through live membership after bootstrap",
                ),
            );
        }
        i += 1;
    }
    Ok(())
}

/// What a store holds, as far as it tells whether it was ever used.
#[derive(Clone, Copy, Debug, PartialEq, Eq, Structural)]
pub struct LegacyState {
    pub last_applied: LogId,
    pub membership: LogId,
    pub db_epoch: u64,
    pub catalog_epoch: u64,
    pub catalog_is_empty: bool,
    pub entries: usize,
    pub origins: usize,
}

impl LegacyState {
    pub open spec fn is_unused(self) -> bool {
        &&& self.last_applied == LogId::zero()
        &&& self.membership == LogId::zero()
        &&& self.db_epoch == 0
        &&& self.catalog_epoch == 0
        &&& self.catalog_is_empty
        &&& self.entries == 0
        &&& self.origins == 0
    }
}

/// Checks that a store was never used before a log database takes its place.
pub fn ensure_openraft_legacy_state_empty(state: &LegacyState) -> (result: Result<(), String>)
    ensures
        fault_of(result) == if state.is_unused() {
            None
        } else {
            Some(
                "OpenRaft mode refuses nonempty legacy state; migrate or use a fresh data directory"@,
            )
        },
{
    if state.last_applied != LogId::zero() || state.membership != LogId::zero() || state.db_epoch
        != 0 || state.catalog_epoch != 0 || !state.catalog_is_empty || state.entries != 0
        || state.origins != 0 {
        return Err(
            owned(
                "OpenRaft mode refuses nonempty legacy state; migrate or use a fresh data directory",
            ),
        );
    }
    Ok(())
}

/// The paths of the log database and of the state database.
pub fn openraft_paths(config: &Config) -> (paths: (String, String))
    ensures
        paths.0@ == path_join(config.data_dir@, "raft.redb"@),
        paths.1@ == path_join(path_join(config.data_dir@, "state"@), "active.redb"@),
{
    (
        join_path(config.data_dir.as_str(), "raft.redb"),
        join_path(join_path(config.data_dir.as_str(), "state").as_str(), "active.redb"),
    )
}

/// What looking at a database's path gave.
#[derive(Clone, Debug)]
pub enum TargetLook {
    Missing,
    Found(FileFacts),
    Fault(String),
}

/// What keeps a database from being opened at its path, if anything.
pub open spec fn target_fault(look: TargetLook, label: Seq<char>) -> Option<Seq<char>> {
    match look {
        TargetLook::Missing => None,
        TargetLook::Found(facts) => if facts.is_symlink {
            Some(label + " path must not be a symbolic link"@)
        } else if !facts.is_file {
            Some(label + " path is not a regular file"@)
        } else {
            None
        },
        TargetLook::Fault(fault) => Some("could not inspect "@ + label + " path: "@ + fault@),
    }
}

/// Checks the path of a database.
pub fn validate_redb_target(look: &TargetLook, label: &str) -> (result: Result<(), String>)
    ensures
        fault_of(result) == target_fault(*look, label@),
{
    match look {
        TargetLook::Missing => Ok(()),
        TargetLook::Found(facts) => {
            if facts.is_symlink {
                return Err(joined(label, " path must not be a symbolic link"));
            }
            if !facts.is_file {
                return Err(joined(label, " path is not a regular file"));
            }
            Ok(())
        },
        TargetLook::Fault(fault) => {
            let mut text = joined3("could not inspect ", label, " path: ");
            text.append(fault.as_str());
            Err(text)
        },
    }
}

// ---------------------------------------------------------------------------
// Snapshots
// ---------------------------------------------------------------------------

/// What a snapshot command asks for.
#[derive(Clone, Copy, Debug, PartialEq, Eq, Structural)]
pub enum SnapshotCommand {
    Create,
    Inspect,
}

/// The second word of a command line.
pub open spec fn second_word(args: Seq<Seq<char>>) -> Option<Seq<char>> {
    if args.len() > 1 {
        Some(args[1])
    } else {
        None
    }
}

fn read_second(args: &[String]) -> (word: Option<String>)
    ensures
        crate::error::optional_text(word) == second_word(words(args@)),
{
    if args.len() > 1 {
        assert(words(args@)[1] == args@[1]@);
        Some(owned(args[1].as_str()))
    } else {
        None
    }
}

/// Finds out what a snapshot command asks for.
pub fn snapshot_command(args: &[String]) -> (result: Result<SnapshotCommand, String>)
    ensures
        ({
            let word = second_word(words(args@));
            if word == Some("create"@) || word == Some("export"@) {
                result == Ok::<_, String>(SnapshotCommand::Create)
            } else if word == Some("inspect"@) {
                result == Ok::<_, String>(SnapshotCommand::Inspect)
            } else {
                result matches Err(text) && text@
                    == "usage: chorus snapshot create|export|inspect"@
            }
        }),
{
    match read_second(args) {
        Some(word) => {
            if same_text(word.as_str(), "create") || same_text(word.as_str(), "export") {
                Ok(SnapshotCommand::Create)
            } else if same_text(word.as_str(), "inspect") {
                Ok(SnapshotCommand::Inspect)
            } else {
                Err(owned("usage: chorus snapshot create|export|inspect"))
            }
        },
        None => Err(owned("usage: chorus snapshot create|export|inspect")),
    }
}

/// Decides whether a backup may be taken, and where it goes.
pub fn plan_backup(args: &[String], config: &Config, healthy: bool) -> (result: Result<
    String,
    String,
>)
    ensures
        match result {
            Err(text) => if !healthy {
                text@ == "backup refused: local state is unhealthy"@
            } else {
                !words(args@).contains("--offline"@) && text@
                    == "logical backup requires a stopped node or an admin barrier endpoint; pass --offline only when no writer can access this state directory"@
            },
            Ok(output) => healthy && words(args@).contains("--offline"@) && output@
                == match value_of(words(args@), "--output"@) {
                Some(path) => path,
                None => path_join(config.data_dir@, "snapshot.chorus"@),
            },
        },
{
    if !healthy {
        return Err(owned("backup refused: local state is unhealthy"));
    }
    if !has_flag(args, "--offline") {
        return Err(
            owned(
                "logical backup requires a stopped node or an admin barrier endpoint; pass --offline only when no writer can access this state directory",
            ),
        );
    }
    match arg_value(args, "--output") {
        Some(path) => Ok(path),
        None => Ok(join_path(config.data_dir.as_str(), "snapshot.chorus")),
    }
}

/// The file that a snapshot is read from.
pub fn inspected_file(args: &[String]) -> (result: Result<String, String>)
    ensures
        match value_of(words(args@), "--input"@) {
            Some(path) => result matches Ok(p) && p@ == path,
            None => result matches Err(text) && text@
                == "snapshot inspect requires --input PATH"@,
        },
{
    match arg_value(args, "--input") {
        Some(path) => Ok(path),
        None => Err(owned("snapshot inspect requires --input PATH")),
    }
}

/// Checks the path of a file that is to be written.
pub fn check_output_path(path: &str, is_directory: bool) -> (result: Result<(), String>)
    ensures
        fault_of(result) == if path@.len() == 0 {
            Some("output path is empty"@)
        } else if is_directory {
            Some("output path "@ + path@ + " is a directory"@)
        } else {
            None
        },
{
    if crate::text::text_chars(path).len() == 0 {
        return Err(owned("output path is empty"));
    }
    if is_directory {
        return Err(joined3("output path ", path, " is a directory"));
    }
    Ok(())
}

// ---------------------------------------------------------------------------
// Restore
// ---------------------------------------------------------------------------

/// Decides whether a restore may go ahead, and where it reads from.
pub fn plan_restore(args: &[String]) -> (result: Result<String, String>)
    ensures
        ({
            let all = words(args@);
            if !all.contains("--confirm"@) || !all.contains("--force-new-cluster"@) {
                result matches Err(text) && text@
                    == "restore is destructive; pass --confirm and --force-new-cluster after fencing every old member"@
            } else {
                match value_of(all, "--input"@) {
                    Some(path) => result matches Ok(p) && p@ == path,
                    None => result matches Err(text) && text@ == "restore requires --input PATH"@,
                }
            }
        }),
{
    if !has_flag(args, "--confirm") || !has_flag(args, "--force-new-cluster") {
        return Err(
            owned(
                "restore is destructive; pass --confirm and --force-new-cluster after fencing every old member",
            ),
        );
    }
    match arg_value(args, "--input") {
        Some(path) => Ok(path),
        None => Err(owned("restore requires --input PATH")),
    }
}

/// The identity of a configuration's cluster.
pub open spec fn cluster_of(config: Config) -> Seq<u8> {
    sha_of(cluster_name_bytes(config.cluster_id@)).subrange(0, 16)
}

/// What keeps a snapshot from being restored, if anything. A backup belongs to
/// no cluster; a recovery snapshot must be of the same cluster in an earlier
/// incarnation.
pub open spec fn restore_fault(config: Config, source: SnapshotView) -> Option<Seq<char>> {
    if marked_as_backup(source) {
        None
    } else if source.header.cluster_id != cluster_of(config) {
        Some("recovery snapshot cluster_id does not match target configuration"@)
    } else if config.cluster_incarnation <= source.header.cluster_incarnation {
        Some("restore target cluster_incarnation must be greater than the snapshot incarnation"@)
    } else {
        None
    }
}

/// The snapshot that goes into the target: a backup is bound to its cluster,
/// and a recovery snapshot is taken as it is.
pub open spec fn restored(config: Config, source: SnapshotView) -> SnapshotView {
    if marked_as_backup(source) {
        made(
            SnapshotView {
                header: HeaderView {
                    format_version: 1,
                    cluster_id: cluster_of(config),
                    cluster_incarnation: config.cluster_incarnation as nat,
                    last_included: LogId::zero(),
                    membership_log_id: LogId::zero(),
                    voters: Seq::empty(),
                    learners: Seq::empty(),
                    db_epoch: source.header.db_epoch,
                    catalog_epoch: source.header.catalog_epoch,
                    entry_count: 0,
                    uncompressed_bytes: 0,
                    digest: Seq::empty(),
                },
                meta: source.meta,
                entries: source.entries,
            },
        )
    } else {
        source
    }
}

/// Prepares a snapshot for the target that it is restored into.
pub fn restore_snapshot(config: &Config, source: LogicalSnapshot) -> (result: Result<
    LogicalSnapshot,
    String,
>)
    ensures
        match result {
            Ok(snapshot) => restore_fault(*config, source@) is None && snapshot@ == restored(
                *config,
                source@,
            ),
            Err(text) => restore_fault(*config, source@) == Some(text@),
        },
{
    let backup = is_logical_backup(&source);
    let own = config.cluster_id();
    if !backup && !same_bytes(source.header.cluster_id.as_slice(), own.0.as_slice()) {
        return Err(owned("recovery snapshot cluster_id does not match target configuration"));
    }
    if !backup && config.cluster_incarnation <= source.header.cluster_incarnation {
        return Err(
            owned(
                "restore target cluster_incarnation must be greater than the snapshot incarnation",
            ),
        );
    }
    if !backup {
        return Ok(source);
    }
    let none: Vec<u64> = Vec::new();
    let also_none: Vec<u64> = Vec::new();
    assert(none@ =~= Seq::<u64>::empty());
    assert(also_none@ =~= Seq::<u64>::empty());
    let ghost held = source@;
    Ok(
        LogicalSnapshot::new(
            own.0,
            config.cluster_incarnation,
            LogId::zero(),
            LogId::zero(),
            none,
            also_none,
            source.header.db_epoch,
            source.header.catalog_epoch,
            source.meta,
            source.entries,
        ),
    )
}

/// Checks that the target of a restore belongs to no other cluster.
pub fn check_restore_target(config: &Config, current: &[u8; 16]) -> (result: Result<(), String>)
    ensures
        fault_of(result) == if current@ != Seq::new(16, |i: int| 0u8) && current@ != cluster_of(
            *config,
        ) {
            Some("restore target state belongs to a different cluster"@)
        } else {
            None
        },
{
    assert(current@.len() == 16);
    let own = config.cluster_id();
    if !crate::transport::all_zero(current.as_slice()) && !same_bytes(
        current.as_slice(),
        own.0.as_slice(),
    ) {
        return Err(owned("restore target state belongs to a different cluster"));
    }
    Ok(())
}

/// One more, as far as the number goes.
pub open spec fn one_more(value: u64) -> u64 {
    if value == u64::MAX {
        value
    } else {
        (value + 1) as u64
    }
}

/// The log position behind another, in the next term.
pub fn next_term_position(last: LogId) -> (next: LogId)
    ensures
        next.term == one_more(last.term),
        next.index == one_more(last.index),
        next.term >= 1,
{
    LogId {
        term: if last.term == u64::MAX {
            last.term
        } else {
            last.term + 1
        },
        index: if last.index == u64::MAX {
            last.index
        } else {
            last.index + 1
        },
    }
}

// ---------------------------------------------------------------------------
// Members
// ---------------------------------------------------------------------------

/// What a member command asks for.
#[derive(Clone, Copy, Debug, PartialEq, Eq, Structural)]
pub enum MemberCommand {
    List,
    AddLearner,
    Promote,
    Demote,
    Remove,
}

/// The command that the second word names; none lists the members.
pub open spec fn member_word(word: Option<Seq<char>>) -> Option<MemberCommand> {
    match word {
        None => Some(MemberCommand::List),
        Some(w) => if w == "list"@ {
            Some(MemberCommand::List)
        } else if w == "add-learner"@ {
            Some(MemberCommand::AddLearner)
        } else if w == "promote"@ {
            Some(MemberCommand::Promote)
        } else if w == "demote"@ {
            Some(MemberCommand::Demote)
        } else if w == "remove"@ {
            Some(MemberCommand::Remove)
        } else {
            None
        },
    }
}

/// Finds out what a member command asks for.
pub fn member_command(args: &[String]) -> (result: Result<MemberCommand, String>)
    ensures
        match result {
            Ok(command) => member_word(second_word(words(args@))) == Some(command),
            Err(text) => member_word(second_word(words(args@))) is None && text@
                == "usage: chorus member list|add-learner|promote|demote|remove"@,
        },
{
    match read_second(args) {
        None => Ok(MemberCommand::List),
        Some(word) => {
            let w = word.as_str();
            if same_text(w, "list") {
                Ok(MemberCommand::List)
            } else if same_text(w, "add-learner") {
                Ok(MemberCommand::AddLearner)
            } else if same_text(w, "promote") {
                Ok(MemberCommand::Promote)
            } else if same_text(w, "demote") {
                Ok(MemberCommand::Demote)
            } else if same_text(w, "remove") {
                Ok(MemberCommand::Remove)
            } else {
                Err(owned("usage: chorus member list|add-learner|promote|demote|remove"))
            }
        },
    }
}

/// What is wrong with the arguments of a membership edit, if anything.
pub open spec fn edit_fault(args: Seq<Seq<char>>, cluster_id: Seq<char>) -> Option<Seq<char>> {
    if !args.contains("--confirm"@) || !args.contains("--offline"@) {
        Some(
            "offline membership edits require --confirm and --offline; live consensus membership changes are not implemented"@,
        )
    } else if confirmation_fault(args, cluster_id) is Some {
        confirmation_fault(args, cluster_id)
    } else {
        match value_of(args, "--node-id"@) {
            None => Some("membership operation requires --node-id N"@),
            Some(text) => match node_number(text) {
                None => Some("invalid --node-id"@),
                Some(id) => if id == 0 {
                    Some("membership node id must be nonzero"@)
                } else {
                    None
                },
            },
        }
    }
}

/// Finds the node that a membership edit is about.
pub fn edited_node(args: &[String], config: &Config) -> (result: Result<u64, String>)
    ensures
        match result {
            Ok(id) => edit_fault(words(args@), config.cluster_id@) is None && id != 0 && (value_of(
                words(args@),
                "--node-id"@,
            ) matches Some(text) && node_number(text) == Some(id)),
            Err(text) => edit_fault(words(args@), config.cluster_id@) == Some(text@),
        },
{
    if !has_flag(args, "--confirm") || !has_flag(args, "--offline") {
        return Err(
            owned(
                "offline membership edits require --confirm and --offline; live consensus membership changes are not implemented",
            ),
        );
    }
    match require_cluster_confirmation(args, config) {
        Ok(()) => {},
        Err(text) => {
            return Err(text);
        },
    }
    match arg_value(args, "--node-id") {
        None => Err(owned("membership operation requires --node-id N")),
        Some(text) => match parse_node_number(text.as_str()) {
            None => Err(owned("invalid --node-id")),
            Some(id) => {
                if id == 0 {
                    return Err(owned("membership node id must be nonzero"));
                }
                Ok(id)
            },
        },
    }
}

/// A list of numbers with one more, unless it has it.
pub open spec fn with_id(ids: Seq<u64>, id: u64) -> Seq<u64> {
    if ids.contains(id) {
        ids
    } else {
        ids.push(id)
    }
}

/// A list of numbers without one.
pub open spec fn without_id(ids: Seq<u64>, id: u64) -> Seq<u64>
    decreases ids.len(),
{
    if ids.len() == 0 {
        ids
    } else {
        let before = without_id(ids.drop_last(), id);
        if ids.last() == id {
            before
        } else {
            before.push(ids.last())
        }
    }
}

/// The voters and the learners after an edit, in the order in which they stand
/// before they are sorted.
pub open spec fn edited(command: MemberCommand, id: u64, voters: Seq<u64>, learners: Seq<u64>) -> (
    Seq<u64>,
    Seq<u64>,
) {
    match command {
        MemberCommand::List => (voters, learners),
        MemberCommand::AddLearner => if voters.contains(id) {
            (voters, learners)
        } else {
            (voters, with_id(learners, id))
        },
        MemberCommand::Promote => (with_id(voters, id), without_id(learners, id)),
        MemberCommand::Demote => (without_id(voters, id), with_id(learners, id)),
        MemberCommand::Remove => (without_id(voters, id), without_id(learners, id)),
    }
}

/// What is wrong with the members after an edit, if anything.
pub open spec fn members_fault(voters: Seq<u64>, learners: Seq<u64>) -> Option<Seq<char>> {
    if voters.len() == 0 || voters.len() > 5 || (voters.len() > 1 && voters.len() % 2 == 0) {
        Some("membership edit would leave an invalid voter set (expected 1, 3, or 5)"@)
    } else if overlap(voters, learners) {
        Some("membership edit would overlap voters and learners"@)
    } else {
        None
    }
}

fn add_id(ids: Vec<u64>, id: u64) -> (more: Vec<u64>)
    ensures
        more@ == with_id(ids@, id),
{
    let mut more = ids;
    if !has_id(more.as_slice(), id) {
        more.push(id);
    }
    more
}

fn drop_id(ids: &[u64], id: u64) -> (fewer: Vec<u64>)
    ensures
        fewer@ == without_id(ids@, id),
{
    let mut fewer: Vec<u64> = Vec::new();
    let mut i: usize = 0;
    assert(ids@.subrange(0, 0) == Seq::<u64>::empty());
    while i < ids.len()
        invariant
            i <= ids@.len(),
            fewer@ == without_id(ids@.subrange(0, i as int), id),
        decreases ids@.len() - i,
    {
        assert(ids@.subrange(0, i + 1).drop_last() == ids@.subrange(0, i as int));
        if ids[i] != id {
            fewer.push(ids[i]);
        }
        i += 1;
    }
    assert(ids@.subrange(0, i as int) == ids@);
    fewer
}

fn edit_lists(command: MemberCommand, id: u64, voters: &[u64], learners: &[u64]) -> (lists: (
    Vec<u64>,
    Vec<u64>,
))
    ensures
        (lists.0@, lists.1@) == edited(command, id, voters@, learners@),
{
    match command {
        MemberCommand::List => (copy_ids(voters), copy_ids(learners)),
        MemberCommand::AddLearner => {
            if has_id(voters, id) {
                (copy_ids(voters), copy_ids(learners))
            } else {
                (copy_ids(voters), add_id(copy_ids(learners), id))
            }
        },
        MemberCommand::Promote => (add_id(copy_ids(voters), id), drop_id(learners, id)),
        MemberCommand::Demote => (drop_id(voters, id), add_id(copy_ids(learners), id)),
        MemberCommand::Remove => (drop_id(voters, id), drop_id(learners, id)),
    }
}

/// Whether two lists are the members after an edit: sorted, without
/// repetitions.
pub open spec fn are_members(
    lists: (Seq<u64>, Seq<u64>),
    command: MemberCommand,
    id: u64,
    voters: Seq<u64>,
    learners: Seq<u64>,
) -> bool {
    let (v, l) = edited(command, id, voters, learners);
    sorts(lists.0, v) && sorts(lists.1, l)
}

/// Works out the members after an edit. A node does not remove itself.
pub fn edit_membership(
    command: MemberCommand,
    id: u64,
    own: u64,
    voters: &[u64],
    learners: &[u64],
) -> (result: Result<(Vec<u64>, Vec<u64>), String>)
    ensures
        match result {
            Ok(lists) => {
                &&& !(command == MemberCommand::Remove && id == own)
                &&& are_members((lists.0@, lists.1@), command, id, voters@, learners@)
                &&& members_fault(lists.0@, lists.1@) is None
            },
            Err(text) => if command == MemberCommand::Remove && id == own {
                text@ == "refusing to remove the local node from its own membership"@
            } else {
                exists|lists: (Seq<u64>, Seq<u64>)| #[trigger]
                    are_members(lists, command, id, voters@, learners@) && members_fault(
                        lists.0,
                        lists.1,
                    ) == Some(text@)
            },
        },
{
    let removing = match command {
        MemberCommand::Remove => true,
        _ => false,
    };
    if removing && id == own {
        return Err(owned("refusing to remove the local node from its own membership"));
    }
    let (v, l) = edit_lists(command, id, voters, learners);
    let sorted_voters = sorted_unique(v.as_slice());
    let sorted_learners = sorted_unique(l.as_slice());
    let ghost lists = (sorted_voters@, sorted_learners@);
    assert(are_members(lists, command, id, voters@, learners@));
    let n = sorted_voters.len();
    if n == 0 || n > 5 || (n > 1 && n % 2 == 0) {
        return Err(
            owned("membership edit would leave an invalid voter set (expected 1, 3, or 5)"),
        );
    }
    if ids_overlap(sorted_voters.as_slice(), sorted_learners.as_slice()) {
        return Err(owned("membership edit would overlap voters and learners"));
    }
    Ok((sorted_voters, sorted_learners))
}

/// The members after an edit are one pair of lists, whichever way they were
/// sorted.
pub proof fn edits_have_one_outcome(
    a: (Seq<u64>, Seq<u64>),
    b: (Seq<u64>, Seq<u64>),
    command: MemberCommand,
    id: u64,
    voters: Seq<u64>,
    learners: Seq<u64>,
)
    requires
        are_members(a, command, id, voters, learners),
        are_members(b, command, id, voters, learners),
    ensures
        a == b,
{
    let (v, l) = edited(command, id, voters, learners);
    assert forall|n: u64| #[trigger] a.0.contains(n) <==> b.0.contains(n) by {
        assert(a.0.contains(n) <==> v.contains(n));
        assert(b.0.contains(n) <==> v.contains(n));
    }
    assert forall|n: u64| #[trigger] a.1.contains(n) <==> b.1.contains(n) by {
        assert(a.1.contains(n) <==> l.contains(n));
        assert(b.1.contains(n) <==> l.contains(n));
    }
    crate::members::sorted_list_is_unique(a.0, b.0);
    crate::members::sorted_list_is_unique(a.1, b.1);
}

/// Says that an edit was rejected.
pub fn edit_rejected(reason: &str) -> (text: String)
    ensures
        text@ == "membership edit rejected: "@ + reason@,
{
    joined("membership edit rejected: ", reason)
}

/// A restored backup belongs to the target's cluster and incarnation, whatever
/// it was taken from.
pub proof fn backups_are_rebound(config: Config, source: SnapshotView)
    requires
        marked_as_backup(source),
    ensures
        restore_fault(config, source) is None,
        restored(config, source).header.cluster_id == cluster_of(config),
        restored(config, source).header.cluster_incarnation == config.cluster_incarnation,
        restored(config, source).meta == source.meta,
        marked_as_backup(restored(config, source)),
{
}

/// Several nodes never serve without TLS between them unless that is asked for.
pub proof fn plaintext_is_asked_for(args: Seq<Seq<char>>, config: Config)
    requires
        run_fault(args, config) is None,
        config.initial_nodes@.len() > 1,
        mode_of(args, config) != ServingMode::OpenRaftAuthenticated,
    ensures
        config.allow_insecure_dev || args.contains("--allow-insecure-dev"@),
{
}

} // verus!
