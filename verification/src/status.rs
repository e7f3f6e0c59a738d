//! What a node reports of itself: readiness, role, lag and disk space, and the
//! same as Prometheus text.

use crate::cluster::ConsensusStatus;
use crate::config::Config;
use crate::ids::{cluster_name_bytes, sha_of};
use crate::members::has_id;
use crate::text::{digits, digits_text, owned, push_digits, same_bytes};
use vstd::prelude::*;
use vstd::string::*;

verus! {

/// What a node knows of its store.
#[derive(Clone, Copy, Debug, PartialEq, Eq, Structural)]
pub struct StoreStatus {
    pub healthy: bool,
    pub db_epoch: u64,
    pub catalog_epoch: u64,
}

/// The cluster that a store's snapshot belongs to.
#[derive(Clone, Copy, Debug)]
pub struct StoreIdentity {
    pub cluster_id: [u8; 16],
    pub cluster_incarnation: u64,
}

/// What a node reports of itself.
#[derive(Clone, Debug)]
pub struct NodeStatus {
    pub config_node_id: u64,
    pub cluster_id: String,
    pub cluster_incarnation: u64,
    pub storage: StoreStatus,
    pub consensus: Option<ConsensusStatus>,
    pub local_ready: bool,
    pub strict_ready: bool,
    pub role: String,
    pub replication_lag: u64,
    pub state_file_bytes: Option<u64>,
    pub data_dir_budget_bytes: u64,
    pub disk_write_admission: bool,
    pub identity_ok: bool,
    pub warnings: Vec<String>,
}

/// Whether a snapshot could be taken and belongs to the configured cluster.
pub open spec fn identity_holds(config: Config, identity: Option<StoreIdentity>) -> bool {
    identity matches Some(i) && i.cluster_id@ == sha_of(
        cluster_name_bytes(config.cluster_id@),
    ).subrange(0, 16) && i.cluster_incarnation == config.cluster_incarnation
}

/// Whether consensus can confirm a strict read: there are a leader and a
/// quorum, and everything committed is applied.
pub open spec fn barrier_holds(consensus: Option<ConsensusStatus>) -> bool {
    consensus matches Some(c) && c.quorum && c.leader_id is Some && c.commit_index
        <= c.applied_index
}

/// The part that a node plays in consensus.
pub open spec fn role_of(node_id: u64, consensus: Option<ConsensusStatus>) -> Seq<char> {
    match consensus {
        None => "unknown"@,
        Some(c) => if c.leader_id == Some(node_id) {
            "leader"@
        } else if c.learners@.contains(node_id) {
            "learner"@
        } else {
            "follower"@
        },
    }
}

/// How many committed entries are not yet applied.
pub open spec fn lag_of(consensus: Option<ConsensusStatus>) -> u64 {
    match consensus {
        None => 0,
        Some(c) => if c.commit_index > c.applied_index {
            (c.commit_index - c.applied_index) as u64
        } else {
            0
        },
    }
}

/// The smaller of a number and the largest 64-bit one.
pub open spec fn saturated(value: int) -> int {
    if value > u64::MAX {
        u64::MAX as int
    } else {
        value
    }
}

/// The space that is kept free.
pub open spec fn reserve(config: Config) -> int {
    let share = saturated(
        config.storage.data_dir_budget_bytes * config.storage.low_space_watermark_percent,
    ) / 100;
    if config.storage.low_space_watermark_bytes > share {
        config.storage.low_space_watermark_bytes as int
    } else {
        share
    }
}

/// Whether the state file leaves the space that is to be kept free.
pub open spec fn admits_writes(config: Config, state_file_bytes: Option<u64>) -> bool {
    match state_file_bytes {
        None => true,
        Some(size) => saturated(size + reserve(config)) <= config.storage.data_dir_budget_bytes,
    }
}

/// The texts of a list.
pub open spec fn texts(list: Seq<String>) -> Seq<Seq<char>> {
    list.map_values(|text: String| text@)
}

/// What an operator is warned of.
pub open spec fn warnings_of(
    identity_ok: bool,
    has_consensus: bool,
    strict_ready: bool,
    disk_write_admission: bool,
) -> Seq<Seq<char>> {
    let identity: Seq<Seq<char>> = if identity_ok {
        Seq::empty()
    } else {
        seq!["persisted state identity does not match configuration"@]
    };
    let strict: Seq<Seq<char>> = if !has_consensus {
        seq!["strict readiness is unknown: consensus barrier is unavailable"@]
    } else if !strict_ready {
        seq!["strict readiness is false: quorum/leader barrier is unavailable"@]
    } else {
        Seq::empty()
    };
    let disk: Seq<Seq<char>> = if disk_write_admission {
        Seq::empty()
    } else {
        seq!["data-directory budget is below the write-admission watermark"@]
    };
    identity + strict + disk
}

/// Whether a report says what a node knows.
pub open spec fn is_status(
    report: NodeStatus,
    config: Config,
    store: StoreStatus,
    identity: Option<StoreIdentity>,
    consensus: Option<ConsensusStatus>,
    state_file_bytes: Option<u64>,
) -> bool {
    &&& report.config_node_id == config.node_id
    &&& report.cluster_id@ == config.cluster_id@
    &&& report.cluster_incarnation == config.cluster_incarnation
    &&& report.storage == store
    &&& report.consensus == consensus
    &&& report.identity_ok == identity_holds(config, identity)
    &&& report.local_ready == (store.healthy && report.identity_ok)
    &&& report.strict_ready == (report.local_ready && barrier_holds(consensus))
    &&& report.role@ == role_of(config.node_id, consensus)
    &&& report.replication_lag == lag_of(consensus)
    &&& report.state_file_bytes == state_file_bytes
    &&& report.data_dir_budget_bytes == config.storage.data_dir_budget_bytes
    &&& report.disk_write_admission == admits_writes(config, state_file_bytes)
    &&& texts(report.warnings@) == warnings_of(
        report.identity_ok,
        consensus is Some,
        report.strict_ready,
        report.disk_write_admission,
    )
}

fn disk_admits(config: &Config, state_file_bytes: Option<u64>) -> (admits: bool)
    ensures
        admits == admits_writes(*config, state_file_bytes),
{
    match state_file_bytes {
        None => true,
        Some(size) => {
            let budget = config.storage.data_dir_budget_bytes;
            let percent = config.storage.low_space_watermark_percent;
            proof {
                assert(budget * percent >= 0) by (nonlinear_arith);
            }
            let product = match budget.checked_mul(percent as u64) {
                Some(product) => product,
                None => u64::MAX,
            };
            let share = product / 100;
            let kept = if config.storage.low_space_watermark_bytes > share {
                config.storage.low_space_watermark_bytes
            } else {
                share
            };
            size.saturating_add(kept) <= budget
        },
    }
}

fn warn(
    identity_ok: bool,
    has_consensus: bool,
    strict_ready: bool,
    disk_write_admission: bool,
) -> (warnings: Vec<String>)
    ensures
        texts(warnings@) == warnings_of(
            identity_ok,
            has_consensus,
            strict_ready,
            disk_write_admission,
        ),
{
    let mut warnings: Vec<String> = Vec::new();
    if !identity_ok {
        warnings.push(owned("persisted state identity does not match configuration"));
    }
    if !has_consensus {
        warnings.push(owned("strict readiness is unknown: consensus barrier is unavailable"));
    } else if !strict_ready {
        warnings.push(owned("strict readiness is false: quorum/leader barrier is unavailable"));
    }
    if !disk_write_admission {
        warnings.push(owned("data-directory budget is below the write-admission watermark"));
    }
    assert(texts(warnings@) =~= warnings_of(
        identity_ok,
        has_consensus,
        strict_ready,
        disk_write_admission,
    ));
    warnings
}

/// What a node reports, from what its store, its snapshot, consensus and the
/// size of its state file say. A healthy local store is not enough for strict
/// readiness: consensus must confirm it.
pub fn status(
    config: &Config,
    store: StoreStatus,
    identity: Option<StoreIdentity>,
    consensus: Option<ConsensusStatus>,
    state_file_bytes: Option<u64>,
) -> (report: NodeStatus)
    ensures
        is_status(report, *config, store, identity, consensus, state_file_bytes),
{
    let own = config.cluster_id();
    let identity_ok = match identity {
        Some(i) => same_bytes(i.cluster_id.as_slice(), own.0.as_slice()) && i.cluster_incarnation
            == config.cluster_incarnation,
        None => false,
    };
    let local_ready = store.healthy && identity_ok;
    let (barrier, role, replication_lag, known) = match &consensus {
        Some(c) => {
            let role = if c.leader_id == Some(config.node_id) {
                owned("leader")
            } else if has_id(c.learners.as_slice(), config.node_id) {
                owned("learner")
            } else {
                owned("follower")
            };
            let barrier = c.quorum && c.leader_id.is_some() && c.commit_index <= c.applied_index;
            let lag: u64 = if c.commit_index > c.applied_index {
                c.commit_index - c.applied_index
            } else {
                0
            };
            (barrier, role, lag, true)
        },
        None => (false, owned("unknown"), 0u64, false),
    };
    let strict_ready = local_ready && barrier;
    let disk_write_admission = disk_admits(config, state_file_bytes);
    let warnings = warn(identity_ok, known, strict_ready, disk_write_admission);
    NodeStatus {
        config_node_id: config.node_id,
        cluster_id: owned(config.cluster_id.as_str()),
        cluster_incarnation: config.cluster_incarnation,
        storage: store,
        consensus,
        local_ready,
        strict_ready,
        role,
        replication_lag,
        state_file_bytes,
        data_dir_budget_bytes: config.storage.data_dir_budget_bytes,
        disk_write_admission,
        identity_ok,
        warnings,
    }
}

// ---------------------------------------------------------------------------
// Prometheus text
// ---------------------------------------------------------------------------

/// One gauge: what it means, that it is a gauge, and its value.
pub open spec fn gauge(name: Seq<char>, help: Seq<char>, value: Seq<char>) -> Seq<char> {
    "# HELP "@ + name + " "@ + help + "\n# TYPE "@ + name + " gauge\n"@ + name + " "@ + value
        + "\n"@
}

pub open spec fn flag_text(flag: bool) -> Seq<char> {
    digits(
        if flag {
            1
        } else {
            0
        },
    )
}

/// The gauges of the store and of the disk.
pub open spec fn local_metrics(status: NodeStatus) -> Seq<char> {
    gauge(
        "chorus_storage_healthy"@,
        "Whether the local state store is healthy"@,
        flag_text(status.storage.healthy),
    ) + gauge(
        "chorus_local_ready"@,
        "Whether local state is opened and identity-bound"@,
        flag_text(status.local_ready),
    ) + gauge(
        "chorus_strict_ready"@,
        "Whether a quorum-confirmed strict read is available"@,
        flag_text(status.strict_ready),
    ) + gauge(
        "chorus_storage_db_epoch"@,
        "Replicated logical database epoch"@,
        digits(status.storage.db_epoch as nat),
    ) + gauge(
        "chorus_storage_catalog_epoch"@,
        "Replicated catalog epoch"@,
        digits(status.storage.catalog_epoch as nat),
    ) + gauge(
        "chorus_replication_lag_entries"@,
        "Consensus commit index minus applied index"@,
        digits(status.replication_lag as nat),
    ) + gauge(
        "chorus_disk_write_admission"@,
        "Whether local disk watermarks admit writes"@,
        flag_text(status.disk_write_admission),
    ) + gauge(
        "chorus_data_dir_budget_bytes"@,
        "Configured data-directory budget in bytes"@,
        digits(status.data_dir_budget_bytes as nat),
    ) + match status.state_file_bytes {
        Some(bytes) => gauge(
            "chorus_state_file_bytes"@,
            "Observed state file size in bytes"@,
            digits(bytes as nat),
        ),
        None => Seq::empty(),
    }
}

/// The line that names the node and its role.
pub open spec fn info_metric(status: NodeStatus) -> Seq<char> {
    "# HELP chorus_node_info Static node identity and role\n# TYPE chorus_node_info gauge\nchorus_node_info{node_id=\""@
        + digits(status.config_node_id as nat) + "\",role=\""@ + status.role@ + "\"} 1\n"@
}

/// The gauges of consensus.
pub open spec fn consensus_metrics(consensus: ConsensusStatus) -> Seq<char> {
    gauge(
        "chorus_consensus_quorum"@,
        "Whether a consensus quorum is currently available"@,
        flag_text(consensus.quorum),
    ) + gauge(
        "chorus_consensus_term"@,
        "Current consensus term"@,
        digits(consensus.term as nat),
    ) + gauge(
        "chorus_consensus_commit_index"@,
        "Current consensus commit index"@,
        digits(consensus.commit_index as nat),
    ) + gauge(
        "chorus_consensus_applied_index"@,
        "Current state-machine applied index"@,
        digits(consensus.applied_index as nat),
    ) + gauge(
        "chorus_consensus_voters"@,
        "Number of configured voters"@,
        digits(consensus.voters@.len()),
    ) + gauge(
        "chorus_consensus_learners"@,
        "Number of configured learners"@,
        digits(consensus.learners@.len()),
    )
}

/// A report as Prometheus text.
pub open spec fn metrics(status: NodeStatus) -> Seq<char> {
    local_metrics(status) + info_metric(status) + match status.consensus {
        Some(consensus) => consensus_metrics(consensus),
        None => Seq::empty(),
    }
}

fn push_gauge(out: &mut String, name: &str, help: &str, value: u64)
    ensures
        final(out)@ == old(out)@ + gauge(name@, help@, digits(value as nat)),
{
    out.append("# HELP ");
    out.append(name);
    out.append(" ");
    out.append(help);
    out.append("\n# TYPE ");
    out.append(name);
    out.append(" gauge\n");
    out.append(name);
    out.append(" ");
    push_digits(out, value);
    out.append("\n");
    assert(out@ =~= old(out)@ + gauge(name@, help@, digits(value as nat)));
}

fn push_flag(out: &mut String, name: &str, help: &str, value: bool)
    ensures
        final(out)@ == old(out)@ + gauge(name@, help@, flag_text(value)),
{
    let number: u64 = if value {
        1
    } else {
        0
    };
    push_gauge(out, name, help, number);
}

fn push_consensus(out: &mut String, consensus: &ConsensusStatus)
    ensures
        final(out)@ == old(out)@ + consensus_metrics(*consensus),
{
    push_flag(
        out,
        "chorus_consensus_quorum",
        "Whether a consensus quorum is currently available",
        consensus.quorum,
    );
    push_gauge(out, "chorus_consensus_term", "Current consensus term", consensus.term);
    push_gauge(
        out,
        "chorus_consensus_commit_index",
        "Current consensus commit index",
        consensus.commit_index,
    );
    push_gauge(
        out,
        "chorus_consensus_applied_index",
        "Current state-machine applied index",
        consensus.applied_index,
    );
    push_gauge(
        out,
        "chorus_consensus_voters",
        "Number of configured voters",
        consensus.voters.len() as u64,
    );
    push_gauge(
        out,
        "chorus_consensus_learners",
        "Number of configured learners",
        consensus.learners.len() as u64,
    );
    assert(out@ =~= old(out)@ + consensus_metrics(*consensus));
}

fn local_text(status: &NodeStatus) -> (out: String)
    ensures
        out@ == local_metrics(*status),
{
    let mut out = String::new();
    push_flag(
        &mut out,
        "chorus_storage_healthy",
        "Whether the local state store is healthy",
        status.storage.healthy,
    );
    push_flag(
        &mut out,
        "chorus_local_ready",
        "Whether local state is opened and identity-bound",
        status.local_ready,
    );
    push_flag(
        &mut out,
        "chorus_strict_ready",
        "Whether a quorum-confirmed strict read is available",
        status.strict_ready,
    );
    push_gauge(
        &mut out,
        "chorus_storage_db_epoch",
        "Replicated logical database epoch",
        status.storage.db_epoch,
    );
    push_gauge(
        &mut out,
        "chorus_storage_catalog_epoch",
        "Replicated catalog epoch",
        status.storage.catalog_epoch,
    );
    push_gauge(
        &mut out,
        "chorus_replication_lag_entries",
        "Consensus commit index minus applied index",
        status.replication_lag,
    );
    push_flag(
        &mut out,
        "chorus_disk_write_admission",
        "Whether local disk watermarks admit writes",
        status.disk_write_admission,
    );
    push_gauge(
        &mut out,
        "chorus_data_dir_budget_bytes",
        "Configured data-directory budget in bytes",
        status.data_dir_budget_bytes,
    );
    if let Some(bytes) = status.state_file_bytes {
        push_gauge(
            &mut out,
            "chorus_state_file_bytes",
            "Observed state file size in bytes",
            bytes,
        );
    }
    assert(out@ =~= local_metrics(*status));
    out
}

/// A report as Prometheus text. It has only what the report holds: nothing is
/// made up for what no one measures.
pub fn render_metrics(status: &NodeStatus) -> (text: String)
    ensures
        text@ == metrics(*status),
{
    let mut out = local_text(status);
    out.append(
        "# HELP chorus_node_info Static node identity and role\n# TYPE chorus_node_info gauge\nchorus_node_info{node_id=\"",
    );
    out.append(digits_text(status.config_node_id).as_str());
    out.append("\",role=\"");
    out.append(status.role.as_str());
    out.append("\"} 1\n");
    assert(out@ =~= local_metrics(*status) + info_metric(*status));
    if let Some(consensus) = &status.consensus {
        push_consensus(&mut out, consensus);
    }
    assert(out@ =~= metrics(*status));
    out
}

/// A node that reports strict readiness has a healthy store of its own cluster,
/// a leader, a quorum, and nothing committed that it has not applied.
pub proof fn strict_readiness_is_confirmed(
    report: NodeStatus,
    config: Config,
    store: StoreStatus,
    identity: Option<StoreIdentity>,
    consensus: Option<ConsensusStatus>,
    state_file_bytes: Option<u64>,
)
    requires
        is_status(report, config, store, identity, consensus, state_file_bytes),
        report.strict_ready,
    ensures
        store.healthy,
        identity_holds(config, identity),
        barrier_holds(consensus),
        report.replication_lag == 0,
{
}

} // verus!
