//! What the commands of a node do: how their words are read, what they ask for
//! first, and what they make of members, snapshots and the state of a node.

use crate::cluster::ConsensusStatus;
use crate::config::{Config, InitialNode};
use crate::ids::sha_of;
use crate::members::overlap;
use crate::node_args::{command_of, command_word, confirmation_fault, value_from, value_of, Command};
use crate::node_plan::{
    bootstrap_fault, cluster_of, edit_fault, edited, listed_texts, members_fault, mode_of, numbers,
    restore_fault, restored, run_fault, target_fault, without_id, LegacyState, MemberCommand,
    ServingMode, TargetLook,
};
use crate::node_run::{steps_to_serve, RunStep};
use crate::snapshot::{
    body_of, keys_ascend, keys_fit, listed, made, marked_as_backup, membership_verdict,
    records_named, snapshot_verdict, SnapshotView,
};
use crate::sorting::{is_sorted, sorting_permutes};
use crate::status::{admits_writes, is_status, texts, NodeStatus, StoreIdentity, StoreStatus};
use crate::text::read_natural;
use vstd::prelude::*;
use vstd::string::*;
use vstd::utf8::encode_utf8;

verus! {

// ---------------------------------------------------------------------------
// Words
// ---------------------------------------------------------------------------

proof fn lemma_value(args: Seq<Seq<char>>, name: Seq<char>, i: int)
    requires
        0 <= i,
    ensures
        value_from(args, name, i) matches Some(v) ==> exists|k: int|
            #![trigger args[k]]
            i <= k < args.len() - 1 && args[k] == name && v == args[k + 1] && (forall|j: int|
                i <= j < k ==> #[trigger] args[j] != name),
        value_from(args, name, i) is None ==> forall|k: int|
            i <= k < args.len() - 1 ==> #[trigger] args[k] != name,
    decreases args.len() - i,
{
    if i + 1 < args.len() && args[i] != name {
        lemma_value(args, name, i + 1);
        if let Some(v) = value_from(args, name, i + 1) {
            let k = choose|k: int|
                #![trigger args[k]]
                i + 1 <= k < args.len() - 1 && args[k] == name && v == args[k + 1] && (forall|
                    j: int,
                |
                    i + 1 <= j < k ==> #[trigger] args[j] != name);
            assert(forall|j: int| i <= j < k ==> #[trigger] args[j] != name);
        }
    }
}

/// The value of an option is the word behind the first place where the option
/// stands with a word behind it; there is none exactly where there is no such
/// place.
pub proof fn values_stand_behind_their_option(args: Seq<Seq<char>>, name: Seq<char>)
    ensures
        value_of(args, name) matches Some(v) ==> exists|k: int|
            #![trigger args[k]]
            0 <= k < args.len() - 1 && args[k] == name && v == args[k + 1] && (forall|j: int|
                0 <= j < k ==> #[trigger] args[j] != name),
        value_of(args, name) is None <==> forall|k: int|
            0 <= k < args.len() - 1 ==> #[trigger] args[k] != name,
{
    lemma_value(args, name, 0);
}

/// A command is what its word says, and no word says another; without a word
/// the node runs.
pub proof fn words_name_commands(args: Seq<Seq<char>>, word: Seq<char>)
    ensures
        args.len() == 0 ==> command_word(args) == "run"@,
        args.len() > 0 ==> command_word(args) == args[0],
        command_of("run"@) == Some(Command::Run),
        command_of("bootstrap"@) == Some(Command::Bootstrap),
        command_of("status"@) == Some(Command::Status),
        command_of("check"@) == Some(Command::Check),
        command_of("metrics"@) == Some(Command::Metrics),
        command_of("state-hash"@) == Some(Command::StateHash),
        command_of("member"@) == Some(Command::Member),
        command_of("snapshot"@) == Some(Command::Snapshot),
        command_of("restore"@) == Some(Command::Restore),
        command_of("help"@) == Some(Command::Help),
        command_of("--help"@) == Some(Command::Help),
        command_of(word) is Some ==> seq![
            "run"@,
            "bootstrap"@,
            "status"@,
            "check"@,
            "metrics"@,
            "state-hash"@,
            "member"@,
            "snapshot"@,
            "restore"@,
            "help"@,
            "--help"@,
        ].contains(word),
{
    reveal_strlit("run");
    reveal_strlit("bootstrap");
    reveal_strlit("status");
    reveal_strlit("check");
    reveal_strlit("metrics");
    reveal_strlit("state-hash");
    reveal_strlit("member");
    reveal_strlit("snapshot");
    reveal_strlit("restore");
    reveal_strlit("help");
    reveal_strlit("--help");
    assert("run"@[0] == 'r' && "run"@.len() == 3);
    assert("bootstrap"@[0] == 'b');
    assert("status"@[0] == 's' && "status"@.len() == 6);
    assert("check"@[0] == 'c');
    assert("metrics"@[0] == 'm' && "metrics"@.len() == 7);
    assert("state-hash"@[0] == 's' && "state-hash"@.len() == 10);
    assert("member"@[0] == 'm' && "member"@.len() == 6);
    assert("snapshot"@[0] == 's' && "snapshot"@.len() == 8);
    assert("restore"@[0] == 'r' && "restore"@.len() == 7);
    assert("help"@[0] == 'h');
    assert("--help"@[0] == '-');
    let all = seq![
        "run"@,
        "bootstrap"@,
        "status"@,
        "check"@,
        "metrics"@,
        "state-hash"@,
        "member"@,
        "snapshot"@,
        "restore"@,
        "help"@,
        "--help"@,
    ];
    assert(all[0] == "run"@ && all[1] == "bootstrap"@ && all[2] == "status"@ && all[3] == "check"@
        && all[4] == "metrics"@ && all[5] == "state-hash"@ && all[6] == "member"@ && all[7]
        == "snapshot"@ && all[8] == "restore"@ && all[9] == "help"@ && all[10] == "--help"@);
}

/// A command that cannot be undone goes on exactly where the name of the target
/// cluster is given.
pub proof fn dangerous_commands_are_confirmed(args: Seq<Seq<char>>, cluster: Seq<char>)
    ensures
        confirmation_fault(args, cluster) is None <==> value_of(args, "--cluster-id"@) == Some(
            cluster,
        ),
{
}

/// A group is bootstrapped with authenticated peers where that is confirmed and
/// a configuration stands ready, and a single node where nothing is overwritten
/// without a confirmation and the number that is given is one.
pub proof fn bootstraps_go_on(args: Seq<Seq<char>>, path: Seq<char>, exists_already: bool)
    ensures
        bootstrap_fault(args, path, exists_already) is None <==> if args.contains(
            "--openraft-mtls"@,
        ) {
            args.contains("--confirm"@) && exists_already
        } else {
            (exists_already ==> args.contains("--confirm"@)) && (value_of(args, "--node-id"@)
                matches Some(text) ==> (read_natural(text) matches Some(n) && n <= u64::MAX))
        },
{
}

/// A node runs exactly where one mode of replication is chosen at most, a single
/// node is alone and votes, and several nodes have TLS between them or that is
/// waived.
pub proof fn runs_go_on(args: Seq<Seq<char>>, c: Config)
    ensures
        ({
            let single = args.contains("--openraft-single-node"@);
            let authenticated = args.contains("--openraft-mtls"@);
            let waived = c.allow_insecure_dev || args.contains("--allow-insecure-dev"@);
            let nodes = c.initial_nodes@;
            &&& run_fault(args, c) is None <==> {
                &&& !(single && authenticated)
                &&& single ==> nodes.len() == 1 && nodes[0].voter && nodes[0].node_id == c.node_id
                &&& nodes.len() > 1 ==> authenticated || waived
            }
            &&& mode_of(args, c) == ServingMode::OpenRaftAuthenticated <==> authenticated
            &&& mode_of(args, c) == ServingMode::OpenRaftSingleNode <==> single && !authenticated
            &&& mode_of(args, c) == ServingMode::Network <==> !single && !authenticated
                && nodes.len() > 1
            &&& mode_of(args, c) == ServingMode::Standalone <==> !single && !authenticated
                && nodes.len() <= 1
        }),
{
}

// ---------------------------------------------------------------------------
// Members
// ---------------------------------------------------------------------------

proof fn lemma_without(ids: Seq<u64>, id: u64, x: u64)
    ensures
        without_id(ids, id).contains(x) <==> x != id && ids.contains(x),
    decreases ids.len(),
{
    if ids.len() > 0 {
        let front = ids.drop_last();
        let before = without_id(front, id);
        lemma_without(front, id, x);
        if ids.contains(x) {
            let i = choose|i: int| 0 <= i < ids.len() && ids[i] == x;
            if i < front.len() {
                assert(front[i] == x);
            }
        }
        if front.contains(x) {
            let i = choose|i: int| 0 <= i < front.len() && front[i] == x;
            assert(ids[i] == x);
        }
        if ids.last() == x {
            assert(ids[ids.len() - 1] == x);
        }
        if ids.last() != id {
            let after = before.push(ids.last());
            if before.contains(x) {
                let i = choose|i: int| 0 <= i < before.len() && before[i] == x;
                assert(after[i] == x);
            }
            if after.contains(x) {
                let i = choose|i: int| 0 <= i < after.len() && after[i] == x;
                if i < before.len() {
                    assert(before[i] == x);
                }
            }
            assert(after[before.len() as int] == ids.last());
        }
    }
}

proof fn lemma_with(ids: Seq<u64>, id: u64, x: u64)
    ensures
        crate::node_plan::with_id(ids, id).contains(x) <==> x == id || ids.contains(x),
{
    if !ids.contains(id) {
        let after = ids.push(id);
        assert(after[ids.len() as int] == id);
        if ids.contains(x) {
            let i = choose|i: int| 0 <= i < ids.len() && ids[i] == x;
            assert(after[i] == x);
        }
        if after.contains(x) {
            let i = choose|i: int| 0 <= i < after.len() && after[i] == x;
            if i < ids.len() {
                assert(ids[i] == x);
            }
        }
    }
}

/// An edit moves one node and no other: a node that is added learns, unless it
/// votes; one that is promoted votes and no longer learns; one that is demoted
/// learns and no longer votes; and one that is removed does neither.
pub proof fn edits_move_one_node(
    command: MemberCommand,
    id: u64,
    voters: Seq<u64>,
    learners: Seq<u64>,
    x: u64,
)
    ensures
        ({
            let (v, l) = edited(command, id, voters, learners);
            &&& x != id ==> (v.contains(x) <==> voters.contains(x)) && (l.contains(x)
                <==> learners.contains(x))
            &&& command == MemberCommand::List ==> v == voters && l == learners
            &&& command == MemberCommand::AddLearner ==> (v.contains(id) <==> voters.contains(id))
                && (voters.contains(id) || l.contains(id)) && (voters.contains(id) ==> l
                == learners)
            &&& command == MemberCommand::Promote ==> v.contains(id) && !l.contains(id)
            &&& command == MemberCommand::Demote ==> !v.contains(id) && l.contains(id)
            &&& command == MemberCommand::Remove ==> !v.contains(id) && !l.contains(id)
        }),
{
    lemma_without(voters, id, x);
    lemma_without(voters, id, id);
    lemma_without(learners, id, x);
    lemma_without(learners, id, id);
    lemma_with(voters, id, x);
    lemma_with(voters, id, id);
    lemma_with(learners, id, x);
    lemma_with(learners, id, id);
}

/// Members are kept exactly where one, three or five of them vote and none of
/// these learns too.
pub proof fn sound_members_are_kept(voters: Seq<u64>, learners: Seq<u64>)
    ensures
        members_fault(voters, learners) is None <==> (voters.len() == 1 || voters.len() == 3
            || voters.len() == 5) && forall|id: u64| #[trigger]
            voters.contains(id) ==> !learners.contains(id),
{
    if overlap(voters, learners) {
        let id = choose|id: u64| #[trigger] voters.contains(id) && learners.contains(id);
        assert(voters.contains(id));
    }
}

/// Members are edited exactly where that is confirmed, the node is off line, the
/// cluster is named, and the number of a node is given.
pub proof fn edits_go_on(args: Seq<Seq<char>>, cluster: Seq<char>)
    ensures
        edit_fault(args, cluster) is None <==> args.contains("--confirm"@) && args.contains(
            "--offline"@,
        ) && value_of(args, "--cluster-id"@) == Some(cluster) && (value_of(args, "--node-id"@)
            matches Some(text) && (read_natural(text) matches Some(n) && 1 <= n <= u64::MAX)),
{
}

/// The nodes that vote and those that do not are listed in their order.
pub proof fn nodes_are_listed_in_order(nodes: Seq<InitialNode>, voting: bool)
    ensures
        numbers(nodes, voting) == nodes.filter(|n: InitialNode| n.voter == voting).map_values(
            |n: InitialNode| n.node_id,
        ),
    decreases nodes.len(),
{
    reveal(Seq::filter);
    let all = nodes.filter(|n: InitialNode| n.voter == voting);
    if nodes.len() > 0 {
        nodes_are_listed_in_order(nodes.drop_last(), voting);
        let front = nodes.drop_last().filter(|n: InitialNode| n.voter == voting);
        if nodes.last().voter == voting {
            assert(all =~= front.push(nodes.last()));
            assert(all.map_values(|n: InitialNode| n.node_id) =~= front.map_values(
                |n: InitialNode| n.node_id,
            ).push(nodes.last().node_id));
        } else {
            assert(all =~= front);
        }
    } else {
        assert(all.map_values(|n: InitialNode| n.node_id) =~= Seq::empty());
    }
}

// ---------------------------------------------------------------------------
// Snapshots
// ---------------------------------------------------------------------------

/// A snapshot is restored exactly where it is a backup, or one of the target's
/// own cluster and of an earlier incarnation.
pub proof fn fitting_snapshots_are_restored(c: Config, source: SnapshotView)
    ensures
        restore_fault(c, source) is None <==> marked_as_backup(source) || (source.header.cluster_id
            == cluster_of(c) && source.header.cluster_incarnation < c.cluster_incarnation),
        !marked_as_backup(source) ==> restored(c, source) == source,
{
}

/// What a snapshot is made of is in it: its members, its position, its epochs,
/// its records, and its entries in the order of their keys, counted and with
/// their digest.
pub proof fn snapshots_hold_what_was_given(given: SnapshotView)
    ensures
        ({
            let s = made(given);
            &&& s.meta == given.meta
            &&& s.entries.len() == given.entries.len()
            &&& s.entries.to_multiset() == given.entries.to_multiset()
            &&& is_sorted(s.entries)
            &&& s.header.cluster_id == given.header.cluster_id
            &&& s.header.cluster_incarnation == given.header.cluster_incarnation
            &&& s.header.last_included == given.header.last_included
            &&& s.header.membership_log_id == given.header.membership_log_id
            &&& s.header.voters == given.header.voters
            &&& s.header.learners == given.header.learners
            &&& s.header.db_epoch == given.header.db_epoch
            &&& s.header.catalog_epoch == given.header.catalog_epoch
            &&& s.header.format_version == 1
            &&& s.header.entry_count == given.entries.len()
            &&& body_of(listed(s.meta), s.entries) matches Ok(body) ==> s.header.uncompressed_bytes
                == body.len() && s.header.digest == crate::ids::hash_of(body)
        }),
{
    sorting_permutes(given.entries);
}

/// A snapshot that is made is valid exactly where it has an incarnation, its
/// members are sound and not newer than it, and its keys and records are within
/// their bounds and each there once.
pub proof fn sound_snapshots_are_valid(given: SnapshotView)
    ensures
        ({
            let s = made(given);
            snapshot_verdict(s) is Ok <==> {
                &&& given.header.cluster_incarnation > 0
                &&& given.header.membership_log_id.index <= given.header.last_included.index
                &&& membership_verdict(given.header.voters, given.header.learners) is Ok
                &&& given.entries.len() <= 10_000_000
                &&& forall|i: int|
                    0 <= i < s.entries.len() ==> 1 <= (#[trigger] s.entries[i]).0.len() <= 8192
                &&& keys_ascend(s.entries)
                &&& forall|name: Seq<char>|
                    #![trigger given.meta.dom().contains(name)]
                    given.meta.dom().contains(name) ==> 1 <= encode_utf8(name).len() <= 63
                &&& body_of(listed(given.meta), s.entries) is Ok
            }
        }),
{
    let s = made(given);
    sorting_permutes(given.entries);
    assert(keys_fit(s.entries) <==> forall|i: int|
        0 <= i < s.entries.len() ==> 1 <= (#[trigger] s.entries[i]).0.len() <= 8192);
    assert(records_named(given.meta) <==> forall|name: Seq<char>|
        #![trigger given.meta.dom().contains(name)]
        given.meta.dom().contains(name) ==> 1 <= encode_utf8(name).len() <= 63) by {
        if records_named(given.meta) {
            assert forall|name: Seq<char>|
                #![trigger given.meta.dom().contains(name)]
                given.meta.dom().contains(name) implies 1 <= encode_utf8(name).len() <= 63 by {
                assert(crate::snapshot::names_record(encode_utf8(name)));
            }
        }
    }
}

/// Members of a snapshot are sound exactly where no number is zero or occurs
/// twice, each list ascends, and neither has more than ten thousand.
pub proof fn listed_members_are_sound(voters: Seq<u64>, learners: Seq<u64>)
    ensures
        membership_verdict(voters, learners) is Ok <==> {
            &&& voters.len() <= 10_000 && learners.len() <= 10_000
            &&& forall|i: int| 0 <= i < voters.len() ==> #[trigger] voters[i] != 0
            &&& forall|i: int| 0 <= i < learners.len() ==> #[trigger] learners[i] != 0
            &&& (voters + learners).no_duplicates()
            &&& forall|i: int| 0 <= i < voters.len() - 1 ==> #[trigger] voters[i] < voters[i + 1]
            &&& forall|i: int|
                0 <= i < learners.len() - 1 ==> #[trigger] learners[i] < learners[i + 1]
        },
{
    let all = voters + learners;
    if all.contains(0) {
        let i = choose|i: int| 0 <= i < all.len() && all[i] == 0;
        if i < voters.len() {
            assert(voters[i] == 0);
        } else {
            assert(learners[i - voters.len()] == 0);
        }
    } else {
        assert forall|i: int| 0 <= i < voters.len() implies #[trigger] voters[i] != 0 by {
            assert(all.contains(all[i]));
        }
        assert forall|i: int| 0 <= i < learners.len() implies #[trigger] learners[i] != 0 by {
            assert(all.contains(all[voters.len() + i]));
        }
    }
}

// ---------------------------------------------------------------------------
// Reports
// ---------------------------------------------------------------------------

/// A node is ready on its own exactly where its store is healthy and of its
/// cluster and incarnation, and ready for strict reads exactly where besides a
/// quorum follows a leader and everything committed is applied.
pub proof fn ready_nodes_are_reported(
    report: NodeStatus,
    c: Config,
    store: StoreStatus,
    identity: Option<StoreIdentity>,
    consensus: Option<ConsensusStatus>,
    bytes: Option<u64>,
)
    requires
        is_status(report, c, store, identity, consensus, bytes),
    ensures
        report.local_ready <==> store.healthy && (identity matches Some(i) && i.cluster_id@
            == sha_of(encode_utf8("chorus-cluster-v1\0"@) + encode_utf8(c.cluster_id@)).subrange(
            0,
            16,
        ) && i.cluster_incarnation == c.cluster_incarnation),
        report.strict_ready <==> report.local_ready && (consensus matches Some(s) && s.quorum
            && s.leader_id is Some && s.applied_index >= s.commit_index),
        report.replication_lag == (match consensus {
            Some(s) => if s.commit_index > s.applied_index {
                s.commit_index - s.applied_index
            } else {
                0
            },
            None => 0,
        }),
        consensus is None ==> report.role@ == "unknown"@,
        (consensus matches Some(s) && s.leader_id == Some(c.node_id)) ==> report.role@ == "leader"@,
        (consensus matches Some(s) && s.leader_id != Some(c.node_id) && s.learners@.contains(
            c.node_id,
        )) ==> report.role@ == "learner"@,
        (consensus matches Some(s) && s.leader_id != Some(c.node_id) && !s.learners@.contains(
            c.node_id,
        )) ==> report.role@ == "follower"@,
        report.config_node_id == c.node_id,
        report.cluster_id@ == c.cluster_id@,
        texts(report.warnings@).len() == (if report.identity_ok {
            0int
        } else {
            1
        }) + (if report.strict_ready {
            0int
        } else {
            1
        }) + (if report.disk_write_admission {
            0int
        } else {
            1
        }),
{
}

/// Writes are let in exactly where the state file, if it is known, leaves the
/// reserve of the budget: so many bytes, or so many hundredths of the budget,
/// whichever is more.
pub proof fn writes_keep_the_reserve(c: Config, bytes: Option<u64>)
    requires
        c.storage.data_dir_budget_bytes * c.storage.low_space_watermark_percent <= u64::MAX,
        c.storage.data_dir_budget_bytes < u64::MAX,
    ensures
        ({
            let s = c.storage;
            let share = s.data_dir_budget_bytes * s.low_space_watermark_percent / 100;
            admits_writes(c, bytes) <==> (bytes matches Some(n) ==> n + s.low_space_watermark_bytes
                <= s.data_dir_budget_bytes && n + share <= s.data_dir_budget_bytes)
        }),
{
}

/// A node serves by checking first and replicating last: its store is opened
/// once, before replication, and SQL is let in at the very end.
pub proof fn nodes_serve_in_order(mode: ServingMode)
    ensures
        ({
            let steps = steps_to_serve(mode);
            &&& steps.len() >= 2
            &&& steps.last() == RunStep::Activate
            &&& exists|i: int, j: int|
                0 <= i < j < steps.len() && #[trigger] steps[i] == RunStep::OpenStore && #[trigger]
                    steps[j] == RunStep::OpenConsensus
            &&& mode == ServingMode::OpenRaftAuthenticated ==> steps[0] == RunStep::ReadIdentity
        }),
{
    let steps = steps_to_serve(mode);
    match mode {
        ServingMode::OpenRaftAuthenticated => {
            assert(steps[2] == RunStep::OpenStore && steps[5] == RunStep::OpenConsensus);
        },
        ServingMode::OpenRaftSingleNode => {
            assert(steps[0] == RunStep::OpenStore && steps[3] == RunStep::OpenConsensus);
        },
        _ => {
            assert(steps[0] == RunStep::OpenStore && steps[2] == RunStep::OpenConsensus);
        },
    }
}

/// Texts are listed in their order, with a semicolon and a space between each
/// two of them.
pub proof fn texts_are_listed(list: Seq<Seq<char>>, last: Seq<char>)
    ensures
        listed_texts(Seq::empty()) == Seq::<char>::empty(),
        list.len() == 0 ==> listed_texts(list.push(last)) == last,
        list.len() > 0 ==> listed_texts(list.push(last)) == listed_texts(list) + seq![';', ' ']
            + last,
{
    reveal_strlit("; ");
    assert("; "@ =~= seq![';', ' ']);
    assert(list.push(last).drop_last() =~= list);
}

/// A state is unused exactly where nothing was ever applied, stored or listed in
/// it.
pub proof fn unused_states_hold_nothing(s: LegacyState)
    ensures
        s.is_unused() <==> {
            &&& s.last_applied.term == 0 && s.last_applied.index == 0
            &&& s.membership.term == 0 && s.membership.index == 0
            &&& s.db_epoch == 0 && s.catalog_epoch == 0
            &&& s.catalog_is_empty && s.entries == 0 && s.origins == 0
        },
{
}

/// A file is written where none is, or where a regular one is that is no link.
pub proof fn regular_targets_are_written(look: TargetLook, label: Seq<char>)
    ensures
        target_fault(look, label) is None <==> match look {
            TargetLook::Missing => true,
            TargetLook::Found(facts) => facts.is_file && !facts.is_symlink,
            TargetLook::Fault(_) => false,
        },
{
}

} // verus!
