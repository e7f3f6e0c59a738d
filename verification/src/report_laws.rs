//! What a node tells of itself, and what it keeps of a session.

use crate::cluster::ConsensusStatus;
use crate::datum::{Datum, DatumView};
use crate::pg_retained::{
    columns_needs, list_need, needed, portal_needs, result_needs, row_needs, rows_needs, size,
    text_need, value_need, Need, PortalView,
};
use crate::pg_server::{pid_of, turned};
use crate::status::{
    consensus_metrics, gauge, info_metric, local_metrics, metrics, role_of, warnings_of,
    NodeStatus,
};
use crate::text::digits;
use vstd::layout::size_of;
use vstd::prelude::*;
use vstd::string::*;

verus! {

// ---------------------------------------------------------------------------
// Metrics
// ---------------------------------------------------------------------------

/// Whether a text has a line in it.
pub open spec fn says(text: Seq<char>, line: Seq<char>) -> bool {
    exists|at: int| #[trigger] stands_at(text, line, at)
}

/// Whether a line stands at a place of a text.
pub open spec fn stands_at(text: Seq<char>, line: Seq<char>, at: int) -> bool {
    0 <= at && at + line.len() <= text.len() && text.subrange(at, at + line.len()) == line
}

proof fn lemma_says(front: Seq<char>, line: Seq<char>, back: Seq<char>)
    ensures
        says(front + line + back, line),
{
    let text = front + line + back;
    assert(text.subrange(front.len() as int, (front.len() + line.len()) as int) =~= line);
    assert(stands_at(text, line, front.len() as int));
}

proof fn lemma_says_more(front: Seq<char>, text: Seq<char>, back: Seq<char>, line: Seq<char>)
    requires
        says(text, line),
    ensures
        says(front + text + back, line),
{
    let at = choose|at: int| #[trigger] stands_at(text, line, at);
    let whole = front + text + back;
    assert(whole.subrange(front.len() + at, front.len() + at + line.len()) =~= text.subrange(
        at,
        at + line.len(),
    ));
    assert(stands_at(whole, line, front.len() + at));
}

/// The line of a value behind that of its kind: its name, a space and what it
/// is.
pub open spec fn value_line(name: Seq<char>, value: Seq<char>) -> Seq<char> {
    " gauge\n"@ + name + " "@ + value + "\n"@
}

/// One or zero.
pub open spec fn truth(flag: bool) -> Seq<char> {
    if flag {
        seq!['1']
    } else {
        seq!['0']
    }
}

proof fn lemma_regroup(a: Seq<char>, b: Seq<char>, c: Seq<char>)
    ensures
        a + b + c == a + (b + c),
{
    assert(a + b + c =~= a + (b + c));
}

proof fn lemma_tail_of(
    front: Seq<char>,
    a: Seq<char>,
    b: Seq<char>,
    c: Seq<char>,
    d: Seq<char>,
    e: Seq<char>,
)
    ensures
        says(front + a + b + c + d + e, a + b + c + d + e),
{
    let none = Seq::<char>::empty();
    lemma_says(front, a + b + c + d + e, none);
    lemma_regroup(front, a, b);
    lemma_regroup(front, a + b, c);
    lemma_regroup(front, a + b + c, d);
    lemma_regroup(front, a + b + c + d, e);
    let whole = front + (a + b + c + d + e);
    assert(whole + none =~= whole);
}

proof fn lemma_gauge(name: Seq<char>, help: Seq<char>, value: Seq<char>)
    ensures
        says(gauge(name, help, value), value_line(name, value)),
{
    lemma_tail_of(
        "# HELP "@ + name + " "@ + help + "\n# TYPE "@ + name,
        " gauge\n"@,
        name,
        " "@,
        value,
        "\n"@,
    );
}

spec fn all_of(parts: Seq<Seq<char>>) -> Seq<char>
    decreases parts.len(),
{
    if parts.len() == 0 {
        Seq::empty()
    } else {
        all_of(parts.drop_last()) + parts.last()
    }
}

proof fn lemma_part(parts: Seq<Seq<char>>, i: int, line: Seq<char>)
    requires
        0 <= i < parts.len(),
        says(parts[i], line),
    ensures
        says(all_of(parts), line),
    decreases parts.len(),
{
    let none = Seq::<char>::empty();
    let front = parts.drop_last();
    if i == parts.len() - 1 {
        lemma_says_more(all_of(front), parts.last(), none, line);
        assert(all_of(front) + parts.last() + none =~= all_of(parts));
    } else {
        assert(front[i] == parts[i]);
        lemma_part(front, i, line);
        lemma_says_more(none, all_of(front), parts.last(), line);
        assert(none + all_of(front) + parts.last() =~= all_of(parts));
    }
}

proof fn lemma_nine_parts(
    p: Seq<Seq<char>>,
    tail: Seq<char>,
    more: Seq<char>,
    i: int,
    line: Seq<char>,
)
    requires
        p.len() == 9,
        0 <= i < 9,
        says(p[i], line),
    ensures
        says(p[0] + p[1] + p[2] + p[3] + p[4] + p[5] + p[6] + p[7] + p[8] + tail + more, line),
{
    reveal_with_fuel(all_of, 10);
    let none = Seq::<char>::empty();
    let all = all_of(p);
    assert(none + p[0] =~= p[0]);
    assert(all == p[0] + p[1] + p[2] + p[3] + p[4] + p[5] + p[6] + p[7] + p[8]);
    lemma_part(p, i, line);
    lemma_says_more(none, all, tail + more, line);
    assert(none + all + (tail + more) =~= all + tail + more);
}

proof fn lemma_six_parts(p: Seq<Seq<char>>, front: Seq<char>, i: int, line: Seq<char>)
    requires
        p.len() == 6,
        0 <= i < 6,
        says(p[i], line),
    ensures
        says(front + (p[0] + p[1] + p[2] + p[3] + p[4] + p[5]), line),
{
    reveal_with_fuel(all_of, 7);
    let none = Seq::<char>::empty();
    let all = all_of(p);
    assert(none + p[0] =~= p[0]);
    assert(all == p[0] + p[1] + p[2] + p[3] + p[4] + p[5]);
    lemma_part(p, i, line);
    lemma_says_more(front, all, none, line);
    assert(front + all + none =~= front + all);
}

spec fn node_parts(s: NodeStatus) -> Seq<Seq<char>> {
    seq![
        gauge(
            "chorus_storage_healthy"@,
            "Whether the local state store is healthy"@,
            crate::status::flag_text(s.storage.healthy),
        ),
        gauge(
            "chorus_local_ready"@,
            "Whether local state is opened and identity-bound"@,
            crate::status::flag_text(s.local_ready),
        ),
        gauge(
            "chorus_strict_ready"@,
            "Whether a quorum-confirmed strict read is available"@,
            crate::status::flag_text(s.strict_ready),
        ),
        gauge(
            "chorus_storage_db_epoch"@,
            "Replicated logical database epoch"@,
            digits(s.storage.db_epoch as nat),
        ),
        gauge(
            "chorus_storage_catalog_epoch"@,
            "Replicated catalog epoch"@,
            digits(s.storage.catalog_epoch as nat),
        ),
        gauge(
            "chorus_replication_lag_entries"@,
            "Consensus commit index minus applied index"@,
            digits(s.replication_lag as nat),
        ),
        gauge(
            "chorus_disk_write_admission"@,
            "Whether local disk watermarks admit writes"@,
            crate::status::flag_text(s.disk_write_admission),
        ),
        gauge(
            "chorus_data_dir_budget_bytes"@,
            "Configured data-directory budget in bytes"@,
            digits(s.data_dir_budget_bytes as nat),
        ),
        match s.state_file_bytes {
            Some(n) => gauge(
                "chorus_state_file_bytes"@,
                "Observed state file size in bytes"@,
                digits(n as nat),
            ),
            None => Seq::empty(),
        },
    ]
}

spec fn group_parts(c: ConsensusStatus) -> Seq<Seq<char>> {
    seq![
        gauge(
            "chorus_consensus_quorum"@,
            "Whether a consensus quorum is currently available"@,
            crate::status::flag_text(c.quorum),
        ),
        gauge("chorus_consensus_term"@, "Current consensus term"@, digits(c.term as nat)),
        gauge(
            "chorus_consensus_commit_index"@,
            "Current consensus commit index"@,
            digits(c.commit_index as nat),
        ),
        gauge(
            "chorus_consensus_applied_index"@,
            "Current state-machine applied index"@,
            digits(c.applied_index as nat),
        ),
        gauge(
            "chorus_consensus_voters"@,
            "Number of configured voters"@,
            digits(c.voters@.len()),
        ),
        gauge(
            "chorus_consensus_learners"@,
            "Number of configured learners"@,
            digits(c.learners@.len()),
        ),
    ]
}

proof fn lemma_node_told(s: NodeStatus, i: int, line: Seq<char>)
    requires
        0 <= i < 9,
        says(node_parts(s)[i], line),
    ensures
        says(metrics(s), line),
{
    let rest = match s.consensus {
        Some(consensus) => consensus_metrics(consensus),
        None => Seq::empty(),
    };
    lemma_nine_parts(node_parts(s), info_metric(s), rest, i, line);
}

proof fn lemma_group_told(s: NodeStatus, i: int, line: Seq<char>)
    requires
        s.consensus is Some,
        0 <= i < 6,
        says(group_parts(s.consensus->0)[i], line),
    ensures
        says(metrics(s), line),
{
    lemma_six_parts(group_parts(s.consensus->0), local_metrics(s) + info_metric(s), i, line);
}

proof fn lemma_truth(flag: bool)
    ensures
        crate::status::flag_text(flag) == truth(flag),
{
}

proof fn lemma_node_line(s: NodeStatus, i: int, name: Seq<char>, help: Seq<char>, value: Seq<char>)
    requires
        0 <= i < 9,
        node_parts(s)[i] == gauge(name, help, value),
    ensures
        says(metrics(s), value_line(name, value)),
{
    lemma_gauge(name, help, value);
    lemma_node_told(s, i, value_line(name, value));
}

proof fn lemma_group_line(s: NodeStatus, i: int, name: Seq<char>, help: Seq<char>, value: Seq<char>)
    requires
        s.consensus is Some,
        0 <= i < 6,
        group_parts(s.consensus->0)[i] == gauge(name, help, value),
    ensures
        says(metrics(s), value_line(name, value)),
{
    lemma_gauge(name, help, value);
    lemma_group_told(s, i, value_line(name, value));
}

/// The metrics of a node tell whether it is healthy and ready, how far it has
/// come, how far it lags, and whether it has room for writes.
#[verifier::spinoff_prover]
pub proof fn metrics_tell_the_node(s: NodeStatus)
    ensures
        says(metrics(s), value_line("chorus_storage_healthy"@, truth(s.storage.healthy))),
        says(metrics(s), value_line("chorus_local_ready"@, truth(s.local_ready))),
        says(metrics(s), value_line("chorus_strict_ready"@, truth(s.strict_ready))),
        says(
            metrics(s),
            value_line("chorus_storage_db_epoch"@, digits(s.storage.db_epoch as nat)),
        ),
        says(
            metrics(s),
            value_line("chorus_storage_catalog_epoch"@, digits(s.storage.catalog_epoch as nat)),
        ),
        says(
            metrics(s),
            value_line("chorus_replication_lag_entries"@, digits(s.replication_lag as nat)),
        ),
        says(metrics(s), value_line("chorus_disk_write_admission"@, truth(s.disk_write_admission))),
        says(
            metrics(s),
            value_line("chorus_data_dir_budget_bytes"@, digits(s.data_dir_budget_bytes as nat)),
        ),
        s.state_file_bytes matches Some(n) ==> says(
            metrics(s),
            value_line("chorus_state_file_bytes"@, digits(n as nat)),
        ),
{
    lemma_truth(s.storage.healthy);
    lemma_truth(s.local_ready);
    lemma_truth(s.strict_ready);
    lemma_truth(s.disk_write_admission);
    let h = "Whether the local state store is healthy"@;
    lemma_node_line(s, 0, "chorus_storage_healthy"@, h, truth(s.storage.healthy));
    let h = "Whether local state is opened and identity-bound"@;
    lemma_node_line(s, 1, "chorus_local_ready"@, h, truth(s.local_ready));
    let h = "Whether a quorum-confirmed strict read is available"@;
    lemma_node_line(s, 2, "chorus_strict_ready"@, h, truth(s.strict_ready));
    let h = "Replicated logical database epoch"@;
    lemma_node_line(s, 3, "chorus_storage_db_epoch"@, h, digits(s.storage.db_epoch as nat));
    let h = "Replicated catalog epoch"@;
    let v = digits(s.storage.catalog_epoch as nat);
    lemma_node_line(s, 4, "chorus_storage_catalog_epoch"@, h, v);
    let h = "Consensus commit index minus applied index"@;
    lemma_node_line(s, 5, "chorus_replication_lag_entries"@, h, digits(s.replication_lag as nat));
    let h = "Whether local disk watermarks admit writes"@;
    lemma_node_line(s, 6, "chorus_disk_write_admission"@, h, truth(s.disk_write_admission));
    let h = "Configured data-directory budget in bytes"@;
    let v = digits(s.data_dir_budget_bytes as nat);
    lemma_node_line(s, 7, "chorus_data_dir_budget_bytes"@, h, v);
    if let Some(n) = s.state_file_bytes {
        let h = "Observed state file size in bytes"@;
        lemma_node_line(s, 8, "chorus_state_file_bytes"@, h, digits(n as nat));
    }
}

/// Where a node knows of its group, its metrics tell the quorum, the term, how
/// far the group has come, and how many members it has.
#[verifier::spinoff_prover]
pub proof fn metrics_tell_the_group(s: NodeStatus, c: ConsensusStatus)
    requires
        s.consensus == Some(c),
    ensures
        says(metrics(s), value_line("chorus_consensus_quorum"@, truth(c.quorum))),
        says(metrics(s), value_line("chorus_consensus_term"@, digits(c.term as nat))),
        says(metrics(s), value_line("chorus_consensus_commit_index"@, digits(c.commit_index as nat))),
        says(
            metrics(s),
            value_line("chorus_consensus_applied_index"@, digits(c.applied_index as nat)),
        ),
        says(metrics(s), value_line("chorus_consensus_voters"@, digits(c.voters@.len()))),
        says(metrics(s), value_line("chorus_consensus_learners"@, digits(c.learners@.len()))),
{
    lemma_truth(c.quorum);
    let h = "Whether a consensus quorum is currently available"@;
    lemma_group_line(s, 0, "chorus_consensus_quorum"@, h, truth(c.quorum));
    let h = "Current consensus term"@;
    lemma_group_line(s, 1, "chorus_consensus_term"@, h, digits(c.term as nat));
    let h = "Current consensus commit index"@;
    lemma_group_line(s, 2, "chorus_consensus_commit_index"@, h, digits(c.commit_index as nat));
    let h = "Current state-machine applied index"@;
    lemma_group_line(s, 3, "chorus_consensus_applied_index"@, h, digits(c.applied_index as nat));
    let h = "Number of configured voters"@;
    lemma_group_line(s, 4, "chorus_consensus_voters"@, h, digits(c.voters@.len()));
    let h = "Number of configured learners"@;
    lemma_group_line(s, 5, "chorus_consensus_learners"@, h, digits(c.learners@.len()));
}

/// The metrics of a node tell its number and its role.
pub proof fn metrics_tell_the_role(s: NodeStatus)
    ensures
        says(metrics(s), digits(s.config_node_id as nat) + "\",role=\""@ + s.role@ + "\"} 1\n"@),
{
    let rest = match s.consensus {
        Some(consensus) => consensus_metrics(consensus),
        None => Seq::empty(),
    };
    lemma_role(
        local_metrics(s),
        "# HELP chorus_node_info Static node identity and role\n# TYPE chorus_node_info gauge\nchorus_node_info{node_id=\""@,
        digits(s.config_node_id as nat),
        "\",role=\""@,
        s.role@,
        "\"} 1\n"@,
        rest,
    );
}

proof fn lemma_role(
    front: Seq<char>,
    a: Seq<char>,
    b: Seq<char>,
    c: Seq<char>,
    d: Seq<char>,
    e: Seq<char>,
    rest: Seq<char>,
)
    ensures
        says(front + (a + b + c + d + e) + rest, b + c + d + e),
{
    lemma_says(front + a, b + c + d + e, rest);
    assert(front + a + (b + c + d + e) + rest =~= front + (a + b + c + d + e) + rest);
}

/// A node is the leader where the group says so, a learner where it is listed
/// as one, a follower otherwise, and unknown where there is no group.
pub proof fn roles_are_told(node_id: u64, c: ConsensusStatus)
    ensures
        role_of(node_id, None) == "unknown"@,
        c.leader_id == Some(node_id) ==> role_of(node_id, Some(c)) == "leader"@,
        c.leader_id != Some(node_id) && c.learners@.contains(node_id) ==> role_of(node_id, Some(c))
            == "learner"@,
        c.leader_id != Some(node_id) && !c.learners@.contains(node_id) ==> role_of(
            node_id,
            Some(c),
        ) == "follower"@,
{
}

/// A report warns of exactly what is wrong: a foreign identity, a group that is
/// not known or not ready, and too little room.
pub proof fn warnings_tell_what_is_wrong(identity: bool, group: bool, ready: bool, room: bool)
    ensures
        ({
            let w = warnings_of(identity, group, ready, room);
            &&& w.len() == (if identity {
                0int
            } else {
                1
            }) + (if group && ready {
                0int
            } else {
                1
            }) + (if room {
                0int
            } else {
                1
            })
            &&& w.len() == 0 <==> identity && group && ready && room
            &&& !identity ==> w[0] == "persisted state identity does not match configuration"@
            &&& !room ==> w.last()
                == "data-directory budget is below the write-admission watermark"@
        }),
{
}

// ---------------------------------------------------------------------------
// Connections and what they keep
// ---------------------------------------------------------------------------

/// The number of a connection is that of the process and its serial number,
/// turned by seven bits, added up within thirty-two bits, and never zero.
pub proof fn connections_are_numbered(process: u32, serial: u32)
    ensures
        pid_of(process, serial) != 0,
        turned(serial, 7) == serial % 0x200_0000 * 128 + serial / 0x200_0000,
        (process + turned(serial, 7)) % 0x1_0000_0000 != 0 ==> pid_of(process, serial) == (process
            + turned(serial, 7)) % 0x1_0000_0000,
        (process + turned(serial, 7)) % 0x1_0000_0000 == 0 ==> pid_of(process, serial) == 1,
{
    let by = 7u32;
    assert((serial << 7u32) | (serial >> 25u32) == serial % 0x200_0000 * 128 + serial / 0x200_0000)
        by (bit_vector);
    assert((32 - by) as u32 == 25);
}

proof fn lemma_needed(a: Seq<Need>, b: Seq<Need>)
    ensures
        needed(a + b) == needed(a) + needed(b),
    decreases b.len(),
{
    if b.len() == 0 {
        assert(a + b =~= a);
    } else {
        assert((a + b).drop_last() =~= a + b.drop_last());
        lemma_needed(a, b.drop_last());
    }
}

proof fn lemma_needed_one(n: Need)
    ensures
        needed(seq![n]) == n.items * n.size,
{
    assert(seq![n].drop_last() =~= Seq::empty());
    assert(needed(seq![n].drop_last()) == 0);
}

/// The bytes that a value holds beside itself.
pub open spec fn held_by(value: DatumView) -> nat {
    match value {
        DatumView::Text(t) => vstd::utf8::encode_utf8(t).len(),
        DatumView::Jsonb(t) => vstd::utf8::encode_utf8(t).len(),
        DatumView::Bytes(b) => b.len(),
        _ => 0,
    }
}

/// The bytes that a row holds.
pub open spec fn held_by_row(row: Seq<DatumView>) -> nat
    decreases row.len(),
{
    if row.len() == 0 {
        0
    } else {
        held_by_row(row.drop_last()) + size_of::<Datum>() + held_by(row.last())
    }
}

proof fn lemma_values(row: Seq<DatumView>)
    ensures
        needed(row.map_values(|v: DatumView| value_need(v))) + row.len() * size_of::<Datum>()
            == held_by_row(row),
    decreases row.len(),
{
    let needs = row.map_values(|v: DatumView| value_need(v));
    if row.len() > 0 {
        let front = row.drop_last();
        lemma_values(front);
        assert(needs.drop_last() =~= front.map_values(|v: DatumView| value_need(v)));
        let n = value_need(row.last());
        assert(n.items * n.size == held_by(row.last())) by (nonlinear_arith)
            requires
                n.items == held_by(row.last()),
                n.size == 1,
        ;
        assert(row.len() * size_of::<Datum>() == front.len() * size_of::<Datum>() + size_of::<
            Datum,
        >()) by (nonlinear_arith)
            requires
                row.len() == front.len() + 1,
        ;
    }
}

/// A row is counted with every one of its values.
pub proof fn rows_are_counted_whole(row: Seq<DatumView>)
    ensures
        needed(row_needs(row)) == held_by_row(row),
{
    let head = seq![list_need(row.len(), size_of::<Datum>())];
    let tail = row.map_values(|v: DatumView| value_need(v));
    lemma_needed(head, tail);
    lemma_needed_one(head[0]);
    lemma_values(row);
}

/// A portal is counted with its statement, its parameters and its formats, and
/// more where rows are left to send.
pub proof fn portals_are_counted_whole(p: PortalView)
    ensures
        needed(portal_needs(p)) >= vstd::utf8::encode_utf8(p.sql).len() + held_by_row(p.params)
            + p.result_formats.len() * size_of::<u16>(),
        p.pending is None ==> needed(portal_needs(p)) == vstd::utf8::encode_utf8(p.sql).len()
            + held_by_row(p.params) + p.result_formats.len() * size_of::<u16>(),
        p.pending matches Some(r) ==> needed(portal_needs(p)) == vstd::utf8::encode_utf8(
            p.sql,
        ).len() + held_by_row(p.params) + p.result_formats.len() * size_of::<u16>() + needed(
            result_needs(r),
        ),
{
    let a = seq![text_need(p.sql)];
    let b = row_needs(p.params);
    let c = seq![list_need(p.result_formats.len(), size_of::<u16>())];
    let d = match p.pending {
        Some(r) => result_needs(r),
        None => Seq::empty(),
    };
    lemma_needed(a, b);
    lemma_needed(a + b, c);
    lemma_needed(a + b + c, d);
    lemma_needed_one(a[0]);
    lemma_needed_one(c[0]);
    rows_are_counted_whole(p.params);
    assert(size(p.sql) * 1 == size(p.sql));
}

/// The bytes that rows hold.
pub open spec fn held_by_rows(rows: Seq<Seq<DatumView>>) -> nat
    decreases rows.len(),
{
    if rows.len() == 0 {
        0
    } else {
        held_by_rows(rows.drop_last()) + held_by_row(rows.last())
    }
}

proof fn lemma_rows(rows: Seq<Seq<DatumView>>)
    ensures
        needed(rows_needs(rows)) == held_by_rows(rows),
    decreases rows.len(),
{
    if rows.len() > 0 {
        lemma_rows(rows.drop_last());
        rows_are_counted_whole(rows.last());
        lemma_needed(rows_needs(rows.drop_last()), row_needs(rows.last()));
    }
}

/// A result is counted with all of its rows.
pub proof fn results_are_counted_whole(r: crate::pg_message::ResultView)
    ensures
        needed(result_needs(r)) >= held_by_rows(r.rows) + r.rows.len() * size_of::<Vec<Datum>>()
            + vstd::utf8::encode_utf8(r.command_tag).len(),
{
    let a = columns_needs(r.columns);
    let b = seq![list_need(r.rows.len(), size_of::<Vec<Datum>>())];
    let c = rows_needs(r.rows);
    let d = seq![text_need(r.command_tag)];
    let e = seq![list_need(r.notices.len(), size_of::<String>())];
    let f = r.notices.map_values(|t: Seq<char>| text_need(t));
    lemma_needed(a, b);
    lemma_needed(a + b, c);
    lemma_needed(a + b + c, d);
    lemma_needed(a + b + c + d, e);
    lemma_needed(a + b + c + d + e, f);
    lemma_needed_one(b[0]);
    lemma_needed_one(d[0]);
    lemma_rows(r.rows);
    assert(size(r.command_tag) * 1 == size(r.command_tag));
}

} // verus!
