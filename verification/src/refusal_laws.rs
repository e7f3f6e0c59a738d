//! What is refused and with which code, what a failed step leaves behind, and
//! what the bounds of stored bytes are.

use crate::appending::{
    append_next, append_start, AppendActionView, AppendEventView, AppendView,
};
use crate::bytes::{be, be_reads_back, be_value, lemma_be_len, lemma_span};
use crate::config::InitialNode;
use crate::endpoint::endpoint_outcome;
use crate::error::{ChorusErrorView, CodecErrorView, SqlErrorView};
use crate::files::path_join;
use crate::ids::{hash_of, LogId};
use crate::key::{escaped, value_key};
use crate::datum::DatumView;
use crate::node_plan::{member_word, one_more, MemberCommand};
use crate::node_run::endpoint_of;
use crate::peers::address_of;
use crate::pg_client_laws::has_code;
use crate::pg_execute::{asks_run, asks_shape, Question};
use crate::pg_execute::describe_fields;
use crate::pg_fields::execute_fields;
use crate::pg_message::error_view;
use crate::pg_message::row_values;
use crate::pg_query::says_nothing;
use crate::pg_retained::Block;
use crate::pg_session::{bind_fields, bound, parse_plan, parsed, ConnectionView};
use crate::pg_fields::parse_fields;
use crate::pg_values::FloatReadings;
use crate::pg_startup::{negotiation, reserved_options, ParamList};
use crate::pg_wire_laws::{numbers_stand_highest_byte_first, wire_u32};
use crate::proposal::ProposalPhase;
use crate::replication::{ReplicationGoal, ReplicationPhase};
use crate::snapshot_stream::{
    block_count, block_len, file_frame, legacy_magic, stream_magic, SnapshotFileView,
};
use vstd::prelude::*;
use vstd::string::*;
use vstd::utf8::encode_utf8;

verus! {

// ---------------------------------------------------------------------------
// Appending
// ---------------------------------------------------------------------------

/// An entry that is to be prepared was just seen to be the leader's, and is
/// looked at once more; one that is to be acknowledged is looked at twice.
pub proof fn replications_look_before_they_ask(
    node_id: u64,
    endpoints: Seq<(u64, String)>,
    a: AppendView,
    event: AppendEventView,
    term: u64,
    pending: Option<(LogId, bool)>,
    same: bool,
    current: LogId,
)
    ensures
        a.replication is None ==> {
            let (after, _) = append_next(node_id, endpoints, a, event);
            after.replication matches Some(r) ==> {
                &&& r.phase == ReplicationPhase::ObservingAgain || r.phase
                    == ReplicationPhase::Observing
                &&& r.phase == ReplicationPhase::ObservingAgain <==> r.goal
                    == ReplicationGoal::Prepare
                &&& r.electorate is None && r.prepared is None && r.round is None
            }
        },
        append_start(node_id, term, pending, same, current) matches Ok((begun, _))
            ==> (begun.replication matches Some(r) ==> r.phase == ReplicationPhase::Observing
            && r.goal == ReplicationGoal::Acknowledge),
{
}

/// The pending entry is said to be gone exactly where it was acknowledged and
/// another one comes next.
pub proof fn pending_entries_are_cleared_once(
    node_id: u64,
    endpoints: Seq<(u64, String)>,
    a: AppendView,
    event: AppendEventView,
)
    ensures
        ({
            let (after, action) = append_next(node_id, endpoints, a, event);
            action matches AppendActionView::Observe { cleared } ==> (cleared <==> a.proposal.phase
                == ProposalPhase::ReplicatingPending && after.proposal.phase
                == ProposalPhase::Observing)
        }),
{
}

/// What fails before an entry was applied leaves nothing pending. An entry that
/// was pending stays so, one that was applied and not acknowledged is rolled
/// back and stays pending, and the first reason is told.
pub proof fn failed_appends_are_told(
    node_id: u64,
    endpoints: Seq<(u64, String)>,
    a: AppendView,
    e: ChorusErrorView,
)
    requires
        a.replication is None,
        a.fault is None,
    ensures
        ({
            let (after, action) = append_next(
                node_id,
                endpoints,
                a,
                AppendEventView::Failed(e),
            );
            match a.proposal.phase {
                ProposalPhase::Observing | ProposalPhase::Preparing | ProposalPhase::Applying =>
                action == (AppendActionView::Fail { error: e, pending: false }),
                ProposalPhase::ReapplyingPending | ProposalPhase::ReplicatingPending
                | ProposalPhase::RollingBack => action == (AppendActionView::Fail {
                    error: e,
                    pending: true,
                }),
                ProposalPhase::Replicating => action == AppendActionView::Rollback && after.fault
                    == Some(e) && after.proposal.phase == ProposalPhase::RollingBack,
                ProposalPhase::Finished => action is Fail,
            }
        }),
{
}

/// An answer that was not asked for carries no append on: it ends it, or takes
/// back what was applied.
pub proof fn strange_answers_carry_nothing_on(
    node_id: u64,
    endpoints: Seq<(u64, String)>,
    a: AppendView,
    answer: crate::network::RoundEvent,
)
    requires
        a.replication is None,
    ensures
        ({
            let (_, action) = append_next(node_id, endpoints, a, AppendEventView::Answered(answer));
            action is Fail || (action is Rollback && a.proposal.phase == ProposalPhase::Replicating)
        }),
{
}

/// Once an entry is rolled back, the reason that it was not acknowledged is
/// told, and it stays pending.
pub proof fn rolled_back_entries_stay_pending(
    node_id: u64,
    endpoints: Seq<(u64, String)>,
    a: AppendView,
    e: ChorusErrorView,
    event: AppendEventView,
)
    requires
        a.replication is None,
        a.fault == Some(e),
        a.proposal.phase == ProposalPhase::RollingBack,
    ensures
        append_next(node_id, endpoints, a, event).1 == (AppendActionView::Fail {
            error: e,
            pending: true,
        }),
{
}

// ---------------------------------------------------------------------------
// Sessions
// ---------------------------------------------------------------------------

/// Whether a message was refused with one error of a code, and nothing that is
/// kept changed.
pub open spec fn refuses(
    c: ConnectionView,
    done: (ConnectionView, crate::pg_message::MessageView),
    code: Seq<char>,
) -> bool {
    &&& done.0 == (ConnectionView { failed: true, ..c })
    &&& exists|e: SqlErrorView| #[trigger]
        has_code(e, code) && done.1 == error_view("ERROR"@, e)
}

/// A statement of more than 1 MiB is refused, as is one under a name that is
/// taken, and one under another name where 256 are.
pub proof fn unfit_statements_are_refused(
    c: ConnectionView,
    body: Seq<u8>,
    refusal: Option<SqlErrorView>,
)
    ensures
        parse_fields(body) matches Ok((name, sql, _)) ==> {
            let large = encode_utf8(sql).len() > 1_048_576;
            let taken = name.len() > 0 && c.prepared.dom().contains(name);
            let named = c.prepared.dom().remove(Seq::empty());
            let full = name.len() > 0 && !c.prepared.dom().contains(name) && named.len() >= 256;
            &&& large ==> refuses(c, parsed(c, body, refusal), "54000"@)
            &&& !large && taken ==> refuses(c, parsed(c, body, refusal), "42P05"@)
            &&& !large && full ==> refuses(c, parsed(c, body, refusal), "54000"@)
        },
        parse_fields(body) matches Err(e) ==> refuses(c, parsed(c, body, refusal), e.code),
{
    if let Err(e) = parse_plan(c, body) {
        assert(has_code(e, e.code));
        assert(refuses(c, parsed(c, body, refusal), e.code));
    }
}

/// A portal of a statement that does not exist is refused, as is one under a
/// name that is taken, and one under another name where 256 are.
pub proof fn unfit_portals_are_refused(
    c: ConnectionView,
    body: Seq<u8>,
    floats: FloatReadings,
    blocks: Seq<Block>,
)
    ensures
        bind_fields(c, body, floats) matches Ok((name, _)) ==> {
            let taken = name.len() > 0 && c.portals.dom().contains(name);
            let named = c.portals.dom().remove(Seq::empty());
            let full = name.len() > 0 && !c.portals.dom().contains(name) && named.len() >= 256;
            &&& taken ==> refuses(c, bound(c, body, floats, blocks), "42P03"@)
            &&& full ==> refuses(c, bound(c, body, floats, blocks), "54000"@)
        },
        bind_fields(c, body, floats) matches Err(e) ==> refuses(
            c,
            bound(c, body, floats, blocks),
            e.code,
        ),
        crate::pg_fields::bind_start(body) matches Ok((_, statement, _, count, _)) ==> {
            &&& !c.prepared.dom().contains(statement) ==> refuses(
                c,
                bound(c, body, floats, blocks),
                "26000"@,
            )
            &&& c.prepared.dom().contains(statement) && count != c.prepared[statement].types.len()
                ==> refuses(c, bound(c, body, floats, blocks), "08P01"@)
        },
{
    let taken = crate::error::sql_error("42P03"@, "portal already exists"@);
    let full = crate::error::sql_error("54000"@, "too many named portals"@);
    assert(has_code(taken, "42P03"@));
    assert(has_code(full, "54000"@));
    if let Err(e) = bind_fields(c, body, floats) {
        assert(has_code(e, e.code));
        assert(refuses(c, bound(c, body, floats, blocks), e.code));
    }
}

/// What is to be run is asked of the database exactly where its portal exists,
/// has no rows left from before, and says anything: the statement with its
/// parameters.
pub proof fn portals_are_run_once(c: ConnectionView, body: Seq<u8>, name: Seq<char>, limit: nat)
    requires
        execute_fields(body) matches Ok((n, _)) && n == name,
    ensures
        asks_run(c, body, None) <==> !(c.portals.dom().contains(name)
            && c.portals[name].pending is None && !says_nothing(c.portals[name].sql)),
        forall|q: Question| #[trigger]
            asks_run(c, body, Some(q)) ==> q.sql@ == c.portals[name].sql && row_values(q.params)
                == c.portals[name].params,
{
}

/// The columns of a statement or a portal are asked of the database exactly
/// where it exists and says anything, and not of a portal that ran.
pub proof fn shapes_are_asked_for(c: ConnectionView, body: Seq<u8>, kind: u8, name: Seq<char>)
    requires
        describe_fields(body) == Ok::<_, SqlErrorView>((kind, name)),
    ensures
        kind == 'P' as u8 ==> (asks_shape(c, body, None) <==> !(c.portals.dom().contains(name)
            && c.portals[name].pending is None && !says_nothing(c.portals[name].sql))),
        kind == 'S' as u8 ==> (asks_shape(c, body, None) <==> !(c.prepared.dom().contains(name)
            && !says_nothing(c.prepared[name].sql))),
        forall|q: Question|
            kind == 'S' as u8 && #[trigger] asks_shape(c, body, Some(q)) ==> q.sql@
                == c.prepared[name].sql && q.types@ == c.prepared[name].types,
{
}

proof fn lemma_reserved(list: ParamList)
    ensures
        reserved_options(list) == list.filter(
            |p: (Seq<char>, Seq<char>)| is_reserved(p.0),
        ).map_values(|p: (Seq<char>, Seq<char>)| p.0),
    decreases list.len(),
{
    reveal(Seq::filter);
    reveal_strlit("_pq_.");
    let name = |p: (Seq<char>, Seq<char>)| p.0;
    let reserved = |p: (Seq<char>, Seq<char>)| is_reserved(p.0);
    if list.len() == 0 {
        assert(reserved_options(list) =~= list.filter(reserved).map_values(name));
    } else {
        let front = list.drop_last();
        lemma_reserved(front);
        let text = list.last().0;
        assert(crate::transport::begins_with(text, "_pq_."@) == is_reserved(text)) by {
            if text.len() >= 5 {
                let start = text.subrange(0, 5);
                assert(start[0] == text[0] && start[1] == text[1] && start[2] == text[2] && start[3]
                    == text[3] && start[4] == text[4]);
                if is_reserved(text) {
                    assert(start =~= "_pq_."@);
                }
            }
        }
        assert(front.filter(reserved).push(list.last()).map_values(name) =~= front.filter(
            reserved,
        ).map_values(name).push(text));
    }
}

/// Whether a parameter asks for an option of the protocol.
pub open spec fn is_reserved(name: Seq<char>) -> bool {
    name.len() >= 5 && name[0] == '_' && name[1] == 'p' && name[2] == 'q' && name[3] == '_'
        && name[4] == '.'
}

/// A client that asks for the second version of the protocol, or for options of
/// it, is told that the first one is spoken and which options are not known, in
/// their order; every other client is told nothing.
pub proof fn protocols_are_negotiated(code: u32, list: ParamList)
    requires
        list.len() <= u32::MAX,
    ensures
        ({
            let options = list.filter(|p: (Seq<char>, Seq<char>)| is_reserved(p.0));
            let told = negotiation(code, list);
            &&& told.len() == 0 <==> code != 0x3_0002 && options.len() == 0
            &&& told.len() > 0 ==> {
                &&& told.len() == 1
                &&& told[0].kind == 'v' as u8
                &&& told[0].body.len() >= 8
                &&& wire_u32(told[0].body, 0) == 0x3_0000
                &&& wire_u32(told[0].body, 4) == options.len()
                &&& told[0].body.subrange(8, told[0].body.len() as int) == names_ended(
                    options.map_values(|p: (Seq<char>, Seq<char>)| p.0),
                )
            }
        }),
{
    let options = list.filter(|p: (Seq<char>, Seq<char>)| is_reserved(p.0));
    let names = options.map_values(|p: (Seq<char>, Seq<char>)| p.0);
    lemma_reserved(list);
    list.lemma_filter_len(|p: (Seq<char>, Seq<char>)| is_reserved(p.0));
    lemma_span();
    let told = negotiation(code, list);
    if told.len() > 0 {
        be_reads_back(0x3_0000, 4);
        be_reads_back(options.len(), 4);
        let (a, b) = (be(0x3_0000, 4), be(options.len(), 4));
        lemma_be_len(0x3_0000, 4);
        lemma_be_len(options.len(), 4);
        numbers_stand_highest_byte_first(a);
        numbers_stand_highest_byte_first(b);
        let rest = crate::pg_startup::ended_all(names);
        let body = a + b + rest;
        assert(told[0].body == body);
        assert(body[0] == a[0] && body[1] == a[1] && body[2] == a[2] && body[3] == a[3]);
        assert(body[4] == b[0] && body[5] == b[1] && body[6] == b[2] && body[7] == b[3]);
        assert(body.subrange(8, body.len() as int) =~= rest);
        lemma_ended(names);
    }
}

/// Names with a zero byte behind each of them.
pub open spec fn names_ended(names: Seq<Seq<char>>) -> Seq<u8>
    decreases names.len(),
{
    if names.len() == 0 {
        Seq::empty()
    } else {
        names_ended(names.drop_last()) + encode_utf8(names.last()) + seq![0u8]
    }
}

proof fn lemma_ended(names: Seq<Seq<char>>)
    ensures
        crate::pg_startup::ended_all(names) == names_ended(names),
    decreases names.len(),
{
    if names.len() > 0 {
        lemma_ended(names.drop_last());
        assert(crate::pg_startup::ended_all(names) =~= names_ended(names));
    }
}

// ---------------------------------------------------------------------------
// Names, paths and nodes
// ---------------------------------------------------------------------------

/// The second word names what is to be done with the members, and without one
/// they are listed.
pub proof fn words_name_member_commands(word: Seq<char>)
    ensures
        member_word(None) == Some(MemberCommand::List),
        member_word(Some("list"@)) == Some(MemberCommand::List),
        member_word(Some("add-learner"@)) == Some(MemberCommand::AddLearner),
        member_word(Some("promote"@)) == Some(MemberCommand::Promote),
        member_word(Some("demote"@)) == Some(MemberCommand::Demote),
        member_word(Some("remove"@)) == Some(MemberCommand::Remove),
        ![
            "list"@,
            "add-learner"@,
            "promote"@,
            "demote"@,
            "remove"@,
        ]@.contains(word) ==> member_word(Some(word)) is None,
{
    reveal_strlit("list");
    reveal_strlit("add-learner");
    reveal_strlit("promote");
    reveal_strlit("demote");
    reveal_strlit("remove");
    assert("list"@.len() == 4 && "add-learner"@.len() == 11 && "promote"@.len() == 7
        && "demote"@.len() == 6 && "remove"@.len() == 6);
    assert("demote"@[0] == 'd' && "remove"@[0] == 'r');
    let all = ["list"@, "add-learner"@, "promote"@, "demote"@, "remove"@]@;
    assert(all[0] == "list"@ && all[1] == "add-learner"@ && all[2] == "promote"@ && all[3]
        == "demote"@ && all[4] == "remove"@);
}

/// A name stands behind its directory and a solidus.
pub proof fn names_stand_behind_their_directory(dir: Seq<char>, name: Seq<char>)
    ensures
        dir.len() == 0 ==> path_join(dir, name) == name,
        dir.len() > 0 && dir.last() == '/' ==> path_join(dir, name) == dir + name,
        dir.len() > 0 && dir.last() != '/' ==> path_join(dir, name) == dir.push('/') + name,
{
    reveal_strlit("/");
    assert(dir + "/"@ =~= dir.push('/'));
    if dir.len() == 0 {
        assert(dir + name =~= name);
    }
}

/// A node is reached at the address that stands beside its number; where it is
/// listed more than once, at the last one.
pub proof fn nodes_are_reached_at_their_address(nodes: Seq<InitialNode>, id: u64, i: int)
    requires
        0 <= i < nodes.len(),
        nodes[i].node_id == id,
        forall|j: int| i < j < nodes.len() ==> (#[trigger] nodes[j]).node_id != id,
    ensures
        endpoint_of(nodes, nodes.len() as int, id) == Some(nodes[i].endpoint@),
        endpoint_outcome(nodes[i].endpoint@) matches Ok((address, _)) ==> address_of(nodes, id)
            == Some(address),
    decreases nodes.len(),
{
    lemma_endpoint(nodes, nodes.len() as int, id, i);
    if i < nodes.len() - 1 {
        let front = nodes.drop_last();
        assert(nodes[nodes.len() - 1].node_id != id);
        assert forall|j: int| i < j < front.len() implies (#[trigger] front[j]).node_id != id by {
            assert(front[j] == nodes[j]);
        }
        nodes_are_reached_at_their_address(front, id, i);
    }
}

proof fn lemma_endpoint(nodes: Seq<InitialNode>, n: int, id: u64, i: int)
    requires
        0 <= i < n <= nodes.len(),
        nodes[i].node_id == id,
        forall|j: int| i < j < n ==> (#[trigger] nodes[j]).node_id != id,
    ensures
        endpoint_of(nodes, n, id) == Some(nodes[i].endpoint@),
    decreases n,
{
    if i < n - 1 {
        assert(nodes[n - 1].node_id != id);
        lemma_endpoint(nodes, n - 1, id, i);
    }
}

/// A node that is not listed has no address.
pub proof fn strangers_have_no_address(nodes: Seq<InitialNode>, id: u64)
    requires
        forall|j: int| 0 <= j < nodes.len() ==> (#[trigger] nodes[j]).node_id != id,
    ensures
        endpoint_of(nodes, nodes.len() as int, id) is None,
        address_of(nodes, id) is None,
    decreases nodes.len(),
{
    lemma_no_endpoint(nodes, nodes.len() as int, id);
    if nodes.len() > 0 {
        let front = nodes.drop_last();
        assert(nodes[nodes.len() - 1].node_id != id);
        assert forall|j: int| 0 <= j < front.len() implies (#[trigger] front[j]).node_id != id by {
            assert(front[j] == nodes[j]);
        }
        strangers_have_no_address(front, id);
    }
}

proof fn lemma_no_endpoint(nodes: Seq<InitialNode>, n: int, id: u64)
    requires
        n <= nodes.len(),
        forall|j: int| 0 <= j < n ==> (#[trigger] nodes[j]).node_id != id,
    ensures
        endpoint_of(nodes, n, id) is None,
    decreases n,
{
    if n > 0 {
        assert(nodes[n - 1].node_id != id);
        lemma_no_endpoint(nodes, n - 1, id);
    }
}

/// An epoch goes up by one, and stays where it cannot.
pub proof fn epochs_go_up_by_one(value: u64)
    ensures
        value < u64::MAX ==> one_more(value) == value + 1,
        value == u64::MAX ==> one_more(value) == u64::MAX,
{
}

// ---------------------------------------------------------------------------
// Bounds of stored bytes
// ---------------------------------------------------------------------------

proof fn lemma_escapes(bytes: Seq<u8>)
    ensures
        escaped(bytes).len() == bytes.len() + bytes.filter(|b: u8| b == 0).len(),
    decreases bytes.len(),
{
    let zero = |b: u8| b == 0;
    if bytes.len() == 0 {
        reveal(Seq::filter);
    } else {
        let rest = bytes.drop_first();
        lemma_escapes(rest);
        let first = seq![bytes[0]];
        Seq::filter_distributes_over_add(first, rest, zero);
        assert(first + rest =~= bytes);
        assert(first.filter(zero).len() == (if bytes[0] == 0 {
            1nat
        } else {
            0nat
        })) by {
            reveal(Seq::filter);
            assert(first.drop_last() =~= Seq::empty());
            assert(first.drop_last().filter(zero).len() == 0);
        }
    }
}

/// A text or a byte string has a key exactly where it takes at most 4,095 bytes,
/// every zero byte counted twice.
pub proof fn long_values_have_no_key(d: DatumView, bytes: Seq<u8>, descending: bool)
    requires
        d == DatumView::Bytes(bytes) || (d matches DatumView::Text(t) && encode_utf8(t) == bytes),
    ensures
        value_key(d, descending) is Ok <==> bytes.len() + bytes.filter(|b: u8| b == 0).len()
            <= 4_095,
        value_key(d, descending) is Err ==> value_key(d, descending)->Err_0 is Limit,
{
    lemma_escapes(bytes);
    bytes.lemma_filter_len(|b: u8| b == 0);
}

/// A snapshot is cut into blocks of 1 MiB, all of them full but for the last,
/// and as few as hold it.
pub proof fn blocks_are_full_but_the_last(body: Seq<u8>)
    ensures
        body.len() >= 1_048_576 ==> block_len(body) == 1_048_576,
        body.len() < 1_048_576 ==> block_len(body) == body.len(),
        block_count(body) * 1_048_576 >= body.len(),
        body.len() > 0 ==> (block_count(body) - 1) * 1_048_576 < body.len(),
        body.len() == 0 ==> block_count(body) == 0,
{
}

/// The bytes of words, as far as they are ASCII.
pub open spec fn ascii_bytes(word: Seq<char>) -> Seq<u8> {
    word.map_values(|c: char| c as u8)
}

/// A file is a stream of blocks where it begins with its name in sixteen bytes,
/// its version, and a header behind its length; what comes behind are the
/// blocks.
pub proof fn streams_begin_with_their_header(header: Seq<u8>, rest: Seq<u8>)
    requires
        0 < header.len() <= 1_048_576,
        21 + header.len() + rest.len() <= 268_435_456,
        21 + header.len() + rest.len() >= 52,
    ensures
        file_frame(
            ascii_bytes(
                seq!['C', 'H', 'O', 'R', 'U', 'S', '-', 'S', 'N', 'A', 'P', '2', '\0', '\0', '\0', '\0'],
            ) + seq![2u8] + be(header.len(), 4) + header + rest,
        ) == Ok::<_, CodecErrorView>(SnapshotFileView::Stream { header_json: header, rest }),
{
    let name = ascii_bytes(
        seq!['C', 'H', 'O', 'R', 'U', 'S', '-', 'S', 'N', 'A', 'P', '2', '\0', '\0', '\0', '\0'],
    );
    assert(name =~= stream_magic());
    lemma_span();
    lemma_be_len(header.len(), 4);
    be_reads_back(header.len(), 4);
    let file = name + seq![2u8] + be(header.len(), 4) + header + rest;
    assert(file.subrange(0, 16) =~= name);
    let a = file.subrange(16, file.len() as int);
    assert(a.subrange(0, 1) =~= seq![2u8]);
    reveal_with_fuel(be_value, 2);
    assert(seq![2u8].drop_last() =~= Seq::empty());
    assert(be_value(seq![2u8]) == 2);
    let b = a.subrange(1, a.len() as int);
    assert(b.subrange(0, 4) =~= be(header.len(), 4));
    let c = b.subrange(4, b.len() as int);
    assert(c.subrange(0, header.len() as int) =~= header);
    assert(c.subrange(header.len() as int, c.len() as int) =~= rest);
}

/// A file of the first version is its name in sixteen bytes, a document behind
/// its length, and the digest of the document.
pub proof fn old_snapshots_are_read(json: Seq<u8>)
    requires
        json.len() <= 268_435_404,
    ensures
        file_frame(
            ascii_bytes(
                seq!['C', 'H', 'O', 'R', 'U', 'S', '-', 'S', 'N', 'A', 'P', 'S', 'H', 'O', 'T', '\0'],
            ) + be(json.len(), 4) + json + hash_of(json),
        ) == Ok::<_, CodecErrorView>(SnapshotFileView::Legacy { json }),
{
    let name = ascii_bytes(
        seq!['C', 'H', 'O', 'R', 'U', 'S', '-', 'S', 'N', 'A', 'P', 'S', 'H', 'O', 'T', '\0'],
    );
    assert(name =~= legacy_magic());
    assert(name[11] != stream_magic()[11]);
    lemma_span();
    lemma_be_len(json.len(), 4);
    be_reads_back(json.len(), 4);
    let file = name + be(json.len(), 4) + json + hash_of(json);
    assert(file.subrange(0, 16) =~= name);
    let a = file.subrange(16, file.len() as int);
    assert(a.subrange(0, 4) =~= be(json.len(), 4));
    let b = a.subrange(4, a.len() as int);
    assert(b.subrange(0, json.len() as int) =~= json);
    let c = b.subrange(json.len() as int, b.len() as int);
    assert(c.subrange(0, 32) =~= hash_of(json));
    assert(c.subrange(32, c.len() as int).len() == 0);
}

} // verus!
