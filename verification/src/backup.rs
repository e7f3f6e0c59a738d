//! Backups that belong to no cluster, and the defaults of a configuration text.

use crate::bytes::copy_bytes;
use crate::ids::LogId;
use crate::names::NameMap;
use crate::snapshot::{
    made, marked_as_backup, meta_view, HeaderView, LogicalSnapshot, MetaView, SnapshotView,
};
use crate::sorting::{in_order, views};
use crate::text::{owned, text_bytes};
use vstd::prelude::*;
use vstd::string::*;
use vstd::utf8::encode_utf8;

verus! {

/// What a store holds.
#[derive(Clone, Debug)]
pub struct StoreContents {
    pub cluster_id: [u8; 16],
    pub cluster_incarnation: u64,
    pub last_applied: LogId,
    pub membership_log_id: LogId,
    pub voters: Vec<u64>,
    pub learners: Vec<u64>,
    /// What is remembered of the origins of requests, written out.
    pub origins: Vec<u8>,
    pub db_epoch: u64,
    pub catalog_epoch: u64,
    /// The catalog, written out.
    pub catalog: Vec<u8>,
    pub entries: Vec<(Vec<u8>, Vec<u8>)>,
}

/// What a [`StoreContents`] says.
#[verifier::ext_equal]
pub struct ContentsView {
    pub cluster_id: Seq<u8>,
    pub cluster_incarnation: u64,
    pub last_applied: LogId,
    pub membership_log_id: LogId,
    pub voters: Seq<u64>,
    pub learners: Seq<u64>,
    pub origins: Seq<u8>,
    pub db_epoch: u64,
    pub catalog_epoch: u64,
    pub catalog: Seq<u8>,
    pub entries: Seq<(Seq<u8>, Seq<u8>)>,
}

impl View for StoreContents {
    type V = ContentsView;

    open spec fn view(&self) -> ContentsView {
        ContentsView {
            cluster_id: self.cluster_id@,
            cluster_incarnation: self.cluster_incarnation,
            last_applied: self.last_applied,
            membership_log_id: self.membership_log_id,
            voters: self.voters@,
            learners: self.learners@,
            origins: self.origins@,
            db_epoch: self.db_epoch,
            catalog_epoch: self.catalog_epoch,
            catalog: self.catalog@,
            entries: views(self.entries@),
        }
    }
}

/// What of a store's contents is written out as the state of a backup: nothing
/// of the cluster, of the log position, of the members, of the origins of
/// requests, and none of the entries, which a backup holds by themselves.
pub open spec fn backed_up(c: ContentsView) -> ContentsView {
    ContentsView {
        cluster_id: Seq::new(16, |i: int| 0u8),
        cluster_incarnation: 1,
        last_applied: LogId::zero(),
        membership_log_id: LogId::zero(),
        voters: Seq::empty(),
        learners: Seq::empty(),
        origins: Seq::empty(),
        entries: Seq::empty(),
        ..c
    }
}

impl StoreContents {
    /// What is written out as the state of a backup.
    pub fn state_to_back_up(&self) -> (state: StoreContents)
        ensures
            state@ == backed_up(self@),
    {
        let nobody: [u8; 16] = [0;16];
        assert(nobody@ =~= Seq::new(16, |i: int| 0u8));
        let state = StoreContents {
            cluster_id: nobody,
            cluster_incarnation: 1,
            last_applied: LogId::zero(),
            membership_log_id: LogId::zero(),
            voters: Vec::new(),
            learners: Vec::new(),
            origins: Vec::new(),
            db_epoch: self.db_epoch,
            catalog_epoch: self.catalog_epoch,
            catalog: copy_bytes(self.catalog.as_slice()),
            entries: Vec::new(),
        };
        assert(state@ =~= backed_up(self@));
        state
    }
}

/// What a backup holds besides its entries: the mark of a backup, and the
/// state.
pub open spec fn backup_meta(state: Seq<u8>) -> MetaView {
    Map::empty().insert("backup_kind"@, encode_utf8("chorus-logical-backup-v1"@)).insert(
        "state"@,
        state,
    )
}

/// A backup: the parts of a snapshot without a cluster, a log position or
/// members.
pub open spec fn backup_of(
    state: Seq<u8>,
    db_epoch: u64,
    catalog_epoch: u64,
    entries: Seq<(Seq<u8>, Seq<u8>)>,
) -> SnapshotView {
    made(
        SnapshotView {
            header: HeaderView {
                format_version: 1,
                cluster_id: Seq::new(16, |i: int| 0u8),
                cluster_incarnation: 1,
                last_included: LogId::zero(),
                membership_log_id: LogId::zero(),
                voters: Seq::empty(),
                learners: Seq::empty(),
                db_epoch: db_epoch as nat,
                catalog_epoch: catalog_epoch as nat,
                entry_count: 0,
                uncompressed_bytes: 0,
                digest: Seq::empty(),
            },
            meta: backup_meta(state),
            entries,
        },
    )
}

/// Makes a backup of a store's contents; `state` is what
/// [`StoreContents::state_to_back_up`] gives of them, written out. A restore
/// binds the backup to the cluster that it goes into.
pub fn logical_backup_from_store(contents: StoreContents, state: Vec<u8>) -> (backup:
    LogicalSnapshot)
    ensures
        backup@ == backup_of(
            state@,
            contents.db_epoch,
            contents.catalog_epoch,
            contents@.entries,
        ),
{
    let ghost bytes = state@;
    let mut meta: NameMap<Vec<u8>> = NameMap::new();
    meta.insert(owned("backup_kind"), text_bytes("chorus-logical-backup-v1"));
    meta.insert(owned("state"), state);
    assert(meta_view(meta) =~= backup_meta(bytes));
    let none: Vec<u64> = Vec::new();
    let also_none: Vec<u64> = Vec::new();
    assert(none@ =~= Seq::<u64>::empty());
    assert(also_none@ =~= Seq::<u64>::empty());
    let nobody: [u8; 16] = [0;16];
    assert(nobody@ =~= Seq::new(16, |i: int| 0u8));
    LogicalSnapshot::new(
        nobody,
        1,
        LogId::zero(),
        LogId::zero(),
        none,
        also_none,
        contents.db_epoch,
        contents.catalog_epoch,
        meta,
        contents.entries,
    )
}

/// The backup of a store's contents, where `write` writes states out.
pub open spec fn backup_from(c: ContentsView, write: spec_fn(ContentsView) -> Seq<u8>) -> SnapshotView {
    backup_of(write(backed_up(c)), c.db_epoch, c.catalog_epoch, c.entries)
}

/// A backup belongs to no cluster: two stores that agree on their epochs, their
/// catalog and their entries have equal backups, whatever their cluster, log
/// position, members and origins are, and however states are written out.
pub proof fn backups_forget_the_cluster(
    a: ContentsView,
    b: ContentsView,
    write: spec_fn(ContentsView) -> Seq<u8>,
)
    requires
        a.db_epoch == b.db_epoch,
        a.catalog_epoch == b.catalog_epoch,
        a.catalog == b.catalog,
        a.entries == b.entries,
    ensures
        backup_from(a, write) == backup_from(b, write),
{
    assert(backed_up(a) =~= backed_up(b));
}

/// A backup holds the entries of the store in the order of their keys, and
/// nothing of the cluster that it comes from.
pub proof fn backups_hold_the_entries(c: ContentsView, write: spec_fn(ContentsView) -> Seq<u8>)
    ensures
        ({
            let backup = backup_from(c, write);
            &&& backup.entries == in_order(c.entries)
            &&& backup.header.cluster_id == Seq::new(16, |i: int| 0u8)
            &&& backup.header.cluster_incarnation == 1
            &&& backup.header.last_included == LogId::zero()
            &&& backup.header.membership_log_id == LogId::zero()
            &&& backup.header.voters.len() == 0
            &&& backup.header.learners.len() == 0
            &&& backup.meta == backup_meta(write(backed_up(c)))
            &&& backed_up(c).entries.len() == 0
            &&& marked_as_backup(backup)
        }),
{
    backups_are_marked(write(backed_up(c)), c.db_epoch, c.catalog_epoch, c.entries);
}

/// Every backup is marked as one.
pub proof fn backups_are_marked(
    state: Seq<u8>,
    db_epoch: u64,
    catalog_epoch: u64,
    entries: Seq<(Seq<u8>, Seq<u8>)>,
)
    ensures
        marked_as_backup(backup_of(state, db_epoch, catalog_epoch, entries)),
{
    reveal_strlit("backup_kind");
    reveal_strlit("state");
    assert("backup_kind"@.len() != "state"@.len());
}

/// A table with the defaults from the `i`th on for the names that it lacks.
pub open spec fn with_defaults<T>(
    table: Map<Seq<char>, T>,
    defaults: Seq<(String, T)>,
    i: int,
) -> Map<Seq<char>, T>
    decreases defaults.len() - i,
{
    if i < 0 || i >= defaults.len() {
        table
    } else {
        let name = defaults[i].0@;
        with_defaults(
            if table.dom().contains(name) {
                table
            } else {
                table.insert(name, defaults[i].1)
            },
            defaults,
            i + 1,
        )
    }
}

/// Gives a section of a configuration text the defaults for what it leaves
/// out.
#[verifier::loop_isolation(false)]
pub fn merge_toml_table<T>(table: &mut NameMap<T>, defaults: Vec<(String, T)>)
    ensures
        final(table)@ == with_defaults(old(table)@, defaults@, 0),
{
    let ghost all = defaults@;
    let ghost whole = with_defaults(table@, all, 0);
    // The list is turned round, so that its items come off the end in order.
    let mut rest: Vec<(String, T)> = Vec::new();
    let mut given = defaults;
    while given.len() > 0
        invariant
            given@ + rest@.reverse() == all,
        decreases given@.len(),
    {
        let ghost before = given@ + rest@.reverse();
        match given.pop() {
            Some(item) => {
                rest.push(item);
            },
            None => {},
        }
        assert(given@ + rest@.reverse() =~= before);
    }
    assert(rest@.reverse() =~= all);
    while rest.len() > 0
        invariant
            rest@.len() <= all.len(),
            rest@.reverse() == all.subrange(all.len() - rest@.len(), all.len() as int),
            with_defaults(table@, all, all.len() - rest@.len()) == whole,
        decreases rest@.len(),
    {
        let ghost at = all.len() - rest@.len();
        let ghost left = rest@;
        match rest.pop() {
            Some((name, value)) => {
                assert(left.reverse()[0] == left.last());
                assert(all[at] == (name, value));
                if !table.contains_key(name.as_str()) {
                    table.insert(name, value);
                }
                assert(rest@.reverse() =~= left.reverse().drop_first());
                assert(rest@.reverse() =~= all.subrange(at + 1, all.len() as int));
            },
            None => {},
        }
    }
}

/// Defaults never change what a section says, and after merging every default
/// name is there.
pub proof fn defaults_only_fill_gaps<T>(
    table: Map<Seq<char>, T>,
    defaults: Seq<(String, T)>,
    i: int,
)
    requires
        0 <= i <= defaults.len(),
    ensures
        forall|name: Seq<char>| #[trigger]
            table.dom().contains(name) ==> with_defaults(table, defaults, i).dom().contains(name)
                && with_defaults(table, defaults, i)[name] == table[name],
        forall|k: int|
            i <= k < defaults.len() ==> with_defaults(table, defaults, i).dom().contains(
                (#[trigger] defaults[k]).0@,
            ),
    decreases defaults.len() - i,
{
    if i < defaults.len() {
        let name = defaults[i].0@;
        let next = if table.dom().contains(name) {
            table
        } else {
            table.insert(name, defaults[i].1)
        };
        let all = with_defaults(table, defaults, i);
        assert(all == with_defaults(next, defaults, i + 1));
        defaults_only_fill_gaps(next, defaults, i + 1);
        assert(next.dom().contains(name));
        assert forall|n: Seq<char>| #[trigger] table.dom().contains(n) implies all.dom().contains(n)
            && all[n] == table[n] by {
            assert(next.dom().contains(n) && next[n] == table[n]);
        }
        assert forall|k: int| i <= k < defaults.len() implies all.dom().contains(
            (#[trigger] defaults[k]).0@,
        ) by {}
    }
}

} // verus!
