//! Logical snapshots: what they hold, when they are valid, and their stream.

use crate::bytes::{
    be, bytes_less, copy_bytes, lex_less, lex_total, lex_transitive, put_bytes, put_u32,
};
use crate::error::{CodecError, CodecErrorView};
use crate::ids::{hash32, hash_of, LogId};
use crate::limits::MAX_KEY_BYTES;
use crate::names::{list_is_unique, name_before, names_ascend, table_of, has_name, value_of, NameMap};
use crate::sorting::{in_order, sort, views, Ranked, SortItem};
use crate::text::{same_bytes, utf8_text};
use crate::wire::{first_bytes, first_number, take, take_u32, take_u8, Parsed};
use std::collections::BTreeSet;
use vstd::prelude::*;
use vstd::string::*;
use vstd::utf8::*;

verus! {

pub const SNAPSHOT_VERSION: u16 = 1;

/// A snapshot whose body or stream is longer is refused.
pub const MAX_SNAPSHOT_BYTES: usize = 268_435_456;

pub const MAX_SNAPSHOT_ENTRIES: usize = 10_000_000;

pub const SNAPSHOT_BODY_VERSION: u8 = 1;

pub const SNAPSHOT_STREAM_VERSION: u8 = 2;

/// The body is cut into blocks of this length.
pub const SNAPSHOT_BLOCK_BYTES: usize = 1_048_576;

pub const SNAPSHOT_MAX_BLOCKS: usize = 257;

pub const SNAPSHOT_HEADER_BYTES: usize = 1_048_576;

type CodecResult<T> = std::result::Result<T, CodecError>;

type Outcome<T> = std::result::Result<T, CodecErrorView>;

/// What is known of a snapshot without reading its body.
#[derive(Clone, Debug, PartialEq, Eq)]
pub struct SnapshotHeader {
    pub format_version: u16,
    pub cluster_id: [u8; 16],
    pub cluster_incarnation: u64,
    pub last_included: LogId,
    pub membership_log_id: LogId,
    pub voters: Vec<u64>,
    pub learners: Vec<u64>,
    pub db_epoch: u64,
    pub catalog_epoch: u64,
    pub entry_count: u64,
    pub uncompressed_bytes: u64,
    pub digest: [u8; 32],
}

/// What a [`SnapshotHeader`] says.
pub struct HeaderView {
    pub format_version: nat,
    pub cluster_id: Seq<u8>,
    pub cluster_incarnation: nat,
    pub last_included: LogId,
    pub membership_log_id: LogId,
    pub voters: Seq<u64>,
    pub learners: Seq<u64>,
    pub db_epoch: nat,
    pub catalog_epoch: nat,
    pub entry_count: nat,
    pub uncompressed_bytes: nat,
    pub digest: Seq<u8>,
}

impl View for SnapshotHeader {
    type V = HeaderView;

    open spec fn view(&self) -> HeaderView {
        HeaderView {
            format_version: self.format_version as nat,
            cluster_id: self.cluster_id@,
            cluster_incarnation: self.cluster_incarnation as nat,
            last_included: self.last_included,
            membership_log_id: self.membership_log_id,
            voters: self.voters@,
            learners: self.learners@,
            db_epoch: self.db_epoch as nat,
            catalog_epoch: self.catalog_epoch as nat,
            entry_count: self.entry_count as nat,
            uncompressed_bytes: self.uncompressed_bytes as nat,
            digest: self.digest@,
        }
    }
}

/// The state of a cluster at one position of its log.
#[derive(Debug, PartialEq, Eq)]
pub struct LogicalSnapshot {
    pub header: SnapshotHeader,
    pub meta: NameMap<Vec<u8>>,
    pub entries: Vec<(Vec<u8>, Vec<u8>)>,
}

/// Records by name.
pub type MetaView = Map<Seq<char>, Seq<u8>>;

/// Records by name, in the order of their names.
pub type MetaList = Seq<(Seq<char>, Seq<u8>)>;

/// The entries of the store, a key and a value each.
pub type EntriesView = Seq<(Seq<u8>, Seq<u8>)>;

/// What a [`LogicalSnapshot`] holds.
pub struct SnapshotView {
    pub header: HeaderView,
    pub meta: MetaView,
    pub entries: EntriesView,
}

/// The records of a table by name.
pub open spec fn meta_view(meta: NameMap<Vec<u8>>) -> MetaView {
    meta@.map_values(|v: Vec<u8>| v@)
}

/// The records of a table in the order of their names.
pub open spec fn meta_list(meta: NameMap<Vec<u8>>) -> MetaList {
    meta.list().map_values(|entry: (Seq<char>, Vec<u8>)| (entry.0, entry.1@))
}

/// The one list, in the order of the names, that spells out some records.
pub open spec fn listed(meta: MetaView) -> MetaList {
    choose|list: MetaList| names_ascend(list) && table_of(list) == meta
}

impl View for LogicalSnapshot {
    type V = SnapshotView;

    open spec fn view(&self) -> SnapshotView {
        SnapshotView {
            header: self.header@,
            meta: meta_view(self.meta),
            entries: views(self.entries@),
        }
    }
}

pub proof fn lemma_listed(meta: NameMap<Vec<u8>>)
    requires
        names_ascend(meta.list()),
        meta@ == table_of(meta.list()),
    ensures
        listed(meta_view(meta)) == meta_list(meta),
        names_ascend(meta_list(meta)),
        table_of(meta_list(meta)) == meta_view(meta),
{
    let list = meta.list();
    let mapped = meta_list(meta);
    assert forall|i: int, j: int| 0 <= i < j < mapped.len() implies name_before(
        (#[trigger] mapped[i]).0,
        (#[trigger] mapped[j]).0,
    ) by {
        assert(name_before(list[i].0, list[j].0));
    }
    let view = meta_view(meta);
    assert forall|n: Seq<char>| has_name(mapped, n) == view.dom().contains(n) by {
        if has_name(mapped, n) {
            let i = choose|i: int| 0 <= i < mapped.len() && (#[trigger] mapped[i]).0 == n;
            assert(list[i].0 == n);
        }
        if has_name(list, n) {
            let i = choose|i: int| 0 <= i < list.len() && (#[trigger] list[i]).0 == n;
            assert(mapped[i].0 == n);
        }
    }
    assert forall|n: Seq<char>| view.dom().contains(n) implies value_of(mapped, n) == view[n] by {
        assert(has_name(list, n));
        let i = choose|i: int| 0 <= i < list.len() && (#[trigger] list[i]).0 == n;
        crate::names::lemma_value(list, i);
        assert(mapped[i] == (n, list[i].1@));
        crate::names::lemma_value(mapped, i);
    }
    assert(table_of(mapped) =~= view);
    list_is_unique(listed(view), mapped);
}

// Entries stand in the order of their keys.
impl Ranked for (Seq<u8>, Seq<u8>) {
    open spec fn before(self, other: (Seq<u8>, Seq<u8>)) -> bool {
        lex_less(self.0, other.0)
    }

    proof fn never_both_ways(a: (Seq<u8>, Seq<u8>), b: (Seq<u8>, Seq<u8>)) {
        lex_total(a.0, b.0);
    }

    proof fn order_carries_over(
        a: (Seq<u8>, Seq<u8>),
        b: (Seq<u8>, Seq<u8>),
        c: (Seq<u8>, Seq<u8>),
    ) {
        lex_total(a.0, b.0);
        lex_total(b.0, c.0);
        lex_total(a.0, c.0);
        if lex_less(c.0, a.0) && a.0 != b.0 {
            lex_transitive(c.0, a.0, b.0);
        }
    }
}

impl SortItem for (Vec<u8>, Vec<u8>) {
    fn is_before(&self, other: &(Vec<u8>, Vec<u8>)) -> (before: bool) {
        bytes_less(self.0.as_slice(), other.0.as_slice())
    }
}

// ---------------------------------------------------------------------------
// The body
// ---------------------------------------------------------------------------

/// A byte string with its length, written behind the bytes that are there.
pub open spec fn with_blob(out: Seq<u8>, bytes: Seq<u8>) -> Outcome<Seq<u8>> {
    if bytes.len() > u32::MAX {
        Err(CodecErrorView::Limit("snapshot field length exceeds u32"@))
    } else if out.len() + 4 + bytes.len() > usize::MAX {
        Err(CodecErrorView::Limit("snapshot size exhausted"@))
    } else if out.len() + 4 + bytes.len() > 268_435_456 {
        Err(CodecErrorView::Limit("snapshot exceeds 256 MiB"@))
    } else {
        Ok(out + be(bytes.len(), 4) + bytes)
    }
}

/// Pairs of byte strings, written behind the bytes that are there.
pub open spec fn with_pairs(out: Seq<u8>, pairs: EntriesView) -> Outcome<Seq<u8>>
    decreases pairs.len(),
{
    if pairs.len() == 0 {
        Ok(out)
    } else {
        match with_blob(out, pairs[0].0) {
            Err(e) => Err(e),
            Ok(out) => match with_blob(out, pairs[0].1) {
                Err(e) => Err(e),
                Ok(out) => with_pairs(out, pairs.drop_first()),
            },
        }
    }
}

/// A list of records as pairs of byte strings.
pub open spec fn meta_pairs(list: MetaList) -> EntriesView {
    list.map_values(|entry: (Seq<char>, Seq<u8>)| (encode_utf8(entry.0), entry.1))
}

/// The body of a snapshot: the records in the order of their names, and the
/// entries in the order that they have.
pub open spec fn body_of(list: MetaList, entries: EntriesView) -> Outcome<Seq<u8>> {
    if entries.len() > 10_000_000 {
        Err(CodecErrorView::Limit("too many snapshot entries"@))
    } else if list.len() > u32::MAX {
        Err(CodecErrorView::Limit("too many snapshot metadata records"@))
    } else {
        match with_pairs(seq![1u8] + be(list.len(), 4), meta_pairs(list)) {
            Err(e) => Err(e),
            Ok(out) => with_pairs(out + be(entries.len(), 4), entries),
        }
    }
}

fn push_blob(out: &mut Vec<u8>, bytes: &[u8]) -> (done: CodecResult<()>)
    ensures
        match done {
            Ok(()) => with_blob(old(out)@, bytes@) == Ok::<_, CodecErrorView>(final(out)@),
            Err(e) => with_blob(old(out)@, bytes@) == Err::<Seq<u8>, _>(e@),
        },
{
    if bytes.len() as u64 > 0xffff_ffff {
        return Err(CodecError::limit("snapshot field length exceeds u32"));
    }
    let required = match bytes.len().checked_add(4) {
        Some(n) => out.len().checked_add(n),
        None => None,
    };
    match required {
        Some(required) => {
            if required > MAX_SNAPSHOT_BYTES {
                return Err(CodecError::limit("snapshot exceeds 256 MiB"));
            }
        },
        None => {
            return Err(CodecError::limit("snapshot size exhausted"));
        },
    }
    put_u32(out, bytes.len() as u32);
    put_bytes(out, bytes);
    Ok(())
}

#[verifier::loop_isolation(false)]
fn snapshot_body(meta: &NameMap<Vec<u8>>, entries: &Vec<(Vec<u8>, Vec<u8>)>) -> (body: CodecResult<
    Vec<u8>,
>)
    ensures
        match body {
            Ok(b) => body_of(listed(meta_view(*meta)), views(entries@)) == Ok::<_, CodecErrorView>(
                b@,
            ),
            Err(e) => body_of(listed(meta_view(*meta)), views(entries@)) == Err::<Seq<u8>, _>(e@),
        },
{
    let ghost list = meta_list(*meta);
    let ghost held = views(entries@);
    if entries.len() > MAX_SNAPSHOT_ENTRIES {
        return Err(CodecError::limit("too many snapshot entries"));
    }
    let count = meta.len();
    proof {
        lemma_listed(*meta);
    }
    if count as u64 > 0xffff_ffff {
        return Err(CodecError::limit("too many snapshot metadata records"));
    }
    let mut out: Vec<u8> = Vec::new();
    out.push(SNAPSHOT_BODY_VERSION);
    put_u32(&mut out, count as u32);
    assert(out@ == seq![1u8] + be(list.len(), 4));
    let ghost pairs = meta_pairs(list);
    let ghost start = out@;
    let mut i: usize = 0;
    assert(pairs.subrange(0, pairs.len() as int) == pairs);
    while i < count
        invariant
            i <= count,
            with_pairs(out@, pairs.subrange(i as int, pairs.len() as int)) == with_pairs(
                start,
                pairs,
            ),
        decreases count - i,
    {
        let ghost rest = pairs.subrange(i as int, pairs.len() as int);
        assert(rest.drop_first() == pairs.subrange(i + 1, pairs.len() as int));
        assert(rest[0] == (encode_utf8(meta.list()[i as int].0), meta.list()[i as int].1@));
        match push_blob(&mut out, meta.name_at(i).as_bytes()) {
            Ok(()) => {},
            Err(e) => {
                return Err(e);
            },
        }
        match push_blob(&mut out, meta.value_at(i).as_slice()) {
            Ok(()) => {},
            Err(e) => {
                return Err(e);
            },
        }
        i += 1;
    }
    put_u32(&mut out, entries.len() as u32);
    let ghost middle = out@;
    let mut k: usize = 0;
    assert(held.subrange(0, held.len() as int) == held);
    while k < entries.len()
        invariant
            k <= entries@.len(),
            with_pairs(out@, held.subrange(k as int, held.len() as int)) == with_pairs(
                middle,
                held,
            ),
        decreases entries@.len() - k,
    {
        let ghost rest = held.subrange(k as int, held.len() as int);
        assert(rest.drop_first() == held.subrange(k + 1, held.len() as int));
        assert(rest[0] == (entries@[k as int].0@, entries@[k as int].1@));
        match push_blob(&mut out, entries[k].0.as_slice()) {
            Ok(()) => {},
            Err(e) => {
                return Err(e);
            },
        }
        match push_blob(&mut out, entries[k].1.as_slice()) {
            Ok(()) => {},
            Err(e) => {
                return Err(e);
            },
        }
        k += 1;
    }
    Ok(out)
}

/// A byte string behind its length.
pub open spec fn first_blob(input: Seq<u8>) -> Parsed<Seq<u8>> {
    match first_number(input, 4) {
        Err(e) => Err(e),
        Ok((len, input)) => if len > 268_435_456 {
            Err(CodecErrorView::Limit("snapshot field exceeds configured bound"@))
        } else {
            first_bytes(input, len as int)
        },
    }
}

fn take_blob(input: &mut &[u8]) -> (blob: CodecResult<Vec<u8>>)
    ensures
        match blob {
            Ok(b) => first_blob((*old(input))@) == Ok::<_, CodecErrorView>((b@, (*final(input))@)),
            Err(e) => first_blob((*old(input))@) == Err::<(Seq<u8>, Seq<u8>), _>(e@),
        },
{
    let len = match take_u32(input) {
        Ok(len) => len,
        Err(e) => {
            return Err(e);
        },
    };
    if len as usize > MAX_SNAPSHOT_BYTES {
        return Err(CodecError::limit("snapshot field exceeds configured bound"));
    }
    match take(input, len as usize) {
        Ok(bytes) => Ok(copy_bytes(bytes)),
        Err(e) => Err(e),
    }
}

/// Whether bytes can name a record: text of one to sixty-three bytes.
pub open spec fn names_record(name: Seq<u8>) -> bool {
    0 < name.len() <= 63
}

/// `n` records read from the front, added to those that are there.
pub open spec fn next_records(input: Seq<u8>, n: nat, meta: MetaView) -> Parsed<MetaView>
    decreases n,
{
    if n == 0 {
        Ok((meta, input))
    } else {
        match first_blob(input) {
            Err(e) => Err(e),
            Ok((name, input)) => if !valid_utf8(name) {
                Err(CodecErrorView::InvalidUtf8)
            } else if !names_record(name) || meta.dom().contains(decode_utf8(name)) {
                Err(CodecErrorView::Malformed("snapshot metadata key is invalid or duplicated"@))
            } else {
                match first_blob(input) {
                    Err(e) => Err(e),
                    Ok((value, input)) => next_records(
                        input,
                        (n - 1) as nat,
                        meta.insert(decode_utf8(name), value),
                    ),
                }
            },
        }
    }
}

/// `n` entries read from the front, behind those that are there.
pub open spec fn next_entries(input: Seq<u8>, n: nat, entries: EntriesView) -> Parsed<EntriesView>
    decreases n,
{
    if n == 0 {
        Ok((entries, input))
    } else {
        match first_blob(input) {
            Err(e) => Err(e),
            Ok((key, input)) => if key.len() == 0 || key.len() > 8192 {
                Err(CodecErrorView::Limit("snapshot key exceeds 8 KiB"@))
            } else {
                match first_blob(input) {
                    Err(e) => Err(e),
                    Ok((value, input)) => next_entries(
                        input,
                        (n - 1) as nat,
                        entries.push((key, value)),
                    ),
                }
            },
        }
    }
}

/// The records and the entries that a body holds, or why it holds none.
pub open spec fn body_content(body: Seq<u8>) -> Outcome<(MetaView, EntriesView)> {
    match first_number(body, 1) {
        Err(e) => Err(e),
        Ok((version, input)) => if version != 1 {
            Err(CodecErrorView::InvalidVersion(version))
        } else {
            match first_number(input, 4) {
                Err(e) => Err(e),
                Ok((records, input)) => if records > 1_000_000 {
                    Err(
                        CodecErrorView::Limit(
                            "snapshot metadata record count exceeds configured bound"@,
                        ),
                    )
                } else {
                    match next_records(input, records, Map::empty()) {
                        Err(e) => Err(e),
                        Ok((meta, input)) => match first_number(input, 4) {
                            Err(e) => Err(e),
                            Ok((count, input)) => if count > 10_000_000 {
                                Err(CodecErrorView::Limit("too many snapshot entries"@))
                            } else {
                                match next_entries(input, count, Seq::empty()) {
                                    Err(e) => Err(e),
                                    Ok((entries, rest)) => if rest.len() > 0 {
                                        Err(
                                            CodecErrorView::Malformed(
                                                "trailing snapshot body bytes"@,
                                            ),
                                        )
                                    } else {
                                        Ok((meta, entries))
                                    },
                                }
                            },
                        },
                    }
                },
            }
        },
    }
}

#[verifier::loop_isolation(false)]
fn take_records(input: &mut &[u8], n: u32) -> (meta: CodecResult<NameMap<Vec<u8>>>)
    ensures
        match meta {
            Ok(m) => next_records((*old(input))@, n as nat, Map::empty()) == Ok::<
                _,
                CodecErrorView,
            >((meta_view(m), (*final(input))@)),
            Err(e) => next_records((*old(input))@, n as nat, Map::empty()) == Err::<
                (MetaView, Seq<u8>),
                _,
            >(e@),
        },
{
    let ghost start = input@;
    let mut meta: NameMap<Vec<u8>> = NameMap::new();
    assert(meta_view(meta) =~= Map::empty());
    let mut left: u32 = n;
    while left > 0
        invariant
            left <= n,
            next_records(input@, left as nat, meta_view(meta)) == next_records(
                start,
                n as nat,
                Map::empty(),
            ),
        decreases left,
    {
        let name = match take_blob(input) {
            Ok(b) => b,
            Err(e) => {
                return Err(e);
            },
        };
        let text = match utf8_text(name.as_slice()) {
            Some(text) => text,
            None => {
                return Err(CodecError::InvalidUtf8);
            },
        };
        if name.len() == 0 || name.len() > 63 || meta.contains_key(text.as_str()) {
            return Err(CodecError::malformed("snapshot metadata key is invalid or duplicated"));
        }
        let value = match take_blob(input) {
            Ok(b) => b,
            Err(e) => {
                return Err(e);
            },
        };
        let ghost wider = meta_view(meta).insert(text@, value@);
        meta.insert(text, value);
        assert(meta_view(meta) =~= wider);
        left -= 1;
    }
    Ok(meta)
}

#[verifier::loop_isolation(false)]
fn take_entries(input: &mut &[u8], n: u32) -> (entries: CodecResult<Vec<(Vec<u8>, Vec<u8>)>>)
    ensures
        match entries {
            Ok(es) => next_entries((*old(input))@, n as nat, Seq::empty()) == Ok::<
                _,
                CodecErrorView,
            >((views(es@), (*final(input))@)),
            Err(e) => next_entries((*old(input))@, n as nat, Seq::empty()) == Err::<
                (EntriesView, Seq<u8>),
                _,
            >(e@),
        },
{
    let ghost start = input@;
    let mut entries: Vec<(Vec<u8>, Vec<u8>)> = Vec::new();
    assert(views(entries@) =~= Seq::<(Seq<u8>, Seq<u8>)>::empty());
    let mut left: u32 = n;
    while left > 0
        invariant
            left <= n,
            next_entries(input@, left as nat, views(entries@)) == next_entries(
                start,
                n as nat,
                Seq::empty(),
            ),
        decreases left,
    {
        let key = match take_blob(input) {
            Ok(b) => b,
            Err(e) => {
                return Err(e);
            },
        };
        if key.len() == 0 || key.len() > MAX_KEY_BYTES {
            return Err(CodecError::limit("snapshot key exceeds 8 KiB"));
        }
        let value = match take_blob(input) {
            Ok(b) => b,
            Err(e) => {
                return Err(e);
            },
        };
        let ghost wider = views(entries@).push((key@, value@));
        entries.push((key, value));
        assert(views(entries@) =~= wider);
        left -= 1;
    }
    Ok(entries)
}

pub fn decode_snapshot_body(body: &[u8]) -> (content: CodecResult<
    (NameMap<Vec<u8>>, Vec<(Vec<u8>, Vec<u8>)>),
>)
    ensures
        match content {
            Ok(c) => body_content(body@) == Ok::<_, CodecErrorView>(
                (meta_view(c.0), views(c.1@)),
            ),
            Err(e) => body_content(body@) == Err::<(MetaView, EntriesView), _>(e@),
        },
{
    let mut input = body;
    let version = match take_u8(&mut input) {
        Ok(v) => v,
        Err(e) => {
            return Err(e);
        },
    };
    if version != SNAPSHOT_BODY_VERSION {
        return Err(CodecError::InvalidVersion(version as u64));
    }
    let records = match take_u32(&mut input) {
        Ok(v) => v,
        Err(e) => {
            return Err(e);
        },
    };
    if records > 1_000_000 {
        return Err(
            CodecError::limit("snapshot metadata record count exceeds configured bound"),
        );
    }
    let meta = match take_records(&mut input, records) {
        Ok(m) => m,
        Err(e) => {
            return Err(e);
        },
    };
    let count = match take_u32(&mut input) {
        Ok(v) => v,
        Err(e) => {
            return Err(e);
        },
    };
    if count as usize > MAX_SNAPSHOT_ENTRIES {
        return Err(CodecError::limit("too many snapshot entries"));
    }
    let entries = match take_entries(&mut input, count) {
        Ok(es) => es,
        Err(e) => {
            return Err(e);
        },
    };
    if input.len() > 0 {
        return Err(CodecError::malformed("trailing snapshot body bytes"));
    }
    Ok((meta, entries))
}

// ---------------------------------------------------------------------------
// Validity
// ---------------------------------------------------------------------------

/// Whether numbers stand in strictly ascending order.
pub open spec fn ascends(ids: Seq<u64>) -> bool {
    forall|i: int| 0 <= i < ids.len() - 1 ==> (#[trigger] ids[i]) < ids[i + 1]
}

/// What a check says: nothing, or an error.
pub type Verdict = std::result::Result<(), CodecErrorView>;

/// Whether voters and learners can be the members of a cluster.
pub open spec fn membership_verdict(voters: Seq<u64>, learners: Seq<u64>) -> Verdict {
    if voters.len() > 10_000 || learners.len() > 10_000 {
        Err(CodecErrorView::Limit("invalid snapshot membership size"@))
    } else if (voters + learners).contains(0) || !(voters + learners).no_duplicates() {
        Err(
            CodecErrorView::Malformed("snapshot membership contains duplicate or invalid node id"@),
        )
    } else if !ascends(voters) || !ascends(learners) {
        Err(CodecErrorView::Malformed("snapshot membership is not sorted"@))
    } else {
        Ok(())
    }
}

/// Whether the key of every entry is neither empty nor too long.
pub open spec fn keys_fit(entries: EntriesView) -> bool {
    forall|i: int| 0 <= i < entries.len() ==> 0 < (#[trigger] entries[i]).0.len() <= 8192
}

/// Whether the keys of the entries stand in strictly ascending order.
pub open spec fn keys_ascend(entries: EntriesView) -> bool {
    forall|i: int|
        0 <= i < entries.len() - 1 ==> lex_less((#[trigger] entries[i]).0, entries[i + 1].0)
}

/// Whether every record is named by one to sixty-three bytes.
pub open spec fn records_named(meta: MetaView) -> bool {
    forall|name: Seq<char>|
        #![trigger meta.dom().contains(name)]
        meta.dom().contains(name) ==> names_record(encode_utf8(name))
}

/// Whether a snapshot is valid, or the first thing that is wrong with it.
pub open spec fn snapshot_verdict(s: SnapshotView) -> Verdict {
    if s.header.format_version != 1 {
        Err(CodecErrorView::InvalidVersion(s.header.format_version))
    } else if s.header.cluster_incarnation == 0 {
        Err(CodecErrorView::Malformed("snapshot cluster incarnation must be nonzero"@))
    } else if s.header.membership_log_id.index > s.header.last_included.index {
        Err(CodecErrorView::Malformed("snapshot membership log is newer than the included log"@))
    } else if membership_verdict(s.header.voters, s.header.learners) is Err {
        membership_verdict(s.header.voters, s.header.learners)
    } else if s.entries.len() > 10_000_000 {
        Err(CodecErrorView::Limit("too many snapshot entries"@))
    } else if !keys_fit(s.entries) {
        Err(CodecErrorView::Limit("snapshot key exceeds 8 KiB"@))
    } else if !keys_ascend(s.entries) {
        Err(CodecErrorView::Malformed("snapshot entries are not strictly sorted"@))
    } else if !records_named(s.meta) {
        Err(CodecErrorView::Malformed("invalid snapshot metadata key"@))
    } else {
        match body_of(listed(s.meta), s.entries) {
            Err(e) => Err(e),
            Ok(body) => if s.header.entry_count != s.entries.len() {
                Err(CodecErrorView::Malformed("snapshot entry count mismatch"@))
            } else if s.header.uncompressed_bytes != body.len() {
                Err(CodecErrorView::Malformed("snapshot byte count mismatch"@))
            } else if hash_of(body) != s.header.digest {
                Err(CodecErrorView::Malformed("snapshot logical digest mismatch"@))
            } else {
                Ok(())
            },
        }
    }
}

/// Whether a check came out as `verdict` says.
pub open spec fn comes_out(verdict: Verdict, result: CodecResult<()>) -> bool {
    match result {
        Ok(()) => verdict == Ok::<(), CodecErrorView>(()),
        Err(e) => verdict == Err::<(), CodecErrorView>(e@),
    }
}

fn in_ascending_order(ids: &[u64]) -> (ascending: bool)
    ensures
        ascending == ascends(ids@),
{
    let mut i: usize = 1;
    while i < ids.len()
        invariant
            1 <= i,
            ids@.len() > 0 ==> i <= ids@.len(),
            forall|k: int| 0 <= k < i - 1 ==> (#[trigger] ids@[k]) < ids@[k + 1],
        decreases ids@.len() - i,
    {
        if ids[i - 1] >= ids[i] {
            assert(!(ids@[i - 1] < ids@[i - 1 + 1]));
            return false;
        }
        i += 1;
    }
    true
}

fn note(seen: &mut BTreeSet<u64>, id: u64) -> (new: bool)
    ensures
        new == !old(seen)@.contains(id),
        final(seen)@ == old(seen)@.insert(id),
{
    broadcast use vstd::std_specs::btree::group_btree_axioms;

    seen.insert(id)
}

// Takes numbers into a set, as long as they are new and not zero.
#[verifier::loop_isolation(false)]
fn all_new(seen: &mut BTreeSet<u64>, ids: &[u64]) -> (new: bool)
    ensures
        new <==> ids@.no_duplicates() && !ids@.contains(0) && old(seen)@.disjoint(ids@.to_set()),
        new ==> final(seen)@ == old(seen)@.union(ids@.to_set()),
{
    let ghost before = seen@;
    let mut i: usize = 0;
    assert(seen@ =~= before.union(ids@.subrange(0, 0).to_set()));
    while i < ids.len()
        invariant
            i <= ids@.len(),
            seen@ == before.union(ids@.subrange(0, i as int).to_set()),
            ids@.subrange(0, i as int).no_duplicates(),
            !ids@.subrange(0, i as int).contains(0),
            before.disjoint(ids@.subrange(0, i as int).to_set()),
        decreases ids@.len() - i,
    {
        let id: u64 = ids[i];
        let ghost front = ids@.subrange(0, i as int);
        let ghost wider = ids@.subrange(0, i + 1);
        assert(wider == front.push(id));
        if id == 0 {
            assert(ids@.contains(0));
            return false;
        }
        if !note(seen, id) {
            proof {
                if before.contains(id) {
                    assert(ids@.to_set().contains(id));
                } else {
                    assert(front.contains(id));
                    let k = choose|k: int| 0 <= k < front.len() && front[k] == id;
                    assert(ids@[k] == ids@[i as int]);
                }
            }
            return false;
        }
        proof {
            assert(!front.contains(id)) by {
                if front.contains(id) {
                    assert(front.to_set().contains(id));
                }
            }
            assert forall|x: u64| wider.contains(x) == (front.contains(x) || x == id) by {
                if front.contains(x) {
                    let k = choose|k: int| 0 <= k < front.len() && front[k] == x;
                    assert(wider[k] == x);
                }
                assert(wider[i as int] == id);
            }
            assert(wider.to_set() =~= front.to_set().insert(id));
            assert(seen@ =~= before.union(wider.to_set()));
            assert(wider.no_duplicates());
            assert(!wider.contains(0));
        }
        i += 1;
    }
    assert(ids@.subrange(0, i as int) == ids@);
    true
}

fn validate_membership(voters: &[u64], learners: &[u64]) -> (result: CodecResult<()>)
    ensures
        comes_out(membership_verdict(voters@, learners@), result),
{
    if voters.len() > 10_000 || learners.len() > 10_000 {
        return Err(CodecError::limit("invalid snapshot membership size"));
    }
    let mut seen: BTreeSet<u64> = BTreeSet::new();
    let ghost all = voters@ + learners@;
    proof {
        assert(all.contains(0) <==> voters@.contains(0) || learners@.contains(0)) by {
            if voters@.contains(0) {
                let k = choose|k: int| 0 <= k < voters@.len() && voters@[k] == 0;
                assert(all[k] == 0);
            }
            if learners@.contains(0) {
                let k = choose|k: int| 0 <= k < learners@.len() && learners@[k] == 0;
                assert(all[voters@.len() + k] == 0);
            }
        }
        assert(all.no_duplicates() <==> voters@.no_duplicates() && learners@.no_duplicates()
            && voters@.to_set().disjoint(learners@.to_set())) by {
            if all.no_duplicates() {
                assert forall|i: int, j: int|
                    0 <= i < voters@.len() && 0 <= j < voters@.len() && i
                        != j implies voters@[i] != voters@[j] by {
                    assert(all[i] == voters@[i] && all[j] == voters@[j]);
                }
                assert forall|i: int, j: int|
                    0 <= i < learners@.len() && 0 <= j < learners@.len() && i
                        != j implies learners@[i] != learners@[j] by {
                    assert(all[voters@.len() + i] == learners@[i] && all[voters@.len() + j]
                        == learners@[j]);
                }
                assert forall|x: u64| voters@.to_set().contains(x) implies !learners@.to_set().contains(
                x) by {
                    if learners@.to_set().contains(x) {
                        let i = choose|i: int| 0 <= i < voters@.len() && voters@[i] == x;
                        let j = choose|j: int| 0 <= j < learners@.len() && learners@[j] == x;
                        assert(all[i] == all[voters@.len() + j]);
                    }
                }
            }
            if voters@.no_duplicates() && learners@.no_duplicates() && voters@.to_set().disjoint(
                learners@.to_set(),
            ) {
                assert forall|i: int, j: int| 0 <= i < j < all.len() implies all[i] != all[j] by {
                    if i < voters@.len() && j >= voters@.len() {
                        assert(voters@.to_set().contains(all[i]));
                        assert(learners@.contains(all[j])) by {
                            assert(learners@[j - voters@.len()] == all[j]);
                        }
                    }
                }
            }
        }
    }
    let new = all_new(&mut seen, voters) && all_new(&mut seen, learners);
    if !new {
        return Err(
            CodecError::malformed("snapshot membership contains duplicate or invalid node id"),
        );
    }
    if !in_ascending_order(voters) || !in_ascending_order(learners) {
        return Err(CodecError::malformed("snapshot membership is not sorted"));
    }
    Ok(())
}

fn entry_keys_fit(entries: &Vec<(Vec<u8>, Vec<u8>)>) -> (fit: bool)
    ensures
        fit == keys_fit(views(entries@)),
{
    let ghost held = views(entries@);
    let mut i: usize = 0;
    while i < entries.len()
        invariant
            held == views(entries@),
            i <= entries@.len(),
            forall|k: int| 0 <= k < i ==> 0 < (#[trigger] held[k]).0.len() <= 8192,
        decreases entries@.len() - i,
    {
        assert(held[i as int].0 == entries@[i as int].0@);
        if entries[i].0.len() == 0 || entries[i].0.len() > MAX_KEY_BYTES {
            return false;
        }
        i += 1;
    }
    true
}

fn entry_keys_ascend(entries: &Vec<(Vec<u8>, Vec<u8>)>) -> (ascend: bool)
    ensures
        ascend == keys_ascend(views(entries@)),
{
    let ghost held = views(entries@);
    let mut i: usize = 1;
    while i < entries.len()
        invariant
            held == views(entries@),
            1 <= i,
            entries@.len() > 0 ==> i <= entries@.len(),
            forall|k: int| 0 <= k < i - 1 ==> lex_less((#[trigger] held[k]).0, held[k + 1].0),
        decreases entries@.len() - i,
    {
        assert(held[i - 1].0 == entries@[i - 1].0@ && held[i - 1 + 1].0 == entries@[i as int].0@);
        if !bytes_less(entries[i - 1].0.as_slice(), entries[i].0.as_slice()) {
            return false;
        }
        i += 1;
    }
    true
}

fn record_names_fit(meta: &NameMap<Vec<u8>>) -> (fit: bool)
    ensures
        fit == records_named(meta_view(*meta)),
{
    let count = meta.len();
    let ghost list = meta_list(*meta);
    proof {
        lemma_listed(*meta);
    }
    let mut i: usize = 0;
    while i < count
        invariant
            count == meta.list().len(),
            list == meta_list(*meta),
            table_of(list) == meta_view(*meta),
            names_ascend(list),
            i <= count,
            forall|k: int| 0 <= k < i ==> names_record(encode_utf8((#[trigger] list[k]).0)),
        decreases count - i,
    {
        let len: usize = meta.name_at(i).as_bytes().len();
        assert(list[i as int].0 == meta.list()[i as int].0);
        if len == 0 || len > 63 {
            proof {
                crate::names::lemma_value(list, i as int);
                assert(meta_view(*meta).dom().contains(list[i as int].0));
            }
            return false;
        }
        i += 1;
    }
    assert forall|name: Seq<char>|
        #![trigger meta_view(*meta).dom().contains(name)]
        meta_view(*meta).dom().contains(name) implies names_record(encode_utf8(name)) by {
        assert(has_name(list, name));
        let k = choose|k: int| 0 <= k < list.len() && (#[trigger] list[k]).0 == name;
        assert(names_record(encode_utf8(list[k].0)));
    }
    true
}

/// The snapshot that is made of the given parts.
pub open spec fn made(given: SnapshotView) -> SnapshotView {
    let entries = in_order(given.entries);
    let body = match body_of(listed(given.meta), entries) {
        Ok(body) => body,
        Err(_) => Seq::empty(),
    };
    SnapshotView {
        header: HeaderView {
            format_version: 1,
            entry_count: entries.len(),
            uncompressed_bytes: body.len(),
            digest: hash_of(body),
            ..given.header
        },
        meta: given.meta,
        entries,
    }
}

/// The header that is given before anything of the body is known.
pub open spec fn given_header(
    cluster_id: [u8; 16],
    cluster_incarnation: u64,
    last_included: LogId,
    membership_log_id: LogId,
    voters: Seq<u64>,
    learners: Seq<u64>,
    db_epoch: u64,
    catalog_epoch: u64,
) -> HeaderView {
    HeaderView {
        format_version: 1,
        cluster_id: cluster_id@,
        cluster_incarnation: cluster_incarnation as nat,
        last_included,
        membership_log_id,
        voters,
        learners,
        db_epoch: db_epoch as nat,
        catalog_epoch: catalog_epoch as nat,
        entry_count: 0,
        uncompressed_bytes: 0,
        digest: Seq::empty(),
    }
}

impl LogicalSnapshot {
    /// Makes a snapshot: the entries in the order of their keys, and a header
    /// that counts and digests the body.
    pub fn new(
        cluster_id: [u8; 16],
        cluster_incarnation: u64,
        last_included: LogId,
        membership_log_id: LogId,
        voters: Vec<u64>,
        learners: Vec<u64>,
        db_epoch: u64,
        catalog_epoch: u64,
        meta: NameMap<Vec<u8>>,
        entries: Vec<(Vec<u8>, Vec<u8>)>,
    ) -> (snapshot: LogicalSnapshot)
        ensures
            snapshot@ == made(
                SnapshotView {
                    header: given_header(
                        cluster_id,
                        cluster_incarnation,
                        last_included,
                        membership_log_id,
                        voters@,
                        learners@,
                        db_epoch,
                        catalog_epoch,
                    ),
                    meta: meta_view(meta),
                    entries: views(entries@),
                },
            ),
    {
        let sorted = sort(entries);
        let body = match snapshot_body(&meta, &sorted) {
            Ok(body) => body,
            Err(_) => Vec::new(),
        };
        let digest = hash32(body.as_slice());
        assert(views(sorted@).len() == sorted@.len());
        let count: u64 = sorted.len() as u64;
        LogicalSnapshot {
            header: SnapshotHeader {
                format_version: SNAPSHOT_VERSION,
                cluster_id,
                cluster_incarnation,
                last_included,
                membership_log_id,
                voters,
                learners,
                db_epoch,
                catalog_epoch,
                entry_count: count,
                uncompressed_bytes: body.len() as u64,
                digest,
            },
            meta,
            entries: sorted,
        }
    }

    /// Makes a snapshot and refuses it where it is not valid.
    pub fn try_new(
        cluster_id: [u8; 16],
        cluster_incarnation: u64,
        last_included: LogId,
        membership_log_id: LogId,
        voters: Vec<u64>,
        learners: Vec<u64>,
        db_epoch: u64,
        catalog_epoch: u64,
        meta: NameMap<Vec<u8>>,
        entries: Vec<(Vec<u8>, Vec<u8>)>,
    ) -> (snapshot: CodecResult<LogicalSnapshot>)
        ensures
            ({
                let whole = made(
                    SnapshotView {
                        header: given_header(
                            cluster_id,
                            cluster_incarnation,
                            last_included,
                            membership_log_id,
                            voters@,
                            learners@,
                            db_epoch,
                            catalog_epoch,
                        ),
                        meta: meta_view(meta),
                        entries: views(entries@),
                    },
                );
                match snapshot {
                    Ok(s) => snapshot_verdict(whole) is Ok && s@ == whole,
                    Err(e) => snapshot_verdict(whole) == Err::<(), CodecErrorView>(e@),
                }
            }),
    {
        let snapshot = Self::new(
            cluster_id,
            cluster_incarnation,
            last_included,
            membership_log_id,
            voters,
            learners,
            db_epoch,
            catalog_epoch,
            meta,
            entries,
        );
        match snapshot.validate() {
            Ok(()) => Ok(snapshot),
            Err(e) => Err(e),
        }
    }

    pub fn validate(&self) -> (result: CodecResult<()>)
        ensures
            comes_out(snapshot_verdict(self@), result),
    {
        assert(views(self.entries@).len() == self.entries@.len());
        if self.header.format_version != SNAPSHOT_VERSION {
            return Err(CodecError::InvalidVersion(self.header.format_version as u64));
        }
        if self.header.cluster_incarnation == 0 {
            return Err(CodecError::malformed("snapshot cluster incarnation must be nonzero"));
        }
        if self.header.membership_log_id.index > self.header.last_included.index {
            return Err(
                CodecError::malformed("snapshot membership log is newer than the included log"),
            );
        }
        match validate_membership(self.header.voters.as_slice(), self.header.learners.as_slice()) {
            Ok(()) => {},
            Err(e) => {
                return Err(e);
            },
        }
        if self.entries.len() > MAX_SNAPSHOT_ENTRIES {
            return Err(CodecError::limit("too many snapshot entries"));
        }
        if !entry_keys_fit(&self.entries) {
            return Err(CodecError::limit("snapshot key exceeds 8 KiB"));
        }
        if !entry_keys_ascend(&self.entries) {
            return Err(CodecError::malformed("snapshot entries are not strictly sorted"));
        }
        if !record_names_fit(&self.meta) {
            return Err(CodecError::malformed("invalid snapshot metadata key"));
        }
        let body = match snapshot_body(&self.meta, &self.entries) {
            Ok(body) => body,
            Err(e) => {
                return Err(e);
            },
        };
        if self.header.entry_count != self.entries.len() as u64 {
            return Err(CodecError::malformed("snapshot entry count mismatch"));
        }
        if self.header.uncompressed_bytes != body.len() as u64 {
            return Err(CodecError::malformed("snapshot byte count mismatch"));
        }
        let digest = hash32(body.as_slice());
        if !same_bytes(digest.as_slice(), self.header.digest.as_slice()) {
            return Err(CodecError::malformed("snapshot logical digest mismatch"));
        }
        Ok(())
    }

    /// The body of the snapshot.
    pub fn body(&self) -> (body: CodecResult<Vec<u8>>)
        ensures
            match body {
                Ok(b) => body_of(listed(self@.meta), self@.entries) == Ok::<_, CodecErrorView>(b@),
                Err(e) => body_of(listed(self@.meta), self@.entries) == Err::<Seq<u8>, _>(e@),
            },
    {
        snapshot_body(&self.meta, &self.entries)
    }
}

/// Whether the snapshot is a backup of the logical state alone, bound to no
/// cluster: it says so in a record.
pub open spec fn marked_as_backup(s: SnapshotView) -> bool {
    s.meta.dom().contains("backup_kind"@) && s.meta["backup_kind"@] == encode_utf8(
        "chorus-logical-backup-v1"@,
    )
}

pub fn is_logical_backup(snapshot: &LogicalSnapshot) -> (backup: bool)
    ensures
        backup == marked_as_backup(snapshot@),
{
    match snapshot.meta.get("backup_kind") {
        Some(kind) => same_bytes(kind.as_slice(), "chorus-logical-backup-v1".as_bytes()),
        None => false,
    }
}

} // verus!
