//! Reading the body of a snapshot gives back what was written.

use crate::bytes::{be, be_reads_back, be_value, lemma_span};
use crate::error::CodecErrorView;
use crate::names::{lemma_front_table, lemma_value, name_before, names_ascend, table_of};
use crate::snapshot::{
    body_content, body_of, first_blob, keys_fit, meta_pairs, names_record, next_entries,
    next_records, with_blob, with_pairs, EntriesView, MetaList,
};
use vstd::prelude::*;
use vstd::utf8::*;

verus! {

/// A byte string behind its length.
pub open spec fn blob(bytes: Seq<u8>) -> Seq<u8> {
    be(bytes.len(), 4) + bytes
}

/// Pairs of byte strings one after the other.
pub open spec fn flat(pairs: EntriesView) -> Seq<u8>
    decreases pairs.len(),
{
    if pairs.len() == 0 {
        Seq::empty()
    } else {
        blob(pairs[0].0) + blob(pairs[0].1) + flat(pairs.drop_first())
    }
}

/// Whether both parts of every pair are short enough to be read.
pub open spec fn parts_fit(pairs: EntriesView) -> bool {
    forall|i: int|
        0 <= i < pairs.len() ==> (#[trigger] pairs[i]).0.len() <= 268_435_456 && pairs[i].1.len()
            <= 268_435_456
}

proof fn lemma_with_pairs(out: Seq<u8>, pairs: EntriesView)
    requires
        with_pairs(out, pairs) is Ok,
    ensures
        with_pairs(out, pairs)->Ok_0 == out + flat(pairs),
        parts_fit(pairs),
    decreases pairs.len(),
{
    if pairs.len() == 0 {
        assert(out + flat(pairs) == out);
    } else {
        let out1 = with_blob(out, pairs[0].0)->Ok_0;
        let out2 = with_blob(out1, pairs[0].1)->Ok_0;
        let rest = pairs.drop_first();
        lemma_with_pairs(out2, rest);
        assert(out2 + flat(rest) == out + flat(pairs));
        assert forall|i: int| 0 <= i < pairs.len() implies (#[trigger] pairs[i]).0.len()
            <= 268_435_456 && pairs[i].1.len() <= 268_435_456 by {
            if i > 0 {
                assert(pairs[i] == rest[i - 1]);
            }
        }
    }
}

proof fn lemma_blob(bytes: Seq<u8>, rest: Seq<u8>)
    requires
        bytes.len() <= 268_435_456,
    ensures
        first_blob(blob(bytes) + rest) == Ok::<_, CodecErrorView>((bytes, rest)),
{
    let input = blob(bytes) + rest;
    lemma_span();
    be_reads_back(bytes.len(), 4);
    assert(input.subrange(0, 4) =~= be(bytes.len(), 4));
    let i1 = input.subrange(4, input.len() as int);
    assert(i1 =~= bytes + rest);
    assert(i1.subrange(0, bytes.len() as int) =~= bytes);
    assert(i1.subrange(bytes.len() as int, i1.len() as int) =~= rest);
}

proof fn lemma_entries(entries: EntriesView, i: int, rest: Seq<u8>)
    requires
        0 <= i <= entries.len(),
        parts_fit(entries),
        keys_fit(entries),
    ensures
        next_entries(
            flat(entries.subrange(i, entries.len() as int)) + rest,
            (entries.len() - i) as nat,
            entries.subrange(0, i),
        ) == Ok::<_, CodecErrorView>((entries, rest)),
    decreases entries.len() - i,
{
    let tail = entries.subrange(i, entries.len() as int);
    if i == entries.len() {
        assert(flat(tail) + rest =~= rest);
        assert(entries.subrange(0, i) == entries);
    } else {
        let (key, value) = entries[i];
        assert(0 < entries[i].0.len() <= 8192);
        let more = entries.subrange(i + 1, entries.len() as int);
        assert(tail.drop_first() == more);
        let input = flat(tail) + rest;
        let after_key = blob(value) + (flat(more) + rest);
        assert(input =~= blob(key) + after_key);
        lemma_blob(key, after_key);
        lemma_blob(value, flat(more) + rest);
        assert(entries.subrange(0, i).push((key, value)) == entries.subrange(0, i + 1));
        lemma_entries(entries, i + 1, rest);
    }
}

proof fn lemma_table_grows(list: MetaList, i: int)
    requires
        names_ascend(list),
        0 <= i < list.len(),
    ensures
        names_ascend(list.subrange(0, i + 1)),
        table_of(list.subrange(0, i + 1)) == table_of(list.subrange(0, i)).insert(
            list[i].0,
            list[i].1,
        ),
        !table_of(list.subrange(0, i)).dom().contains(list[i].0),
{
    let wider = list.subrange(0, i + 1);
    assert forall|x: int, y: int| 0 <= x < y < wider.len() implies name_before(
        (#[trigger] wider[x]).0,
        (#[trigger] wider[y]).0,
    ) by {
        assert(wider[x] == list[x] && wider[y] == list[y]);
    }
    lemma_front_table(wider);
    lemma_value(wider, i);
    assert(wider.drop_last() == list.subrange(0, i));
    assert(wider.last() == list[i]);
    assert(table_of(wider).dom().contains(list[i].0));
    assert(table_of(wider) =~= table_of(wider).remove(list[i].0).insert(list[i].0, list[i].1));
}

proof fn lemma_records(list: MetaList, i: int, rest: Seq<u8>)
    requires
        0 <= i <= list.len(),
        names_ascend(list),
        parts_fit(meta_pairs(list)),
        forall|k: int| 0 <= k < list.len() ==> names_record(encode_utf8((#[trigger] list[k]).0)),
    ensures
        next_records(
            flat(meta_pairs(list).subrange(i, list.len() as int)) + rest,
            (list.len() - i) as nat,
            table_of(list.subrange(0, i)),
        ) == Ok::<_, CodecErrorView>((table_of(list), rest)),
    decreases list.len() - i,
{
    let pairs = meta_pairs(list);
    let tail = pairs.subrange(i, list.len() as int);
    if i == list.len() {
        assert(flat(tail) + rest =~= rest);
        assert(list.subrange(0, i) == list);
    } else {
        let (name, value) = list[i];
        let key = encode_utf8(name);
        assert(pairs[i] == (key, value));
        assert(pairs[i].0.len() <= 268_435_456);
        let more = pairs.subrange(i + 1, list.len() as int);
        assert(tail.drop_first() == more);
        let input = flat(tail) + rest;
        let after_key = blob(value) + (flat(more) + rest);
        assert(tail[0] == pairs[i]);
        assert(input =~= blob(key) + after_key);
        lemma_blob(key, after_key);
        lemma_blob(value, flat(more) + rest);
        encode_utf8_valid_utf8(name);
        encode_utf8_decode_utf8(name);
        lemma_table_grows(list, i);
        assert(names_record(encode_utf8(list[i].0)));
        lemma_records(list, i + 1, rest);
    }
}

pub proof fn lemma_body_not_empty(list: MetaList, entries: EntriesView)
    requires
        body_of(list, entries) is Ok,
    ensures
        body_of(list, entries)->Ok_0.len() > 0,
{
    let start = seq![1u8] + be(list.len(), 4);
    lemma_with_pairs(start, meta_pairs(list));
    lemma_with_pairs(start + flat(meta_pairs(list)) + be(entries.len(), 4), entries);
}

/// Reading the body of a snapshot gives back its records and its entries. A
/// body with more than a million records can be written but is not read.
pub proof fn body_reads_back(list: MetaList, entries: EntriesView)
    requires
        body_of(list, entries) is Ok,
        names_ascend(list),
        list.len() <= 1_000_000,
        forall|k: int| 0 <= k < list.len() ==> names_record(encode_utf8((#[trigger] list[k]).0)),
        keys_fit(entries),
    ensures
        body_content(body_of(list, entries)->Ok_0) == Ok::<_, CodecErrorView>(
            (table_of(list), entries),
        ),
{
    let body = body_of(list, entries)->Ok_0;
    let start = seq![1u8] + be(list.len(), 4);
    let pairs = meta_pairs(list);
    lemma_with_pairs(start, pairs);
    let middle = start + flat(pairs) + be(entries.len(), 4);
    lemma_with_pairs(middle, entries);
    lemma_span();
    be_reads_back(list.len(), 4);
    be_reads_back(entries.len(), 4);
    assert(body.subrange(0, 1) =~= seq![1u8]);
    assert(be_value(seq![1u8]) == 1) by {
        reveal_with_fuel(be_value, 2);
        assert(seq![1u8].drop_last() == Seq::<u8>::empty());
    }
    let i1 = body.subrange(1, body.len() as int);
    let after_records = be(entries.len(), 4) + (flat(entries) + Seq::<u8>::empty());
    assert(i1 =~= be(list.len(), 4) + (flat(pairs) + after_records));
    assert(i1.subrange(0, 4) =~= be(list.len(), 4));
    let i2 = i1.subrange(4, i1.len() as int);
    assert(i2 =~= flat(pairs) + after_records);
    assert(pairs.subrange(0, list.len() as int) == pairs);
    assert(table_of(list.subrange(0, 0)) =~= Map::<Seq<char>, Seq<u8>>::empty());
    lemma_records(list, 0, after_records);
    assert(after_records.subrange(0, 4) =~= be(entries.len(), 4));
    let i3 = after_records.subrange(4, after_records.len() as int);
    assert(i3 =~= flat(entries) + Seq::<u8>::empty());
    assert(entries.subrange(0, entries.len() as int) == entries);
    assert(entries.subrange(0, 0) == Seq::<(Seq<u8>, Seq<u8>)>::empty());
    lemma_entries(entries, 0, Seq::empty());
}

} // verus!
