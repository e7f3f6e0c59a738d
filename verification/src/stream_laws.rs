//! A snapshot file has one end: nothing can stand behind it, and nothing of it
//! can be missing.

use crate::error::CodecErrorView;
use crate::snapshot::snapshot_verdict;
use crate::snapshot_stream::{
    file_frame, legacy_frame, next_blocks, snapshot_in, stream_body, stream_frame, JsonReading,
    SnapshotFileView,
};
use crate::wire::{first_bytes, first_number, lemma_goes_on};
use vstd::prelude::*;

verus! {

proof fn lemma_blocks_go_on(input: Seq<u8>, n: nat, body: Seq<u8>, extra: Seq<u8>)
    ensures
        next_blocks(input, n, body) matches Ok((whole, rest)) ==> next_blocks(
            input + extra,
            n,
            body,
        ) == Ok::<_, CodecErrorView>((whole, rest + extra)),
    decreases n,
{
    if n > 0 && next_blocks(input, n, body) is Ok {
        lemma_goes_on(input, 4, extra);
        let (plain_len, i1) = first_number(input, 4)->Ok_0;
        lemma_goes_on(i1, 4, extra);
        let (packed_len, i2) = first_number(i1, 4)->Ok_0;
        lemma_goes_on(i2, 32, extra);
        let (digest, i3) = first_bytes(i2, 32)->Ok_0;
        lemma_goes_on(i3, packed_len as int, extra);
        let (packed, i4) = first_bytes(i3, packed_len as int)->Ok_0;
        let chunk = crate::snapshot_stream::zstd_content(packed, plain_len)->Ok_0;
        lemma_blocks_go_on(i4, (n - 1) as nat, body + chunk, extra);
    }
}

proof fn lemma_body_ends(rest: Seq<u8>, extra: Seq<u8>)
    requires
        stream_body(rest) is Ok,
        extra.len() > 0,
    ensures
        stream_body(rest + extra) is Err,
{
    lemma_goes_on(rest, 4, extra);
    let (blocks, input) = first_number(rest, 4)->Ok_0;
    lemma_blocks_go_on(input, blocks, Seq::empty(), extra);
    let (_, after) = next_blocks(input, blocks, Seq::empty())->Ok_0;
    lemma_goes_on(after, 32, extra);
    let (_, end) = first_bytes(after, 32)->Ok_0;
    assert((end + extra).len() > 0);
}

proof fn lemma_frame_goes_on(input: Seq<u8>, extra: Seq<u8>)
    ensures
        stream_frame(input) matches Ok(SnapshotFileView::Stream { header_json, rest })
            ==> stream_frame(input + extra) == Ok::<_, CodecErrorView>(
            SnapshotFileView::Stream { header_json, rest: rest + extra },
        ),
{
    if stream_frame(input) is Ok {
        lemma_goes_on(input, 1, extra);
        let (_, i1) = first_number(input, 1)->Ok_0;
        lemma_goes_on(i1, 4, extra);
        let (len, i2) = first_number(i1, 4)->Ok_0;
        lemma_goes_on(i2, len as int, extra);
    }
}

proof fn lemma_legacy_ends(input: Seq<u8>, extra: Seq<u8>)
    requires
        legacy_frame(input) is Ok,
        extra.len() > 0,
    ensures
        legacy_frame(input + extra) is Err,
{
    lemma_goes_on(input, 4, extra);
    let (len, i1) = first_number(input, 4)->Ok_0;
    lemma_goes_on(i1, len as int, extra);
    let (_, i2) = first_bytes(i1, len as int)->Ok_0;
    lemma_goes_on(i2, 32, extra);
    let (_, end) = first_bytes(i2, 32)->Ok_0;
    assert((end + extra).len() > 0);
}

/// A file that holds a snapshot holds none with anything behind it.
pub proof fn snapshots_refuse_more_bytes(bytes: Seq<u8>, extra: Seq<u8>, json: JsonReading)
    requires
        snapshot_in(bytes, json) is Some,
        extra.len() > 0,
    ensures
        snapshot_in(bytes + extra, json) is None,
{
    let longer = bytes + extra;
    assert(longer.subrange(0, 16) =~= bytes.subrange(0, 16));
    let (tail, longer_tail) = (
        bytes.subrange(16, bytes.len() as int),
        longer.subrange(16, longer.len() as int),
    );
    assert(longer_tail =~= tail + extra);
    match file_frame(bytes)->Ok_0 {
        SnapshotFileView::Stream { header_json, rest } => {
            lemma_frame_goes_on(tail, extra);
            lemma_body_ends(rest, extra);
        },
        SnapshotFileView::Legacy { .. } => {
            if bytes.subrange(0, 16) == crate::snapshot_stream::stream_magic() {
                assert(stream_frame(tail) == file_frame(bytes));
            } else {
                lemma_legacy_ends(tail, extra);
            }
        },
    }
}

/// A file that holds a snapshot holds none without its last bytes, however few
/// of them are missing.
pub proof fn snapshots_refuse_fewer_bytes(bytes: Seq<u8>, n: int, json: JsonReading)
    requires
        snapshot_in(bytes, json) is Some,
        0 <= n < bytes.len(),
    ensures
        snapshot_in(bytes.subrange(0, n), json) is None,
{
    let (front, back) = (bytes.subrange(0, n), bytes.subrange(n, bytes.len() as int));
    assert(front + back =~= bytes);
    if snapshot_in(front, json) is Some {
        snapshots_refuse_more_bytes(front, back, json);
    }
}

/// Whatever snapshot a file is read as is valid.
pub proof fn read_snapshots_are_valid(bytes: Seq<u8>, json: JsonReading)
    requires
        snapshot_in(bytes, json) is Some,
    ensures
        snapshot_verdict(snapshot_in(bytes, json)->0) is Ok,
{
}

} // verus!
