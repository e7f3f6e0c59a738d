//! The stream of a snapshot: a header, the body in compressed blocks that are
//! each checked by a digest, and a digest of the whole body.

use crate::bytes::{
    array32, be, be_reads_back, be_value, copy_bytes, lemma_span, put_bytes, put_u32,
};
use crate::error::{CodecError, CodecErrorView};
use crate::ids::{hash32, hash_of};
use crate::names::lemma_value;
use crate::snapshot::{
    body_content, body_of, decode_snapshot_body, lemma_listed, listed, names_record,
    snapshot_verdict, HeaderView, LogicalSnapshot, SnapshotHeader, SnapshotView, MAX_SNAPSHOT_BYTES, SNAPSHOT_BLOCK_BYTES, SNAPSHOT_HEADER_BYTES,
    SNAPSHOT_MAX_BLOCKS, SNAPSHOT_STREAM_VERSION,
};
use crate::snapshot_laws::{body_reads_back, lemma_body_not_empty};
use crate::text::{joined, same_bytes};
use crate::wire::{first_bytes, first_number, take, take_u32, take_u8, Parsed};
use vstd::prelude::*;
use vstd::string::*;
use vstd::utf8::*;

verus! {

type CodecResult<T> = std::result::Result<T, CodecError>;

type Outcome<T> = std::result::Result<T, CodecErrorView>;

// ---------------------------------------------------------------------------
// Compression
// ---------------------------------------------------------------------------

/// A byte string in the Zstandard format at a compression level, or the line
/// that says why there is none.
pub uninterp spec fn zstd_packed(data: Seq<u8>, level: int) -> std::result::Result<
    Seq<u8>,
    Seq<char>,
>;

/// The content of a byte string in the Zstandard format, of at most `capacity`
/// bytes, or the line that says why there is none.
pub uninterp spec fn zstd_content(data: Seq<u8>, capacity: nat) -> std::result::Result<
    Seq<u8>,
    Seq<char>,
>;

/// `zstd::bulk::compress`: the result depends on the data and the level alone.
/// What it hands back is never empty, and decompressing it with room for the
/// data gives the data back. That it succeeds, and what the compressed bytes
/// are, is left unsaid.
#[verifier::external_body]
fn compress(data: &[u8], level: i32) -> (packed: std::result::Result<Vec<u8>, String>)
    ensures
        match packed {
            Ok(p) => {
                &&& zstd_packed(data@, level as int) == Ok::<_, Seq<char>>(p@)
                &&& p@.len() > 0
                &&& zstd_content(p@, data@.len()) == Ok::<_, Seq<char>>(data@)
            },
            Err(why) => zstd_packed(data@, level as int) == Err::<Seq<u8>, _>(why@),
        },
{
    zstd::bulk::compress(data, level).map_err(|e| e.to_string())
}

/// `zstd::bulk::decompress`: the result depends on the data and the capacity
/// alone. Which byte strings have a content, and which, is left unsaid.
#[verifier::external_body]
fn decompress(data: &[u8], capacity: usize) -> (content: std::result::Result<Vec<u8>, String>)
    ensures
        match content {
            Ok(c) => zstd_content(data@, capacity as nat) == Ok::<_, Seq<char>>(c@),
            Err(why) => zstd_content(data@, capacity as nat) == Err::<Seq<u8>, _>(why@),
        },
{
    zstd::bulk::decompress(data, capacity).map_err(|e| e.to_string())
}

// ---------------------------------------------------------------------------
// Writing
// ---------------------------------------------------------------------------

/// The sixteen bytes that begin a stream of blocks.
pub open spec fn stream_magic() -> Seq<u8> {
    seq![67u8, 72, 79, 82, 85, 83, 45, 83, 78, 65, 80, 50, 0, 0, 0, 0]
}

/// The sixteen bytes that begin a snapshot in one piece of JSON.
pub open spec fn legacy_magic() -> Seq<u8> {
    seq![67u8, 72, 79, 82, 85, 83, 45, 83, 78, 65, 80, 83, 72, 79, 84, 0]
}

/// The sixteen bytes that begin a stream of blocks.
pub fn snapshot_stream_magic() -> (magic: [u8; 16])
    ensures
        magic@ == stream_magic(),
{
    let magic: [u8; 16] = [67, 72, 79, 82, 85, 83, 45, 83, 78, 65, 80, 50, 0, 0, 0, 0];
    assert(magic@ =~= stream_magic());
    magic
}

/// The sixteen bytes that begin a snapshot in one piece of JSON.
pub fn snapshot_magic() -> (magic: [u8; 16])
    ensures
        magic@ == legacy_magic(),
{
    let magic: [u8; 16] = [67, 72, 79, 82, 85, 83, 45, 83, 78, 65, 80, 83, 72, 79, 84, 0];
    assert(magic@ =~= legacy_magic());
    magic
}

/// The length of the next block of a body.
pub open spec fn block_len(body: Seq<u8>) -> int {
    if body.len() > 1_048_576 {
        1_048_576
    } else {
        body.len() as int
    }
}

/// The number of blocks of a body.
pub open spec fn block_count(body: Seq<u8>) -> nat {
    ((body.len() + 1_048_575) / 1_048_576) as nat
}

/// One block: the lengths before and after compression, a digest, and the
/// compressed bytes.
pub open spec fn block(chunk: Seq<u8>, packed: Seq<u8>) -> Seq<u8> {
    be(chunk.len(), 4) + be(packed.len(), 4) + hash_of(chunk) + packed
}

/// The blocks of a body, written behind the bytes that are there.
pub open spec fn with_blocks(out: Seq<u8>, body: Seq<u8>) -> Outcome<Seq<u8>>
    decreases body.len(),
{
    if body.len() == 0 {
        Ok(out)
    } else {
        let chunk = body.subrange(0, block_len(body));
        match zstd_packed(chunk, 1) {
            Err(why) => Err(CodecErrorView::Malformed("snapshot compression: "@ + why)),
            Ok(packed) => if packed.len() > u32::MAX {
                Err(CodecErrorView::Limit("compressed snapshot block length exceeds u32"@))
            } else if (out + block(chunk, packed)).len() > 268_435_456 {
                Err(CodecErrorView::Limit("snapshot exceeds 256 MiB"@))
            } else {
                with_blocks(
                    out + block(chunk, packed),
                    body.subrange(block_len(body), body.len() as int),
                )
            },
        }
    }
}

/// What stands before the blocks of a stream.
pub open spec fn stream_head(header_json: Seq<u8>, blocks: nat) -> Seq<u8> {
    stream_magic() + seq![2u8] + be(header_json.len(), 4) + header_json + be(blocks, 4)
}

/// The stream of a body behind a header, or why there is none.
pub open spec fn stream_of(header_json: Seq<u8>, body: Seq<u8>) -> Outcome<Seq<u8>> {
    if body.len() > 268_435_456 {
        Err(CodecErrorView::Limit("snapshot body exceeds 256 MiB"@))
    } else if header_json.len() > 1_048_576 {
        Err(CodecErrorView::Limit("snapshot header exceeds configured bound"@))
    } else {
        match with_blocks(stream_head(header_json, block_count(body)), body) {
            Err(e) => Err(e),
            Ok(out) => if out.len() + 32 > 268_435_456 {
                Err(CodecErrorView::Limit("snapshot exceeds 256 MiB"@))
            } else {
                Ok(out + hash_of(body))
            },
        }
    }
}

/// The stream of a snapshot behind a header, or why there is none.
pub open spec fn encoding(s: SnapshotView, header_json: Seq<u8>) -> Outcome<Seq<u8>> {
    match snapshot_verdict(s) {
        Err(e) => Err(e),
        Ok(()) => stream_of(header_json, body_of(listed(s.meta), s.entries)->Ok_0),
    }
}

fn put_block(out: &mut Vec<u8>, chunk: &[u8]) -> (done: CodecResult<()>)
    requires
        chunk@.len() <= 1_048_576,
    ensures
        match zstd_packed(chunk@, 1) {
            Err(why) => done is Err && done->Err_0@ == CodecErrorView::Malformed(
                "snapshot compression: "@ + why,
            ),
            Ok(packed) => if packed.len() > u32::MAX {
                done is Err && done->Err_0@ == CodecErrorView::Limit(
                    "compressed snapshot block length exceeds u32"@,
                )
            } else {
                &&& done is Ok
                &&& final(out)@ == old(out)@ + block(chunk@, packed)
                &&& packed.len() > 0
                &&& zstd_content(packed, chunk@.len()) == Ok::<_, Seq<char>>(chunk@)
            },
        },
{
    let packed = match compress(chunk, 1) {
        Ok(packed) => packed,
        Err(why) => {
            return Err(CodecError::Malformed(joined("snapshot compression: ", why.as_str())));
        },
    };
    if packed.len() as u64 > 0xffff_ffff {
        return Err(CodecError::limit("compressed snapshot block length exceeds u32"));
    }
    put_u32(out, chunk.len() as u32);
    put_u32(out, packed.len() as u32);
    let digest = hash32(chunk);
    put_bytes(out, digest.as_slice());
    put_bytes(out, packed.as_slice());
    assert(out@ =~= old(out)@ + block(chunk@, packed@));
    Ok(())
}

/// What stands behind the header of a stream.
pub open spec fn stream_rest(stream: Seq<u8>, header_json: Seq<u8>) -> Seq<u8> {
    stream.subrange(21 + header_json.len() as int, stream.len() as int)
}

/// Whether opening a stream gives the header that it was written with.
pub open spec fn opens_with(stream: Seq<u8>, header_json: Seq<u8>) -> bool {
    file_frame(stream) == Ok::<_, CodecErrorView>(
        SnapshotFileView::Stream { header_json, rest: stream_rest(stream, header_json) },
    )
}

proof fn lemma_block(chunk: Seq<u8>, packed: Seq<u8>, tail: Seq<u8>, n: nat, body: Seq<u8>)
    requires
        0 < chunk.len() <= 1_048_576,
        0 < packed.len() <= 268_435_456,
        zstd_content(packed, chunk.len()) == Ok::<_, Seq<char>>(chunk),
        body.len() + chunk.len() <= 268_435_456,
        n > 0,
    ensures
        next_blocks(block(chunk, packed) + tail, n, body) == next_blocks(
            tail,
            (n - 1) as nat,
            body + chunk,
        ),
{
    let input = block(chunk, packed) + tail;
    lemma_span();
    be_reads_back(chunk.len(), 4);
    be_reads_back(packed.len(), 4);
    assert(input.subrange(0, 4) =~= be(chunk.len(), 4));
    let i1 = input.subrange(4, input.len() as int);
    assert(i1 =~= be(packed.len(), 4) + hash_of(chunk) + packed + tail);
    assert(i1.subrange(0, 4) =~= be(packed.len(), 4));
    let i2 = i1.subrange(4, i1.len() as int);
    assert(i2 =~= hash_of(chunk) + packed + tail);
    assert(i2.subrange(0, 32) =~= hash_of(chunk));
    let i3 = i2.subrange(32, i2.len() as int);
    assert(i3 =~= packed + tail);
    assert(i3.subrange(0, packed.len() as int) =~= packed);
    assert(i3.subrange(packed.len() as int, i3.len() as int) =~= tail);
}

proof fn lemma_opens(header_json: Seq<u8>, blocks: nat, tail: Seq<u8>)
    requires
        0 < header_json.len() <= 1_048_576,
        tail.len() >= 32,
        (stream_head(header_json, blocks) + tail).len() <= 268_435_456,
    ensures
        ({
            let stream = stream_head(header_json, blocks) + tail;
            &&& opens_with(stream, header_json)
            &&& stream_rest(stream, header_json) == be(blocks, 4) + tail
        }),
{
    let stream = stream_head(header_json, blocks) + tail;
    lemma_span();
    be_reads_back(header_json.len(), 4);
    assert(stream.subrange(0, 16) =~= stream_magic());
    let i0 = stream.subrange(16, stream.len() as int);
    assert(i0 =~= seq![2u8] + be(header_json.len(), 4) + header_json + be(blocks, 4) + tail);
    assert(i0.subrange(0, 1) =~= seq![2u8]);
    assert(be_value(seq![2u8]) == 2) by {
        reveal_with_fuel(be_value, 2);
        assert(seq![2u8].drop_last() == Seq::<u8>::empty());
    }
    let i1 = i0.subrange(1, i0.len() as int);
    assert(i1 =~= be(header_json.len(), 4) + header_json + be(blocks, 4) + tail);
    assert(i1.subrange(0, 4) =~= be(header_json.len(), 4));
    let i2 = i1.subrange(4, i1.len() as int);
    assert(i2 =~= header_json + be(blocks, 4) + tail);
    assert(i2.subrange(0, header_json.len() as int) =~= header_json);
    let rest = i2.subrange(header_json.len() as int, i2.len() as int);
    assert(rest =~= be(blocks, 4) + tail);
    assert(stream_rest(stream, header_json) =~= rest);
}

#[verifier::loop_isolation(false)]
#[verifier::rlimit(40)]
fn encode_snapshot_stream(header_json: &[u8], body: &[u8]) -> (stream: CodecResult<Vec<u8>>)
    ensures
        match stream {
            Ok(s) => {
                &&& stream_of(header_json@, body@) == Ok::<_, CodecErrorView>(s@)
                &&& header_json@.len() > 0 && body@.len() > 0 ==> opens_with(s@, header_json@)
                    && stream_body(stream_rest(s@, header_json@)) == Ok::<_, CodecErrorView>(
                    (body@, hash_of(body@)),
                )
            },
            Err(e) => stream_of(header_json@, body@) == Err::<Seq<u8>, _>(e@),
        },
{
    if body.len() > MAX_SNAPSHOT_BYTES {
        return Err(CodecError::limit("snapshot body exceeds 256 MiB"));
    }
    if header_json.len() > SNAPSHOT_HEADER_BYTES {
        return Err(CodecError::limit("snapshot header exceeds configured bound"));
    }
    let count: usize = (body.len() + (SNAPSHOT_BLOCK_BYTES - 1)) / SNAPSHOT_BLOCK_BYTES;
    let mut out: Vec<u8> = Vec::new();
    let magic = snapshot_stream_magic();
    put_bytes(&mut out, magic.as_slice());
    out.push(SNAPSHOT_STREAM_VERSION);
    put_u32(&mut out, header_json.len() as u32);
    put_bytes(&mut out, header_json);
    put_u32(&mut out, count as u32);
    assert(out@ =~= stream_head(header_json@, block_count(body@)));
    let ghost head = out@;
    let ghost mut blocks: Seq<u8> = Seq::empty();
    let ghost mut done: nat = 0;
    let mut at: usize = 0;
    assert(body@.subrange(0, body@.len() as int) == body@);
    assert forall|tail: Seq<u8>, n: nat| n >= done implies #[trigger] next_blocks(
        blocks + tail,
        n,
        Seq::empty(),
    ) == next_blocks(tail, (n - done) as nat, body@.subrange(0, at as int)) by {
        assert(blocks + tail == tail);
        assert(body@.subrange(0, 0) == Seq::<u8>::empty());
    }
    while at < body.len()
        invariant
            at <= body@.len(),
            out@ == head + blocks,
            at < body@.len() ==> at == done * 1_048_576,
            at == body@.len() ==> done == block_count(body@),
            forall|tail: Seq<u8>, n: nat|
                n >= done ==> #[trigger] next_blocks(blocks + tail, n, Seq::empty())
                    == next_blocks(tail, (n - done) as nat, body@.subrange(0, at as int)),
            with_blocks(out@, body@.subrange(at as int, body@.len() as int)) == with_blocks(
                head,
                body@,
            ),
        decreases body@.len() - at,
    {
        let ghost rest = body@.subrange(at as int, body@.len() as int);
        let left: usize = body.len() - at;
        let len: usize = if left > SNAPSHOT_BLOCK_BYTES {
            SNAPSHOT_BLOCK_BYTES
        } else {
            left
        };
        let chunk = vstd::slice::slice_subrange(body, at, at + len);
        assert(chunk@ == rest.subrange(0, block_len(rest)));
        assert(rest.subrange(block_len(rest), rest.len() as int) == body@.subrange(
            at + len,
            body@.len() as int,
        ));
        match put_block(&mut out, chunk) {
            Ok(()) => {},
            Err(e) => {
                return Err(e);
            },
        }
        if out.len() > MAX_SNAPSHOT_BYTES {
            return Err(CodecError::limit("snapshot exceeds 256 MiB"));
        }
        proof {
            let packed = zstd_packed(chunk@, 1)->Ok_0;
            let next = block(chunk@, packed);
            let (before, count_before, read) = (blocks, done, body@.subrange(0, at as int));
            blocks = blocks + next;
            done = done + 1;
            assert(out@ == head + blocks);
            assert(read + chunk@ == body@.subrange(0, at + len));
            assert forall|tail: Seq<u8>, n: nat| n >= done implies #[trigger] next_blocks(
                blocks + tail,
                n,
                Seq::empty(),
            ) == next_blocks(tail, (n - done) as nat, body@.subrange(0, at + len)) by {
                assert(blocks + tail == before + (next + tail));
                assert(next_blocks(before + (next + tail), n, Seq::empty()) == next_blocks(
                    next + tail,
                    (n - count_before) as nat,
                    read,
                ));
                lemma_block(chunk@, packed, tail, (n - count_before) as nat, read);
            }
        }
        at += len;
    }
    let digest = hash32(body);
    put_bytes(&mut out, digest.as_slice());
    if out.len() > MAX_SNAPSHOT_BYTES {
        return Err(CodecError::limit("snapshot exceeds 256 MiB"));
    }
    proof {
        if header_json@.len() > 0 && body@.len() > 0 {
            let footer = hash_of(body@);
            let total = block_count(body@);
            assert(out@ == head + (blocks + footer));
            lemma_opens(header_json@, total, blocks + footer);
            let rest = stream_rest(out@, header_json@);
            lemma_span();
            be_reads_back(total, 4);
            assert(rest.subrange(0, 4) =~= be(total, 4));
            assert(rest.subrange(4, rest.len() as int) =~= blocks + footer);
            assert(body@.subrange(0, at as int) == body@);
            assert(next_blocks(blocks + footer, total, Seq::empty()) == next_blocks(
                footer,
                0,
                body@,
            ));
            assert(footer.subrange(0, 32) =~= footer);
            assert(footer.subrange(32, footer.len() as int).len() == 0);
        }
    }
    Ok(out)
}

// ---------------------------------------------------------------------------
// Reading
// ---------------------------------------------------------------------------

/// A snapshot file whose frame has been read: its header or, in one piece, the
/// whole snapshot still stand in JSON.
pub enum SnapshotFile {
    Stream { header_json: Vec<u8>, rest: Vec<u8> },
    Legacy { json: Vec<u8> },
}

/// What a [`SnapshotFile`] holds.
pub enum SnapshotFileView {
    Stream { header_json: Seq<u8>, rest: Seq<u8> },
    Legacy { json: Seq<u8> },
}

impl View for SnapshotFile {
    type V = SnapshotFileView;

    open spec fn view(&self) -> SnapshotFileView {
        match self {
            SnapshotFile::Stream { header_json, rest } => SnapshotFileView::Stream {
                header_json: header_json@,
                rest: rest@,
            },
            SnapshotFile::Legacy { json } => SnapshotFileView::Legacy { json: json@ },
        }
    }
}

/// The header and the rest of a stream behind its first sixteen bytes.
pub open spec fn stream_frame(input: Seq<u8>) -> Outcome<SnapshotFileView> {
    match first_number(input, 1) {
        Err(e) => Err(e),
        Ok((version, input)) => if version != 2 {
            Err(CodecErrorView::InvalidVersion(version))
        } else {
            match first_number(input, 4) {
                Err(e) => Err(e),
                Ok((len, input)) => if len == 0 || len > 1_048_576 {
                    Err(CodecErrorView::Limit("snapshot header exceeds configured bound"@))
                } else {
                    match first_bytes(input, len as int) {
                        Err(e) => Err(e),
                        Ok((header_json, rest)) => Ok(
                            SnapshotFileView::Stream { header_json, rest },
                        ),
                    }
                },
            }
        },
    }
}

/// The JSON of a snapshot in one piece, behind its first sixteen bytes.
pub open spec fn legacy_frame(input: Seq<u8>) -> Outcome<SnapshotFileView> {
    match first_number(input, 4) {
        Err(e) => Err(e),
        Ok((len, input)) => match first_bytes(input, len as int) {
            Err(e) => Err(e),
            Ok((json, input)) => match first_bytes(input, 32) {
                Err(e) => Err(e),
                Ok((digest, rest)) => if hash_of(json) != digest {
                    Err(CodecErrorView::Malformed("snapshot checksum mismatch"@))
                } else if rest.len() > 0 {
                    Err(CodecErrorView::Malformed("trailing snapshot bytes"@))
                } else {
                    Ok(SnapshotFileView::Legacy { json })
                },
            },
        },
    }
}

/// The frame of a snapshot file, or why it has none.
pub open spec fn file_frame(bytes: Seq<u8>) -> Outcome<SnapshotFileView> {
    if bytes.len() > 268_435_456 {
        Err(CodecErrorView::Limit("snapshot exceeds 256 MiB"@))
    } else if bytes.len() < 52 {
        Err(CodecErrorView::Malformed("invalid snapshot magic"@))
    } else if bytes.subrange(0, 16) == stream_magic() {
        stream_frame(bytes.subrange(16, bytes.len() as int))
    } else if bytes.subrange(0, 16) == legacy_magic() {
        legacy_frame(bytes.subrange(16, bytes.len() as int))
    } else {
        Err(CodecErrorView::Malformed("invalid snapshot magic"@))
    }
}

/// `n` blocks read from the front, their content behind the bytes that are
/// there.
pub open spec fn next_blocks(input: Seq<u8>, n: nat, body: Seq<u8>) -> Parsed<Seq<u8>>
    decreases n,
{
    if n == 0 {
        Ok((body, input))
    } else {
        match first_number(input, 4) {
            Err(e) => Err(e),
            Ok((plain_len, input)) => match first_number(input, 4) {
                Err(e) => Err(e),
                Ok((packed_len, input)) => if plain_len == 0 || plain_len > 1_048_576 {
                    Err(CodecErrorView::Limit("snapshot block has an invalid uncompressed length"@))
                } else if packed_len == 0 || packed_len > 268_435_456 {
                    Err(CodecErrorView::Limit("snapshot block has an invalid compressed length"@))
                } else {
                    match first_bytes(input, 32) {
                        Err(e) => Err(e),
                        Ok((digest, input)) => match first_bytes(input, packed_len as int) {
                            Err(e) => Err(e),
                            Ok((packed, input)) => match zstd_content(packed, plain_len) {
                                Err(why) => Err(
                                    CodecErrorView::Malformed("snapshot decompression: "@ + why),
                                ),
                                Ok(chunk) => if chunk.len() != plain_len || hash_of(chunk)
                                    != digest {
                                    Err(
                                        CodecErrorView::Malformed(
                                            "snapshot block checksum or length mismatch"@,
                                        ),
                                    )
                                } else if body.len() + chunk.len() > 268_435_456 {
                                    Err(CodecErrorView::Limit("snapshot body exceeds 256 MiB"@))
                                } else {
                                    next_blocks(input, (n - 1) as nat, body + chunk)
                                },
                            },
                        },
                    }
                },
            },
        }
    }
}

/// The body of a stream behind its header, with the digest that the stream
/// ends with.
pub open spec fn stream_body(rest: Seq<u8>) -> Outcome<(Seq<u8>, Seq<u8>)> {
    match first_number(rest, 4) {
        Err(e) => Err(e),
        Ok((blocks, input)) => if blocks == 0 || blocks > 257 {
            Err(CodecErrorView::Limit("snapshot block count exceeds configured bound"@))
        } else {
            match next_blocks(input, blocks, Seq::empty()) {
                Err(e) => Err(e),
                Ok((body, input)) => match first_bytes(input, 32) {
                    Err(e) => Err(e),
                    Ok((footer, rest)) => if rest.len() > 0 {
                        Err(CodecErrorView::Malformed("trailing snapshot bytes"@))
                    } else {
                        Ok((body, footer))
                    },
                },
            }
        },
    }
}

/// The snapshot of a stream with that header, or why it holds none.
pub open spec fn stream_content(header: HeaderView, rest: Seq<u8>) -> Outcome<SnapshotView> {
    match stream_body(rest) {
        Err(e) => Err(e),
        Ok((body, footer)) => if footer != hash_of(body) || footer != header.digest {
            Err(CodecErrorView::Malformed("snapshot logical digest mismatch"@))
        } else {
            match body_content(body) {
                Err(e) => Err(e),
                Ok((meta, entries)) => {
                    let s = SnapshotView { header, meta, entries };
                    match snapshot_verdict(s) {
                        Err(e) => Err(e),
                        Ok(()) => Ok(s),
                    }
                },
            }
        },
    }
}

fn take_block(input: &mut &[u8], body: &mut Vec<u8>) -> (done: CodecResult<()>)
    ensures
        forall|n: nat|
            n > 0 ==> match done {
                Ok(()) => #[trigger] next_blocks((*old(input))@, n, old(body)@) == next_blocks(
                    (*final(input))@,
                    (n - 1) as nat,
                    final(body)@,
                ),
                Err(e) => next_blocks((*old(input))@, n, old(body)@) == Err::<
                    (Seq<u8>, Seq<u8>),
                    _,
                >(e@),
            },
{
    let plain_len = match take_u32(input) {
        Ok(v) => v,
        Err(e) => {
            return Err(e);
        },
    };
    let packed_len = match take_u32(input) {
        Ok(v) => v,
        Err(e) => {
            return Err(e);
        },
    };
    if plain_len == 0 || plain_len as usize > SNAPSHOT_BLOCK_BYTES {
        return Err(CodecError::limit("snapshot block has an invalid uncompressed length"));
    }
    if packed_len == 0 || packed_len as usize > MAX_SNAPSHOT_BYTES {
        return Err(CodecError::limit("snapshot block has an invalid compressed length"));
    }
    let digest = match take(input, 32) {
        Ok(v) => v,
        Err(e) => {
            return Err(e);
        },
    };
    let packed = match take(input, packed_len as usize) {
        Ok(v) => v,
        Err(e) => {
            return Err(e);
        },
    };
    let chunk = match decompress(packed, plain_len as usize) {
        Ok(v) => v,
        Err(why) => {
            return Err(CodecError::Malformed(joined("snapshot decompression: ", why.as_str())));
        },
    };
    let actual = hash32(chunk.as_slice());
    if chunk.len() != plain_len as usize || !same_bytes(actual.as_slice(), digest) {
        return Err(CodecError::malformed("snapshot block checksum or length mismatch"));
    }
    put_bytes(body, chunk.as_slice());
    if body.len() > MAX_SNAPSHOT_BYTES {
        return Err(CodecError::limit("snapshot body exceeds 256 MiB"));
    }
    Ok(())
}

#[verifier::loop_isolation(false)]
fn decode_stream_body(rest: &[u8]) -> (body: CodecResult<(Vec<u8>, [u8; 32])>)
    ensures
        match body {
            Ok(b) => stream_body(rest@) == Ok::<_, CodecErrorView>((b.0@, b.1@)),
            Err(e) => stream_body(rest@) == Err::<(Seq<u8>, Seq<u8>), _>(e@),
        },
{
    let mut input = rest;
    let blocks = match take_u32(&mut input) {
        Ok(v) => v,
        Err(e) => {
            return Err(e);
        },
    };
    if blocks == 0 || blocks as usize > SNAPSHOT_MAX_BLOCKS {
        return Err(CodecError::limit("snapshot block count exceeds configured bound"));
    }
    let ghost start = input@;
    let mut body: Vec<u8> = Vec::new();
    let mut left: u32 = blocks;
    while left > 0
        invariant
            left <= blocks,
            next_blocks(input@, left as nat, body@) == next_blocks(
                start,
                blocks as nat,
                Seq::empty(),
            ),
        decreases left,
    {
        match take_block(&mut input, &mut body) {
            Ok(()) => {},
            Err(e) => {
                return Err(e);
            },
        }
        left -= 1;
    }
    let footer = match take(&mut input, 32) {
        Ok(v) => array32(v),
        Err(e) => {
            return Err(e);
        },
    };
    if input.len() > 0 {
        return Err(CodecError::malformed("trailing snapshot bytes"));
    }
    Ok((body, footer))
}

impl SnapshotFile {
    /// Reads the frame of a snapshot file.
    pub fn open(bytes: &[u8]) -> (file: CodecResult<SnapshotFile>)
        ensures
            match file {
                Ok(f) => file_frame(bytes@) == Ok::<_, CodecErrorView>(f@),
                Err(e) => file_frame(bytes@) == Err::<SnapshotFileView, _>(e@),
            },
    {
        if bytes.len() > MAX_SNAPSHOT_BYTES {
            return Err(CodecError::limit("snapshot exceeds 256 MiB"));
        }
        if bytes.len() < 52 {
            return Err(CodecError::malformed("invalid snapshot magic"));
        }
        let magic = vstd::slice::slice_subrange(bytes, 0, 16);
        let rest = vstd::slice::slice_subrange(bytes, 16, bytes.len());
        let stream = snapshot_stream_magic();
        let legacy = snapshot_magic();
        if same_bytes(magic, stream.as_slice()) {
            Self::open_stream(rest)
        } else if same_bytes(magic, legacy.as_slice()) {
            Self::open_legacy(rest)
        } else {
            Err(CodecError::malformed("invalid snapshot magic"))
        }
    }

    fn open_stream(bytes: &[u8]) -> (file: CodecResult<SnapshotFile>)
        ensures
            match file {
                Ok(f) => stream_frame(bytes@) == Ok::<_, CodecErrorView>(f@),
                Err(e) => stream_frame(bytes@) == Err::<SnapshotFileView, _>(e@),
            },
    {
        let mut input = bytes;
        let version = match take_u8(&mut input) {
            Ok(v) => v,
            Err(e) => {
                return Err(e);
            },
        };
        if version != SNAPSHOT_STREAM_VERSION {
            return Err(CodecError::InvalidVersion(version as u64));
        }
        let len = match take_u32(&mut input) {
            Ok(v) => v,
            Err(e) => {
                return Err(e);
            },
        };
        if len == 0 || len as usize > SNAPSHOT_HEADER_BYTES {
            return Err(CodecError::limit("snapshot header exceeds configured bound"));
        }
        match take(&mut input, len as usize) {
            Ok(header) => Ok(
                SnapshotFile::Stream { header_json: copy_bytes(header), rest: copy_bytes(input) },
            ),
            Err(e) => Err(e),
        }
    }

    fn open_legacy(bytes: &[u8]) -> (file: CodecResult<SnapshotFile>)
        ensures
            match file {
                Ok(f) => legacy_frame(bytes@) == Ok::<_, CodecErrorView>(f@),
                Err(e) => legacy_frame(bytes@) == Err::<SnapshotFileView, _>(e@),
            },
    {
        let mut input = bytes;
        let len = match take_u32(&mut input) {
            Ok(v) => v,
            Err(e) => {
                return Err(e);
            },
        };
        let json = match take(&mut input, len as usize) {
            Ok(v) => v,
            Err(e) => {
                return Err(e);
            },
        };
        let digest = match take(&mut input, 32) {
            Ok(v) => v,
            Err(e) => {
                return Err(e);
            },
        };
        let actual = hash32(json);
        if !same_bytes(actual.as_slice(), digest) {
            return Err(CodecError::malformed("snapshot checksum mismatch"));
        }
        if input.len() > 0 {
            return Err(CodecError::malformed("trailing snapshot bytes"));
        }
        Ok(SnapshotFile::Legacy { json: copy_bytes(json) })
    }
}

/// How the JSON in snapshot files is read: the header of a stream, and a
/// snapshot in one piece. `None` is JSON that says something else.
pub struct JsonReading {
    pub header: spec_fn(Seq<u8>) -> Option<HeaderView>,
    pub whole: spec_fn(Seq<u8>) -> Option<SnapshotView>,
}

/// The snapshot that a file holds, where it holds a valid one.
pub open spec fn snapshot_in(bytes: Seq<u8>, json: JsonReading) -> Option<SnapshotView> {
    match file_frame(bytes) {
        Err(_) => None,
        Ok(SnapshotFileView::Stream { header_json, rest }) => match (json.header)(header_json) {
            None => None,
            Some(header) => match stream_content(header, rest) {
                Err(_) => None,
                Ok(s) => Some(s),
            },
        },
        Ok(SnapshotFileView::Legacy { json: text }) => match (json.whole)(text) {
            None => None,
            Some(s) => if snapshot_verdict(s) is Ok {
                Some(s)
            } else {
                None
            },
        },
    }
}

impl LogicalSnapshot {
    /// Writes a valid snapshot as a stream, behind the JSON of its header.
    /// Opening the stream gives that JSON, and reading on with the snapshot's
    /// header gives the snapshot: however JSON is read, the stream holds the
    /// snapshot where that JSON is read as its header.
    pub fn encode(&self, header_json: &[u8]) -> (stream: CodecResult<Vec<u8>>)
        ensures
            match stream {
                Ok(s) => {
                    &&& encoding(self@, header_json@) == Ok::<_, CodecErrorView>(s@)
                    &&& header_json@.len() > 0 && self.meta.list().len() <= 1_000_000
                        ==> opens_with(s@, header_json@) && stream_content(
                        self@.header,
                        stream_rest(s@, header_json@),
                    ) == Ok::<_, CodecErrorView>(self@)
                    &&& header_json@.len() > 0 && self.meta.list().len() <= 1_000_000 ==> forall|
                        json: JsonReading,
                    |
                        (#[trigger] json.header)(header_json@) == Some(self@.header)
                            ==> snapshot_in(s@, json) == Some(self@)
                },
                Err(e) => encoding(self@, header_json@) == Err::<Seq<u8>, _>(e@),
            },
    {
        match self.validate() {
            Ok(()) => {},
            Err(e) => {
                return Err(e);
            },
        }
        let count = self.meta.len();
        match self.body() {
            Ok(body) => {
                proof {
                    lemma_listed(self.meta);
                    let list = listed(self@.meta);
                    lemma_body_not_empty(list, self@.entries);
                    if count <= 1_000_000 {
                        assert forall|k: int| 0 <= k < list.len() implies names_record(
                            encode_utf8((#[trigger] list[k]).0),
                        ) by {
                            lemma_value(list, k);
                            assert(self@.meta.dom().contains(list[k].0));
                        }
                        body_reads_back(list, self@.entries);
                    }
                }
                encode_snapshot_stream(header_json, body.as_slice())
            },
            Err(e) => Err(e),
        }
    }

    /// Reads the snapshot of a stream whose header has been read.
    pub fn decode_stream(header: SnapshotHeader, rest: &[u8]) -> (snapshot: CodecResult<
        LogicalSnapshot,
    >)
        ensures
            match snapshot {
                Ok(s) => stream_content(header@, rest@) == Ok::<_, CodecErrorView>(s@),
                Err(e) => stream_content(header@, rest@) == Err::<SnapshotView, _>(e@),
            },
    {
        let (body, footer) = match decode_stream_body(rest) {
            Ok(v) => v,
            Err(e) => {
                return Err(e);
            },
        };
        let digest = hash32(body.as_slice());
        if !same_bytes(footer.as_slice(), digest.as_slice()) || !same_bytes(
            footer.as_slice(),
            header.digest.as_slice(),
        ) {
            return Err(CodecError::malformed("snapshot logical digest mismatch"));
        }
        match decode_snapshot_body(body.as_slice()) {
            Ok((meta, entries)) => {
                let snapshot = LogicalSnapshot { header, meta, entries };
                match snapshot.validate() {
                    Ok(()) => Ok(snapshot),
                    Err(e) => Err(e),
                }
            },
            Err(e) => Err(e),
        }
    }
}

} // verus!
