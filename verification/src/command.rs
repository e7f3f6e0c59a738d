//! The commands of the replicated log, what applying them gives, and the frame
//! that carries a command's JSON.

use crate::bytes::{be, be_reads_back, be_value, copy_bytes, lemma_span, put_bytes, put_u32};
use crate::datum::{Datum, SqlType};
use crate::error::{CodecError, CodecErrorView};
use crate::ids::{LogId, OriginId, RequestId};
use crate::mutation::{KvMutationV1, MAX_COMMAND_BYTES};
use crate::wire::{first_bytes, first_number, take, take_u32, take_u8};
use vstd::prelude::*;

verus! {

pub const COMMAND_VERSION: u8 = 1;

/// A change of the schema.
#[derive(Clone, Debug, PartialEq, Eq)]
pub enum SchemaOperationV1 {
    CreateTable {
        table_id: u32,
        schema_id: u32,
        name: String,
        schema_version: u32,
        columns: Vec<(u32, String, SqlType, bool, Option<Datum>)>,
        primary_key: Vec<u32>,
    },
    DropTable { table_id: u32, expected_version: u32 },
    AddColumn {
        table_id: u32,
        column_id: u32,
        expected_version: u32,
        name: String,
        data_type: SqlType,
        nullable: bool,
        default: Option<Datum>,
    },
    DropColumn { table_id: u32, column_id: u32, expected_version: u32 },
    RenameTable { table_id: u32, new_name: String, expected_version: u32 },
    RenameColumn { table_id: u32, column_id: u32, new_name: String, expected_version: u32 },
    CreateIndex {
        index_id: u32,
        table_id: u32,
        name: String,
        unique: bool,
        columns: Vec<(u32, bool)>,
    },
    DropIndex { index_id: u32, expected_table_version: u32 },
}

/// A new origin takes over a node.
#[derive(Clone, Copy, Debug, PartialEq, Eq)]
pub struct ActivateOriginV1 {
    pub origin: OriginId,
}

/// The changes of one transaction.
#[derive(Clone, Debug, PartialEq, Eq)]
pub struct CommitTransactionV1 {
    pub request_id: RequestId,
    pub payload_hash: [u8; 32],
    pub base_epoch: u64,
    pub mutations: Vec<KvMutationV1>,
}

/// A change of the schema as one request.
#[derive(Clone, Debug, PartialEq, Eq)]
pub struct SchemaCommandV1 {
    pub request_id: RequestId,
    pub payload_hash: [u8; 32],
    pub base_epoch: u64,
    pub operation: SchemaOperationV1,
}

/// A command of the replicated log.
#[derive(Clone, Debug, PartialEq, Eq)]
pub enum ReplicatedCommandV1 {
    Noop,
    ActivateOrigin(ActivateOriginV1),
    CommitTransaction(CommitTransactionV1),
    SchemaChange(SchemaCommandV1),
    Membership { voters: Vec<u64>, learners: Vec<u64> },
}

/// What applying a command gives.
#[derive(Debug, PartialEq, Eq)]
pub enum ApplyResult {
    Noop,
    Activated,
    Committed { epoch: u64, log_id: LogId },
    SerializationFailure { expected: u64, actual: u64 },
    Duplicate(Box<ApplyResult>),
    StaleOrigin,
    AlreadyProcessed,
    ProtocolError(String),
    Rejected(String),
}

/// What is remembered of the requests of a node.
#[derive(Debug, PartialEq, Eq)]
pub struct NodeOriginState {
    pub active_origin: OriginId,
    pub last_sequence: u64,
    pub recent_results: Vec<RequestResult>,
}

/// What a request gave.
#[derive(Debug, PartialEq, Eq)]
pub struct RequestResult {
    pub sequence: u64,
    pub payload_hash: [u8; 32],
    pub result: ApplyResult,
}

type Outcome = std::result::Result<Seq<u8>, CodecErrorView>;

/// The frame of a command's JSON: a version, a length and the JSON.
pub open spec fn command_frame(json: Seq<u8>) -> Outcome {
    if json.len() > 4_194_304 {
        Err(CodecErrorView::Limit("command exceeds 4 MiB"@))
    } else {
        Ok(seq![1u8] + be(json.len(), 4) + json)
    }
}

/// The JSON that a frame carries, or why it carries none.
pub open spec fn command_json(bytes: Seq<u8>) -> Outcome {
    if bytes.len() > 4_194_309 {
        Err(CodecErrorView::Limit("command exceeds 4 MiB"@))
    } else {
        match first_number(bytes, 1) {
            Err(e) => Err(e),
            Ok((version, input)) => if version != 1 {
                Err(CodecErrorView::InvalidVersion(version))
            } else {
                match first_number(input, 4) {
                    Err(e) => Err(e),
                    Ok((len, input)) => if len > 4_194_304 {
                        Err(CodecErrorView::Limit("command exceeds 4 MiB"@))
                    } else {
                        match first_bytes(input, len as int) {
                            Err(e) => Err(e),
                            Ok((json, rest)) => if rest.len() > 0 {
                                Err(CodecErrorView::Malformed("trailing command bytes"@))
                            } else {
                                Ok(json)
                            },
                        }
                    },
                }
            },
        }
    }
}

/// Puts the JSON of a command into its frame.
pub fn encode_command(json: &[u8]) -> (frame: std::result::Result<Vec<u8>, CodecError>)
    ensures
        match frame {
            Ok(f) => command_frame(json@) == Ok::<_, CodecErrorView>(f@),
            Err(e) => command_frame(json@) == Err::<Seq<u8>, _>(e@),
        },
{
    if json.len() > MAX_COMMAND_BYTES {
        return Err(CodecError::limit("command exceeds 4 MiB"));
    }
    let mut out: Vec<u8> = Vec::new();
    out.push(COMMAND_VERSION);
    put_u32(&mut out, json.len() as u32);
    put_bytes(&mut out, json);
    assert(out@ =~= command_frame(json@)->Ok_0);
    Ok(out)
}

/// Takes the JSON of a command out of its frame.
pub fn decode_command(bytes: &[u8]) -> (json: std::result::Result<Vec<u8>, CodecError>)
    ensures
        match json {
            Ok(j) => command_json(bytes@) == Ok::<_, CodecErrorView>(j@),
            Err(e) => command_json(bytes@) == Err::<Seq<u8>, _>(e@),
        },
{
    if bytes.len() > MAX_COMMAND_BYTES + 5 {
        return Err(CodecError::limit("command exceeds 4 MiB"));
    }
    let mut input = bytes;
    let version = match take_u8(&mut input) {
        Ok(v) => v,
        Err(e) => {
            return Err(e);
        },
    };
    if version != COMMAND_VERSION {
        return Err(CodecError::InvalidVersion(version as u64));
    }
    let len = match take_u32(&mut input) {
        Ok(v) => v,
        Err(e) => {
            return Err(e);
        },
    };
    if len as usize > MAX_COMMAND_BYTES {
        return Err(CodecError::limit("command exceeds 4 MiB"));
    }
    let json = match take(&mut input, len as usize) {
        Ok(v) => v,
        Err(e) => {
            return Err(e);
        },
    };
    if input.len() > 0 {
        return Err(CodecError::malformed("trailing command bytes"));
    }
    Ok(copy_bytes(json))
}

/// Unframing a framed command gives its JSON back.
pub proof fn command_reads_back(json: Seq<u8>)
    requires
        command_frame(json) is Ok,
    ensures
        command_json(command_frame(json)->Ok_0) == Ok::<_, CodecErrorView>(json),
{
    let bytes = command_frame(json)->Ok_0;
    lemma_span();
    be_reads_back(json.len(), 4);
    assert(bytes.subrange(0, 1) =~= seq![1u8]);
    assert(be_value(seq![1u8]) == 1) by {
        reveal_with_fuel(be_value, 2);
        assert(seq![1u8].drop_last() == Seq::<u8>::empty());
    }
    let i1 = bytes.subrange(1, bytes.len() as int);
    assert(i1 =~= be(json.len(), 4) + json);
    assert(i1.subrange(0, 4) =~= be(json.len(), 4));
    let i2 = i1.subrange(4, i1.len() as int);
    assert(i2 =~= json);
    assert(i2.subrange(0, json.len() as int) =~= json);
}

} // verus!
