//! The bounds on what one node accepts.

use vstd::prelude::*;

verus! {

pub const FORMAT_VERSION: u8 = 1;

pub const MAX_KEY_BYTES: usize = 8192;

pub const MAX_INDEXED_VALUE_BYTES: usize = 4096;

/// The start of the PostgreSQL wire epoch, 2000-01-01, in Unix seconds.
pub const POSTGRES_EPOCH_UNIX_SECS: i64 = 946_684_800;

#[derive(Clone, Copy, Debug, PartialEq, Eq, Structural)]
pub struct Limits {
    pub max_transaction_age_ms: u64,
    pub idle_in_transaction_timeout_ms: u64,
    pub max_transaction_bytes: usize,
    pub max_mutations: usize,
    pub max_row_bytes: usize,
    pub max_sql_message_bytes: usize,
    pub max_returning_bytes: usize,
    pub max_key_bytes: usize,
    pub max_indexed_value_bytes: usize,
    pub max_connections: usize,
    pub max_active_queries: usize,
    pub query_workers: usize,
    pub query_work_mem_bytes: usize,
    pub global_work_mem_bytes: usize,
}

impl Limits {
    /// The limits of a node that is given no others.
    pub open spec fn standard() -> Limits {
        Limits {
            max_transaction_age_ms: 30_000,
            idle_in_transaction_timeout_ms: 15_000,
            max_transaction_bytes: 4_194_304,
            max_mutations: 10_000,
            max_row_bytes: 262_144,
            max_sql_message_bytes: 1_048_576,
            max_returning_bytes: 8_388_608,
            max_key_bytes: 8192,
            max_indexed_value_bytes: 4096,
            max_connections: 32,
            max_active_queries: 8,
            query_workers: 2,
            query_work_mem_bytes: 4_194_304,
            global_work_mem_bytes: 33_554_432,
        }
    }
}

impl Default for Limits {
    fn default() -> (limits: Limits)
        ensures
            limits == Limits::standard(),
    {
        Limits {
            max_transaction_age_ms: 30_000,
            idle_in_transaction_timeout_ms: 15_000,
            max_transaction_bytes: 4_194_304,
            max_mutations: 10_000,
            max_row_bytes: 262_144,
            max_sql_message_bytes: 1_048_576,
            max_returning_bytes: 8_388_608,
            max_key_bytes: MAX_KEY_BYTES,
            max_indexed_value_bytes: MAX_INDEXED_VALUE_BYTES,
            max_connections: 32,
            max_active_queries: 8,
            query_workers: 2,
            query_work_mem_bytes: 4_194_304,
            global_work_mem_bytes: 33_554_432,
        }
    }
}

} // verus!
