//! The messages of the data service, without the credentials that every request carries.

use vstd::prelude::*;
use crate::client::results::QueryResultBatch;
use crate::props::PropMap;
use crate::stream::{ProjectionSettings, RetrievalMode};
use crate::wire::{GrpcRecord, GrpcValue};

verus! {

/// The transaction that a request runs in.
#[derive(Debug)]
pub struct TransactionContext {
    pub transaction_id: String,
    pub database: String,
}

#[derive(Debug)]
pub struct ExecuteQueryRequest {
    pub database: String,
    pub query: String,
    pub parameters: PropMap<GrpcValue>,
    pub language: String,
    pub transaction: Option<TransactionContext>,
}

#[derive(Debug)]
pub struct ExecuteQueryResponse {
    pub results: Vec<QueryResultBatch>,
    pub execution_time_ms: i64,
}

#[derive(Debug)]
pub struct ExecuteCommandRequest {
    pub database: String,
    pub command: String,
    pub parameters: PropMap<GrpcValue>,
    pub language: String,
    pub return_rows: bool,
    pub transaction: Option<TransactionContext>,
}

#[derive(Debug)]
pub struct ExecuteCommandResponse {
    pub success: bool,
    pub message: String,
    pub affected_records: i64,
    pub execution_time_ms: i64,
    pub records: Vec<GrpcRecord>,
}

#[derive(Debug)]
pub struct StreamQueryRequest {
    pub database: String,
    pub query: String,
    pub parameters: PropMap<GrpcValue>,
    pub language: String,
    /// `0` leaves it to the server.
    pub batch_size: i32,
    pub retrieval_mode: RetrievalMode,
    pub projection_settings: Option<ProjectionSettings>,
}

#[derive(Debug)]
pub struct LookupByRidRequest {
    pub database: String,
    pub rid: String,
}

#[derive(Debug)]
pub struct LookupByRidResponse {
    pub found: bool,
    pub record: Option<GrpcRecord>,
}

#[derive(Debug)]
pub struct CreateRecordRequest {
    pub database: String,
    pub class: String,
    pub record: GrpcRecord,
}

/// The answer to a created record: the rid that the server gave it.
#[derive(Debug)]
pub struct CreateRecordResponse {
    pub rid: String,
}

/// Change the given properties and leave the others.
#[derive(Debug)]
pub struct UpdateRecordRequest {
    pub database: String,
    pub rid: String,
    pub properties: PropMap<GrpcValue>,
}

#[derive(Debug)]
pub struct UpdateRecordResponse {
    pub success: bool,
    pub updated: bool,
}

#[derive(Debug)]
pub struct DeleteRecordRequest {
    pub database: String,
    pub rid: String,
}

#[derive(Debug)]
pub struct DeleteRecordResponse {
    pub success: bool,
    pub deleted: bool,
    pub message: String,
}

/// What a bulk insert does with a row whose key exists.
#[derive(Debug, Clone, Copy, PartialEq, Eq, Structural)]
pub enum ConflictMode {
    Ignore,
    Update,
}

#[derive(Debug)]
pub struct BulkInsertRequest {
    pub database: String,
    pub target_class: String,
    pub key_columns: Vec<String>,
    pub conflict_mode: ConflictMode,
    pub update_columns_on_conflict: Vec<String>,
    pub rows: Vec<GrpcRecord>,
}

/// What a bulk insert did.
#[derive(Debug, Clone, Copy, PartialEq, Eq, Structural)]
pub struct InsertSummary {
    pub received: i64,
    pub inserted: i64,
    pub updated: i64,
    pub ignored: i64,
    pub failed: i64,
    pub execution_time_ms: i64,
}

#[derive(Debug, Clone, Copy, PartialEq, Eq, Structural)]
pub enum TransactionIsolation {
    ReadUncommitted,
    ReadCommitted,
    RepeatableRead,
    Serializable,
}

/// The answer to a commit or a rollback.
#[derive(Debug)]
pub struct TransactionResponse {
    pub success: bool,
    pub message: String,
}

} // verus!
