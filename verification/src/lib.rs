//! A client for ArcadeDB's gRPC interface: typed rows over wire records, SQL building and
//! checking, and the decisions of the client, with what each of them means stated and proved.

pub mod batch;
pub mod cache;
pub mod calls;
pub mod clause;
pub mod client;
pub mod connect;
pub mod decimal;
pub mod derive;
pub mod encode;
pub mod error;
pub mod filter;
pub mod float;
pub mod json;
pub mod occurrence;
pub mod operation;
pub mod options;
pub mod props;
pub mod record;
pub mod rpc;
pub mod scan;
pub mod sql;
pub mod sql_laws;
pub mod stream;
pub mod testutil;
pub mod text;
pub mod time;
pub mod wire;

pub use batch::ScriptBuffer;
pub use clause::SetClause;
pub use client::results::{QueryResult, QueryResultBatch, StreamSummary};
pub use client::streaming::consume_stream;
pub use decimal::Decimal;
pub use encode::{rec, IntoGrpcValue, Params};
pub use error::{ArcadeDbError, Result};
pub use filter::FilterClause;
pub use json::{grpc_record_to_json, grpc_value_to_json, json_to_grpc_value, Json};
pub use operation::Operation;
pub use options::ClientOptions;
pub use props::PropMap;
pub use record::{
    changed_param_map, from_map_via_value, props_diff, DecodeFromMap, FromGrpcValue, Link,
    RecordDecodeError, ToGrpcRecord,
};
pub use rpc::{ExecuteCommandResponse, InsertSummary};
pub use stream::StreamOptions;
pub use time::{CalendarDate, DateTimeUtc};
pub use wire::{
    GrpcDecimal, GrpcEmbedded, GrpcLink, GrpcList, GrpcMap, GrpcRecord, GrpcValue, Kind, Timestamp,
};
