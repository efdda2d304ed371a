//! Streaming query consumption: batch accounting, early exit, errors in the middle of a
//! stream, and typed rows.

use arcadedb_protocol::client::streaming::{consume_rows, stream_query_request};
use arcadedb_protocol::encode::{i64_v, str_v};
use arcadedb_protocol::error::{Code, Status};
use arcadedb_protocol::stream::{ProjectionSettings, RetrievalMode, StreamOptions};
use arcadedb_protocol::{
    consume_stream, rec, ArcadeDbError, GrpcRecord, Params, QueryResultBatch, RecordDecodeError,
    StreamSummary,
};
use std::ops::ControlFlow;

fn batch(n_records: usize, is_last: bool, running_total: i64) -> QueryResultBatch {
    QueryResultBatch {
        records: (0..n_records).map(|_| record("")).collect(),
        total_records_in_batch: n_records as i32,
        running_total_emitted: running_total,
        is_last_batch: is_last,
    }
}

fn record(title: &str) -> GrpcRecord {
    rec("", vec![("title", str_v(title))])
}

#[test]
fn counts_batches_and_rows_through_completion() {
    let stream = vec![
        Ok(batch(2, false, 2)),
        Ok(batch(3, false, 5)),
        Ok(batch(1, true, 6)),
    ];
    let mut seen_batches = 0usize;

    let summary = consume_stream(stream, |_batch| {
        seen_batches += 1;
        ControlFlow::Continue(())
    })
    .unwrap();

    assert_eq!(seen_batches, 3);
    assert_eq!(
        summary,
        StreamSummary {
            batches: 3,
            rows: 6,
            running_total_emitted: 6,
            is_last_batch: true,
            truncated: false,
        }
    );
}

#[test]
fn early_exit_marks_truncated_and_stops_consuming() {
    let stream = vec![
        Ok(batch(2, false, 2)),
        Ok(batch(3, true, 5)), // must never reach the callback
        Ok(batch(1, true, 6)),
    ];
    let mut seen_batches = 0usize;

    let summary = consume_stream(stream, |_batch| {
        seen_batches += 1;
        ControlFlow::Break(())
    })
    .unwrap();

    assert_eq!(seen_batches, 1, "Break cancels further consumption");
    assert_eq!(summary.batches, 1);
    assert_eq!(summary.rows, 2);
    assert!(summary.truncated);
    assert!(!summary.is_last_batch);
    assert_eq!(summary.running_total_emitted, 2);
}

#[test]
fn mid_stream_error_propagates() {
    let stream = vec![
        Ok(batch(1, false, 1)),
        Err(Status::new(Code::Internal, "server exploded mid-query")),
    ];

    let err = consume_stream(stream, |_batch| ControlFlow::Continue(())).unwrap_err();

    assert!(
        err.message.contains("server exploded"),
        "status message carried through: {}",
        err.message
    );
}

#[test]
fn empty_stream_yields_zero_summary() {
    let summary = consume_stream(Vec::new(), |_b| ControlFlow::Continue(())).unwrap();

    assert_eq!(
        summary,
        StreamSummary {
            batches: 0,
            rows: 0,
            running_total_emitted: 0,
            is_last_batch: false,
            truncated: false,
        }
    );
}

#[derive(Debug, PartialEq)]
struct TitleRow {
    title: String,
}

impl<'r> TryFrom<&'r GrpcRecord> for TitleRow {
    type Error = RecordDecodeError;

    fn try_from(rec: &'r GrpcRecord) -> Result<Self, RecordDecodeError> {
        Ok(TitleRow { title: rec.get("title")? })
    }
}

#[test]
fn callback_scope_supports_borrowed_decode() {
    let b = QueryResultBatch {
        records: vec![record("t1"), record("t2")],
        total_records_in_batch: 2,
        running_total_emitted: 2,
        is_last_batch: true,
    };
    let mut seen: Vec<String> = Vec::new();

    let summary = consume_stream(vec![Ok(b)], |batch| {
        for rec in &batch.records {
            let row = TitleRow::try_from(rec).expect("borrowed decode in scope");
            seen.push(row.title);
        }
        ControlFlow::Continue(())
    })
    .unwrap();

    assert_eq!(seen, ["t1", "t2"]);
    assert_eq!(summary.rows, 2);
}

fn two_batches(second: GrpcRecord) -> Vec<Result<QueryResultBatch, Status>> {
    vec![
        Ok(QueryResultBatch {
            records: vec![record("t1"), record("t2")],
            total_records_in_batch: 2,
            running_total_emitted: 2,
            is_last_batch: false,
        }),
        Ok(QueryResultBatch {
            records: vec![second],
            total_records_in_batch: 1,
            running_total_emitted: 3,
            is_last_batch: true,
        }),
    ]
}

#[test]
fn rows_are_decoded_as_they_arrive() {
    let mut seen: Vec<String> = Vec::new();
    let summary = consume_rows(two_batches(record("t3")), "SELECT", |row: TitleRow| {
        seen.push(row.title);
        ControlFlow::Continue(())
    })
    .unwrap();
    assert_eq!(seen, ["t1", "t2", "t3"]);
    assert_eq!((summary.batches, summary.rows, summary.truncated), (2, 3, false));
}

#[test]
fn a_row_callback_can_stop_the_stream() {
    let mut seen = 0;
    let summary = consume_rows(two_batches(record("t3")), "SELECT", |_row: TitleRow| {
        seen += 1;
        ControlFlow::Break(())
    })
    .unwrap();
    assert_eq!(seen, 1);
    assert_eq!((summary.batches, summary.rows, summary.truncated), (1, 2, true));
}

#[test]
fn a_row_that_does_not_decode_fails_the_call() {
    let bad = rec("", vec![("other", i64_v(1))]);
    let e = consume_rows(two_batches(bad), "SELECT FROM t", |_row: TitleRow| {
        ControlFlow::Continue(())
    })
    .unwrap_err();
    match e {
        ArcadeDbError::Decode { what, source } => {
            assert_eq!(what, "stream row of `SELECT FROM t`");
            assert_eq!(source.to_string(), "missing property `title`");
        }
        other => panic!("{other:?}"),
    }
    let broken: Vec<Result<QueryResultBatch, Status>> =
        vec![Err(Status::new(Code::Unavailable, "gone"))];
    let e = consume_rows(broken, "SELECT FROM t", |_row: TitleRow| ControlFlow::Continue(()))
        .unwrap_err();
    assert_eq!(e.code(), Some(Code::Unavailable));
}

#[test]
fn options_reach_the_request() {
    let q = stream_query_request("db", "SELECT", Params::default(), StreamOptions::new());
    assert_eq!((q.batch_size, q.retrieval_mode, q.projection_settings), (0, RetrievalMode::Cursor, None));
    assert_eq!(q.language, "sql");
    let settings = ProjectionSettings {
        include_projections: true,
        projection_encoding: 1,
        soft_limit_bytes: 2,
    };
    let options = StreamOptions::new()
        .batch_size(50_000)
        .retrieval_mode(RetrievalMode::Paged)
        .projection(settings);
    let q = stream_query_request("db", "SELECT", Params::default(), options);
    assert_eq!(q.batch_size, 50_000);
    assert_eq!(q.retrieval_mode, RetrievalMode::Paged);
    assert_eq!(q.projection_settings, Some(settings));
    assert_eq!(StreamOptions::new().batch_size(u32::MAX).batch_size, -1);
}
