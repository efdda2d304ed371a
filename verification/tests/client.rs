//! What requests carry and what responses mean.

use arcadedb_protocol::batch::{
    apply_ddl, script_request, upsert_edge_command, upsert_edge_query, ScriptBuffer, FLUSH_AT,
};
use arcadedb_protocol::client::execute::{
    command_result, cypher_execute_request, execute_in_transaction_request, execute_request,
    execute_values_in_transaction_request,
};
use arcadedb_protocol::client::query::{
    count_type, count_type_request, create_and_return, cypher_query_request, fetch_one,
    fetch_optional, lookup, lookup_by_key_request, lookup_by_rid, lookup_by_rid_request,
    query_in_transaction_request, query_request, query_result, query_scalar,
    query_with_values_request, single_column_value, upsert_returning, validate_identifier,
    write_returning_optional,
};
use arcadedb_protocol::client::records::{
    bulk_insert_request, bulk_upsert_dtos_request, bulk_upsert_request, create_record_request,
    delete_record, delete_record_request, records_from_dtos, update_record_partial,
    update_record_partial_request,
};
use arcadedb_protocol::client::results::{par_min_records, DEFAULT_PAR_MIN_RECORDS};
use arcadedb_protocol::client::transaction::{
    commit_transaction, rollback_transaction, transaction_context, TransactionGuard, TxAction,
    TxEvent, TxRunner,
};
use arcadedb_protocol::connect::{tls_rejected, Action, Connecting, Event};
use arcadedb_protocol::encode::{i64_v, str_v};
use arcadedb_protocol::error::{
    command_failed, is_retryable_conflict, map_rpc_error, Code, Status,
};
use arcadedb_protocol::options::{env_name, Duration, EnvValues};
use arcadedb_protocol::rpc::{
    ConflictMode, DeleteRecordResponse, ExecuteCommandResponse, ExecuteQueryResponse,
    LookupByRidResponse, TransactionResponse, UpdateRecordResponse,
};
use arcadedb_protocol::scan::{bucket, type_, type_with_options, type_with_values};
use arcadedb_protocol::{
    rec, ArcadeDbError, ClientOptions, GrpcRecord, GrpcValue, Kind, Link, Operation, Params,
    QueryResult, QueryResultBatch, RecordDecodeError, StreamOptions, ToGrpcRecord,
};

#[test]
fn already_exists_rejections_normalize_to_the_dedicated_variant() {
    // By message: both the "already exists" and "already existing" spellings.
    for msg in [
        "Database 'oak' already exists",
        "Type 'item' already existing in database",
    ] {
        let err = map_rpc_error("create database", "oak", Status::new(Code::Internal, msg));
        assert!(
            matches!(err, ArcadeDbError::AlreadyExists { .. }),
            "message {msg:?} should normalize"
        );
        assert_eq!(err.server_message(), Some(msg));
    }

    // By gRPC code, when the server does set it.
    let err = map_rpc_error(
        "create database",
        "oak",
        Status::new(Code::AlreadyExists, "Database 'oak' already exists"),
    );
    assert!(matches!(err, ArcadeDbError::AlreadyExists { .. }));

    // Everything else stays a plain Rpc error.
    let err = map_rpc_error("query", "SELECT 1", Status::new(Code::Unavailable, "boom"));
    assert!(matches!(err, ArcadeDbError::Rpc { .. }));

    // And the success=false path normalizes identically.
    let err = command_failed(
        "execute command",
        "Error: Type 'item' already exists".into(),
        0,
    );
    assert!(matches!(err, ArcadeDbError::AlreadyExists { .. }));
    let err = command_failed("execute command", "syntax error".into(), 0);
    assert!(matches!(err, ArcadeDbError::CommandFailed { .. }));
}

#[test]
fn identifier_validation_accepts_only_plain_names() {
    assert_eq!(validate_identifier("item", "type name").unwrap(), "item");
    assert_eq!(
        validate_identifier("user_shelf_v2", "type name").unwrap(),
        "user_shelf_v2"
    );
    for bad in [
        "",
        "item; DROP",
        "has space",
        "has-dash",
        "schema:types",
        "a.b",
    ] {
        assert!(
            validate_identifier(bad, "type name").is_err(),
            "`{bad}` must be rejected"
        );
    }
}

#[test]
fn mvcc_conflicts_are_detected_from_the_server_message() {
    for msg in [
        "The record was changed by concurrent transaction",
        "MVCC conflict on update",
        "NeedRetryException: please retry the transaction",
    ] {
        let err = map_rpc_error("commit transaction", "", Status::new(Code::Aborted, msg));
        assert!(is_retryable_conflict(&err), "`{msg}` must be retryable");
    }
    let err = map_rpc_error("query", "", Status::new(Code::Internal, "syntax error"));
    assert!(!is_retryable_conflict(&err));
    // A plain Rpc error without a message-ish content is not retryable.
    let err = ArcadeDbError::not_found("x", "y");
    assert!(!is_retryable_conflict(&err));
}

#[derive(Debug, Clone)]
struct ItemRow {
    name: String,
}

impl<'a> TryFrom<&'a GrpcRecord> for ItemRow {
    type Error = RecordDecodeError;

    fn try_from(rec: &'a GrpcRecord) -> Result<Self, Self::Error> {
        let name = rec
            .properties
            .get("name")
            .ok_or_else(|| RecordDecodeError::missing_field("name"))?;
        let Some(Kind::StringValue(s)) = &name.kind else {
            return Err(RecordDecodeError::conversion("name: expected string"));
        };
        Ok(ItemRow { name: s.clone() })
    }
}

#[test]
fn one_row_accessors_decode_or_report_not_found() {
    let row = rec("t", vec![("name", str_v("oak"))]);

    let empty = QueryResult {
        records: vec![],
        execution_time_ms: 0,
    };
    assert!(empty.first::<ItemRow>().unwrap().is_none());
    assert!(matches!(
        empty.one::<ItemRow>(),
        Err(ArcadeDbError::NotFound { .. })
    ));

    let single = QueryResult {
        records: vec![row],
        execution_time_ms: 0,
    };
    let row = single.first::<ItemRow>().unwrap().unwrap();
    assert_eq!(row.name, "oak");
    assert_eq!(single.one::<ItemRow>().unwrap().name, "oak");

    // Multi-column rows are rejected for scalars: map order is not column order.
    let wide = rec("t", vec![("a", str_v("1")), ("b", str_v("2"))]);
    assert!(single_column_value(&wide, "SELECT a, b FROM t").is_err());
    let lone = rec("t", vec![("count", i64_v(7))]);
    let scalar = single_column_value(&lone, "SELECT count(*) AS count FROM t")
        .unwrap()
        .clone();
    assert!(matches!(scalar.kind, Some(Kind::Int64Value(7))));
}

fn result(records: Vec<GrpcRecord>) -> QueryResult {
    QueryResult { records, execution_time_ms: 3 }
}

fn named(name: &str) -> GrpcRecord {
    rec("t", vec![("name", str_v(name))])
}

fn command(success: bool, message: &str, records: Vec<GrpcRecord>) -> ExecuteCommandResponse {
    ExecuteCommandResponse {
        success,
        message: message.to_string(),
        affected_records: 4,
        execution_time_ms: 0,
        records,
    }
}

#[test]
fn a_status_is_kept_whole() {
    let plain = Status::new(Code::Internal, "boom");
    assert_eq!(plain.to_string(), "code: 'Internal error', message: \"boom\"");
    assert_eq!(Status::new(Code::Internal, "").to_string(), "code: 'Internal error'");
    let full = Status {
        code: Code::Unavailable,
        message: "boom".to_string(),
        details: vec![1, 2],
        metadata: vec![("retry-after".to_string(), b"5".to_vec())],
        source: Some("Broken(\"pipe\")".to_string()),
    };
    assert_eq!(
        full.to_string(),
        "code: 'The service is currently unavailable', message: \"boom\", source: Broken(\"pipe\")"
    );
    let err = map_rpc_error("query", "SELECT 1", full);
    assert_eq!(
        err.to_string(),
        "query failed: code: 'The service is currently unavailable', message: \"boom\", \
         source: Broken(\"pipe\") (in: SELECT 1)"
    );
    let ArcadeDbError::Rpc { status, .. } = err else {
        panic!("expected an rpc error");
    };
    assert_eq!(status.details, [1, 2]);
    assert_eq!(status.metadata, [("retry-after".to_string(), b"5".to_vec())]);
}

#[test]
fn errors_read_as_promised() {
    let rpc = map_rpc_error("query", "SELECT 1", Status::new(Code::Unavailable, "boom"));
    assert_eq!(
        rpc.to_string(),
        "query failed: code: 'The service is currently unavailable', message: \"boom\" (in: SELECT 1)"
    );
    assert_eq!(rpc.code(), Some(Code::Unavailable));
    let failed = command_failed("execute command", "syntax error".into(), 9);
    assert_eq!(failed.to_string(), "command failed: syntax error");
    assert_eq!(failed.server_message(), Some("syntax error"));
    assert_eq!(failed.code(), None);
    assert!(matches!(failed, ArcadeDbError::CommandFailed { affected: Some(9), .. }));
    assert_eq!(
        ArcadeDbError::not_found("fetch_one", "SELECT").to_string(),
        "no rows returned by fetch_one (expected at least one: SELECT)"
    );
    assert_eq!(ArcadeDbError::invalid_input("no").to_string(), "no");
    let there = command_failed("create", "it ALREADY EXISTS".into(), 0);
    assert_eq!(there.to_string(), "create: it ALREADY EXISTS");
    for n in 0..17 {
        assert_eq!(Code::from_i32(n).as_i32(), n);
    }
    assert_eq!(Code::from_i32(99), Code::Unknown);
}

#[test]
fn requests_name_their_language() {
    let q = query_request("db", "SELECT 1");
    assert_eq!((q.database.as_str(), q.language.as_str()), ("db", "sql"));
    assert!(q.transaction.is_none() && q.parameters.is_empty());
    assert_eq!(cypher_query_request("db", "MATCH").language, "cypher");
    assert_eq!(cypher_execute_request("db", "MATCH").language, "opencypher");
    assert_eq!(script_request("db", "a\nb").language, "sqlscript");
    let p = Params::from_pairs(vec![("a", 1i64)]);
    assert!(query_with_values_request("db", "SELECT :a", p).parameters.contains_key("a"));
    let t = query_in_transaction_request("db", "SELECT 1", "tx1").transaction.unwrap();
    assert_eq!((t.transaction_id.as_str(), t.database.as_str()), ("tx1", ""));
    let c = execute_request("db", "INSERT");
    assert!(c.return_rows && c.transaction.is_none());
    let c = execute_in_transaction_request("db", "sql", "INSERT", "tx1");
    assert_eq!(c.transaction.unwrap().transaction_id, "tx1");
    let p = Params::from_pairs(vec![("a", 1i64)]);
    let c = execute_values_in_transaction_request("db", "INSERT", p, "tx2");
    assert!(c.parameters.contains_key("a") && c.return_rows);
    let t = transaction_context("db", "tx1");
    assert_eq!((t.transaction_id.as_str(), t.database.as_str()), ("tx1", "db"));
}

#[test]
fn batches_become_one_result() {
    let b = |names: &[&str]| QueryResultBatch {
        records: names.iter().map(|n| named(n)).collect(),
        total_records_in_batch: names.len() as i32,
        running_total_emitted: 0,
        is_last_batch: false,
    };
    let r = query_result(ExecuteQueryResponse {
        results: vec![b(&["a", "b"]), b(&[]), b(&["c"])],
        execution_time_ms: 12,
    });
    assert_eq!((r.len(), r.is_empty(), r.execution_time_ms), (3, false, 12));
    let names: Vec<String> = r.rows::<ItemRow>().into_iter().map(|x| x.unwrap().name).collect();
    assert_eq!(names, ["a", "b", "c"]);
    assert_eq!(r.iter().len(), 3);
    assert_eq!(r.collect_rows::<ItemRow>().unwrap().len(), 3);
    assert!(r.decodes_in_parallel(3) && !r.decodes_in_parallel(4));
    let mixed = result(vec![named("a"), rec("t", vec![("x", i64_v(1))])]);
    assert!(mixed.collect_rows::<ItemRow>().is_err());
    assert!(mixed.rows::<ItemRow>()[0].is_ok() && mixed.rows::<ItemRow>()[1].is_err());
    assert!(matches!(
        result(vec![rec("t", vec![("x", i64_v(1))])]).one::<ItemRow>(),
        Err(ArcadeDbError::Decode { .. })
    ));
}

#[test]
fn the_first_row_that_fails_is_reported() {
    let mixed = result(vec![
        named("oak"),
        rec("t", vec![("name", i64_v(1))]),
        rec("t", vec![("x", i64_v(2))]),
    ]);
    assert_eq!(
        mixed.collect_rows::<ItemRow>().unwrap_err(),
        RecordDecodeError::conversion("name: expected string")
    );
    let fine = result(vec![named("oak"), named("ash")]);
    let names: Vec<String> =
        fine.collect_rows::<ItemRow>().unwrap().into_iter().map(|r| r.name).collect();
    assert_eq!(names, ["oak", "ash"]);
}

#[test]
fn one_is_the_first_row_or_an_error() {
    let some = result(vec![named("oak"), named("ash")]);
    assert_eq!(
        some.one::<ItemRow>().unwrap().name,
        some.first::<ItemRow>().unwrap().unwrap().name
    );
    assert!(matches!(
        result(vec![]).one::<ItemRow>(),
        Err(ArcadeDbError::NotFound { operation, detail })
            if operation == "query" && detail == "result set was empty"
    ));
    let bad = result(vec![rec("t", vec![("x", i64_v(1))])]);
    let first = bad.first::<ItemRow>().unwrap_err();
    assert!(matches!(
        bad.one::<ItemRow>(),
        Err(ArcadeDbError::Decode { what, source }) if what == "first row" && source == first
    ));
}

#[test]
fn one_row_reads() {
    let some = result(vec![named("oak"), named("ash")]);
    let none = result(vec![]);
    let bad = result(vec![rec("t", vec![("x", i64_v(1))])]);
    assert_eq!(fetch_optional::<ItemRow>(&some, "q").unwrap().unwrap().name, "oak");
    assert!(fetch_optional::<ItemRow>(&none, "q").unwrap().is_none());
    assert_eq!(fetch_optional::<ItemRow>(&bad, "q").unwrap_err().to_string(), "decode fetch row of `q`");
    assert_eq!(fetch_one::<ItemRow>(&some, "q").unwrap().name, "oak");
    assert!(matches!(
        fetch_one::<ItemRow>(&none, "q"),
        Err(ArcadeDbError::NotFound { operation, detail }) if operation == "fetch_one" && detail == "q"
    ));
    let written = command(true, "", vec![named("oak")]);
    let nothing = command(true, "", vec![]);
    assert_eq!(write_returning_optional::<ItemRow>(&written, "c").unwrap().unwrap().name, "oak");
    assert!(write_returning_optional::<ItemRow>(&nothing, "c").unwrap().is_none());
    assert_eq!(upsert_returning::<ItemRow>(&written, "c").unwrap().name, "oak");
    assert!(matches!(
        upsert_returning::<ItemRow>(&nothing, "c"),
        Err(ArcadeDbError::NotFound { operation, .. }) if operation == "upsert_returning"
    ));
    assert!(matches!(
        create_and_return::<ItemRow>(&nothing, "c"),
        Err(ArcadeDbError::NotFound { operation, .. }) if operation == "create_and_return"
    ));
    assert_eq!(create_and_return::<ItemRow>(&written, "c").unwrap().name, "oak");
}

#[test]
fn scalars_need_one_column() {
    let seven = result(vec![rec("t", vec![("count", i64_v(7))])]);
    assert_eq!(query_scalar::<i64>(&seven, "q").unwrap(), Some(7));
    assert_eq!(query_scalar::<i64>(&result(vec![]), "q").unwrap(), None);
    let wide = result(vec![rec("t", vec![("a", i64_v(1)), ("b", i64_v(2))])]);
    assert_eq!(
        query_scalar::<i64>(&wide, "q").unwrap_err().to_string(),
        "query_scalar: `q` returned a 2-column row; exactly one column is required"
    );
    assert_eq!(
        query_scalar::<bool>(&seven, "q").unwrap_err().to_string(),
        "decode query scalar of `q`"
    );
    assert_eq!(count_type(&seven, "item").unwrap(), 7);
    assert_eq!(
        count_type(&result(vec![]), "item").unwrap_err().to_string(),
        "no rows returned by count_type (expected at least one: no count row returned for `item`)"
    );
    assert_eq!(
        count_type_request("db", "item").unwrap().query,
        "SELECT count(*) AS count FROM item"
    );
    assert!(count_type_request("db", "a b").is_err());
}

#[test]
fn lookups() {
    let rid = Link::new(12, 5);
    assert_eq!(lookup_by_rid_request("db", &rid).rid, "#12:5");
    assert!(lookup_by_rid(LookupByRidResponse { found: false, record: Some(named("x")) }).is_none());
    let empty = lookup_by_rid(LookupByRidResponse { found: true, record: None }).unwrap();
    assert!(empty.rid.is_empty() && empty.properties.is_empty());
    let hit = LookupByRidResponse { found: true, record: Some(named("oak")) };
    assert_eq!(lookup::<ItemRow>(hit, &rid).unwrap().unwrap().name, "oak");
    let bad = LookupByRidResponse { found: true, record: None };
    assert_eq!(lookup::<ItemRow>(bad, &rid).unwrap_err().to_string(), "decode lookup record #12:5");
    let miss = LookupByRidResponse { found: false, record: None };
    assert!(lookup::<ItemRow>(miss, &rid).unwrap().is_none());

    let q = lookup_by_key_request("db", "item", &vec![("a", i64_v(1)), ("b", str_v("x"))]).unwrap();
    assert_eq!(q.query, "SELECT FROM item WHERE a = :key0 AND b = :key1 LIMIT 1");
    assert_eq!(q.parameters.get("key1"), Some(&str_v("x")));
    assert_eq!(q.parameters.len(), 2);
    assert_eq!(
        lookup_by_key_request("db", "item", &vec![]).unwrap_err().to_string(),
        "lookup_by_key: key must name at least one property"
    );
    assert_eq!(
        lookup_by_key_request("db", "item", &vec![("a", i64_v(1)), ("b c", i64_v(2))])
            .unwrap_err()
            .to_string(),
        "invalid property name `b c`: expected non-empty ASCII letters, digits, or `_`"
    );
}

#[test]
fn command_responses() {
    assert!(command_result("execute command", command(true, "", vec![])).is_ok());
    let e = command_result("execute command", command(false, "nope", vec![])).unwrap_err();
    assert!(matches!(
        e,
        ArcadeDbError::CommandFailed { operation, message, affected: Some(4) }
            if operation == "execute command" && message == "nope"
    ));
    let rid = Link::new(1, 2);
    assert!(update_record_partial(UpdateRecordResponse { success: true, updated: true }, &rid).unwrap());
    let e = update_record_partial(UpdateRecordResponse { success: false, updated: false }, &rid);
    assert_eq!(e.unwrap_err().to_string(), "command failed: #1:2");
    let deleted = DeleteRecordResponse { success: true, deleted: false, message: String::new() };
    assert!(!delete_record(deleted, &rid).unwrap());
    let refused = DeleteRecordResponse { success: false, deleted: false, message: "m".to_string() };
    assert!(matches!(
        delete_record(refused, &rid).unwrap_err(),
        ArcadeDbError::CommandFailed { operation, .. } if operation == "delete record #1:2"
    ));
    let ok = TransactionResponse { success: true, message: String::new() };
    assert!(commit_transaction(ok).is_ok());
    let no = TransactionResponse { success: false, message: "m".to_string() };
    assert!(matches!(
        rollback_transaction(no).unwrap_err(),
        ArcadeDbError::CommandFailed { operation, affected: None, .. } if operation == "rollback transaction"
    ));
}

struct Keyed(i64);

impl ToGrpcRecord for Keyed {
    fn props(&self) -> Vec<(&str, GrpcValue)> {
        vec![("id", i64_v(self.0))]
    }

    const KEY_COLUMNS: &'static [&'static str] = &["id"];
}

struct Keyless;

impl ToGrpcRecord for Keyless {
    const KEY_COLUMNS: &'static [&'static str] = &[];

    fn props(&self) -> Vec<(&str, GrpcValue)> {
        Vec::new()
    }
}

#[test]
fn record_writes() {
    let c = create_record_request("db", "t", vec![("a", i64_v(1))]);
    assert_eq!((c.class.as_str(), c.record.class.as_str()), ("t", "t"));
    assert!(c.record.properties.contains_key("a"));
    let u = update_record_partial_request("db", &Link::new(3, 4), Params::from_pairs(vec![("a", 1i64)]));
    assert_eq!(u.rid, "#3:4");
    assert_eq!(delete_record_request("db", &Link::new(3, 4)).rid, "#3:4");
    let b = bulk_insert_request("db", "t", &["a", "b"], vec![named("x")]);
    assert_eq!(b.key_columns, ["a", "b"]);
    assert_eq!(b.conflict_mode, ConflictMode::Ignore);
    assert!(b.update_columns_on_conflict.is_empty());
    let b = bulk_upsert_request("db", "t", &["a"], &["c"], vec![]);
    assert_eq!(b.conflict_mode, ConflictMode::Update);
    assert_eq!(b.update_columns_on_conflict, ["c"]);
    let b = bulk_upsert_dtos_request("db", "t", vec![Keyed(1), Keyed(2)], "Keyed").unwrap();
    assert_eq!(b.key_columns, ["id"]);
    assert_eq!(b.rows.len(), 2);
    assert_eq!(b.rows[1].properties.get("id"), Some(&i64_v(2)));
    assert_eq!(
        bulk_upsert_dtos_request("db", "t", vec![Keyless], "Keyless").unwrap_err().to_string(),
        "bulk_upsert_dtos: `Keyless` declares no #[record(key)] columns — the server cannot detect conflicts without a key"
    );
    assert_eq!(records_from_dtos(vec![Keyed(5)], "k")[0].class, "k");
}

#[test]
fn parallel_threshold() {
    assert_eq!(par_min_records(None), DEFAULT_PAR_MIN_RECORDS);
    assert_eq!(par_min_records(Some("7")), 7);
    assert_eq!(par_min_records(Some("+7")), 7);
    for bad in ["", "0", "-3", "x", "99999999999999999999999"] {
        assert_eq!(par_min_records(Some(bad)), 512, "{bad}");
    }
}

fn conflict() -> ArcadeDbError {
    command_failed("commit", "MVCC conflict".to_string(), 0)
}

fn other() -> ArcadeDbError {
    command_failed("commit", "disk full".to_string(), 0)
}

#[test]
fn transactions_are_retried_after_conflicts() {
    let mut tx = TxRunner::new(2);
    let mut bodies = 0;
    let mut event = TxEvent::Begun;
    let last = loop {
        match tx.step(event) {
            TxAction::Begin => event = TxEvent::Begun,
            TxAction::RunBody => {
                bodies += 1;
                event = TxEvent::BodyFailed(conflict());
            }
            TxAction::Rollback => event = TxEvent::RolledBack,
            TxAction::Fail(e) => break e,
            other => panic!("{other:?}"),
        }
    };
    assert_eq!(bodies, 3);
    assert!(is_retryable_conflict(&last));

    // A commit conflict is rolled back and tried again; success ends the run.
    let mut tx = TxRunner::new(1);
    assert!(matches!(tx.step(TxEvent::Begun), TxAction::RunBody));
    assert!(matches!(tx.step(TxEvent::BodyDone), TxAction::Commit));
    assert!(matches!(tx.step(TxEvent::CommitFailed(conflict())), TxAction::Rollback));
    assert!(matches!(tx.step(TxEvent::RolledBack), TxAction::Begin));
    assert!(matches!(tx.step(TxEvent::Begun), TxAction::RunBody));
    assert!(matches!(tx.step(TxEvent::BodyDone), TxAction::Commit));
    assert!(matches!(tx.step(TxEvent::Committed), TxAction::Done));

    // The commit conflict of the last attempt is the result; another commit failure ends the
    // run at once.
    let mut tx = TxRunner::new(0);
    tx.step(TxEvent::Begun);
    tx.step(TxEvent::BodyDone);
    assert!(matches!(tx.step(TxEvent::CommitFailed(conflict())), TxAction::Rollback));
    assert!(matches!(tx.step(TxEvent::RolledBack), TxAction::Fail(e) if is_retryable_conflict(&e)));
    let mut tx = TxRunner::new(5);
    tx.step(TxEvent::Begun);
    tx.step(TxEvent::BodyDone);
    assert!(matches!(tx.step(TxEvent::CommitFailed(other())), TxAction::Rollback));
    assert!(matches!(tx.step(TxEvent::RolledBack), TxAction::Fail(e) if !is_retryable_conflict(&e)));

    // Anything else ends it, rolled back; so does a failed begin.
    let mut tx = TxRunner::new(5);
    tx.step(TxEvent::Begun);
    assert!(matches!(tx.step(TxEvent::BodyFailed(other())), TxAction::Rollback));
    assert!(matches!(tx.step(TxEvent::RolledBack), TxAction::Fail(_)));
    assert!(matches!(TxRunner::new(0).step(TxEvent::BeginFailed(conflict())), TxAction::Fail(_)));
    assert_eq!(TxRunner::new(u32::MAX).attempts, u32::MAX);
}

#[test]
fn an_unfinished_guard_rolls_back() {
    let mut g = TransactionGuard::new("db", "tx1".to_string());
    assert_eq!(g.id(), "tx1");
    assert_eq!(g.abandoned(), Some(("db".to_string(), "tx1".to_string())));
    g.finish();
    assert_eq!(g.abandoned(), None);
}

fn options() -> ClientOptions {
    ClientOptions::new("127.0.0.1:50051", "root", "secret", "mydb")
}

#[test]
fn options_have_their_defaults() {
    let o = options();
    assert_eq!(o.connect_attempts, 30);
    assert_eq!(o.connect_backoff, Duration::from_millis(400));
    assert!(o.connect_timeout.is_none() && o.request_timeout.is_none());
    assert!(!o.tls && !o.open_or_create);
    let o = o
        .connect_attempts(0)
        .connect_backoff(Duration::from_secs(2))
        .connect_timeout(Duration::from_secs(3))
        .request_timeout(Duration::from_millis(1500))
        .open_or_create(true)
        .tls();
    assert_eq!(o.connect_attempts, 1);
    assert_eq!(o.connect_backoff.as_secs(), 2);
    assert_eq!(o.connect_timeout, Some(Duration::from_secs(3)));
    assert_eq!(o.request_timeout, Some(Duration { secs: 1, nanos: 500_000_000 }));
    assert!(o.tls && o.open_or_create);
    assert_eq!(o.endpoint().unwrap(), "https://127.0.0.1:50051");
    assert_eq!(options().endpoint().unwrap(), "http://127.0.0.1:50051");
    assert_eq!(o.clone().addr, o.addr);
    let h = o.auth_headers();
    assert_eq!(h[0], ("x-arcade-user", "root".to_string()));
    assert_eq!(h[1], ("x-arcade-password", "secret".to_string()));
    assert_eq!(h[2], ("x-arcade-database", "mydb".to_string()));
}

#[test]
fn options_are_validated() {
    assert!(options().validate().is_ok());
    let why = |o: ClientOptions| o.validate().unwrap_err().to_string();
    assert_eq!(why(ClientOptions::new("", "", "", "")), "ClientOptions: addr must not be empty");
    assert_eq!(
        why(ClientOptions::new("a", "u", "", "d")),
        "ClientOptions: password must not be empty"
    );
    // Controls are refused, and so is everything beyond ASCII.
    for bad in ["line\nbreak", "nul\0", "del\u{7f}", "pässword"] {
        assert_eq!(
            why(ClientOptions::new("a", "u", bad, "d")),
            "ClientOptions: password contains characters invalid in a gRPC metadata value (visible ASCII only)",
            "{bad:?}"
        );
    }
    assert!(ClientOptions::new("a", "u", "tab\t and space", "d").validate().is_ok());
    match ClientOptions::new("not a uri", "u", "p", "d").endpoint().unwrap_err() {
        ArcadeDbError::InvalidEndpoint { addr, source } => {
            assert_eq!((addr.as_str(), source.as_str()), ("not a uri", "invalid uri character"))
        }
        other => panic!("{other:?}"),
    }
}

#[test]
fn options_come_from_the_environment() {
    let values = |database: Option<&str>| EnvValues {
        addr: Some("a".to_string()),
        user: Some("u".to_string()),
        password: Some("p".to_string()),
        database: database.map(str::to_string),
    };
    assert_eq!(env_name("ARCADEDB", "ADDR"), "ARCADEDB_ADDR");
    assert_eq!(ClientOptions::from_env(values(Some("d"))).unwrap().database, "d");
    for missing in [None, Some("")] {
        assert_eq!(
            ClientOptions::from_env_prefix("MY", values(missing)).unwrap_err().to_string(),
            "ClientOptions::from_env: environment variable `MY_DATABASE` is not set"
        );
    }
    let none = EnvValues { addr: None, user: None, password: None, database: None };
    assert!(ClientOptions::from_env(none).unwrap_err().to_string().contains("ARCADEDB_ADDR"));
}

#[test]
fn connecting_retries_and_gives_up() {
    let (mut c, first) = Connecting::start(options().connect_attempts(2)).unwrap();
    assert!(matches!(first, Action::Dial));
    assert!(matches!(c.step(Event::Refused("one".to_string())), Action::Sleep(d) if d == Duration::from_millis(400)));
    assert!(matches!(c.step(Event::Slept), Action::Dial));
    assert!(matches!(c.step(Event::Refused("two".to_string())), Action::Sleep(_)));
    match c.step(Event::Slept) {
        Action::Fail(e) => {
            assert_eq!(
                e.to_string(),
                "failed to connect to ArcadeDB gRPC at 127.0.0.1:50051 after 2 attempts"
            );
            assert!(matches!(e, ArcadeDbError::Connect { source: Some(s), .. } if s == "two"));
        }
        other => panic!("{other:?}"),
    }
    let (mut c, _) = Connecting::start(options()).unwrap();
    // An event that answers nothing changes nothing.
    assert!(matches!(c.step(Event::Slept), Action::Dial));
    assert!(matches!(c.step(Event::Dialed), Action::Ready));
    assert!(Connecting::start(ClientOptions::new("", "u", "p", "d")).is_err());
    assert_eq!(
        tls_rejected("bad cert").to_string(),
        "ClientOptions: TLS config rejected by the transport: bad cert"
    );
}

#[test]
fn connecting_creates_a_missing_database() {
    let start = || Connecting::start(options().open_or_create(true)).unwrap().0;
    let mut c = start();
    assert!(matches!(c.step(Event::Dialed), Action::AskExists));
    assert!(matches!(c.step(Event::Existence(Ok(true))), Action::Ready));
    let mut c = start();
    c.step(Event::Dialed);
    assert!(matches!(c.step(Event::Existence(Ok(false))), Action::Create));
    assert!(matches!(c.step(Event::Creation(Ok(()))), Action::Ready));
    // Losing the race is no failure.
    let mut c = start();
    c.step(Event::Dialed);
    c.step(Event::Existence(Ok(false)));
    let lost = Status::new(Code::Internal, "Database 'mydb' already exists");
    assert!(matches!(c.step(Event::Creation(Err(lost))), Action::Ready));
    let mut c = start();
    c.step(Event::Dialed);
    match c.step(Event::Existence(Err(Status::new(Code::Unauthenticated, "no")))) {
        Action::Fail(e) => assert_eq!(e.code(), Some(Code::Unauthenticated)),
        other => panic!("{other:?}"),
    }
}

#[test]
fn scans() {
    assert_eq!(type_("db", "item").unwrap().query, "SELECT FROM item");
    let p = Params::from_pairs(vec![("a", 1i64)]);
    assert!(type_with_values("db", "item", p).unwrap().parameters.contains_key("a"));
    let q = type_with_options("db", "item", Params::default(), StreamOptions::new().batch_size(9));
    assert_eq!(q.unwrap().batch_size, 9);
    assert_eq!(bucket("db", "item_0").unwrap().query, "SELECT FROM bucket:item_0");
    assert_eq!(
        bucket("db", "a:b").unwrap_err().to_string(),
        "invalid bucket name `a:b`: expected non-empty ASCII letters, digits, or `_`"
    );
    assert!(type_("db", "a b").is_err());
}

#[test]
fn edges_are_created_or_updated() {
    let (from, to) = (Link::new(1, 2), Link::new(3, 4));
    let q = upsert_edge_query("db", "LIKES", &from, &to).unwrap();
    assert_eq!(q.query, "SELECT FROM LIKES WHERE @out = :__out AND @in = :__in LIMIT 1");
    assert!(matches!(
        &q.parameters.get("__in").unwrap().kind,
        Some(Kind::LinkValue(l)) if l.rid == "#3:4"
    ));
    assert!(upsert_edge_query("db", "a b", &from, &to).is_err());
    let props = || Params::from_pairs(vec![("weight", 1i64), ("since", 2i64)]);
    let edge = |found: &QueryResult, p: Params| {
        upsert_edge_command("db", "LIKES", &from, &to, p, found).unwrap()
    };
    let none = result(vec![]);
    let mut there = named("e");
    there.rid = "#9:1".to_string();
    let found = result(vec![there]);
    assert_eq!(
        edge(&none, props()).unwrap().command,
        "CREATE EDGE LIKES FROM #1:2 TO #3:4 SET weight = :weight, since = :since"
    );
    assert_eq!(
        edge(&none, Params::default()).unwrap().command,
        "CREATE EDGE LIKES FROM #1:2 TO #3:4"
    );
    let update = edge(&found, props()).unwrap();
    assert_eq!(update.command, "UPDATE #9:1 SET weight = :weight, since = :since");
    assert_eq!(update.parameters.len(), 2);
    assert!(edge(&found, Params::default()).is_none());
    let bad = Params::from_pairs(vec![("a b", 1i64)]);
    assert!(upsert_edge_command("db", "LIKES", &from, &to, bad, &none).is_err());
}

#[test]
fn ddl_can_be_applied_again() {
    let there = || command_failed("execute command", "Type already exists".to_string(), 0);
    assert_eq!(apply_ddl(2, Ok(()), true).unwrap(), 3);
    assert_eq!(apply_ddl(2, Err(there()), true).unwrap(), 2);
    assert!(apply_ddl(2, Err(there()), false).is_err());
    assert!(apply_ddl(2, Err(other()), true).is_err());
}

#[test]
fn script_buffers_flush_when_full() {
    let mut b = ScriptBuffer::new();
    assert_eq!(b.finish(), None);
    let mut sent = String::new();
    let mut scripts = 0;
    for i in 0..1203 {
        if let Some(script) = b.push(&format!("INSERT {i};")) {
            assert_eq!(script.lines().count(), FLUSH_AT);
            scripts += 1;
            sent.push_str(&script);
        }
    }
    assert_eq!(scripts, 2);
    let tail = b.finish().unwrap();
    assert_eq!(tail.lines().count(), 203);
    sent.push_str(&tail);
    let all: String = (0..1203).map(|i| format!("INSERT {i};\n")).collect();
    assert_eq!(sent, all);
    assert_eq!(b.finish(), None);
}

#[test]
fn failed_calls_carry_their_name() {
    let down = || Status::new(Code::Unavailable, "down");
    assert_eq!(Operation::Query.answered("SELECT 1", Ok(3)).unwrap(), 3);
    for (op, name) in [
        (Operation::Ping, "ping"),
        (Operation::CreateDatabase, "create database"),
        (Operation::DropDatabase, "drop database"),
        (Operation::ExistsDatabase, "exists database"),
        (Operation::ListDatabases, "list databases"),
        (Operation::GetServerInfo, "get server info"),
        (Operation::GetDatabaseInfo, "get database info"),
        (Operation::Query, "query"),
        (Operation::CypherQuery, "cypher query"),
        (Operation::QueryInTransaction, "query (in tx)"),
        (Operation::StreamQuery, "stream_query"),
        (Operation::LookupByRid, "lookup by rid"),
        (Operation::ExecuteCommand, "execute command"),
        (Operation::ExecuteInTransaction, "execute command (in tx)"),
        (Operation::CreateRecord, "create record"),
        (Operation::UpdateRecord, "update record"),
        (Operation::DeleteRecord, "delete record"),
        (Operation::BulkInsert, "bulk insert"),
        (Operation::BulkUpsert, "bulk upsert"),
        (Operation::BeginTransaction, "begin transaction"),
        (Operation::CommitTransaction, "commit transaction"),
        (Operation::RollbackTransaction, "rollback transaction"),
    ] {
        match op.answered::<()>("about", Err(down())) {
            Err(ArcadeDbError::Rpc { operation, detail, status }) => {
                assert_eq!((operation.as_str(), detail.as_str()), (name, "about"));
                assert_eq!(status.code, Code::Unavailable);
            }
            other => panic!("{other:?}"),
        }
    }
    let there = Status::new(Code::Internal, "Database 'oak' already exists");
    assert!(matches!(
        Operation::CreateDatabase.answered::<()>("oak", Err(there)),
        Err(ArcadeDbError::AlreadyExists { what, .. }) if what == "create database"
    ));
}
