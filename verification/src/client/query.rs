//! Reads: what a query carries, what its rows mean, and lookups by rid, key and count.

use vstd::prelude::*;
use vstd::string::*;
use crate::client::results;
use crate::client::results::{QueryResult, QueryResultBatch};
use crate::encode;
use crate::encode::Params;
use crate::error::{ArcadeDbError, FailureView, Result};
use crate::props::PropMap;
use crate::record;
use crate::record::{FromGrpcValue, Link, RecordDecodeError};
use crate::rpc::{
    ExecuteCommandResponse, ExecuteQueryRequest, ExecuteQueryResponse, LookupByRidRequest,
    LookupByRidResponse, TransactionContext,
};
use crate::text;
use crate::wire;
use crate::wire::{GrpcRecord, GrpcValue, RecordView, ValueView};

verus! {

// ---------------------------------------------------------------------------
// Identifiers
// ---------------------------------------------------------------------------

/// A plain identifier: one or more ASCII letters, digits or underscores.
pub open spec fn is_identifier(name: Seq<char>) -> bool {
    name.len() > 0 && forall|i: int|
        0 <= i < name.len() ==> text::is_alnum(#[trigger] name[i]) || name[i] == '_'
}

/// What is said of a name that is no identifier.
pub open spec fn invalid_identifier(name: Seq<char>, what: Seq<char>) -> FailureView {
    FailureView::InvalidInput(
        "invalid "@ + what + " `"@ + name
            + "`: expected non-empty ASCII letters, digits, or `_`"@,
    )
}

/// Names that become part of generated SQL must be plain identifiers.
pub fn validate_identifier(name: &str, what: &str) -> (r: Result<String>)
    ensures
        match r {
            Ok(s) => is_identifier(name@) && s@ == name@,
            Err(e) => !is_identifier(name@) && e@ == invalid_identifier(name@, what@),
        },
{
    let chars = text::chars_of(name);
    let mut plain = chars.len() > 0;
    for i in 0..chars.len()
        invariant
            chars@ == name@,
            plain == (name@.len() > 0 && forall|j: int|
                0 <= j < i ==> text::is_alnum(#[trigger] name@[j]) || name@[j] == '_'),
    {
        if !text::alnum(chars[i]) && chars[i] != '_' {
            assert(!(text::is_alnum(name@[i as int]) || name@[i as int] == '_'));
            plain = false;
        }
    }
    if plain {
        return Ok(name.to_owned());
    }
    let mut message = "invalid ".to_owned();
    message.append(what);
    message.append(" `");
    message.append(name);
    message.append("`: expected non-empty ASCII letters, digits, or `_`");
    Err(ArcadeDbError::InvalidInput { message })
}

// ---------------------------------------------------------------------------
// Queries
// ---------------------------------------------------------------------------

/// A request that runs `query` in a language, with these parameters and no transaction.
pub open spec fn queries(
    r: ExecuteQueryRequest,
    database: Seq<char>,
    query: Seq<char>,
    language: Seq<char>,
    parameters: Map<Seq<char>, ValueView>,
) -> bool {
    r.database@ == database && r.query@ == query && r.language@ == language
        && wire::entries_view(r.parameters) == parameters
}

fn request(database: &str, query: &str, parameters: PropMap<GrpcValue>, language: &str) -> (r:
    ExecuteQueryRequest)
    ensures
        queries(r, database@, query@, language@, wire::entries_view(parameters)),
        r.transaction is None,
{
    ExecuteQueryRequest {
        database: database.to_owned(),
        query: query.to_owned(),
        parameters,
        language: language.to_owned(),
        transaction: None,
    }
}

/// The request of a SQL query.
pub fn query_request(database: &str, query: &str) -> (r: ExecuteQueryRequest)
    ensures
        queries(r, database@, query@, "sql"@, Map::empty()),
        r.transaction is None,
{
    request(database, query, Params::default().0, "sql")
}

/// The request of a SQL query with bound parameters.
pub fn query_with_values_request(database: &str, query: &str, parameters: Params) -> (r:
    ExecuteQueryRequest)
    ensures
        queries(r, database@, query@, "sql"@, wire::entries_view(parameters.0)),
        r.transaction is None,
{
    request(database, query, parameters.0, "sql")
}

/// The request of a Cypher read.
pub fn cypher_query_request(database: &str, query: &str) -> (r: ExecuteQueryRequest)
    ensures
        queries(r, database@, query@, "cypher"@, Map::empty()),
        r.transaction is None,
{
    request(database, query, Params::default().0, "cypher")
}

/// The request of a SQL read inside a transaction.
pub fn query_in_transaction_request(database: &str, query: &str, transaction_id: &str) -> (r:
    ExecuteQueryRequest)
    ensures
        queries(r, database@, query@, "sql"@, Map::empty()),
        r.transaction matches Some(t) && t.transaction_id@ == transaction_id@
            && t.database@.len() == 0,
{
    let mut r = request(database, query, Params::default().0, "sql");
    r.transaction = Some(
        TransactionContext { transaction_id: transaction_id.to_owned(), database: String::new() },
    );
    r
}

/// The records of the first `n` batches, one batch after the other.
pub open spec fn records_of(batches: Seq<QueryResultBatch>, n: nat) -> Seq<GrpcRecord>
    decreases n,
{
    if n == 0 {
        Seq::empty()
    } else {
        records_of(batches, (n - 1) as nat) + batches[n - 1].records@
    }
}

/// The rows of a response: those of its batches, one batch after the other.
pub fn query_result(response: ExecuteQueryResponse) -> (r: QueryResult)
    ensures
        r.records@ == records_of(response.results@, response.results@.len()),
        r.execution_time_ms == response.execution_time_ms,
{
    let mut records: Vec<GrpcRecord> = Vec::new();
    let execution_time_ms = response.execution_time_ms;
    let ghost all = response.results@;
    for batch in it: response.results
        invariant
            it.seq() == all,
            records@ == records_of(all, it.index() as nat),
    {
        let mut rows = batch.records;
        records.append(&mut rows);
    }
    QueryResult { records, execution_time_ms }
}

// ---------------------------------------------------------------------------
// One row
// ---------------------------------------------------------------------------

/// What a typed fetch of at most one row gives: nothing of no rows, else the first row, or why
/// it does not decode.
pub open spec fn fetched<T>(records: Seq<GrpcRecord>, what: Seq<char>, r: Result<Option<T>>) -> bool where
    T: for<'r>TryFrom<&'r GrpcRecord, Error = RecordDecodeError>,
 {
    match r {
        Ok(None) => records.len() == 0,
        Ok(Some(x)) => records.len() > 0 && results::decodes::<T>(&records[0], Ok(x)),
        Err(e) => records.len() > 0 && results::decode_failed::<T>(&records[0], what, e@),
    }
}

/// What a typed fetch of one row gives: the first row, or why there is none.
pub open spec fn fetched_one<T>(
    records: Seq<GrpcRecord>,
    what: Seq<char>,
    missing: FailureView,
    r: Result<T>,
) -> bool where T: for<'r>TryFrom<&'r GrpcRecord, Error = RecordDecodeError> {
    match r {
        Ok(x) => records.len() > 0 && results::decodes::<T>(&records[0], Ok(x)),
        Err(e) => if records.len() == 0 {
            e@ == missing
        } else {
            results::decode_failed::<T>(&records[0], what, e@)
        },
    }
}

/// `prefix` + the text in backquotes.
pub open spec fn quoted(prefix: Seq<char>, s: Seq<char>) -> Seq<char> {
    prefix + "`"@ + s + "`"@
}

fn quote(prefix: &str, s: &str) -> (r: String)
    ensures
        r@ == quoted(prefix@, s@),
{
    let mut out = prefix.to_owned();
    out.append("`");
    out.append(s);
    out.append("`");
    out
}

fn first_row<T>(records: &Vec<GrpcRecord>, what: String) -> (r: Result<Option<T>>) where
    T: for<'r>TryFrom<&'r GrpcRecord, Error = RecordDecodeError>,

    ensures
        fetched::<T>(records@, what@, r),
{
    if records.len() == 0 {
        return Ok(None);
    }
    match T::try_from(&records[0]) {
        Ok(x) => Ok(Some(x)),
        Err(source) => {
            assert(results::decodes::<T>(&records@[0], Err(source)));
            Err(ArcadeDbError::Decode { what, source })
        },
    }
}

fn one_row<T>(records: &Vec<GrpcRecord>, what: String, missing: ArcadeDbError) -> (r: Result<T>) where
    T: for<'r>TryFrom<&'r GrpcRecord, Error = RecordDecodeError>,

    ensures
        fetched_one::<T>(records@, what@, missing@, r),
{
    match first_row::<T>(records, what) {
        Ok(Some(x)) => Ok(x),
        Ok(None) => Err(missing),
        Err(e) => Err(e),
    }
}

/// At most one row of a query's result, decoded.
pub fn fetch_optional<T>(result: &QueryResult, query: &str) -> (r: Result<Option<T>>) where
    T: for<'r>TryFrom<&'r GrpcRecord, Error = RecordDecodeError>,

    ensures
        fetched::<T>(result.records@, quoted("fetch row of "@, query@), r),
{
    first_row(&result.records, quote("fetch row of ", query))
}

/// One row of a query's result, decoded; none is an error.
pub fn fetch_one<T>(result: &QueryResult, query: &str) -> (r: Result<T>) where
    T: for<'r>TryFrom<&'r GrpcRecord, Error = RecordDecodeError>,

    ensures
        fetched_one::<T>(
            result.records@,
            quoted("fetch row of "@, query@),
            FailureView::NotFound("fetch_one"@, query@),
            r,
        ),
{
    one_row(
        &result.records,
        quote("fetch row of ", query),
        ArcadeDbError::not_found("fetch_one", query),
    )
}

/// The row that a write returned, decoded; `None` when it matched nothing.
pub fn write_returning_optional<T>(response: &ExecuteCommandResponse, command: &str) -> (r: Result<
    Option<T>,
>) where T: for<'r>TryFrom<&'r GrpcRecord, Error = RecordDecodeError>,
    ensures
        fetched::<T>(response.records@, quoted("decode returning row of "@, command@), r),
{
    first_row(&response.records, quote("decode returning row of ", command))
}

/// The row that an upsert returned, decoded; none is an error.
pub fn upsert_returning<T>(response: &ExecuteCommandResponse, command: &str) -> (r: Result<T>) where
    T: for<'r>TryFrom<&'r GrpcRecord, Error = RecordDecodeError>,

    ensures
        fetched_one::<T>(
            response.records@,
            quoted("decode returning row of "@, command@),
            FailureView::NotFound("upsert_returning"@, command@),
            r,
        ),
{
    one_row(
        &response.records,
        quote("decode returning row of ", command),
        ArcadeDbError::not_found("upsert_returning", command),
    )
}

/// The row that an insert stored, decoded; none is an error.
pub fn create_and_return<T>(response: &ExecuteCommandResponse, command: &str) -> (r: Result<T>) where
    T: for<'r>TryFrom<&'r GrpcRecord, Error = RecordDecodeError>,

    ensures
        fetched_one::<T>(
            response.records@,
            quoted("decode returning row of "@, command@),
            FailureView::NotFound("create_and_return"@, command@),
            r,
        ),
{
    one_row(
        &response.records,
        quote("decode returning row of ", command),
        ArcadeDbError::not_found("create_and_return", command),
    )
}

// ---------------------------------------------------------------------------
// Scalars
// ---------------------------------------------------------------------------

/// What is said of a row that is no scalar.
pub open spec fn not_scalar(query: Seq<char>, columns: nat) -> FailureView {
    FailureView::InvalidInput(
        "query_scalar: `"@ + query + "` returned a "@ + text::decimal(columns as int)
            + "-column row; exactly one column is required"@,
    )
}

/// The value of a row with one column. Rows are maps, so that a scalar is well defined only of
/// those.
pub fn single_column_value<'r>(rec: &'r GrpcRecord, query: &str) -> (r: Result<&'r GrpcValue>)
    ensures
        match r {
            Ok(v) => rec.properties@.dom().len() == 1 && exists|k: Seq<char>| #[trigger]
                rec.properties@.contains_key(k) && rec.properties@[k] == *v,
            Err(e) => rec.properties@.dom().len() != 1 && e@ == not_scalar(
                query@,
                rec.properties@.dom().len(),
            ),
        },
{
    let n = rec.properties.len();
    if n != 1 {
        let mut message = "query_scalar: `".to_owned();
        message.append(query);
        message.append("` returned a ");
        message.append(text::unsigned_text(n as u64).as_str());
        message.append("-column row; exactly one column is required");
        return Err(ArcadeDbError::InvalidInput { message });
    }
    let (_k, v) = rec.properties.entry(0);
    Ok(v)
}

/// `v` is the only column of `rec`.
pub open spec fn only_column(rec: GrpcRecord, v: GrpcValue) -> bool {
    rec.properties@.dom().len() == 1 && exists|k: Seq<char>| #[trigger]
        rec.properties@.contains_key(k) && rec.properties@[k] == v
}

/// What a scalar query gives: nothing of no rows, the decoded column of the first row, or why
/// it is no scalar or does not decode.
pub open spec fn scalar_outcome<T: for<'de>FromGrpcValue<'de>>(
    records: Seq<GrpcRecord>,
    query: Seq<char>,
    r: Result<Option<T>>,
) -> bool {
    match r {
        Ok(None) => records.len() == 0,
        Ok(Some(x)) => records.len() > 0 && exists|v: GrpcValue| #[trigger]
            only_column(records[0], v) && T::decodable(v@) && T::decoded(v@, x),
        Err(e) => records.len() > 0 && if records[0].properties@.dom().len() != 1 {
            e@ == not_scalar(query, records[0].properties@.dom().len())
        } else {
            scalar_refused::<T>(records[0], query, e@)
        },
    }
}

/// `e` says that the only column of `rec` does not decode.
pub open spec fn scalar_refused<T: for<'de>FromGrpcValue<'de>>(
    rec: GrpcRecord,
    query: Seq<char>,
    e: FailureView,
) -> bool {
    exists|v: GrpcValue, why: record::ErrorView| #[trigger]
        only_column(rec, v) && !T::decodable(v@) && #[trigger] T::refused(v@, why) && e
            == FailureView::Decode(quoted("query scalar of "@, query), why)
}

/// The single column of a query's first row, decoded.
pub fn query_scalar<T: for<'de>FromGrpcValue<'de>>(result: &QueryResult, query: &str) -> (r: Result<
    Option<T>,
>)
    ensures
        scalar_outcome::<T>(result.records@, query@, r),
{
    if result.records.len() == 0 {
        return Ok(None);
    }
    let value = single_column_value(&result.records[0], query)?;
    assert(only_column(result.records@[0], *value));
    match T::from_grpc_value(value) {
        Ok(x) => Ok(Some(x)),
        Err(source) => {
            assert(T::refused(value@, source@));
            Err(ArcadeDbError::Decode { what: quote("query scalar of ", query), source })
        },
    }
}

// ---------------------------------------------------------------------------
// Lookups
// ---------------------------------------------------------------------------

/// The request of a lookup by rid.
pub fn lookup_by_rid_request(database: &str, rid: &Link) -> (r: LookupByRidRequest)
    ensures
        r.database@ == database@,
        r.rid@ == rid.rid(),
{
    LookupByRidRequest { database: database.to_owned(), rid: rid.to_rid_string() }
}

/// A record without identity, type and properties.
pub open spec fn empty_record() -> RecordView {
    RecordView { rid: Seq::empty(), class: Seq::empty(), properties: Map::empty() }
}

/// The record that a lookup found; a found record that the server left out is empty.
pub fn lookup_by_rid(response: LookupByRidResponse) -> (r: Option<GrpcRecord>)
    ensures
        match r {
            None => !response.found,
            Some(rec) => response.found && match response.record {
                Some(found) => rec == found,
                None => rec@ == empty_record(),
            },
        },
{
    if !response.found {
        return None;
    }
    match response.record {
        Some(rec) => Some(rec),
        None => Some(
            GrpcRecord { rid: String::new(), class: String::new(), properties: Params::default().0 },
        ),
    }
}

/// The record that a lookup found, decoded.
pub fn lookup<T>(response: LookupByRidResponse, rid: &Link) -> (r: Result<Option<T>>) where
    T: for<'r>TryFrom<&'r GrpcRecord, Error = RecordDecodeError>,

    ensures
        match r {
            Ok(None) => !response.found,
            Ok(Some(x)) => response.found && found_row::<T>(response, x),
            Err(e) => response.found && found_undecodable::<T>(response, *rid, e@),
        },
{
    match lookup_by_rid(response) {
        None => Ok(None),
        Some(rec) => {
            assert(looked_up(response, rec));
            match T::try_from(&rec) {
                Ok(x) => {
                    assert(results::decodes::<T>(&rec, Ok(x)));
                    Ok(Some(x))
                },
                Err(source) => {
                    assert(results::decodes::<T>(&rec, Err(source)));
                    let mut what = "lookup record ".to_owned();
                    what.append(rid.to_rid_string().as_str());
                    let e = ArcadeDbError::Decode { what, source };
                    assert(results::decode_failed::<T>(
                        &rec,
                        "lookup record "@ + rid.rid(),
                        e@,
                    ));
                    Err(e)
                },
            }
        },
    }
}

/// `x` is what the record that a response found decodes to.
pub open spec fn found_row<T>(response: LookupByRidResponse, x: T) -> bool where
    T: for<'r>TryFrom<&'r GrpcRecord, Error = RecordDecodeError>,
 {
    exists|rec: GrpcRecord| #[trigger]
        looked_up(response, rec) && results::decodes::<T>(&rec, Ok(x))
}

/// `e` says that the record that a response found does not decode.
pub open spec fn found_undecodable<T>(
    response: LookupByRidResponse,
    rid: Link,
    e: FailureView,
) -> bool where T: for<'r>TryFrom<&'r GrpcRecord, Error = RecordDecodeError> {
    exists|rec: GrpcRecord| #[trigger]
        looked_up(response, rec) && results::decode_failed::<T>(
            &rec,
            "lookup record "@ + rid.rid(),
            e,
        )
}

/// `rec` is the record that a response found.
pub open spec fn looked_up(response: LookupByRidResponse, rec: GrpcRecord) -> bool {
    match response.record {
        Some(found) => rec == found,
        None => rec@ == empty_record(),
    }
}

/// The name of the parameter for column `i` of a key.
pub open spec fn key_name(i: int) -> Seq<char> {
    "key"@ + text::decimal(i)
}

/// The conditions on the first `n` columns of a key.
pub open spec fn key_conditions(columns: Seq<Seq<char>>, n: nat) -> Seq<char>
    decreases n,
{
    if n == 0 {
        Seq::empty()
    } else {
        key_conditions(columns, (n - 1) as nat) + (if n == 1 {
            " WHERE "@
        } else {
            " AND "@
        }) + columns[n - 1] + " = :"@ + key_name(n - 1)
    }
}

/// The statement of a lookup by key.
pub open spec fn key_lookup(class: Seq<char>, columns: Seq<Seq<char>>) -> Seq<char> {
    "SELECT FROM "@ + class + key_conditions(columns, columns.len()) + " LIMIT 1"@
}

/// The parameters of the first `n` columns of a key.
pub open spec fn key_parameters(values: Seq<ValueView>, n: nat) -> Map<Seq<char>, ValueView>
    decreases n,
{
    if n == 0 {
        Map::empty()
    } else {
        key_parameters(values, (n - 1) as nat).insert(key_name(n - 1), values[n - 1])
    }
}

pub open spec fn key_columns(key: Seq<(&str, GrpcValue)>) -> Seq<Seq<char>> {
    Seq::new(key.len(), |i: int| key[i].0@)
}

pub open spec fn key_values(key: Seq<(&str, GrpcValue)>) -> Seq<ValueView> {
    Seq::new(key.len(), |i: int| key[i].1@)
}

/// The first column from `i` on that is no identifier.
pub open spec fn bad_column(columns: Seq<Seq<char>>, i: nat) -> Option<Seq<char>>
    decreases columns.len() - i,
{
    if i >= columns.len() {
        None
    } else if !is_identifier(columns[i as int]) {
        Some(columns[i as int])
    } else {
        bad_column(columns, i + 1)
    }
}

/// Why a lookup by key is refused: an empty key, then the type's name, then the first column
/// that is no identifier.
pub open spec fn key_problem(class: Seq<char>, columns: Seq<Seq<char>>) -> Option<FailureView> {
    if columns.len() == 0 {
        Some(FailureView::InvalidInput("lookup_by_key: key must name at least one property"@))
    } else if !is_identifier(class) {
        Some(invalid_identifier(class, "type name"@))
    } else {
        match bad_column(columns, 0) {
            Some(c) => Some(invalid_identifier(c, "property name"@)),
            None => None,
        }
    }
}

/// The request of a lookup by a single or composite key. Names are checked; values are bound.
pub fn lookup_by_key_request(database: &str, class: &str, key: &Vec<(&str, GrpcValue)>) -> (r: Result<
    ExecuteQueryRequest,
>)
    ensures
        match (r, key_problem(class@, key_columns(key@))) {
            (Ok(q), None) => queries(
                q,
                database@,
                key_lookup(class@, key_columns(key@)),
                "sql"@,
                key_parameters(key_values(key@), key@.len()),
            ) && q.transaction is None,
            (Err(e), Some(p)) => e@ == p,
            _ => false,
        },
{
    if key.len() == 0 {
        return Err(
            ArcadeDbError::invalid_input("lookup_by_key: key must name at least one property"),
        );
    }
    let ghost columns = key_columns(key@);
    let ghost values = key_values(key@);
    let t = validate_identifier(class, "type name")?;
    let mut sql = "SELECT FROM ".to_owned();
    sql.append(t.as_str());
    let ghost head = sql@;
    let mut params = Params::default().0;
    for i in 0..key.len()
        invariant
            columns == key_columns(key@),
            values == key_values(key@),
            is_identifier(class@),
            head == "SELECT FROM "@ + class@,
            sql@ == head + key_conditions(columns, i as nat),
            wire::entries_view(params) == key_parameters(values, i as nat),
            bad_column(columns, 0) == bad_column(columns, i as nat),
    {
        let (name, value) = &key[i];
        assert(columns[i as int] == name@);
        assert(values[i as int] == value@);
        let column = validate_identifier(name, "property name")?;
        sql.append(if i == 0 {
            " WHERE "
        } else {
            " AND "
        });
        sql.append(column.as_str());
        sql.append(" = :");
        let mut parameter = "key".to_owned();
        parameter.append(text::unsigned_text(i as u64).as_str());
        sql.append(parameter.as_str());
        assert(sql@ =~= head + key_conditions(columns, (i + 1) as nat));
        let ghost before = params;
        let ghost bound = parameter@;
        let v = value.clone();
        params.insert(parameter, v);
        proof {
            encode::lemma_insert_says(before, params, bound, v);
        }
    }
    sql.append(" LIMIT 1");
    Ok(request(database, sql.as_str(), params, "sql"))
}

/// The request that counts the records of a type.
pub fn count_type_request(database: &str, class: &str) -> (r: Result<ExecuteQueryRequest>)
    ensures
        match r {
            Ok(q) => is_identifier(class@) && queries(
                q,
                database@,
                "SELECT count(*) AS count FROM "@ + class@,
                "sql"@,
                Map::empty(),
            ) && q.transaction is None,
            Err(e) => !is_identifier(class@) && e@ == invalid_identifier(class@, "type name"@),
        },
{
    let t = validate_identifier(class, "type name")?;
    let mut sql = "SELECT count(*) AS count FROM ".to_owned();
    sql.append(t.as_str());
    Ok(query_request(database, sql.as_str()))
}

/// The count that a counting query returned for a type; no row is an error.
pub fn count_type(result: &QueryResult, class: &str) -> (r: Result<i64>)
    ensures
        match r {
            Ok(n) => scalar_outcome::<i64>(
                result.records@,
                "SELECT count(*) AS count FROM "@ + class@,
                Ok(Some(n)),
            ),
            Err(e) => if result.records@.len() == 0 {
                e@ == FailureView::NotFound(
                    "count_type"@,
                    quoted("no count row returned for "@, class@),
                )
            } else {
                scalar_outcome::<i64>(
                    result.records@,
                    "SELECT count(*) AS count FROM "@ + class@,
                    Err(e),
                )
            },
        },
{
    let mut sql = "SELECT count(*) AS count FROM ".to_owned();
    sql.append(class);
    match query_scalar::<i64>(result, sql.as_str()) {
        Ok(Some(n)) => Ok(n),
        Ok(None) => Err(
            ArcadeDbError::not_found(
                "count_type",
                quote("no count row returned for ", class).as_str(),
            ),
        ),
        Err(e) => Err(e),
    }
}

// ---------------------------------------------------------------------------
// Laws
// ---------------------------------------------------------------------------

/// The parameters of a key have different names.
pub proof fn lemma_key_names_differ(i: int, j: int)
    requires
        0 <= i,
        0 <= j,
        key_name(i) == key_name(j),
    ensures
        i == j,
{
    let a = key_name(i);
    let b = key_name(j);
    assert(a.skip("key"@.len() as int) =~= text::decimal(i));
    assert(b.skip("key"@.len() as int) =~= text::decimal(j));
    text::lemma_digits_read_back(i as nat);
    text::lemma_digits_read_back(j as nat);
}

/// Every column of a key has a parameter of its own, bound to its value.
pub proof fn law_key_values_are_bound(values: Seq<ValueView>, n: nat, i: int)
    requires
        0 <= i < n,
    ensures
        key_parameters(values, n).contains_key(key_name(i)),
        key_parameters(values, n)[key_name(i)] == values[i],
    decreases n,
{
    if i < n - 1 {
        law_key_values_are_bound(values, (n - 1) as nat, i);
        if key_name(i) == key_name(n - 1) {
            lemma_key_names_differ(i, n - 1);
        }
    }
}

/// Names that pass the check hold no white space, quotes or punctuation that SQL reads.
pub proof fn law_identifiers_hold_no_syntax(name: Seq<char>, i: int)
    requires
        is_identifier(name),
        0 <= i < name.len(),
    ensures
        !text::is_space(name[i]),
        name[i] != '\'' && name[i] != '"' && name[i] != '`',
        name[i] != ';' && name[i] != ':' && name[i] != '.' && name[i] != '-' && name[i] != '/',
        name[i] != '(' && name[i] != ')' && name[i] != '[' && name[i] != ']',
{
}

/// One or more ASCII letters, digits and underscores.
pub open spec fn plain_name(name: Seq<char>) -> bool {
    name.len() > 0 && forall|i: int|
        0 <= i < name.len() ==> (('a' <= #[trigger] name[i] && name[i] <= 'z') || ('A' <= name[i]
            && name[i] <= 'Z') || ('0' <= name[i] && name[i] <= '9') || name[i] == '_')
}

/// The names that may be written into a statement are exactly the plain ones.
pub proof fn law_identifiers_are_plain_names(name: Seq<char>)
    ensures
        is_identifier(name) <==> plain_name(name),
{
    if plain_name(name) {
        assert forall|i: int| 0 <= i < name.len() implies text::is_alnum(#[trigger] name[i])
            || name[i] == '_' by {}
    }
}

/// Of several names, the first that is no identifier is the one that is reported; none is
/// exactly when all are identifiers.
pub proof fn law_the_first_bad_column_is_found(columns: Seq<Seq<char>>, i: nat)
    ensures
        bad_column(columns, i) is None <==> forall|j: int|
            i <= j < columns.len() ==> is_identifier(#[trigger] columns[j]),
        bad_column(columns, i) matches Some(c) ==> exists|j: int|
            i <= j < columns.len() && #[trigger] columns[j] == c && !is_identifier(c) && forall|k: int|
                i <= k < j ==> is_identifier(#[trigger] columns[k]),
    decreases columns.len() - i,
{
    if i < columns.len() && is_identifier(columns[i as int]) {
        law_the_first_bad_column_is_found(columns, i + 1);
    } else if i < columns.len() {
        assert(columns[i as int] == bad_column(columns, i)->0);
    }
}

/// A key can be looked up exactly when it has a column and its type and all its columns are
/// plain names.
pub proof fn law_keys_have_plain_names(class: Seq<char>, columns: Seq<Seq<char>>)
    ensures
        key_problem(class, columns) is None <==> columns.len() > 0 && plain_name(class)
            && forall|i: int| 0 <= i < columns.len() ==> plain_name(#[trigger] columns[i]),
{
    law_identifiers_are_plain_names(class);
    law_the_first_bad_column_is_found(columns, 0);
    assert forall|i: int| 0 <= i < columns.len() implies (is_identifier(#[trigger] columns[i])
        <==> plain_name(columns[i])) by {
        law_identifiers_are_plain_names(columns[i]);
    }
}

proof fn lemma_key_conditions(columns: Seq<Seq<char>>, n: nat)
    requires
        0 < n <= columns.len(),
    ensures
        key_conditions(columns, n) == " WHERE "@ + text::joined(
            Seq::new(n, |i: int| columns[i] + " = :key"@ + text::decimal(i)),
            " AND "@,
        ),
    decreases n,
{
    reveal_strlit(" = :key");
    reveal_strlit(" = :");
    reveal_strlit("key");
    let parts = Seq::new(n, |i: int| columns[i] + " = :key"@ + text::decimal(i));
    let last = columns[n - 1] + " = :key"@ + text::decimal(n - 1);
    assert(parts[n - 1] == last);
    let conj = if n == 1 { " WHERE "@ } else { " AND "@ };
    assert(columns[n - 1] + " = :"@ + key_name(n - 1) =~= last);
    assert(key_conditions(columns, n) =~= key_conditions(columns, (n - 1) as nat) + conj + last);
    if n == 1 {
        assert(key_conditions(columns, 0) =~= Seq::empty());
        assert(key_conditions(columns, 1) =~= " WHERE "@ + last);
    } else {
        lemma_key_conditions(columns, (n - 1) as nat);
        assert(parts.drop_last() =~= Seq::new(
            (n - 1) as nat,
            |i: int| columns[i] + " = :key"@ + text::decimal(i),
        ));
        assert(key_conditions(columns, n) =~= " WHERE "@ + (text::joined(
            parts.drop_last(),
            " AND "@,
        ) + " AND "@ + last));
    }
}

/// A lookup by key compares every column with the parameter that holds the value given for
/// it: the statement reads `SELECT FROM class WHERE col = :key0 AND .. LIMIT 1`, the
/// parameters are as many as the columns, and number `i` is bound to value `i`.
pub proof fn law_key_lookups_compare_columns_with_their_values(
    class: Seq<char>,
    columns: Seq<Seq<char>>,
    values: Seq<ValueView>,
)
    requires
        0 < columns.len() == values.len(),
    ensures
        key_lookup(class, columns) == "SELECT FROM "@ + class + " WHERE "@ + text::joined(
            Seq::new(columns.len(), |i: int| columns[i] + " = :key"@ + text::decimal(i)),
            " AND "@,
        ) + " LIMIT 1"@,
        forall|i: int|
            0 <= i < values.len() ==> key_parameters(values, values.len()).contains_key(
                "key"@ + #[trigger] text::decimal(i),
            ) && key_parameters(values, values.len())["key"@ + text::decimal(i)] == values[i],
        forall|k: Seq<char>| #[trigger]
            key_parameters(values, values.len()).contains_key(k) ==> exists|i: int|
                0 <= i < values.len() && k == "key"@ + #[trigger] text::decimal(i),
{
    lemma_key_conditions(columns, columns.len());
    assert(key_lookup(class, columns) =~= "SELECT FROM "@ + class + " WHERE "@ + text::joined(
        Seq::new(columns.len(), |i: int| columns[i] + " = :key"@ + text::decimal(i)),
        " AND "@,
    ) + " LIMIT 1"@);
    assert forall|i: int| 0 <= i < values.len() implies key_parameters(
        values,
        values.len(),
    ).contains_key("key"@ + #[trigger] text::decimal(i)) && key_parameters(
        values,
        values.len(),
    )["key"@ + text::decimal(i)] == values[i] by {
        law_key_values_are_bound(values, values.len(), i);
        assert(key_name(i) == "key"@ + text::decimal(i));
    }
    lemma_key_parameters_are_the_columns(values, values.len());
}

proof fn lemma_key_parameters_are_the_columns(values: Seq<ValueView>, n: nat)
    ensures
        forall|k: Seq<char>| #[trigger]
            key_parameters(values, n).contains_key(k) ==> exists|i: int|
                0 <= i < n && k == "key"@ + #[trigger] text::decimal(i),
    decreases n,
{
    if n > 0 {
        lemma_key_parameters_are_the_columns(values, (n - 1) as nat);
        assert forall|k: Seq<char>| #[trigger]
            key_parameters(values, n).contains_key(k) implies exists|i: int|
            0 <= i < n && k == "key"@ + #[trigger] text::decimal(i) by {
            if k == key_name(n - 1) {
                assert(k == "key"@ + text::decimal(n - 1));
            } else {
                assert(key_parameters(values, (n - 1) as nat).contains_key(k));
                let i = choose|i: int|
                    0 <= i < n - 1 && k == "key"@ + #[trigger] text::decimal(i);
                assert(k == "key"@ + text::decimal(i));
            }
        }
    }
}

/// A query request carries the database, the text, the language and the parameters that it
/// was made of.
pub proof fn law_queries_carry_what_was_asked(
    r: ExecuteQueryRequest,
    database: Seq<char>,
    query: Seq<char>,
    language: Seq<char>,
    parameters: Map<Seq<char>, ValueView>,
)
    requires
        queries(r, database, query, language, parameters),
    ensures
        r.database@ == database,
        r.query@ == query,
        r.language@ == language,
        forall|k: Seq<char>| parameters.contains_key(k) <==> #[trigger] r.parameters@.contains_key(k),
        forall|k: Seq<char>| #[trigger]
            r.parameters@.contains_key(k) ==> parameters[k] == r.parameters@[k]@,
{
    wire::lemma_entries(r.parameters);
}

/// The rows of a result are the rows of its batches, all of them, in order.
pub proof fn law_rows_keep_their_order(batches: Seq<QueryResultBatch>, n: nat)
    requires
        n <= batches.len(),
    ensures
        records_of(batches, n) == Seq::new(n, |i: int| batches[i].records@).flatten(),
    decreases n,
{
    let parts = Seq::new(n, |i: int| batches[i].records@);
    if n > 0 {
        law_rows_keep_their_order(batches, (n - 1) as nat);
        let before = Seq::new((n - 1) as nat, |i: int| batches[i].records@);
        assert(parts =~= before.push(batches[n - 1].records@));
        before.lemma_flatten_push(batches[n - 1].records@);
    } else {
        assert(parts.flatten() =~= Seq::empty());
    }
}

/// A scalar is read from the first row, which has one column, and there is none exactly when
/// there is no row.
pub proof fn law_scalars_are_the_only_column_of_the_first_row<T: for<'de>FromGrpcValue<'de>>(
    records: Seq<GrpcRecord>,
    query: Seq<char>,
    r: Result<Option<T>>,
)
    requires
        scalar_outcome::<T>(records, query, r),
    ensures
        records.len() == 0 <==> r matches Ok(None),
        r matches Ok(Some(x)) ==> records.first().properties@.dom().len() == 1 && exists|k: Seq<char>|
            #[trigger] records.first().properties@.contains_key(k) && T::decoded(
                records.first().properties@[k]@,
                x,
            ),
        records.len() > 0 && records.first().properties@.dom().len() != 1 ==> r is Err,
{
    if let Ok(Some(x)) = r {
        let v = choose|v: GrpcValue| #[trigger]
            only_column(records[0], v) && T::decodable(v@) && T::decoded(v@, x);
        let k = choose|k: Seq<char>| #[trigger]
            records[0].properties@.contains_key(k) && records[0].properties@[k] == v;
        assert(records.first().properties@.contains_key(k));
    }
}

/// Fetching reads the first row and no other: none without rows, its value where it decodes,
/// its decode error where it does not.
pub proof fn law_fetches_read_the_first_row<T>(
    records: Seq<GrpcRecord>,
    what: Seq<char>,
    r: Result<Option<T>>,
) where T: for<'r>TryFrom<&'r GrpcRecord, Error = RecordDecodeError>
    requires
        fetched::<T>(records, what, r),
    ensures
        records.len() == 0 <==> r matches Ok(None),
        r matches Ok(Some(x)) ==> call_ensures(T::try_from, (&records.first(),), Ok(x)),
        r matches Err(e) ==> exists|inner: RecordDecodeError| #[trigger]
            call_ensures(T::try_from, (&records.first(),), Err(inner)) && e@ == FailureView::Decode(
                what,
                inner@,
            ),
{
    if let Err(e) = r {
        let inner = choose|inner: RecordDecodeError| #[trigger]
            results::decodes::<T>(&records[0], Err(inner)) && e@ == FailureView::Decode(
                what,
                inner@,
            );
        assert(call_ensures(T::try_from, (&records.first(),), Err(inner)));
    }
}

/// Fetching one row reads the first and no other; without rows it fails as missing.
pub proof fn law_fetching_one_reads_the_first_row<T>(
    records: Seq<GrpcRecord>,
    what: Seq<char>,
    missing: FailureView,
    r: Result<T>,
) where T: for<'r>TryFrom<&'r GrpcRecord, Error = RecordDecodeError>
    requires
        fetched_one::<T>(records, what, missing, r),
    ensures
        records.len() == 0 ==> (r matches Err(e) && e@ == missing),
        r matches Ok(x) ==> records.len() > 0 && call_ensures(
            T::try_from,
            (&records.first(),),
            Ok(x),
        ),
{
}

/// A lookup that names no record answers as an empty record: no rid, no type, no column.
pub proof fn law_missing_records_are_empty(response: LookupByRidResponse, rec: GrpcRecord)
    requires
        looked_up(response, rec),
    ensures
        response.record matches Some(found) ==> rec == found,
        response.record is None ==> rec.rid@.len() == 0 && rec.class@.len() == 0 && forall|
            k: Seq<char>,
        |
            !(#[trigger] rec.properties@.contains_key(k)),
{
    wire::lemma_entries(rec.properties);
    if response.record is None {
        assert forall|k: Seq<char>| !(#[trigger] rec.properties@.contains_key(k)) by {
            assert(!rec@.properties.contains_key(k));
        }
    }
}

/// A refused name is named in the message with what it was to be.
pub proof fn law_refused_names_are_named(
    class: Seq<char>,
    columns: Seq<Seq<char>>,
    name: Seq<char>,
    what: Seq<char>,
)
    ensures
        invalid_identifier(name, what) == FailureView::InvalidInput(
            "invalid "@ + what + " `"@ + name
                + "`: expected non-empty ASCII letters, digits, or `_`"@,
        ),
        columns.len() == 0 ==> key_problem(class, columns) == Some(
            FailureView::InvalidInput("lookup_by_key: key must name at least one property"@),
        ),
        columns.len() > 0 && !is_identifier(class) ==> key_problem(class, columns) == Some(
            invalid_identifier(class, "type name"@),
        ),
        columns.len() > 0 && is_identifier(class) ==> (bad_column(columns, 0) matches Some(c)
            ==> key_problem(class, columns) == Some(invalid_identifier(c, "property name"@))),
{
}

/// A row with another number of columns than one is refused as no scalar, with the query and
/// the number.
pub proof fn law_wide_rows_are_no_scalars(query: Seq<char>, columns: nat)
    ensures
        not_scalar(query, columns) == FailureView::InvalidInput(
            "query_scalar: `"@ + query + "` returned a "@ + text::decimal(columns as int)
                + "-column row; exactly one column is required"@,
        ),
{
}

/// The columns and the values of a key are those of its pairs, in order.
pub proof fn law_keys_keep_their_pairs(key: Seq<(&str, GrpcValue)>, i: int)
    requires
        0 <= i < key.len(),
    ensures
        key_columns(key).len() == key.len() && key_columns(key)[i] == key[i].0@,
        key_values(key).len() == key.len() && key_values(key)[i] == key[i].1@,
{
}

/// A decode failure quotes the statement whose row it was.
pub proof fn law_decode_failures_quote_the_statement(prefix: Seq<char>, s: Seq<char>)
    ensures
        quoted(prefix, s) == prefix + "`"@ + s + "`"@,
{
}

/// A refused scalar is refused for the value of its only column, with the query quoted.
pub proof fn law_refused_scalars_quote_the_query<T: for<'de>FromGrpcValue<'de>>(
    records: Seq<GrpcRecord>,
    query: Seq<char>,
    r: Result<Option<T>>,
)
    requires
        scalar_outcome::<T>(records, query, r),
        r is Err,
    ensures
        records.len() > 0,
        records[0].properties@.dom().len() != 1 ==> r->Err_0@ == not_scalar(
            query,
            records[0].properties@.dom().len(),
        ),
        records[0].properties@.dom().len() == 1 ==> exists|k: Seq<char>, why: record::ErrorView|
            #[trigger] records[0].properties@.contains_key(k) && !T::decodable(
                records[0].properties@[k]@,
            ) && #[trigger] T::refused(records[0].properties@[k]@, why) && r->Err_0@
                == FailureView::Decode("query scalar of "@ + "`"@ + query + "`"@, why),
{
    if records[0].properties@.dom().len() == 1 {
        let e = r->Err_0@;
        let (v, why) = choose|v: GrpcValue, why: record::ErrorView| #[trigger]
            only_column(records[0], v) && !T::decodable(v@) && #[trigger] T::refused(v@, why) && e
                == FailureView::Decode(quoted("query scalar of "@, query), why);
        let k = choose|k: Seq<char>| #[trigger]
            records[0].properties@.contains_key(k) && records[0].properties@[k] == v;
        assert(records[0].properties@.contains_key(k));
        assert(T::refused(records[0].properties@[k]@, why));
    }
}

/// A lookup gives the row that the server found, decoded; a row that does not decode is
/// reported with the rid that was looked up.
pub proof fn law_lookups_give_the_found_row<T>(
    response: LookupByRidResponse,
    rid: Link,
    x: T,
    e: FailureView,
) where T: for<'r>TryFrom<&'r GrpcRecord, Error = RecordDecodeError>
    ensures
        response.record matches Some(rec) ==> (found_row::<T>(response, x) <==> call_ensures(
            T::try_from,
            (&rec,),
            Ok(x),
        )),
        response.record matches Some(rec) ==> (found_undecodable::<T>(response, rid, e)
            ==> exists|inner: RecordDecodeError| #[trigger]
            call_ensures(T::try_from, (&rec,), Err(inner)) && e == FailureView::Decode(
                "lookup record "@ + ("#"@ + text::decimal(rid.bucket as int) + ":"@
                    + text::decimal(rid.pos as int)),
                inner@,
            )),
{
    if let Some(rec) = response.record {
        if found_row::<T>(response, x) {
            let found = choose|found: GrpcRecord| #[trigger]
                looked_up(response, found) && results::decodes::<T>(&found, Ok(x));
            assert(found == rec);
        }
        if call_ensures(T::try_from, (&rec,), Ok(x)) {
            assert(looked_up(response, rec));
            assert(results::decodes::<T>(&rec, Ok(x)));
        }
        if found_undecodable::<T>(response, rid, e) {
            let found = choose|found: GrpcRecord| #[trigger]
                looked_up(response, found) && results::decode_failed::<T>(
                    &found,
                    "lookup record "@ + rid.rid(),
                    e,
                );
            assert(found == rec);
            let inner = choose|inner: RecordDecodeError| #[trigger]
                results::decodes::<T>(&rec, Err(inner)) && e == FailureView::Decode(
                    "lookup record "@ + rid.rid(),
                    inner@,
                );
            assert(call_ensures(T::try_from, (&rec,), Err(inner)));
        }
    }
}

} // verus!
