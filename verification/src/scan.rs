//! Full iteration over a type or a bucket.

use vstd::prelude::*;
use vstd::string::*;
use crate::client::query;
use crate::client::query::validate_identifier;
use crate::client::streaming::stream_query_request;
use crate::encode::Params;
use crate::error::Result;
use crate::rpc::StreamQueryRequest;
use crate::stream::{RetrievalMode, StreamOptions};
use crate::wire;
use crate::wire::ValueView;

verus! {

/// A streamed query with these parameters and options.
pub open spec fn streams(
    r: StreamQueryRequest,
    database: Seq<char>,
    sql: Seq<char>,
    parameters: Map<Seq<char>, ValueView>,
    options: StreamOptions,
) -> bool {
    &&& r.database@ == database
    &&& r.query@ == sql
    &&& r.language@ == "sql"@
    &&& wire::entries_view(r.parameters) == parameters
    &&& r.batch_size == options.batch_size
    &&& r.retrieval_mode == (match options.retrieval_mode {
        Some(m) => m,
        None => RetrievalMode::Cursor,
    })
    &&& r.projection_settings == options.projection
}

/// The options that leave everything to the server.
pub open spec fn server_defaults() -> StreamOptions {
    StreamOptions { batch_size: 0, retrieval_mode: None, projection: None }
}

/// The request that streams every record of a type, its subtypes' included.
pub fn type_(database: &str, class: &str) -> (r: Result<StreamQueryRequest>)
    ensures
        match r {
            Ok(q) => query::is_identifier(class@) && streams(
                q,
                database@,
                "SELECT FROM "@ + class@,
                Map::empty(),
                server_defaults(),
            ),
            Err(e) => !query::is_identifier(class@) && e@ == query::invalid_identifier(
                class@,
                "type name"@,
            ),
        },
{
    type_with_options(database, class, Params::default(), StreamOptions::default())
}

/// The request of a type scan with bound parameters.
pub fn type_with_values(database: &str, class: &str, parameters: Params) -> (r: Result<
    StreamQueryRequest,
>)
    ensures
        match r {
            Ok(q) => query::is_identifier(class@) && streams(
                q,
                database@,
                "SELECT FROM "@ + class@,
                parameters@,
                server_defaults(),
            ),
            Err(e) => !query::is_identifier(class@) && e@ == query::invalid_identifier(
                class@,
                "type name"@,
            ),
        },
{
    type_with_options(database, class, parameters, StreamOptions::default())
}

/// The request of a type scan with bound parameters and options.
pub fn type_with_options(
    database: &str,
    class: &str,
    parameters: Params,
    options: StreamOptions,
) -> (r: Result<StreamQueryRequest>)
    ensures
        match r {
            Ok(q) => query::is_identifier(class@) && streams(
                q,
                database@,
                "SELECT FROM "@ + class@,
                parameters@,
                options,
            ),
            Err(e) => !query::is_identifier(class@) && e@ == query::invalid_identifier(
                class@,
                "type name"@,
            ),
        },
{
    let t = validate_identifier(class, "type name")?;
    let mut sql = "SELECT FROM ".to_owned();
    sql.append(t.as_str());
    Ok(stream_query_request(database, sql.as_str(), parameters, options))
}

/// The request that streams every record of one bucket.
pub fn bucket(database: &str, name: &str) -> (r: Result<StreamQueryRequest>)
    ensures
        match r {
            Ok(q) => query::is_identifier(name@) && streams(
                q,
                database@,
                "SELECT FROM bucket:"@ + name@,
                Map::empty(),
                server_defaults(),
            ),
            Err(e) => !query::is_identifier(name@) && e@ == query::invalid_identifier(
                name@,
                "bucket name"@,
            ),
        },
{
    let b = validate_identifier(name, "bucket name")?;
    let mut sql = "SELECT FROM bucket:".to_owned();
    sql.append(b.as_str());
    Ok(
        stream_query_request(
            database,
            sql.as_str(),
            Params::default(),
            StreamOptions::default(),
        ),
    )
}

// ---------------------------------------------------------------------------
// Laws
// ---------------------------------------------------------------------------

/// A streamed query is SQL and carries the database, the text, the parameters and the options
/// that it was made of; without a retrieval mode it uses a cursor.
pub proof fn law_streams_carry_what_was_asked(
    r: StreamQueryRequest,
    database: Seq<char>,
    sql: Seq<char>,
    parameters: Map<Seq<char>, ValueView>,
    options: StreamOptions,
)
    requires
        streams(r, database, sql, parameters, options),
    ensures
        r.database@ == database,
        r.query@ == sql,
        r.language@ == "sql"@,
        forall|k: Seq<char>| parameters.contains_key(k) <==> #[trigger] r.parameters@.contains_key(k),
        forall|k: Seq<char>| #[trigger]
            r.parameters@.contains_key(k) ==> parameters[k] == r.parameters@[k]@,
        r.batch_size == options.batch_size,
        options.retrieval_mode is None ==> r.retrieval_mode is Cursor,
        options.retrieval_mode matches Some(m) ==> r.retrieval_mode == m,
        r.projection_settings == options.projection,
{
    wire::lemma_entries(r.parameters);
}

/// The default options leave the batch size, the retrieval mode and the projection to the
/// server.
pub proof fn law_default_options_ask_for_nothing()
    ensures
        server_defaults().batch_size == 0,
        server_defaults().retrieval_mode is None,
        server_defaults().projection is None,
{
}

} // verus!
