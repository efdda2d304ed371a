//! Writes: what a command carries, and what its response means.

use vstd::prelude::*;
use vstd::string::*;
use crate::encode;
use crate::encode::Params;
use crate::error;
use crate::error::{command_failed, Result};
use crate::props::PropMap;
use crate::rpc::{ExecuteCommandRequest, ExecuteCommandResponse, TransactionContext};
use crate::wire;
use crate::wire::{GrpcValue, ValueView};

verus! {

/// A request that runs `command` in a language, with these parameters, and asks for the rows.
pub open spec fn commands(
    r: ExecuteCommandRequest,
    database: Seq<char>,
    command: Seq<char>,
    language: Seq<char>,
    parameters: Map<Seq<char>, ValueView>,
) -> bool {
    r.database@ == database && r.command@ == command && r.language@ == language && r.return_rows
        && wire::entries_view(r.parameters) == parameters
}

/// The request runs in this transaction.
pub open spec fn in_transaction(r: ExecuteCommandRequest, transaction_id: Seq<char>) -> bool {
    r.transaction matches Some(t) && t.transaction_id@ == transaction_id && t.database@.len() == 0
}

fn request(database: &str, command: &str, parameters: PropMap<GrpcValue>, language: &str) -> (r:
    ExecuteCommandRequest)
    ensures
        commands(r, database@, command@, language@, wire::entries_view(parameters)),
        r.transaction is None,
{
    ExecuteCommandRequest {
        database: database.to_owned(),
        command: command.to_owned(),
        parameters,
        language: language.to_owned(),
        return_rows: true,
        transaction: None,
    }
}

/// The request of a command in a query language.
pub fn execute_language_request(database: &str, language: &str, command: &str) -> (r:
    ExecuteCommandRequest)
    ensures
        commands(r, database@, command@, language@, Map::empty()),
        r.transaction is None,
{
    request(database, command, Params::default().0, language)
}

/// The request of a SQL command.
pub fn execute_request(database: &str, command: &str) -> (r: ExecuteCommandRequest)
    ensures
        commands(r, database@, command@, "sql"@, Map::empty()),
        r.transaction is None,
{
    request(database, command, Params::default().0, "sql")
}

/// The request of a SQL command with bound parameters.
pub fn execute_with_values_request(database: &str, command: &str, parameters: Params) -> (r:
    ExecuteCommandRequest)
    ensures
        commands(r, database@, command@, "sql"@, wire::entries_view(parameters.0)),
        r.transaction is None,
{
    request(database, command, parameters.0, "sql")
}

/// The request of a Cypher write, in the dialect that the server takes for writes.
pub fn cypher_execute_request(database: &str, command: &str) -> (r: ExecuteCommandRequest)
    ensures
        commands(r, database@, command@, "opencypher"@, Map::empty()),
        r.transaction is None,
{
    execute_language_request(database, "opencypher", command)
}

/// The request of a command inside a transaction.
pub fn execute_in_transaction_request(
    database: &str,
    language: &str,
    command: &str,
    transaction_id: &str,
) -> (r: ExecuteCommandRequest)
    ensures
        commands(r, database@, command@, language@, Map::empty()),
        in_transaction(r, transaction_id@),
{
    let mut r = execute_language_request(database, language, command);
    r.transaction = Some(
        TransactionContext { transaction_id: transaction_id.to_owned(), database: String::new() },
    );
    r
}

/// The request of a SQL command with bound parameters inside a transaction.
pub fn execute_values_in_transaction_request(
    database: &str,
    command: &str,
    parameters: Params,
    transaction_id: &str,
) -> (r: ExecuteCommandRequest)
    ensures
        commands(r, database@, command@, "sql"@, wire::entries_view(parameters.0)),
        in_transaction(r, transaction_id@),
{
    let mut r = execute_with_values_request(database, command, parameters);
    r.transaction = Some(
        TransactionContext { transaction_id: transaction_id.to_owned(), database: String::new() },
    );
    r
}

/// What the response to a command means: itself where the server reports success, else the
/// failure of `operation`.
pub fn command_result(operation: &str, response: ExecuteCommandResponse) -> (r: Result<
    ExecuteCommandResponse,
>)
    ensures
        match r {
            Ok(resp) => response.success && resp == response,
            Err(e) => !response.success && e@ == error::command_failure(
                operation@,
                response.message@,
                response.affected_records,
            ),
        },
{
    if response.success {
        Ok(response)
    } else {
        Err(command_failed(operation, response.message, response.affected_records))
    }
}

// ---------------------------------------------------------------------------
// Laws
// ---------------------------------------------------------------------------

/// A command request carries the database, the text, the language and the parameters that it
/// was made of, and asks for the rows.
pub proof fn law_commands_carry_what_was_asked(
    r: ExecuteCommandRequest,
    database: Seq<char>,
    command: Seq<char>,
    language: Seq<char>,
    parameters: Map<Seq<char>, ValueView>,
)
    requires
        commands(r, database, command, language, parameters),
    ensures
        r.database@ == database,
        r.command@ == command,
        r.language@ == language,
        r.return_rows,
        forall|k: Seq<char>| parameters.contains_key(k) <==> #[trigger] r.parameters@.contains_key(k),
        forall|k: Seq<char>| #[trigger]
            r.parameters@.contains_key(k) ==> parameters[k] == r.parameters@[k]@,
{
    wire::lemma_entries(r.parameters);
}

/// A command in a transaction names that transaction, and the transaction names no database
/// of its own.
pub proof fn law_commands_name_their_transaction(
    r: ExecuteCommandRequest,
    transaction_id: Seq<char>,
)
    requires
        in_transaction(r, transaction_id),
    ensures
        r.transaction is Some,
        r.transaction->0.transaction_id@ == transaction_id,
        r.transaction->0.database@.len() == 0,
{
}

} // verus!
