//! The calls that the client makes, by the name that their failures carry.

use vstd::prelude::*;
use crate::error;
use crate::error::{map_rpc_error, Result, Status};

verus! {

/// One remote call.
#[derive(Debug, Clone, Copy, PartialEq, Eq, Structural)]
pub enum Operation {
    Ping,
    CreateDatabase,
    DropDatabase,
    ExistsDatabase,
    ListDatabases,
    GetServerInfo,
    GetDatabaseInfo,
    Query,
    CypherQuery,
    QueryInTransaction,
    StreamQuery,
    LookupByRid,
    ExecuteCommand,
    ExecuteInTransaction,
    CreateRecord,
    UpdateRecord,
    DeleteRecord,
    BulkInsert,
    BulkUpsert,
    BeginTransaction,
    CommitTransaction,
    RollbackTransaction,
}

impl Operation {
    /// The name in failures.
    pub open spec fn says(self) -> Seq<char> {
        match self {
            Operation::Ping => "ping"@,
            Operation::CreateDatabase => "create database"@,
            Operation::DropDatabase => "drop database"@,
            Operation::ExistsDatabase => "exists database"@,
            Operation::ListDatabases => "list databases"@,
            Operation::GetServerInfo => "get server info"@,
            Operation::GetDatabaseInfo => "get database info"@,
            Operation::Query => "query"@,
            Operation::CypherQuery => "cypher query"@,
            Operation::QueryInTransaction => "query (in tx)"@,
            Operation::StreamQuery => "stream_query"@,
            Operation::LookupByRid => "lookup by rid"@,
            Operation::ExecuteCommand => "execute command"@,
            Operation::ExecuteInTransaction => "execute command (in tx)"@,
            Operation::CreateRecord => "create record"@,
            Operation::UpdateRecord => "update record"@,
            Operation::DeleteRecord => "delete record"@,
            Operation::BulkInsert => "bulk insert"@,
            Operation::BulkUpsert => "bulk upsert"@,
            Operation::BeginTransaction => "begin transaction"@,
            Operation::CommitTransaction => "commit transaction"@,
            Operation::RollbackTransaction => "rollback transaction"@,
        }
    }

    /// The name in failures.
    pub fn name(self) -> (r: &'static str)
        ensures
            r@ == self.says(),
    {
        match self {
            Operation::Ping => "ping",
            Operation::CreateDatabase => "create database",
            Operation::DropDatabase => "drop database",
            Operation::ExistsDatabase => "exists database",
            Operation::ListDatabases => "list databases",
            Operation::GetServerInfo => "get server info",
            Operation::GetDatabaseInfo => "get database info",
            Operation::Query => "query",
            Operation::CypherQuery => "cypher query",
            Operation::QueryInTransaction => "query (in tx)",
            Operation::StreamQuery => "stream_query",
            Operation::LookupByRid => "lookup by rid",
            Operation::ExecuteCommand => "execute command",
            Operation::ExecuteInTransaction => "execute command (in tx)",
            Operation::CreateRecord => "create record",
            Operation::UpdateRecord => "update record",
            Operation::DeleteRecord => "delete record",
            Operation::BulkInsert => "bulk insert",
            Operation::BulkUpsert => "bulk upsert",
            Operation::BeginTransaction => "begin transaction",
            Operation::CommitTransaction => "commit transaction",
            Operation::RollbackTransaction => "rollback transaction",
        }
    }

    /// What the outcome of the call means: the answer as it is, or the normalized failure.
    /// `detail` is what the call was about: a statement, a name, a record id.
    pub fn answered<T>(self, detail: &str, outcome: core::result::Result<T, Status>) -> (r: Result<
        T,
    >)
        ensures
            match outcome {
                Ok(answer) => r == Ok::<T, error::ArcadeDbError>(answer),
                Err(status) => r matches Err(e) && e@ == error::rpc_failure(
                    self.says(),
                    detail@,
                    status@,
                ),
            },
    {
        match outcome {
            Ok(answer) => Ok(answer),
            Err(status) => Err(map_rpc_error(self.name(), detail, status)),
        }
    }
}

/// Every operation goes by its own name in messages.
pub proof fn law_operations_have_their_names()
    ensures
        Operation::Ping.says() == "ping"@,
        Operation::CreateDatabase.says() == "create database"@,
        Operation::DropDatabase.says() == "drop database"@,
        Operation::ExistsDatabase.says() == "exists database"@,
        Operation::ListDatabases.says() == "list databases"@,
        Operation::GetServerInfo.says() == "get server info"@,
        Operation::GetDatabaseInfo.says() == "get database info"@,
        Operation::Query.says() == "query"@,
        Operation::CypherQuery.says() == "cypher query"@,
        Operation::QueryInTransaction.says() == "query (in tx)"@,
        Operation::StreamQuery.says() == "stream_query"@,
        Operation::LookupByRid.says() == "lookup by rid"@,
        Operation::ExecuteCommand.says() == "execute command"@,
        Operation::ExecuteInTransaction.says() == "execute command (in tx)"@,
        Operation::CreateRecord.says() == "create record"@,
        Operation::UpdateRecord.says() == "update record"@,
        Operation::DeleteRecord.says() == "delete record"@,
        Operation::BulkInsert.says() == "bulk insert"@,
        Operation::BulkUpsert.says() == "bulk upsert"@,
        Operation::BeginTransaction.says() == "begin transaction"@,
        Operation::CommitTransaction.says() == "commit transaction"@,
        Operation::RollbackTransaction.says() == "rollback transaction"@,
{
}

} // verus!
