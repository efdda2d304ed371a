//! Record writes: single records by rid, and bulk inserts and upserts.

use vstd::prelude::*;
use vstd::string::*;
use crate::encode;
use crate::encode::Params;
use crate::error::{ArcadeDbError, FailureView, Result};
use crate::record::{Link, ToGrpcRecord};
use crate::rpc::{
    BulkInsertRequest, ConflictMode, CreateRecordRequest, DeleteRecordRequest,
    DeleteRecordResponse, UpdateRecordRequest, UpdateRecordResponse,
};
use crate::text;
use crate::wire::{GrpcRecord, GrpcValue};

verus! {

// ---------------------------------------------------------------------------
// Single records
// ---------------------------------------------------------------------------

/// The request that creates a record from named values.
pub fn create_record_request(database: &str, class: &str, props: Vec<(&str, GrpcValue)>) -> (r:
    CreateRecordRequest)
    ensures
        r.database@ == database@,
        r.class@ == class@,
        r.record@ == encode::record_of(class@, encode::named_wires(props@)),
{
    CreateRecordRequest {
        database: database.to_owned(),
        class: class.to_owned(),
        record: encode::rec(class, props),
    }
}

/// The request that changes the given properties of a record.
pub fn update_record_partial_request(database: &str, rid: &Link, props: Params) -> (r:
    UpdateRecordRequest)
    ensures
        r.database@ == database@,
        r.rid@ == rid.rid(),
        r.properties == props.0,
{
    UpdateRecordRequest {
        database: database.to_owned(),
        rid: rid.to_rid_string(),
        properties: props.0,
    }
}

/// Whether a record was updated; the response carries no message, so that a failure names the
/// rid.
pub fn update_record_partial(response: UpdateRecordResponse, rid: &Link) -> (r: Result<bool>)
    ensures
        match r {
            Ok(b) => response.success && b == response.updated,
            Err(e) => !response.success && e@ == FailureView::CommandFailed(
                "update record"@,
                rid.rid(),
                None,
            ),
        },
{
    if !response.success {
        return Err(
            ArcadeDbError::CommandFailed {
                operation: "update record".to_owned(),
                message: rid.to_rid_string(),
                affected: None,
            },
        );
    }
    Ok(response.updated)
}

/// The request that deletes a record.
pub fn delete_record_request(database: &str, rid: &Link) -> (r: DeleteRecordRequest)
    ensures
        r.database@ == database@,
        r.rid@ == rid.rid(),
{
    DeleteRecordRequest { database: database.to_owned(), rid: rid.to_rid_string() }
}

/// Whether a record was deleted.
pub fn delete_record(response: DeleteRecordResponse, rid: &Link) -> (r: Result<bool>)
    ensures
        match r {
            Ok(b) => response.success && b == response.deleted,
            Err(e) => !response.success && e@ == FailureView::CommandFailed(
                "delete record "@ + rid.rid(),
                response.message@,
                None,
            ),
        },
{
    if !response.success {
        let mut operation = "delete record ".to_owned();
        operation.append(rid.to_rid_string().as_str());
        return Err(
            ArcadeDbError::CommandFailed { operation, message: response.message, affected: None },
        );
    }
    Ok(response.deleted)
}

// ---------------------------------------------------------------------------
// Bulk writes
// ---------------------------------------------------------------------------

/// A bulk request for a class, with a conflict policy over these key columns.
pub open spec fn bulk(
    r: BulkInsertRequest,
    database: Seq<char>,
    class: Seq<char>,
    keys: Seq<Seq<char>>,
    mode: ConflictMode,
    updated: Seq<Seq<char>>,
) -> bool {
    &&& r.database@ == database
    &&& r.target_class@ == class
    &&& text::texts(r.key_columns@) == keys
    &&& r.conflict_mode == mode
    &&& text::texts(r.update_columns_on_conflict@) == updated
}

fn owned(names: &[&str]) -> (r: Vec<String>)
    ensures
        text::texts(r@) == text::slices(names@),
{
    let mut out: Vec<String> = Vec::new();
    for i in 0..names.len()
        invariant
            out@.len() == i,
            forall|j: int| 0 <= j < i ==> (#[trigger] out@[j])@ == names@[j]@,
    {
        out.push(names[i].to_owned());
    }
    assert(text::texts(out@) =~= text::slices(names@));
    out
}

/// The request of a bulk insert that ignores rows whose key exists, so that it can be run
/// again.
pub fn bulk_insert_request(
    database: &str,
    class: &str,
    key_columns: &[&str],
    rows: Vec<GrpcRecord>,
) -> (r: BulkInsertRequest)
    ensures
        bulk(
            r,
            database@,
            class@,
            text::slices(key_columns@),
            ConflictMode::Ignore,
            Seq::empty(),
        ),
        r.rows == rows,
{
    let none: Vec<String> = Vec::new();
    assert(text::texts(none@) =~= Seq::empty());
    BulkInsertRequest {
        database: database.to_owned(),
        target_class: class.to_owned(),
        key_columns: owned(key_columns),
        conflict_mode: ConflictMode::Ignore,
        update_columns_on_conflict: none,
        rows,
    }
}

/// The request of a bulk upsert: rows whose key exists are updated, in the given columns or,
/// where none are given, in all that they have.
pub fn bulk_upsert_request(
    database: &str,
    class: &str,
    key_columns: &[&str],
    update_columns_on_conflict: &[&str],
    rows: Vec<GrpcRecord>,
) -> (r: BulkInsertRequest)
    ensures
        bulk(
            r,
            database@,
            class@,
            text::slices(key_columns@),
            ConflictMode::Update,
            text::slices(update_columns_on_conflict@),
        ),
        r.rows == rows,
{
    BulkInsertRequest {
        database: database.to_owned(),
        target_class: class.to_owned(),
        key_columns: owned(key_columns),
        conflict_mode: ConflictMode::Update,
        update_columns_on_conflict: owned(update_columns_on_conflict),
        rows,
    }
}

/// The wire records of typed rows, in order.
pub fn records_from_dtos<T: ToGrpcRecord>(rows: Vec<T>, class: &str) -> (r: Vec<GrpcRecord>)
    ensures
        r@.len() == rows@.len(),
        forall|i: int|
            0 <= i < r@.len() ==> (#[trigger] r@[i])@ == encode::record_of(
                class@,
                rows@[i].columns(),
            ),
{
    let mut out: Vec<GrpcRecord> = Vec::new();
    for i in 0..rows.len()
        invariant
            out@.len() == i,
            forall|j: int|
                0 <= j < out@.len() ==> (#[trigger] out@[j])@ == encode::record_of(
                    class@,
                    rows@[j].columns(),
                ),
    {
        out.push(rows[i].to_grpc_record(class));
    }
    out
}

/// What is said of rows without a conflict key; `dto` is the name of their type.
pub open spec fn no_key(dto: Seq<char>) -> FailureView {
    FailureView::InvalidInput(
        "bulk_upsert_dtos: `"@ + dto
            + "` declares no #[record(key)] columns — the server cannot detect conflicts without a key"@,
    )
}

/// A bulk upsert of these rows, keyed by the columns that their type declares.
pub open spec fn upserts<T: ToGrpcRecord>(
    r: BulkInsertRequest,
    database: Seq<char>,
    class: Seq<char>,
    rows: Seq<T>,
) -> bool {
    &&& bulk(
        r,
        database,
        class,
        text::slices(T::KEY_COLUMNS@),
        ConflictMode::Update,
        Seq::empty(),
    )
    &&& r.rows@.len() == rows.len()
    &&& forall|i: int|
        0 <= i < rows.len() ==> (#[trigger] r.rows@[i])@ == encode::record_of(
            class,
            rows[i].columns(),
        )
}

/// The request of a bulk upsert of typed rows. The conflict key is the one that the row type
/// declares; a type without one is refused. `dto` names the type in that refusal.
pub fn bulk_upsert_dtos_request<T: ToGrpcRecord>(
    database: &str,
    class: &str,
    rows: Vec<T>,
    dto: &str,
) -> (r: Result<BulkInsertRequest>)
    ensures
        match r {
            Ok(q) => T::KEY_COLUMNS@.len() > 0 && upserts(q, database@, class@, rows@),
            Err(e) => T::KEY_COLUMNS@.len() == 0 && e@ == no_key(dto@),
        },
{
    let keys = T::KEY_COLUMNS;
    if keys.len() == 0 {
        let mut message = "bulk_upsert_dtos: `".to_owned();
        message.append(dto);
        message.append(
            "` declares no #[record(key)] columns — the server cannot detect conflicts without a key",
        );
        return Err(ArcadeDbError::InvalidInput { message });
    }
    let records = records_from_dtos(rows, class);
    let none: Vec<&str> = Vec::new();
    let q = bulk_upsert_request(database, class, keys, none.as_slice(), records);
    assert(text::slices(none@) =~= Seq::empty());
    Ok(q)
}

// ---------------------------------------------------------------------------
// Laws
// ---------------------------------------------------------------------------

/// A bulk request carries the database, the target type, the key columns, the answer to
/// conflicts and the columns to update that it was made of.
pub proof fn law_bulk_requests_carry_what_was_asked(
    r: BulkInsertRequest,
    database: Seq<char>,
    class: Seq<char>,
    keys: Seq<Seq<char>>,
    mode: ConflictMode,
    updated: Seq<Seq<char>>,
)
    requires
        bulk(r, database, class, keys, mode, updated),
    ensures
        r.database@ == database,
        r.target_class@ == class,
        r.key_columns@.len() == keys.len(),
        forall|i: int| 0 <= i < keys.len() ==> (#[trigger] r.key_columns@[i])@ == keys[i],
        r.conflict_mode == mode,
        r.update_columns_on_conflict@.len() == updated.len(),
        forall|i: int|
            0 <= i < updated.len() ==> (#[trigger] r.update_columns_on_conflict@[i])@ == updated[i],
{
    assert forall|i: int| 0 <= i < keys.len() implies (#[trigger] r.key_columns@[i])@
        == keys[i] by {
        assert(text::texts(r.key_columns@)[i] == r.key_columns@[i]@);
    }
    assert forall|i: int| 0 <= i < updated.len() implies (
    #[trigger] r.update_columns_on_conflict@[i])@ == updated[i] by {
        assert(text::texts(r.update_columns_on_conflict@)[i] == r.update_columns_on_conflict@[i]@);
    }
}

/// An upsert of rows updates every column on a conflict, detects conflicts by the key columns
/// that the row type declares, and sends each row under its type with its own columns, in
/// order. The rows name no rid.
pub proof fn law_upserts_update_by_the_declared_key<T: ToGrpcRecord>(
    r: BulkInsertRequest,
    database: Seq<char>,
    class: Seq<char>,
    rows: Seq<T>,
)
    requires
        upserts::<T>(r, database, class, rows),
    ensures
        r.database@ == database,
        r.target_class@ == class,
        r.conflict_mode is Update,
        r.update_columns_on_conflict@.len() == 0,
        r.key_columns@.len() == T::KEY_COLUMNS@.len(),
        forall|i: int|
            0 <= i < r.key_columns@.len() ==> (#[trigger] r.key_columns@[i])@ == T::KEY_COLUMNS@[i]@,
        r.rows@.len() == rows.len(),
        forall|i: int|
            0 <= i < rows.len() ==> (#[trigger] r.rows@[i])@.class == class && r.rows@[i]@.rid.len()
                == 0 && r.rows@[i]@.properties == encode::named(rows[i].columns()),
{
    law_bulk_requests_carry_what_was_asked(
        r,
        database,
        class,
        text::slices(T::KEY_COLUMNS@),
        ConflictMode::Update,
        Seq::empty(),
    );
}

/// A row type without key columns is named in the refusal of an upsert.
pub proof fn law_rows_without_a_key_are_named(dto: Seq<char>)
    ensures
        no_key(dto) == FailureView::InvalidInput(
            "bulk_upsert_dtos: `"@ + dto
                + "` declares no #[record(key)] columns — the server cannot detect conflicts without a key"@,
        ),
{
}

} // verus!
