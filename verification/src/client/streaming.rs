//! Streamed queries: consuming batches, or decoded rows, one at a time.

use std::ops::ControlFlow;
use vstd::prelude::*;
use vstd::string::*;
use crate::client::results;
use crate::client::results::{QueryResultBatch, StreamSummary};
use crate::encode::Params;
use crate::error;
use crate::error::{map_rpc_error, ArcadeDbError, FailureView, Result, Status};
use crate::record::RecordDecodeError;
use crate::rpc::StreamQueryRequest;
use crate::stream::{RetrievalMode, StreamOptions};
use crate::wire::GrpcRecord;

verus! {

/// What a stream delivers: a batch, or the failure that ends it.
pub type StreamItem = core::result::Result<QueryResultBatch, Status>;

// ---------------------------------------------------------------------------
// Model
// ---------------------------------------------------------------------------

/// The rows that an item brings.
pub open spec fn rows_of(item: StreamItem) -> nat {
    match item {
        Ok(batch) => batch.records@.len(),
        Err(_) => 0,
    }
}

/// The rows of the first `k` items.
pub open spec fn rows_in(items: Seq<StreamItem>, k: nat) -> nat
    decreases k,
{
    if k == 0 {
        0
    } else {
        rows_in(items, (k - 1) as nat) + rows_of(items[k - 1])
    }
}

proof fn lemma_rows_grow(items: Seq<StreamItem>, k: nat, n: nat)
    requires
        k <= n,
    ensures
        rows_in(items, k) <= rows_in(items, n),
    decreases n,
{
    if k < n {
        lemma_rows_grow(items, k, (n - 1) as nat);
    }
}

/// The accounting of the first `k` batches: how many there were, their rows, and what the last
/// of them says of itself.
pub open spec fn accounted(items: Seq<StreamItem>, k: nat, stopped: bool, s: StreamSummary) -> bool {
    &&& s.batches == k
    &&& s.rows == rows_in(items, k)
    &&& k == 0 ==> s.running_total_emitted == 0 && !s.is_last_batch
    &&& k > 0 ==> s.running_total_emitted == items[k - 1]->Ok_0.running_total_emitted
        && s.is_last_batch == items[k - 1]->Ok_0.is_last_batch
    &&& s.truncated == stopped
}

/// The callback may answer this batch by asking for more, or else by stopping.
pub open spec fn may_answer<F: FnMut(&QueryResultBatch) -> ControlFlow<()>>(
    on_batch: F,
    batch: QueryResultBatch,
    stop: bool,
) -> bool {
    exists|a: ControlFlow<()>| #[trigger]
        call_ensures(on_batch, (&batch,), a) && (a is Break) == stop
}

/// The first `k` items are batches, and the consumer wanted more after each of them.
pub open spec fn passed<F: FnMut(&QueryResultBatch) -> ControlFlow<()>>(
    items: Seq<StreamItem>,
    on_batch: F,
    k: nat,
) -> bool {
    k <= items.len() && forall|i: int|
        0 <= i < k ==> (#[trigger] items[i]) is Ok && may_answer(on_batch, items[i]->Ok_0, false)
}

/// The consumer took `k` batches, and `stopped` after the last of them or wanted more of each.
pub open spec fn taken<F: FnMut(&QueryResultBatch) -> ControlFlow<()>>(
    items: Seq<StreamItem>,
    on_batch: F,
    k: nat,
    stopped: bool,
) -> bool {
    if stopped {
        0 < k <= items.len() && passed(items, on_batch, (k - 1) as nat) && items[k - 1] is Ok
            && may_answer(on_batch, items[k - 1]->Ok_0, true)
    } else {
        k == items.len() && passed(items, on_batch, k)
    }
}

// ---------------------------------------------------------------------------
// Batches
// ---------------------------------------------------------------------------

/// Consume a stream of batches. A failed item ends it with that failure; a callback that breaks
/// ends it early, and the summary says so.
#[verifier::loop_isolation(false)]
pub fn consume_stream<F: FnMut(&QueryResultBatch) -> ControlFlow<()>>(
    stream: Vec<StreamItem>,
    on_batch: F,
) -> (r: core::result::Result<StreamSummary, Status>)
    requires
        forall|b: &QueryResultBatch| call_requires(on_batch, (b,)),
        stream@.len() <= u32::MAX,
        rows_in(stream@, stream@.len()) <= usize::MAX,
    ensures
        match r {
            Ok(s) => exists|k: nat, stopped: bool| #[trigger]
                taken(stream@, on_batch, k, stopped) && accounted(stream@, k, stopped, s),
            Err(e) => exists|k: nat| #[trigger]
                passed(stream@, on_batch, k) && k < stream@.len() && stream@[k as int] == Err::<
                    QueryResultBatch,
                    Status,
                >(e),
        },
{
    let ghost items = stream@;
    let ghost answers = on_batch;
    let mut on_batch = on_batch;
    let mut summary = StreamSummary::default();
    for item in it: stream
        invariant
            it.seq() == items,
            answers == on_batch,
            forall|b: &QueryResultBatch| call_requires(on_batch, (b,)),
            items.len() <= u32::MAX,
            rows_in(items, items.len()) <= usize::MAX,
            passed(items, answers, it.index() as nat),
            accounted(items, it.index() as nat, false, summary),
    {
        let ghost n = it.index() as nat;
        assert(item == items[n as int]);
        match item {
            Ok(batch) => {
                proof {
                    lemma_rows_grow(items, n + 1, items.len());
                }
                let answer = on_batch(&batch);
                assert(may_answer(answers, batch, answer is Break));
                match answer {
                    ControlFlow::Break(_) => {
                        let _done = summary.consume(&batch, true);
                        assert(taken(items, answers, n + 1, true));
                        assert(accounted(items, n + 1, true, summary));
                        return Ok(summary);
                    },
                    ControlFlow::Continue(_) => {
                        let _done = summary.consume(&batch, false);
                    },
                }
            },
            Err(e) => {
                return Err(e);
            },
        }
    }
    assert(taken(items, answers, items.len(), false));
    Ok(summary)
}

// ---------------------------------------------------------------------------
// Rows
// ---------------------------------------------------------------------------

/// The callback may answer some row that `rec` decodes to by asking for more, or else by
/// stopping.
pub open spec fn row_answer<T, F>(on_row: F, rec: GrpcRecord, stop: bool) -> bool where
    T: for<'r>TryFrom<&'r GrpcRecord, Error = RecordDecodeError>,
    F: FnMut(T) -> ControlFlow<()>,
 {
    exists|row: T, a: ControlFlow<()>| #[trigger]
        call_ensures(on_row, (row,), a) && results::decodes::<T>(&rec, Ok(row)) && (a is Break)
            == stop
}

/// The first `j` rows of a batch decode, and the callback wanted more after each of them.
pub open spec fn rows_passed<T, F>(batch: QueryResultBatch, on_row: F, j: nat) -> bool where
    T: for<'r>TryFrom<&'r GrpcRecord, Error = RecordDecodeError>,
    F: FnMut(T) -> ControlFlow<()>,
 {
    j <= batch.records@.len() && forall|i: int|
        0 <= i < j ==> row_answer::<T, F>(on_row, #[trigger] batch.records@[i], false)
}

/// The first `k` items are batches whose rows all passed.
pub open spec fn batches_passed<T, F>(items: Seq<StreamItem>, on_row: F, k: nat) -> bool where
    T: for<'r>TryFrom<&'r GrpcRecord, Error = RecordDecodeError>,
    F: FnMut(T) -> ControlFlow<()>,
 {
    k <= items.len() && forall|i: int|
        0 <= i < k ==> (#[trigger] items[i]) is Ok && rows_passed::<T, F>(
            items[i]->Ok_0,
            on_row,
            items[i]->Ok_0.records@.len(),
        )
}

/// The callback stopped at row `j` of batch `k`.
pub open spec fn stopped_at<T, F>(items: Seq<StreamItem>, on_row: F, k: nat, j: nat) -> bool where
    T: for<'r>TryFrom<&'r GrpcRecord, Error = RecordDecodeError>,
    F: FnMut(T) -> ControlFlow<()>,
 {
    k < items.len() && batches_passed::<T, F>(items, on_row, k) && items[k as int] is Ok
        && rows_passed::<T, F>(items[k as int]->Ok_0, on_row, j) && j
        < items[k as int]->Ok_0.records@.len() && row_answer::<T, F>(
        on_row,
        items[k as int]->Ok_0.records@[j as int],
        true,
    )
}

/// Row `j` of batch `k` is the first that does not decode, and `e` says so.
pub open spec fn undecodable_at<T, F>(
    items: Seq<StreamItem>,
    on_row: F,
    k: nat,
    j: nat,
    query: Seq<char>,
    e: FailureView,
) -> bool where
    T: for<'r>TryFrom<&'r GrpcRecord, Error = RecordDecodeError>,
    F: FnMut(T) -> ControlFlow<()>,
 {
    k < items.len() && batches_passed::<T, F>(items, on_row, k) && items[k as int] is Ok
        && rows_passed::<T, F>(items[k as int]->Ok_0, on_row, j) && j
        < items[k as int]->Ok_0.records@.len() && results::decode_failed::<T>(
        &items[k as int]->Ok_0.records@[j as int],
        "stream row of `"@ + query + "`"@,
        e,
    )
}

/// Item `k` is the failure that ends the stream, and `e` reports it.
pub open spec fn broken_at<T, F>(
    items: Seq<StreamItem>,
    on_row: F,
    k: nat,
    query: Seq<char>,
    e: FailureView,
) -> bool where
    T: for<'r>TryFrom<&'r GrpcRecord, Error = RecordDecodeError>,
    F: FnMut(T) -> ControlFlow<()>,
 {
    k < items.len() && batches_passed::<T, F>(items, on_row, k) && (items[k as int] matches Err(
        status,
    ) && e == error::rpc_failure("stream_query"@, query, status@))
}

/// How the rows of one batch went.
#[derive(Debug)]
pub enum Pass {
    All,
    Stopped,
    Failed(ArcadeDbError),
}

/// Hand the rows of one batch to the callback, each decoded first, until it breaks or a row
/// does not decode. The callback comes back for the next batch.
#[verifier::loop_isolation(false)]
pub fn pass_rows<T, F>(batch: &QueryResultBatch, query: &str, on_row: F) -> (r: (Pass, F)) where
    T: for<'r>TryFrom<&'r GrpcRecord, Error = RecordDecodeError>,
    F: FnMut(T) -> ControlFlow<()>,

    requires
        forall|row: T| call_requires(on_row, (row,)),
    ensures
        r.1 == on_row,
        match r.0 {
            Pass::All => rows_passed::<T, F>(*batch, on_row, batch.records@.len()),
            Pass::Stopped => exists|j: nat| #[trigger]
                rows_passed::<T, F>(*batch, on_row, j) && j < batch.records@.len() && row_answer::<
                    T,
                    F,
                >(on_row, batch.records@[j as int], true),
            Pass::Failed(e) => exists|j: nat| #[trigger]
                rows_passed::<T, F>(*batch, on_row, j) && j < batch.records@.len()
                    && results::decode_failed::<T>(
                    &batch.records@[j as int],
                    "stream row of `"@ + query@ + "`"@,
                    e@,
                ),
        },
{
    let ghost answers = on_row;
    let mut on_row = on_row;
    for i in 0..batch.records.len()
        invariant
            on_row == answers,
            forall|row: T| call_requires(on_row, (row,)),
            rows_passed::<T, F>(*batch, answers, i as nat),
    {
        match T::try_from(&batch.records[i]) {
            Ok(row) => {
                let ghost kept = row;
                let answer = on_row(row);
                assert(call_ensures(answers, (kept,), answer));
                assert(row_answer::<T, F>(answers, batch.records@[i as int], answer is Break));
                match answer {
                    ControlFlow::Break(_) => {
                        assert(rows_passed::<T, F>(*batch, answers, i as nat));
                        return (Pass::Stopped, on_row);
                    },
                    ControlFlow::Continue(_) => {},
                }
            },
            Err(source) => {
                assert(results::decodes::<T>(&batch.records@[i as int], Err(source)));
                let mut what = "stream row of `".to_owned();
                what.append(query);
                what.append("`");
                let e = ArcadeDbError::Decode { what, source };
                assert(results::decode_failed::<T>(
                    &batch.records@[i as int],
                    "stream row of `"@ + query@ + "`"@,
                    e@,
                ));
                assert(rows_passed::<T, F>(*batch, answers, i as nat));
                return (Pass::Failed(e), on_row);
            },
        }
    }
    (Pass::All, on_row)
}

/// Consume a stream row by row, each decoded before it is handed to the callback. A row that
/// does not decode fails the whole call; a callback that breaks ends it early.
#[verifier::loop_isolation(false)]
pub fn consume_rows<T, F>(stream: Vec<StreamItem>, query: &str, on_row: F) -> (r: Result<
    StreamSummary,
>) where
    T: for<'r>TryFrom<&'r GrpcRecord, Error = RecordDecodeError>,
    F: FnMut(T) -> ControlFlow<()>,

    requires
        forall|row: T| call_requires(on_row, (row,)),
        stream@.len() <= u32::MAX,
        rows_in(stream@, stream@.len()) <= usize::MAX,
    ensures
        match r {
            Ok(s) => (batches_passed::<T, F>(stream@, on_row, stream@.len()) && accounted(
                stream@,
                stream@.len(),
                false,
                s,
            )) || (exists|k: nat, j: nat| #[trigger]
                stopped_at::<T, F>(stream@, on_row, k, j) && accounted(stream@, k + 1, true, s)),
            Err(e) => (exists|k: nat| #[trigger]
                broken_at::<T, F>(stream@, on_row, k, query@, e@)) || (exists|k: nat, j: nat|
             #[trigger]
                undecodable_at::<T, F>(stream@, on_row, k, j, query@, e@)),
        },
{
    let ghost items = stream@;
    let ghost answers = on_row;
    let mut on_row = on_row;
    let mut summary = StreamSummary::default();
    for item in it: stream
        invariant
            it.seq() == items,
            answers == on_row,
            forall|row: T| call_requires(on_row, (row,)),
            batches_passed::<T, F>(items, answers, it.index() as nat),
            accounted(items, it.index() as nat, false, summary),
    {
        let ghost n = it.index() as nat;
        assert(item == items[n as int]);
        match item {
            Ok(batch) => {
                proof {
                    lemma_rows_grow(items, n + 1, items.len());
                }
                let (pass, back) = pass_rows::<T, F>(&batch, query, on_row);
                on_row = back;
                match pass {
                    Pass::All => {
                        let _done = summary.consume(&batch, false);
                    },
                    Pass::Stopped => {
                        let _done = summary.consume(&batch, true);
                        proof {
                            let j = choose|j: nat| #[trigger]
                                rows_passed::<T, F>(batch, answers, j) && j
                                    < batch.records@.len() && row_answer::<T, F>(
                                    answers,
                                    batch.records@[j as int],
                                    true,
                                );
                            assert(stopped_at::<T, F>(items, answers, n, j));
                        }
                        return Ok(summary);
                    },
                    Pass::Failed(e) => {
                        proof {
                            let j = choose|j: nat| #[trigger]
                                rows_passed::<T, F>(batch, answers, j) && j
                                    < batch.records@.len() && results::decode_failed::<T>(
                                    &batch.records@[j as int],
                                    "stream row of `"@ + query@ + "`"@,
                                    e@,
                                );
                            assert(undecodable_at::<T, F>(items, answers, n, j, query@, e@));
                        }
                        return Err(e);
                    },
                }
            },
            Err(status) => {
                let e = map_rpc_error("stream_query", query, status);
                assert(broken_at::<T, F>(items, answers, n, query@, e@));
                return Err(e);
            },
        }
    }
    Ok(summary)
}

// ---------------------------------------------------------------------------
// Requests
// ---------------------------------------------------------------------------

/// The request of a streamed query. What the options leave open is left to the server.
pub fn stream_query_request(
    database: &str,
    query: &str,
    parameters: Params,
    options: StreamOptions,
) -> (r: StreamQueryRequest)
    ensures
        r.database@ == database@,
        r.query@ == query@,
        r.parameters == parameters.0,
        r.language@ == "sql"@,
        r.batch_size == options.batch_size,
        r.retrieval_mode == (match options.retrieval_mode {
            Some(m) => m,
            None => RetrievalMode::Cursor,
        }),
        r.projection_settings == options.projection,
{
    StreamQueryRequest {
        database: database.to_owned(),
        query: query.to_owned(),
        parameters: parameters.0,
        language: "sql".to_owned(),
        batch_size: options.batch_size,
        retrieval_mode: match options.retrieval_mode {
            Some(m) => m,
            None => RetrievalMode::Cursor,
        },
        projection_settings: options.projection,
    }
}

// ---------------------------------------------------------------------------
// Laws
// ---------------------------------------------------------------------------

/// The summary of a stream counts the batches that were handed on and their rows, shows what
/// the last of them said of the total and the end, and says whether the reader stopped it.
pub proof fn law_summaries_count_what_was_handed_on(
    items: Seq<StreamItem>,
    k: nat,
    stopped: bool,
    s: StreamSummary,
)
    requires
        accounted(items, k, stopped, s),
    ensures
        s.batches == k,
        s.rows == rows_in(items, k),
        s.truncated == stopped,
        k == 0 ==> s.rows == 0 && s.running_total_emitted == 0 && !s.is_last_batch,
        k > 0 ==> s.running_total_emitted == items[k - 1]->Ok_0.running_total_emitted
            && s.is_last_batch == items[k - 1]->Ok_0.is_last_batch,
        k > 0 ==> rows_in(items, k) == rows_in(items, (k - 1) as nat) + match items[k - 1] {
            Ok(batch) => batch.records@.len() as int,
            Err(_) => 0,
        },
{
}

/// A stream that was not stopped was handed on to its end, batch by batch, and one that was
/// stopped up to the batch that the reader stopped at.
pub proof fn law_streams_are_read_until_they_are_stopped<
    F: FnMut(&QueryResultBatch) -> ControlFlow<()>,
>(items: Seq<StreamItem>, on_batch: F, k: nat, stopped: bool)
    requires
        taken(items, on_batch, k, stopped),
    ensures
        !stopped ==> k == items.len(),
        stopped ==> 0 < k <= items.len(),
        forall|i: int| 0 <= i < k ==> (#[trigger] items[i]) is Ok,
        forall|i: int|
            0 <= i < k - 1 ==> exists|a: ControlFlow<()>| #[trigger]
                call_ensures(on_batch, (&(#[trigger] items[i])->Ok_0,), a) && a is Continue,
{
    assert forall|i: int| 0 <= i < k - 1 implies exists|a: ControlFlow<()>| #[trigger]
        call_ensures(on_batch, (&(#[trigger] items[i])->Ok_0,), a) && a is Continue by {
        assert(items[i] is Ok && may_answer(on_batch, items[i]->Ok_0, false));
        let a = choose|a: ControlFlow<()>| #[trigger]
            call_ensures(on_batch, (&items[i]->Ok_0,), a) && (a is Break) == false;
        assert(call_ensures(on_batch, (&items[i]->Ok_0,), a));
    }
}

/// A stream of rows that was stopped was stopped by the reader at a row that decodes, after
/// every row before it, in its batch and in the batches before, was handed on.
pub proof fn law_row_streams_stop_at_a_row<T, F>(
    items: Seq<StreamItem>,
    on_row: F,
    k: nat,
    j: nat,
) where
    T: for<'r>TryFrom<&'r GrpcRecord, Error = RecordDecodeError>,
    F: FnMut(T) -> ControlFlow<()>,

    requires
        stopped_at::<T, F>(items, on_row, k, j),
    ensures
        k < items.len(),
        forall|i: int| 0 <= i <= k ==> (#[trigger] items[i]) is Ok,
        j < items[k as int]->Ok_0.records@.len(),
        exists|row: T, a: ControlFlow<()>| #[trigger]
            call_ensures(on_row, (row,), a) && results::decodes::<T>(
                &items[k as int]->Ok_0.records@[j as int],
                Ok(row),
            ) && a is Break,
        forall|i: int|
            #![trigger items[k as int]->Ok_0.records@[i]]
            0 <= i < j ==> row_answer::<T, F>(
                on_row,
                items[k as int]->Ok_0.records@[i],
                false,
            ),
{
}

/// A stream of rows that broke did so with the failure of its call, after every batch before
/// it was handed on; one with a row that does not decode, with that row's error and the query.
pub proof fn law_row_streams_break_with_their_failure<T, F>(
    items: Seq<StreamItem>,
    on_row: F,
    k: nat,
    j: nat,
    query: Seq<char>,
    e: FailureView,
) where
    T: for<'r>TryFrom<&'r GrpcRecord, Error = RecordDecodeError>,
    F: FnMut(T) -> ControlFlow<()>,

    ensures
        broken_at::<T, F>(items, on_row, k, query, e) ==> k < items.len() && (
        items[k as int] matches Err(status) && e == error::rpc_failure(
            "stream_query"@,
            query,
            status@,
        )) && batches_passed::<T, F>(items, on_row, k),
        undecodable_at::<T, F>(items, on_row, k, j, query, e) ==> k < items.len()
            && items[k as int] is Ok && j < items[k as int]->Ok_0.records@.len() && exists|
            inner: RecordDecodeError,
        | #[trigger]
            results::decodes::<T>(&items[k as int]->Ok_0.records@[j as int], Err(inner)) && e
                == FailureView::Decode("stream row of `"@ + query + "`"@, inner@),
{
}

/// Batches that were passed on are whole ones: each arrived, and the reader went on after each
/// of its rows.
pub proof fn law_passed_batches_are_whole<T, F>(
    items: Seq<StreamItem>,
    on_row: F,
    k: nat,
    i: int,
    j: int,
) where
    T: for<'r>TryFrom<&'r GrpcRecord, Error = RecordDecodeError>,
    F: FnMut(T) -> ControlFlow<()>,

    requires
        batches_passed::<T, F>(items, on_row, k),
        0 <= i < k,
        0 <= j < items[i]->Ok_0.records@.len(),
    ensures
        k <= items.len(),
        items[i] is Ok,
        exists|row: T, a: ControlFlow<()>| #[trigger]
            call_ensures(on_row, (row,), a) && results::decodes::<T>(
                &items[i]->Ok_0.records@[j],
                Ok(row),
            ) && a is Continue,
{
    assert(items[i] is Ok);
    let batch = items[i]->Ok_0;
    assert(rows_passed::<T, F>(batch, on_row, batch.records@.len()));
    assert(row_answer::<T, F>(on_row, batch.records@[j], false));
    let (row, a) = choose|row: T, a: ControlFlow<()>| #[trigger]
        call_ensures(on_row, (row,), a) && results::decodes::<T>(&batch.records@[j], Ok(row)) && (
        a is Break) == false;
    assert(call_ensures(on_row, (row,), a) && a is Continue);
}

} // verus!
