//! Query results: rows with their timing, typed row access, and the accounting of a stream.

use vstd::prelude::*;
use vstd::string::*;
use crate::error::{ArcadeDbError, FailureView, Result};
use crate::record::RecordDecodeError;
use crate::text;
use crate::wire::GrpcRecord;

verus! {

/// One batch of a streamed query.
#[derive(Debug)]
pub struct QueryResultBatch {
    pub records: Vec<GrpcRecord>,
    pub total_records_in_batch: i32,
    pub running_total_emitted: i64,
    pub is_last_batch: bool,
}

/// The rows of a query, with the server's timing.
#[derive(Debug)]
pub struct QueryResult {
    pub records: Vec<GrpcRecord>,
    /// Server-reported execution time in milliseconds.
    pub execution_time_ms: i64,
}

/// `r` is what decoding `rec` can give.
pub open spec fn decodes<'r, T: TryFrom<&'r GrpcRecord, Error = RecordDecodeError>>(
    rec: &'r GrpcRecord,
    r: core::result::Result<T, RecordDecodeError>,
) -> bool {
    call_ensures(T::try_from, (rec,), r)
}

/// `rec` can decode.
pub open spec fn decodable<T>(rec: &GrpcRecord) -> bool where
    T: for<'r>TryFrom<&'r GrpcRecord, Error = RecordDecodeError>,
 {
    exists|x: T| #[trigger] decodes::<T>(rec, Ok(x))
}

/// Row `i` fails to decode with `e`, and every row before it decodes.
pub open spec fn fails_first<T>(records: Seq<GrpcRecord>, i: int, e: RecordDecodeError) -> bool where
    T: for<'r>TryFrom<&'r GrpcRecord, Error = RecordDecodeError>,
 {
    &&& 0 <= i < records.len()
    &&& decodes::<T>(&records[i], Err(e))
    &&& forall|j: int| 0 <= j < i ==> decodable::<T>(&#[trigger] records[j])
}

/// What reading the first row can give: nothing where there are no rows, else what decoding it
/// gives.
pub open spec fn first_says<T>(
    records: Seq<GrpcRecord>,
    r: core::result::Result<Option<T>, RecordDecodeError>,
) -> bool where T: for<'r>TryFrom<&'r GrpcRecord, Error = RecordDecodeError> {
    match r {
        Ok(None) => records.len() == 0,
        Ok(Some(x)) => records.len() > 0 && decodes::<T>(&records[0], Ok(x)),
        Err(e) => records.len() > 0 && decodes::<T>(&records[0], Err(e)),
    }
}

/// What reading the one row that is needed can give.
pub open spec fn one_says<T>(records: Seq<GrpcRecord>, r: Result<T>) -> bool where
    T: for<'r>TryFrom<&'r GrpcRecord, Error = RecordDecodeError>,
 {
    match r {
        Ok(x) => records.len() > 0 && decodes::<T>(&records[0], Ok(x)),
        Err(e) => if records.len() == 0 {
            e@ == FailureView::NotFound("query"@, "result set was empty"@)
        } else {
            decode_failed::<T>(&records[0], "first row"@, e@)
        },
    }
}

impl QueryResult {
    /// Number of rows.
    pub fn len(&self) -> (n: usize)
        ensures
            n == self.records@.len(),
    {
        self.records.len()
    }

    /// Whether there are no rows.
    pub fn is_empty(&self) -> (b: bool)
        ensures
            b == (self.records@.len() == 0),
    {
        self.records.len() == 0
    }

    /// The rows, in order.
    pub fn iter(&self) -> (r: &Vec<GrpcRecord>)
        ensures
            *r == self.records,
    {
        &self.records
    }

    /// Typed decode of every row, in order. A row that does not decode is an error in its place.
    pub fn rows<'r, T>(&'r self) -> (out: Vec<core::result::Result<T, RecordDecodeError>>) where
        T: TryFrom<&'r GrpcRecord, Error = RecordDecodeError>,

        ensures
            out@.len() == self.records@.len(),
            forall|i: int|
                0 <= i < out@.len() ==> decodes::<T>(&self.records@[i], #[trigger] out@[i]),
    {
        let mut out: Vec<core::result::Result<T, RecordDecodeError>> = Vec::new();
        for i in 0..self.records.len()
            invariant
                out@.len() == i,
                forall|j: int|
                    0 <= j < out@.len() ==> decodes::<T>(&self.records@[j], #[trigger] out@[j]),
        {
            out.push(T::try_from(&self.records[i]));
        }
        out
    }

    /// Typed decode of the first row; `None` when there are no rows.
    pub fn first<T>(&self) -> (r: core::result::Result<Option<T>, RecordDecodeError>) where
        T: for<'r>TryFrom<&'r GrpcRecord, Error = RecordDecodeError>,

        ensures
            first_says::<T>(self.records@, r),
    {
        if self.records.len() == 0 {
            return Ok(None);
        }
        match T::try_from(&self.records[0]) {
            Ok(x) => Ok(Some(x)),
            Err(e) => Err(e),
        }
    }
}

impl QueryResult {
    /// Typed decode of the first row; having no rows is an error.
    pub fn one<T>(&self) -> (r: Result<T>) where
        T: for<'r>TryFrom<&'r GrpcRecord, Error = RecordDecodeError>,

        ensures
            one_says::<T>(self.records@, r),
            exists|f: core::result::Result<Option<T>, RecordDecodeError>| #[trigger]
                first_says::<T>(self.records@, f) && needed(f, r),
    {
        let first = self.first::<T>();
        assert(first_says::<T>(self.records@, first));
        match first {
            Ok(Some(x)) => Ok(x),
            Ok(None) => Err(ArcadeDbError::not_found("query", "result set was empty")),
            Err(source) => {
                assert(decodes::<T>(&self.records@[0], Err(source)));
                Err(ArcadeDbError::Decode { what: "first row".to_owned(), source })
            },
        }
    }

    /// Typed decode of all rows; the first one that does not decode ends it.
    pub fn collect_rows<T>(&self) -> (r: core::result::Result<Vec<T>, RecordDecodeError>) where
        T: for<'r>TryFrom<&'r GrpcRecord, Error = RecordDecodeError>,

        ensures
            match r {
                Ok(v) => v@.len() == self.records@.len() && forall|i: int|
                    0 <= i < v@.len() ==> decodes::<T>(
                        &self.records@[i],
                        Ok(#[trigger] v@[i]),
                    ),
                Err(e) => exists|i: int| #[trigger] fails_first::<T>(self.records@, i, e),
            },
    {
        let mut out: Vec<T> = Vec::new();
        for i in 0..self.records.len()
            invariant
                out@.len() == i,
                forall|j: int|
                    0 <= j < out@.len() ==> decodes::<T>(&self.records@[j], Ok(#[trigger] out@[j])),
                forall|j: int| 0 <= j < i ==> decodable::<T>(&#[trigger] self.records@[j]),
        {
            match T::try_from(&self.records[i]) {
                Ok(x) => {
                    assert(decodes::<T>(&self.records@[i as int], Ok(x)));
                    out.push(x);
                },
                Err(e) => {
                    assert(fails_first::<T>(self.records@, i as int, e));
                    return Err(e);
                },
            }
        }
        Ok(out)
    }

    /// Whether decoding on a thread pool pays, given the threshold.
    pub fn decodes_in_parallel(&self, min_records: usize) -> (b: bool)
        ensures
            b == (self.records@.len() >= min_records),
    {
        self.records.len() >= min_records
    }
}

/// `e` says that decoding `rec` as `what` failed.
pub open spec fn decode_failed<T>(rec: &GrpcRecord, what: Seq<char>, e: FailureView) -> bool where
    T: for<'r>TryFrom<&'r GrpcRecord, Error = RecordDecodeError>,
 {
    exists|inner: RecordDecodeError| #[trigger]
        decodes::<T>(rec, Err(inner)) && e == FailureView::Decode(what, inner@)
}

/// What needing a row makes of reading the first one: a row is the result, no row is not
/// found, and a failure is one to decode the first row.
pub open spec fn needed<T>(
    f: core::result::Result<Option<T>, RecordDecodeError>,
    r: Result<T>,
) -> bool {
    match (f, r) {
        (Ok(Some(x)), Ok(y)) => y == x,
        (Ok(None), Err(e)) => e@ == FailureView::NotFound("query"@, "result set was empty"@),
        (Err(inner), Err(e)) => e@ == FailureView::Decode("first row"@, inner@),
        _ => false,
    }
}

/// [`QueryResult::one`] gives what [`QueryResult::first`] gives, with a row needed, and nothing
/// else.
pub proof fn law_one_is_the_first<T>(records: Seq<GrpcRecord>, r: Result<T>) where
    T: for<'r>TryFrom<&'r GrpcRecord, Error = RecordDecodeError>,

    ensures
        one_says::<T>(records, r) <==> exists|f: core::result::Result<
            Option<T>,
            RecordDecodeError,
        >| #[trigger] first_says::<T>(records, f) && needed(f, r),
{
    if one_says::<T>(records, r) {
        match r {
            Ok(x) => {
                let f = Ok::<Option<T>, RecordDecodeError>(Some(x));
                assert(first_says::<T>(records, f) && needed(f, r));
            },
            Err(e) => if records.len() == 0 {
                let f = Ok::<Option<T>, RecordDecodeError>(None);
                assert(first_says::<T>(records, f) && needed(f, r));
            } else {
                let inner = choose|inner: RecordDecodeError| #[trigger]
                    decodes::<T>(&records[0], Err(inner)) && e@ == FailureView::Decode(
                        "first row"@,
                        inner@,
                    );
                let f = Err::<Option<T>, RecordDecodeError>(inner);
                assert(first_says::<T>(records, f) && needed(f, r));
            },
        }
    }
    if exists|f: core::result::Result<Option<T>, RecordDecodeError>| #[trigger]
        first_says::<T>(records, f) && needed(f, r) {
        let f = choose|f: core::result::Result<Option<T>, RecordDecodeError>| #[trigger]
            first_says::<T>(records, f) && needed(f, r);
        if let Err(inner) = f {
            assert(decodes::<T>(&records[0], Err(inner)));
        }
    }
}

/// Decoding `rec` gives one answer, however often it is asked.
pub open spec fn decodes_one_way<T>(rec: &GrpcRecord) -> bool where
    T: for<'r>TryFrom<&'r GrpcRecord, Error = RecordDecodeError>,
 {
    forall|
        a: core::result::Result<T, RecordDecodeError>,
        b: core::result::Result<T, RecordDecodeError>,
    | #[trigger] decodes::<T>(rec, a) && #[trigger] decodes::<T>(rec, b) ==> a == b
}

/// A call of [`QueryResult::first`] and one of [`QueryResult::one`] agree, for rows whose
/// conversion gives one answer: the row where there is one, `NotFound` where there is none, and
/// the error of the first row, wrapped, where that does not decode.
pub proof fn law_one_agrees_with_first<T>(
    records: Seq<GrpcRecord>,
    f: core::result::Result<Option<T>, RecordDecodeError>,
    r: Result<T>,
) where T: for<'r>TryFrom<&'r GrpcRecord, Error = RecordDecodeError>
    requires
        records.len() > 0 ==> decodes_one_way::<T>(&records[0]),
        first_says::<T>(records, f),
        one_says::<T>(records, r),
    ensures
        needed(f, r),
{
    if records.len() > 0 {
        let own = match f {
            Ok(Some(x)) => Ok::<T, RecordDecodeError>(x),
            Ok(None) => arbitrary(),
            Err(e) => Err(e),
        };
        assert(decodes::<T>(&records[0], own));
        match r {
            Ok(x) => {
                assert(decodes::<T>(&records[0], Ok(x)));
            },
            Err(e) => {
                let inner = choose|inner: RecordDecodeError| #[trigger]
                    decodes::<T>(&records[0], Err(inner)) && e@ == FailureView::Decode(
                        "first row"@,
                        inner@,
                    );
                assert(decodes::<T>(&records[0], Err(inner)));
            },
        }
    }
}

// ---------------------------------------------------------------------------
// The parallel threshold
// ---------------------------------------------------------------------------

/// Rows from which on results are decoded in parallel, unless the environment says otherwise.
pub const DEFAULT_PAR_MIN_RECORDS: usize = 512;

/// The threshold that the environment's value stands for: a positive number, else the default.
pub open spec fn par_threshold(value: Option<Seq<char>>) -> int {
    match value {
        Some(s) => match text::unsigned_value(s) {
            Some(n) => if 0 < n && n <= usize::MAX {
                n
            } else {
                DEFAULT_PAR_MIN_RECORDS as int
            },
            None => DEFAULT_PAR_MIN_RECORDS as int,
        },
        None => DEFAULT_PAR_MIN_RECORDS as int,
    }
}

/// The effective threshold, from the environment's value for it.
pub fn par_min_records(value: Option<&str>) -> (n: usize)
    ensures
        n == par_threshold(
            match value {
                Some(s) => Some(s@),
                None => None,
            },
        ),
{
    if let Some(s) = value {
        if let Some(n) = text::parse_unsigned(&text::chars_of(s)) {
            if n > 0 && n <= usize::MAX as u64 {
                return n as usize;
            }
        }
    }
    DEFAULT_PAR_MIN_RECORDS
}

// ---------------------------------------------------------------------------
// Streams
// ---------------------------------------------------------------------------

/// Accounting for a consumed stream.
#[derive(Debug, Clone, Copy, PartialEq, Eq, Structural)]
pub struct StreamSummary {
    /// Batches consumed before the end or an early stop.
    pub batches: u32,
    /// Rows across those batches.
    pub rows: usize,
    /// The server's running total, from the last of them.
    pub running_total_emitted: i64,
    /// Whether the server flagged the last of them as final.
    pub is_last_batch: bool,
    /// Whether the consumer stopped early; the server may have more.
    pub truncated: bool,
}

impl Default for StreamSummary {
    fn default() -> (s: Self)
        ensures
            s == (StreamSummary {
                batches: 0,
                rows: 0,
                running_total_emitted: 0,
                is_last_batch: false,
                truncated: false,
            }),
    {
        StreamSummary {
            batches: 0,
            rows: 0,
            running_total_emitted: 0,
            is_last_batch: false,
            truncated: false,
        }
    }
}

impl StreamSummary {
    /// Account for one batch, and for the consumer's wish to `stop` after it. Says whether the
    /// stream is to be dropped.
    pub fn consume(&mut self, batch: &QueryResultBatch, stop: bool) -> (done: bool)
        requires
            old(self).batches < u32::MAX,
            old(self).rows + batch.records@.len() <= usize::MAX,
        ensures
            *final(self) == (StreamSummary {
                batches: (old(self).batches + 1) as u32,
                rows: (old(self).rows + batch.records@.len()) as usize,
                running_total_emitted: batch.running_total_emitted,
                is_last_batch: batch.is_last_batch,
                truncated: old(self).truncated || stop,
            }),
            done == stop,
    {
        self.batches = self.batches + 1;
        self.rows = self.rows + batch.records.len();
        self.running_total_emitted = batch.running_total_emitted;
        self.is_last_batch = batch.is_last_batch;
        if stop {
            self.truncated = true;
        }
        stop
    }
}

/// The first row is read and no other: none without rows, its value where it decodes, its
/// error where it does not.
pub proof fn law_first_is_the_first<T>(
    records: Seq<GrpcRecord>,
    r: core::result::Result<Option<T>, RecordDecodeError>,
) where T: for<'r>TryFrom<&'r GrpcRecord, Error = RecordDecodeError>
    requires
        first_says::<T>(records, r),
    ensures
        records.len() == 0 <==> r matches Ok(None),
        r matches Ok(Some(x)) ==> call_ensures(T::try_from, (&records.first(),), Ok(x)),
        r matches Err(e) ==> call_ensures(T::try_from, (&records.first(),), Err(e)),
{
}

/// Decoding in parallel starts at the number of rows that the setting gives, where that is a
/// positive number that fits, and at 512 otherwise.
pub proof fn law_the_parallel_threshold_is_positive(value: Option<Seq<char>>)
    ensures
        0 < par_threshold(value) <= usize::MAX,
        value is None ==> par_threshold(value) == 512,
        value matches Some(s) ==> (match text::unsigned_value(s) {
            Some(n) => par_threshold(value) == if 0 < n <= usize::MAX { n } else { 512 },
            None => par_threshold(value) == 512,
        }),
{
}

/// Of rows that do not all decode, the first that does not is the one whose error is given.
pub proof fn law_the_first_undecodable_row_is_reported<T>(
    records: Seq<GrpcRecord>,
    i: int,
    j: int,
    e: RecordDecodeError,
) where T: for<'r>TryFrom<&'r GrpcRecord, Error = RecordDecodeError>
    requires
        fails_first::<T>(records, i, e),
    ensures
        0 <= i < records.len(),
        call_ensures(T::try_from, (&records[i],), Err(e)),
        0 <= j < i ==> exists|x: T| #[trigger] decodes::<T>(&records[j], Ok(x)),
{
    if 0 <= j < i {
        assert(decodable::<T>(&records[j]));
    }
}

} // verus!
