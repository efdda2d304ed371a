//! Options of a streamed query.

use vstd::prelude::*;

verus! {

/// How the server produces the batches of a stream.
#[derive(Debug, Clone, Copy, PartialEq, Eq, Structural)]
pub enum RetrievalMode {
    /// Run once and stream while iterating; the server's default.
    Cursor,
    /// Load the whole result, then emit batches.
    MaterializeAll,
    /// Issue the query again for every batch.
    Paged,
}

/// Which parts of a record the server projects.
#[derive(Debug, Clone, Copy, PartialEq, Eq, Structural)]
pub struct ProjectionSettings {
    pub include_projections: bool,
    pub projection_encoding: i32,
    pub soft_limit_bytes: i32,
}

/// Options of a streamed query; by default everything is left to the server.
#[derive(Debug, Clone, Copy, PartialEq, Eq, Structural)]
pub struct StreamOptions {
    /// Rows per batch; `0` leaves it to the server.
    pub batch_size: i32,
    pub retrieval_mode: Option<RetrievalMode>,
    pub projection: Option<ProjectionSettings>,
}

impl Default for StreamOptions {
    fn default() -> (o: Self)
        ensures
            o == (StreamOptions { batch_size: 0, retrieval_mode: None, projection: None }),
    {
        StreamOptions { batch_size: 0, retrieval_mode: None, projection: None }
    }
}

/// The signed number with the bits of `n`.
pub open spec fn signed(n: u32) -> int {
    if n < 0x8000_0000 {
        n as int
    } else {
        n - 0x1_0000_0000
    }
}

impl StreamOptions {
    /// Everything left to the server.
    pub fn new() -> (o: Self)
        ensures
            o == (StreamOptions { batch_size: 0, retrieval_mode: None, projection: None }),
    {
        Self::default()
    }

    /// Rows per batch, with the bits of `size` on the wire.
    pub fn batch_size(self, size: u32) -> (o: Self)
        ensures
            o == (StreamOptions { batch_size: signed(size) as i32, ..self }),
    {
        let n: i32 = if size < 0x8000_0000 {
            size as i32
        } else {
            (size as i64 - 0x1_0000_0000) as i32
        };
        StreamOptions { batch_size: n, ..self }
    }

    /// How the server produces the batches.
    pub fn retrieval_mode(self, mode: RetrievalMode) -> (o: Self)
        ensures
            o == (StreamOptions { retrieval_mode: Some(mode), ..self }),
    {
        StreamOptions { retrieval_mode: Some(mode), ..self }
    }

    /// Which parts of a record the server projects.
    pub fn projection(self, settings: ProjectionSettings) -> (o: Self)
        ensures
            o == (StreamOptions { projection: Some(settings), ..self }),
    {
        StreamOptions { projection: Some(settings), ..self }
    }
}

// ---------------------------------------------------------------------------
// Laws
// ---------------------------------------------------------------------------

/// A limit keeps its 32 bits on the wire: it fits the signed type, and differs from the limit
/// by a multiple of two to the thirty-second.
pub proof fn law_limits_keep_their_bits(n: u32)
    ensures
        i32::MIN <= signed(n) <= i32::MAX,
        (signed(n) - n) % 0x1_0000_0000 == 0,
        n <= i32::MAX ==> signed(n) == n,
{
}

} // verus!
