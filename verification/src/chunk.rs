//! Per-chunk counter context: an execution trace is split into chunks,
//! each proved independently; a monotonic read/write counter threads
//! through them so the chunks compose into one valid trace.

use vstd::prelude::*;
use crate::end_block::{Block, RwMap};

verus! {

/// The global read/write event counter. Index 0 is reserved, so the first
/// usable counter value is 1.
#[derive(Clone, Copy, Debug, PartialEq, Eq, Structural)]
pub struct RWCounter(pub usize);

impl RWCounter {
    pub fn new() -> (r: Self)
        ensures
            r.0 == 1,
    {
        RWCounter(1)
    }
}

/// One chunk of the execution trace: its witness block, its read/write
/// rows, and its position among the chunks.
pub struct Chunk {
    pub block: Block,
    pub rws: RwMap,
    pub chunk_index: usize,
}

/// Context of a chunk while its rows are assigned.
#[derive(Clone, Copy, Debug)]
pub struct ChunkContext {
    /// Used to track the inner chunk counter in every operation in the
    /// chunk. Contains the next available value.
    pub rwc: RWCounter,
    /// index of current chunk, start from 0
    pub chunk_index: usize,
    /// number of chunks
    pub total_chunks: usize,
    /// initial rw counter
    pub initial_rwc: usize,
    /// end rw counter
    pub end_rwc: usize,
}

impl ChunkContext {
    /// A context always sits at an index within its chunk count.
    pub open spec fn wf(self) -> bool {
        self.chunk_index < self.total_chunks
    }

    /// Create a new Self
    pub fn new(chunk_index: usize, total_chunks: usize) -> (r: Self)
        requires
            chunk_index < total_chunks,
        ensures
            r.wf(),
            r.rwc.0 == 1,
            r.chunk_index == chunk_index,
            r.total_chunks == total_chunks,
            r.initial_rwc == 1,
            r.end_rwc == 0,
    {
        ChunkContext {
            rwc: RWCounter::new(),
            chunk_index,
            total_chunks,
            initial_rwc: 1,  // rw counter start from 1
            end_rwc: 0,  // end_rwc should be set in later phase
        }
    }

    /// new Self with one chunk
    pub fn new_one_chunk() -> (r: Self)
        ensures
            r.wf(),
            r.rwc.0 == 1,
            r.chunk_index == 0,
            r.total_chunks == 1,
            r.initial_rwc == 1,
            r.end_rwc == 0,
    {
        ChunkContext {
            rwc: RWCounter::new(),
            chunk_index: 0,
            total_chunks: 1,
            initial_rwc: 1,  // rw counter start from 1
            end_rwc: 0,  // end_rwc should be set in later phase
        }
    }

    /// is first chunk
    pub fn is_first_chunk(&self) -> (r: bool)
        ensures
            r == (self.chunk_index == 0),
    {
        self.chunk_index == 0
    }

    /// is last chunk
    pub fn is_last_chunk(&self) -> (r: bool)
        requires
            self.wf(),
        ensures
            r == (self.chunk_index == self.total_chunks - 1),
    {
        self.total_chunks - self.chunk_index - 1 == 0
    }
}

impl Default for ChunkContext {
    fn default() -> (r: Self)
        ensures
            r.wf(),
            r.rwc.0 == 1,
            r.chunk_index == 0,
            r.total_chunks == 1,
            r.initial_rwc == 1,
            r.end_rwc == 0,
    {
        Self::new(0, 1)
    }
}

/// Chunk contexts chained in order: each chunk resumes at the counter
/// value right after the previous chunk's final one.
pub open spec fn chunks_continuous(ctxs: Seq<ChunkContext>) -> bool {
    forall|i: int|
        1 <= i < ctxs.len() ==> (#[trigger] ctxs[i]).initial_rwc == ctxs[i - 1].end_rwc + 1
}

/// Checks the continuity invariant the chunk-chaining caller must enforce:
/// every context resumes one past where its predecessor ended.
pub fn check_chunks_continuous(ctxs: &Vec<ChunkContext>) -> (ok: bool)
    ensures
        ok == chunks_continuous(ctxs@),
{
    let n = ctxs.len();
    let mut i: usize = 1;
    while i < n
        invariant
            1 <= i,
            i <= n || n == 0,
            n == ctxs@.len(),
            forall|j: int| 1 <= j < i ==> (#[trigger] ctxs@[j]).initial_rwc == ctxs@[j - 1].end_rwc + 1,
        decreases n - i,
    {
        let prev_end = ctxs[i - 1].end_rwc;
        if prev_end == usize::MAX || ctxs[i].initial_rwc != prev_end + 1 {
            proof {
                let ii = i as int;
                assert(ctxs@[ii].initial_rwc != ctxs@[ii - 1].end_rwc + 1);
            }
            return false;
        }
        i = i + 1;
    }
    true
}

/// In a continuous chain whose chunks each end no earlier than they start,
/// every later chunk works on strictly larger counter values: the counter
/// is globally monotonic and never reused across chunks.
pub proof fn lemma_continuous_chunks_ordered(ctxs: Seq<ChunkContext>, i: int, j: int)
    requires
        chunks_continuous(ctxs),
        forall|k: int| 0 <= k < ctxs.len() ==> (#[trigger] ctxs[k]).initial_rwc <= ctxs[k].end_rwc,
        0 <= i < j < ctxs.len(),
    ensures
        ctxs[i].end_rwc < ctxs[j].initial_rwc,
        ctxs[i].end_rwc < ctxs[j].end_rwc,
    decreases j - i,
{
    if j > i + 1 {
        lemma_continuous_chunks_ordered(ctxs, i, j - 1);
    }
}

} // verus!
