//! The bounded stream writer: drain a stream chunk by chunk into a
//! destination while enforcing a cumulative size limit.  The limit is
//! checked before each chunk is written, so the chunk that would pass the
//! limit is never appended.

use vstd::prelude::*;
use vstd::seq_lib::lemma_flatten_concat;

use crate::handler_err::HandlerError;
use crate::sniff::prefix_bytes;

verus! {

/// `a + b`, stopping at the largest `u64`.
pub open spec fn sat_add_u64(a: u64, b: u64) -> u64 {
    if a + b <= u64::MAX {
        (a + b) as u64
    } else {
        u64::MAX
    }
}

/// A running byte count against a fixed limit.  Mirrors the limit check the
/// writer performs before each chunk reaches the destination.
pub struct ByteBudget {
    /// Bytes accepted so far.
    pub written: u64,
    /// The configured maximum.
    pub limit: u64,
}

impl ByteBudget {
    /// The count never passes the limit.
    pub open spec fn wf(&self) -> bool {
        self.written <= self.limit
    }

    /// A fresh budget: nothing written yet.
    pub fn new(limit: u64) -> (r: ByteBudget)
        ensures
            r.wf(),
            r.written == 0,
            r.limit == limit,
    {
        ByteBudget { written: 0, limit }
    }

    /// Account for one incoming chunk of `n` bytes.  Accepts the chunk
    /// exactly when the cumulative count stays within the limit; otherwise
    /// the count is left as it was and the error carries the size the
    /// upload would have reached and the limit itself.
    pub fn try_consume(&mut self, n: usize) -> (r: Result<(), HandlerError>)
        requires
            old(self).wf(),
        ensures
            final(self).wf(),
            final(self).limit == old(self).limit,
            r is Ok <==> old(self).written + n <= old(self).limit,
            r is Ok ==> final(self).written == old(self).written + n,
            r is Err ==> final(self).written == old(self).written && r == Err::<(), HandlerError>(
                HandlerError::FileTooLarge(
                    sat_add_u64(old(self).written, n as u64),
                    old(self).limit,
                )),
    {
        let n64: u64 = n as u64;
        if n64 > self.limit - self.written {
            Err(HandlerError::FileTooLarge(self.written.saturating_add(n64), self.limit))
        } else {
            self.written = self.written + n64;
            Ok(())
        }
    }
}

/// Chunk `k` is where the stream first passes the limit: everything before
/// it fits, and the stream through chunk `k` does not.
pub open spec fn is_excess_chunk(chunks: Seq<Seq<u8>>, limit: int, k: int) -> bool {
    &&& 0 <= k < chunks.len()
    &&& prefix_bytes(chunks, k).len() <= limit
    &&& prefix_bytes(chunks, k + 1).len() > limit
}

/// A longer prefix of the stream holds at least as many bytes.
pub proof fn lemma_prefix_mono(chunks: Seq<Seq<u8>>, i: int, j: int)
    requires
        0 <= i <= j <= chunks.len(),
    ensures
        prefix_bytes(chunks, i).len() <= prefix_bytes(chunks, j).len(),
{
    lemma_flatten_concat(chunks.take(i), chunks.take(j).skip(i));
    assert(chunks.take(i) + chunks.take(j).skip(i) =~= chunks.take(j));
}

/// A stream passes its limit at exactly one chunk: enforcement aborts at
/// that chunk, not before it and not after it.
pub proof fn lemma_excess_chunk_unique(chunks: Seq<Seq<u8>>, limit: int, k1: int, k2: int)
    requires
        is_excess_chunk(chunks, limit, k1),
        is_excess_chunk(chunks, limit, k2),
    ensures
        k1 == k2,
{
    if k1 < k2 {
        lemma_prefix_mono(chunks, k1 + 1, k2);
    }
    if k2 < k1 {
        lemma_prefix_mono(chunks, k2 + 1, k1);
    }
}

/// The bytes of the first `k + 1` chunks are those of the first `k` chunks
/// followed by chunk `k`.
pub proof fn lemma_prefix_bytes_step(chunks: Seq<Seq<u8>>, k: int)
    requires
        0 <= k < chunks.len(),
    ensures
        prefix_bytes(chunks, k + 1) == prefix_bytes(chunks, k) + chunks[k],
{
    lemma_flatten_concat(chunks.take(k), seq![chunks[k]]);
    assert(chunks.take(k) + seq![chunks[k]] =~= chunks.take(k + 1));
    seq![chunks[k]].lemma_flatten_one_element();
}

/// Drain a stream of chunks into a fresh in-memory destination, enforcing
/// the cumulative limit before each chunk.  Succeeds with all the stream's
/// bytes exactly when the whole stream fits; otherwise fails at the first
/// chunk that passes the limit, with the size reached through that chunk.
pub fn write_all_chunks(chunks: &Vec<Vec<u8>>, limit: u64) -> (r: Result<Vec<u8>, HandlerError>)
    ensures
        r is Ok <==> chunks.deep_view().flatten().len() <= limit,
        r matches Ok(data) ==> data@ == chunks.deep_view().flatten(),
        r matches Err(e) ==> exists|k: int|
            #[trigger] is_excess_chunk(chunks.deep_view(), limit as int, k)
            && e == HandlerError::FileTooLarge(
                sat_add_u64(
                    prefix_bytes(chunks.deep_view(), k).len() as u64,
                    chunks.deep_view()[k].len() as u64,
                ),
                limit,
            ),
{
    let ghost dv = chunks.deep_view();
    let mut data: Vec<u8> = Vec::new();
    let mut budget = ByteBudget::new(limit);
    let mut k: usize = 0;
    assert(data@ =~= prefix_bytes(dv, 0)) by {
        assert(dv.take(0) =~= Seq::<Seq<u8>>::empty());
    }
    while k < chunks.len()
        invariant
            k <= chunks@.len(),
            dv == chunks.deep_view(),
            budget.wf(),
            budget.limit == limit,
            data@ == prefix_bytes(dv, k as int),
            budget.written == data@.len(),
        decreases chunks@.len() - k,
    {
        proof {
            lemma_prefix_bytes_step(dv, k as int);
        }
        match budget.try_consume(chunks[k].len()) {
            Ok(()) => {},
            Err(e) => {
                proof {
                    assert(is_excess_chunk(dv, limit as int, k as int));
                    lemma_prefix_mono(dv, k as int + 1, dv.len() as int);
                    assert(dv.take(dv.len() as int) =~= dv);
                }
                return Err(e);
            },
        }
        crate::sniff::push_bytes(&mut data, &chunks[k]);
        k += 1;
    }
    proof {
        assert(dv.take(dv.len() as int) =~= dv);
    }
    Ok(data)
}

} // verus!
