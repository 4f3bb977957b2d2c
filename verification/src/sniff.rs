//! The type sniffer: the head of the upload stream reads up to a fixed probe
//! length into a retained buffer, infers a verdict from it, and replays the
//! buffered bytes to downstream consumers so that no byte is lost.

use vstd::prelude::*;
use vstd::seq_lib::lemma_flatten_concat;

use crate::file_type::{DeclaredMime, FileType, FileTypeV, declared_or_unknown, inferred_or_unknown, reconcile_v};

verus! {

/// How many bytes of the stream's head are inspected for magic numbers.
pub const PROBE_LEN: usize = 8192;

/// The bytes of the first `k` chunks, in stream order.
pub open spec fn prefix_bytes(chunks: Seq<Seq<u8>>, k: int) -> Seq<u8> {
    chunks.take(k).flatten()
}

/// `k` is where the probe stops: every earlier cut is still short of the
/// probe length, and the cut is only inside the stream when the probe length
/// has been reached.
pub open spec fn is_probe_cut(chunks: Seq<Seq<u8>>, k: int) -> bool {
    &&& 0 <= k <= chunks.len()
    &&& forall|j: int| 0 <= j < k ==> #[trigger] prefix_bytes(chunks, j).len() < PROBE_LEN
    &&& k < chunks.len() ==> prefix_bytes(chunks, k).len() >= PROBE_LEN
}

/// The cut is unique: the probe consumes a well-defined prefix of the stream.
pub proof fn lemma_probe_cut_unique(chunks: Seq<Seq<u8>>, k1: int, k2: int)
    requires
        is_probe_cut(chunks, k1),
        is_probe_cut(chunks, k2),
    ensures
        k1 == k2,
{
    if k1 < k2 {
        assert(prefix_bytes(chunks, k1).len() < PROBE_LEN);
        assert(prefix_bytes(chunks, k1).len() >= PROBE_LEN);
    }
    if k2 < k1 {
        assert(prefix_bytes(chunks, k2).len() < PROBE_LEN);
        assert(prefix_bytes(chunks, k2).len() >= PROBE_LEN);
    }
}

/// The probe's cut, as a value: the unique `k` of [`is_probe_cut`].
pub open spec fn probe_cut(chunks: Seq<Seq<u8>>) -> int {
    choose|k: int| is_probe_cut(chunks, k)
}

/// The bytes the probe buffer retains.
pub open spec fn probe_bytes(chunks: Seq<Seq<u8>>) -> Seq<u8> {
    prefix_bytes(chunks, probe_cut(chunks))
}

/// Some cut always exists, so [`probe_cut`] is the cut of [`is_probe_cut`].
pub proof fn lemma_probe_cut_exists(chunks: Seq<Seq<u8>>)
    ensures
        is_probe_cut(chunks, probe_cut(chunks)),
    decreases chunks.len(),
{
    let n = chunks.len() as int;
    if exists|j: int| 0 <= j <= n && #[trigger] prefix_bytes(chunks, j).len() >= PROBE_LEN {
        let k = least_long_prefix(chunks, choose|j: int|
            0 <= j <= n && #[trigger] prefix_bytes(chunks, j).len() >= PROBE_LEN);
        assert(is_probe_cut(chunks, k));
    } else {
        assert(forall|j: int| 0 <= j <= n ==> #[trigger] prefix_bytes(chunks, j).len() < PROBE_LEN);
        assert(is_probe_cut(chunks, n));
    }
    assert(is_probe_cut(chunks, probe_cut(chunks)));
}

/// The least `j <= upper` whose prefix reaches the probe length, given that
/// `upper` itself does.
proof fn least_long_prefix(chunks: Seq<Seq<u8>>, upper: int) -> (k: int)
    requires
        0 <= upper <= chunks.len(),
        prefix_bytes(chunks, upper).len() >= PROBE_LEN,
    ensures
        0 <= k <= upper,
        prefix_bytes(chunks, k).len() >= PROBE_LEN,
        forall|j: int| 0 <= j < k ==> #[trigger] prefix_bytes(chunks, j).len() < PROBE_LEN,
    decreases upper,
{
    if exists|j: int| 0 <= j < upper && #[trigger] prefix_bytes(chunks, j).len() >= PROBE_LEN {
        let w = choose|j: int| 0 <= j < upper && #[trigger] prefix_bytes(chunks, j).len() >= PROBE_LEN;
        least_long_prefix(chunks, w)
    } else {
        upper
    }
}

/// Replaying the probe buffer and then the rest of the stream yields exactly
/// the original stream: no byte is lost to the probe.  When the whole stream
/// is shorter than the probe length, the probe consumed it all and its
/// length is the stream's true length.
pub proof fn lemma_probe_round_trip(chunks: Seq<Seq<u8>>)
    ensures
        probe_bytes(chunks) + chunks.skip(probe_cut(chunks)).flatten() == chunks.flatten(),
        chunks.flatten().len() < PROBE_LEN ==> probe_cut(chunks) == chunks.len()
            && probe_bytes(chunks) == chunks.flatten(),
{
    lemma_probe_cut_exists(chunks);
    let k = probe_cut(chunks);
    lemma_flatten_concat(chunks.take(k), chunks.skip(k));
    assert(chunks.take(k) + chunks.skip(k) =~= chunks);
    if chunks.flatten().len() < PROBE_LEN {
        if k < chunks.len() {
            lemma_prefix_bytes_le(chunks, k);
        }
        assert(chunks.take(chunks.len() as int) =~= chunks);
    }
}

/// A prefix of the stream holds no more bytes than the whole stream.
proof fn lemma_prefix_bytes_le(chunks: Seq<Seq<u8>>, k: int)
    requires
        0 <= k <= chunks.len(),
    ensures
        prefix_bytes(chunks, k).len() <= chunks.flatten().len(),
{
    lemma_flatten_concat(chunks.take(k), chunks.skip(k));
    assert(chunks.take(k) + chunks.skip(k) =~= chunks);
}

/// Append a chunk's bytes to a buffer.
pub(crate) fn push_bytes(dst: &mut Vec<u8>, src: &Vec<u8>)
    ensures
        final(dst)@ == old(dst)@ + src@,
{
    let mut i: usize = 0;
    while i < src.len()
        invariant
            i <= src@.len(),
            dst@ == old(dst)@ + src@.take(i as int),
        decreases src@.len() - i,
    {
        dst.push(src[i]);
        assert(src@.take(i + 1) =~= src@.take(i as int).push(src@[i as int]));
        i += 1;
    }
    assert(src@.take(src@.len() as int) =~= src@);
}

/// Read whole chunks from the head of the stream into the probe buffer until
/// the probe length is reached or the stream ends.  Returns the buffer and
/// the number of chunks it consumed.
pub fn fill_probe(chunks: &Vec<Vec<u8>>) -> (r: (Vec<u8>, usize))
    ensures
        is_probe_cut(chunks.deep_view(), r.1 as int),
        r.0@ == probe_bytes(chunks.deep_view()),
        r.1 as int == probe_cut(chunks.deep_view()),
{
    let ghost dv = chunks.deep_view();
    let mut probe: Vec<u8> = Vec::new();
    let mut k: usize = 0;
    assert(probe@ =~= prefix_bytes(dv, 0)) by {
        assert(dv.take(0) =~= Seq::<Seq<u8>>::empty());
    }
    while k < chunks.len() && probe.len() < PROBE_LEN
        invariant
            k <= chunks@.len(),
            dv == chunks.deep_view(),
            probe@ == prefix_bytes(dv, k as int),
            forall|j: int| 0 <= j < k ==> #[trigger] prefix_bytes(dv, j).len() < PROBE_LEN,
        decreases chunks@.len() - k,
    {
        push_bytes(&mut probe, &chunks[k]);
        proof {
            lemma_flatten_concat(dv.take(k as int), seq![dv[k as int]]);
            assert(dv.take(k as int) + seq![dv[k as int]] =~= dv.take(k + 1));
            seq![dv[k as int]].lemma_flatten_one_element();
        }
        k += 1;
    }
    proof {
        lemma_probe_cut_exists(dv);
        lemma_probe_cut_unique(dv, k as int, probe_cut(dv));
    }
    (probe, k)
}

/// The sniffer as the head of the readable stream: it contributes the
/// retained probe buffer as the first chunk, exactly once, before the
/// caller goes on with the remainder of the underlying stream — so
/// downstream consumers see every byte and never notice the buffering.
pub struct ProbeReplay {
    /// The retained probe buffer.
    pub probe: Vec<u8>,
    /// Whether the buffer has been handed out already.
    pub replayed: bool,
}

impl ProbeReplay {
    /// A fresh adapter that has not replayed anything yet.
    pub fn new(probe: Vec<u8>) -> (r: ProbeReplay)
        ensures
            r.probe@ == probe@,
            !r.replayed,
    {
        ProbeReplay { probe, replayed: false }
    }

    /// The next chunk the adapter itself contributes: the whole probe
    /// buffer the first time (when there is one), nothing afterwards; the
    /// caller then polls the underlying stream for the remaining chunks.
    pub fn next_replay(&mut self) -> (r: Option<Vec<u8>>)
        ensures
            final(self).probe@ == old(self).probe@,
            final(self).replayed,
            r matches Some(c) ==> c@ == old(self).probe@ && !old(self).replayed
                && old(self).probe@.len() > 0,
            r is None <==> (old(self).replayed || old(self).probe@.len() == 0),
    {
        if !self.replayed && self.probe.len() > 0 {
            self.replayed = true;
            let mut out: Vec<u8> = Vec::new();
            push_bytes(&mut out, &self.probe);
            proof {
                assert(out@ =~= self.probe@);
            }
            Some(out)
        } else {
            self.replayed = true;
            None
        }
    }
}

/// What the sniffer hands on: the retained probe buffer, how many chunks it
/// consumed (downstream replay starts at that chunk), the reconciled verdict
/// and the client-supplied file name.
pub struct SniffedUpload {
    /// The retained head of the stream, to be replayed before the remainder.
    pub probe: Vec<u8>,
    /// The number of chunks the probe consumed.
    pub probed_chunks: usize,
    /// The reconciled file-type verdict.
    pub file_type: FileType,
    /// The client-declared file name, or its fixed stand-in.
    pub base_file_name: String,
}

/// The reconciled verdict over a whole stream and declaration: what the
/// magic numbers of the probe say, corrected by the declared type only where
/// the magic numbers say nothing.
pub open spec fn verdict_of(chunks: Seq<Seq<u8>>, declared: Option<crate::file_type::DeclaredMimeV>) -> FileTypeV {
    reconcile_v(declared_or_unknown(declared), inferred_or_unknown(probe_bytes(chunks)))
}

/// The file name the pipeline works with: the declared one, or a fixed
/// stand-in where the client declared none.
pub open spec fn base_name_of(file_name: Option<Seq<char>>) -> Seq<char> {
    match file_name {
        Some(n) => n,
        None => "unnamed screenshot"@,
    }
}

/// Run the sniffer over the head of a stream: fill the probe buffer, infer
/// a verdict from its magic numbers, reconcile it with the declared type.
pub fn sniff_upload(chunks: &Vec<Vec<u8>>, declared: &Option<DeclaredMime>, file_name: Option<String>) -> (r: SniffedUpload)
    ensures
        r.probe@ == probe_bytes(chunks.deep_view()),
        r.probed_chunks as int == probe_cut(chunks.deep_view()),
        r.file_type@ == verdict_of(chunks.deep_view(), match declared {
            Some(d) => Some(d@),
            None => None,
        }),
        r.base_file_name@ == base_name_of(match file_name {
            Some(n) => Some(n@),
            None => None,
        }),
{
    let (probe, probed_chunks) = fill_probe(chunks);
    let inferred = FileType::from_probe(&probe);
    let declared_type = FileType::from_declared(declared);
    let file_type = crate::file_type::reconcile(declared_type, inferred);
    let base_file_name = match file_name {
        Some(n) => n,
        None => "unnamed screenshot".to_owned(),
    };
    SniffedUpload { probe, probed_chunks, file_type, base_file_name }
}

} // verus!
