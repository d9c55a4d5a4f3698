//! Splits a byte stream, delivered in chunks of any size, into
//! newline-terminated records.
use vstd::prelude::*;

verus! {

pub const NEWLINE: u8 = 10;

/// Frames `chunk` on top of the unterminated fragment `pending`: the result is
/// the fragment left over and the records completed, in order, newline excluded.
pub open spec fn frame(pending: Seq<u8>, chunk: Seq<u8>) -> (Seq<u8>, Seq<Seq<u8>>)
    decreases chunk.len(),
{
    if chunk.len() == 0 {
        (pending, Seq::empty())
    } else {
        let (p, records) = frame(pending, chunk.drop_last());
        if chunk.last() == NEWLINE {
            (Seq::empty(), records.push(p))
        } else {
            (p.push(chunk.last()), records)
        }
    }
}

/// Frames a whole sequence of chunks, one after another, starting from `pending`.
pub open spec fn frame_chunks(pending: Seq<u8>, chunks: Seq<Seq<u8>>) -> (Seq<u8>, Seq<Seq<u8>>)
    decreases chunks.len(),
{
    if chunks.len() == 0 {
        (pending, Seq::empty())
    } else {
        let (p1, r1) = frame_chunks(pending, chunks.drop_last());
        let (p2, r2) = frame(p1, chunks.last());
        (p2, r1 + r2)
    }
}

/// The bytes of all chunks laid end to end.
pub open spec fn concat_chunks(chunks: Seq<Seq<u8>>) -> Seq<u8>
    decreases chunks.len(),
{
    if chunks.len() == 0 {
        Seq::empty()
    } else {
        concat_chunks(chunks.drop_last()) + chunks.last()
    }
}

pub open spec fn records_view(records: Seq<Vec<u8>>) -> Seq<Seq<u8>> {
    records.map_values(|r: Vec<u8>| r@)
}

/// Framing two byte runs one after the other is framing their concatenation.
pub proof fn lemma_frame_append(pending: Seq<u8>, a: Seq<u8>, b: Seq<u8>)
    ensures
        frame(pending, a + b) == ({
            let (p1, r1) = frame(pending, a);
            let (p2, r2) = frame(p1, b);
            (p2, r1 + r2)
        }),
    decreases b.len(),
{
    if b.len() == 0 {
        assert(a + b =~= a);
        assert(frame(pending, a).1 + Seq::<Seq<u8>>::empty() =~= frame(pending, a).1);
    } else {
        lemma_frame_append(pending, a, b.drop_last());
        assert((a + b).drop_last() =~= a + b.drop_last());
        assert((a + b).last() == b.last());
        let (p1, r1) = frame(pending, a);
        let (q, rq) = frame(p1, b.drop_last());
        assert((r1 + rq).push(q) =~= r1 + rq.push(q));
    }
}

/// However a byte sequence is cut into chunks, empty ones included, feeding the
/// chunks one by one yields the same records, and the same leftover fragment,
/// as feeding the whole sequence at once.
pub proof fn lemma_chunking_invariant(pending: Seq<u8>, chunks: Seq<Seq<u8>>)
    ensures
        frame_chunks(pending, chunks) == frame(pending, concat_chunks(chunks)),
    decreases chunks.len(),
{
    if chunks.len() > 0 {
        lemma_chunking_invariant(pending, chunks.drop_last());
        lemma_frame_append(pending, concat_chunks(chunks.drop_last()), chunks.last());
    }
}

/// Holds the unterminated tail of the stream between chunks.
pub struct LineFramer {
    pending: Vec<u8>,
}

impl LineFramer {
    pub closed spec fn pending(&self) -> Seq<u8> {
        self.pending@
    }

    pub fn new() -> (r: LineFramer)
        ensures
            r.pending() == Seq::<u8>::empty(),
    {
        LineFramer { pending: Vec::new() }
    }

    /// Takes the next chunk of the stream (possibly empty) and returns the
    /// records it completes; a trailing fragment is kept for the next call.
    pub fn push_chunk(&mut self, chunk: &[u8]) -> (records: Vec<Vec<u8>>)
        ensures
            (final(self).pending(), records_view(records@)) == frame(old(self).pending(), chunk@),
    {
        let ghost start = self.pending@;
        let mut records: Vec<Vec<u8>> = Vec::new();
        let mut i: usize = 0;
        while i < chunk.len()
            invariant
                i <= chunk@.len(),
                (self.pending@, records_view(records@)) == frame(start, chunk@.take(i as int)),
            decreases chunk@.len() - i,
        {
            let b = chunk[i];
            proof {
                assert(chunk@.take(i as int + 1).drop_last() =~= chunk@.take(i as int));
            }
            if b == NEWLINE {
                let mut done: Vec<u8> = Vec::new();
                std::mem::swap(&mut done, &mut self.pending);
                records.push(done);
                proof {
                    assert(records_view(records@) =~= frame(start, chunk@.take(i as int)).1.push(done@));
                }
            } else {
                self.pending.push(b);
            }
            i = i + 1;
        }
        proof {
            assert(chunk@.take(i as int) =~= chunk@);
        }
        records
    }

    /// The unterminated fragment held now; it is dropped when the stream ends.
    pub fn pending_len(&self) -> (r: usize)
        ensures
            r == self.pending().len(),
    {
        self.pending.len()
    }
}

} // verus!
