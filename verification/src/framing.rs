//! The wire framing for response batches on the downlink byte stream.
//!
//! A framed batch is the batch bytes followed by the fixed sentinel sequence
//! `\nEND_RESPONSE\n`. Nothing inside the batch is escaped: a batch that
//! itself contains the sentinel desynchronizes the stream on decode. That is
//! a known weakness of the protocol, kept as it is.

use vstd::prelude::*;

use crate::bytes::contains_seq;
use crate::bytes::contains_sequence;
use crate::bytes::match_at;
use crate::bytes::views_of;

verus! {

/// The sentinel that terminates each framed batch: `\nEND_RESPONSE\n`.
pub open spec fn spec_sentinel() -> Seq<u8> {
    seq![10u8, 69u8, 78u8, 68u8, 95u8, 82u8, 69u8, 83u8, 80u8, 79u8, 78u8, 83u8, 69u8, 10u8]
}

/// The sentinel as a byte vector.
pub fn sentinel_bytes() -> (r: Vec<u8>)
    ensures
        r@ == spec_sentinel(),
{
    let mut v: Vec<u8> = Vec::new();
    v.push(10u8);
    v.push(69u8);
    v.push(78u8);
    v.push(68u8);
    v.push(95u8);
    v.push(82u8);
    v.push(69u8);
    v.push(83u8);
    v.push(80u8);
    v.push(79u8);
    v.push(78u8);
    v.push(83u8);
    v.push(69u8);
    v.push(10u8);
    proof {
        assert(v@ =~= spec_sentinel());
    }
    v
}

/// A batch framed for the wire: the batch bytes, then the sentinel.
pub open spec fn spec_encode(batch: Seq<u8>) -> Seq<u8> {
    batch + spec_sentinel()
}

/// Frames one response batch for the downlink. The frame is emitted for
/// every batch, an empty one included: the empty batch goes on the wire as
/// the bare sentinel.
pub fn encode_batch(batch: &[u8]) -> (r: Vec<u8>)
    ensures
        r@ == spec_encode(batch@),
{
    let mut out: Vec<u8> = Vec::new();
    out.extend_from_slice(batch);
    let s = sentinel_bytes();
    out.extend_from_slice(s.as_slice());
    proof {
        assert(out@ =~= batch@ + spec_sentinel());
    }
    out
}

/// What decoding yields from a received buffer: when the buffer contains the
/// sentinel, everything but the sentinel's length trimmed from the end;
/// when the stream ended before a sentinel arrived, the whole buffer.
pub open spec fn spec_decode(buf: Seq<u8>) -> Seq<u8> {
    if contains_seq(buf, spec_sentinel()) {
        buf.take(buf.len() - spec_sentinel().len())
    } else {
        buf
    }
}

/// Recovers the batch from a received buffer, as `spec_decode` says.
pub fn decode_frame(buf: &[u8]) -> (r: Vec<u8>)
    ensures
        r@ == spec_decode(buf@),
{
    let s = sentinel_bytes();
    let mut out: Vec<u8> = Vec::new();
    out.extend_from_slice(buf);
    proof {
        assert(out@ =~= buf@);
    }
    if contains_sequence(buf, s.as_slice()) {
        proof {
            let i = choose|i: int| match_at(buf@, spec_sentinel(), i);
            assert(i + spec_sentinel().len() <= buf@.len());
        }
        out.truncate(buf.len() - s.len());
        proof {
            assert(out@ =~= buf@.take(buf@.len() - spec_sentinel().len()));
        }
    }
    out
}

/// Framing round trip: a batch that does not contain the sentinel is
/// returned exactly by encoding and then decoding.
pub proof fn lemma_frame_round_trip(batch: Seq<u8>)
    requires
        !contains_seq(batch, spec_sentinel()),
    ensures
        spec_decode(spec_encode(batch)) == batch,
{
    let framed = spec_encode(batch);
    assert(framed.subrange(batch.len() as int, batch.len() + spec_sentinel().len() as int)
        =~= spec_sentinel());
    assert(match_at(framed, spec_sentinel(), batch.len() as int));
    assert(framed.take(framed.len() - spec_sentinel().len()) =~= batch);
}

/// The buffer a chunked reader holds when it stops: chunks are appended one
/// at a time, and reading stops as soon as the buffer contains `needle`, or
/// when the chunks run out (the stream ended first).
pub open spec fn spec_read_until_from(buf: Seq<u8>, chunks: Seq<Seq<u8>>, needle: Seq<u8>) -> Seq<
    u8,
>
    decreases chunks.len(),
{
    if contains_seq(buf, needle) || chunks.len() == 0 {
        buf
    } else {
        spec_read_until_from(buf + chunks.first(), chunks.drop_first(), needle)
    }
}

/// `spec_read_until_from`, starting from an empty buffer.
pub open spec fn spec_read_until(chunks: Seq<Seq<u8>>, needle: Seq<u8>) -> Seq<u8> {
    spec_read_until_from(Seq::empty(), chunks, needle)
}

/// Reads chunks into a growing buffer until the buffer contains `sequence`
/// or the chunks are exhausted; returns the buffer as it then stands. The
/// chunks are the successive reads a byte stream yielded, in order.
pub fn read_until_sequence(chunks: &Vec<Vec<u8>>, sequence: &[u8]) -> (r: Vec<u8>)
    requires
        sequence@.len() > 0,
    ensures
        r@ == spec_read_until(views_of(chunks@), sequence@),
{
    let mut buffer: Vec<u8> = Vec::new();
    let mut i: usize = 0;
    proof {
        assert(views_of(chunks@).skip(0) =~= views_of(chunks@));
    }
    loop
        invariant
            sequence@.len() > 0,
            0 <= i <= chunks@.len(),
            spec_read_until_from(buffer@, views_of(chunks@).skip(i as int), sequence@)
                == spec_read_until(views_of(chunks@), sequence@),
        decreases chunks@.len() - i,
    {
        if contains_sequence(buffer.as_slice(), sequence) {
            return buffer;
        }
        if i == chunks.len() {
            proof {
                assert(views_of(chunks@).skip(i as int).len() == 0);
            }
            return buffer;
        }
        let chunk = &chunks[i];
        let ghost b0 = buffer@;
        buffer.extend_from_slice(chunk.as_slice());
        proof {
            let vs = views_of(chunks@);
            assert(vs.skip(i as int).first() == chunk@);
            assert(vs.skip(i as int).drop_first() =~= vs.skip(i as int + 1));
            assert(buffer@ == b0 + vs.skip(i as int).first());
            assert(spec_read_until_from(b0, vs.skip(i as int), sequence@)
                == spec_read_until_from(buffer@, vs.skip(i as int + 1), sequence@));
        }
        i = i + 1;
    }
}

/// One step of the streaming decoder: append a freshly read chunk to the
/// buffer and report whether the buffer now contains `sequence`, so that
/// the caller stops reading.
pub fn push_chunk(buffer: &mut Vec<u8>, chunk: &[u8], sequence: &[u8]) -> (done: bool)
    ensures
        final(buffer)@ == old(buffer)@ + chunk@,
        done == contains_seq(final(buffer)@, sequence@),
{
    buffer.extend_from_slice(chunk);
    contains_sequence(buffer.as_slice(), sequence)
}

} // verus!
