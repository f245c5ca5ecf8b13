//! The session handler's protocol: one command line in, one framed batch
//! out, strictly in lock step. Command N is forwarded to the subprocess
//! before its batch is collected, and that batch is written before command
//! N+1 is read: there is no pipelining.
//!
//! A transport failure on the uplink, the peer closing it included, ends
//! the session; the acceptor then returns to polling for the next pair,
//! and the relay survives the disconnect.

use vstd::prelude::*;

use crate::aggregate::OutputEvent;
use crate::aggregate::collect_batches;
use crate::aggregate::spec_batches;
use crate::bytes::views_of;
use crate::framing::encode_batch;
use crate::framing::spec_encode;

verus! {

/// What one attempt to read a command line from the uplink yielded.
pub enum UplinkRead {
    /// A full line, its delimiter included.
    Line(Vec<u8>),
    /// The peer closed the connection: zero bytes were read.
    Closed,
    /// The read failed with an I/O error.
    Failed,
}

/// What the handler does next.
pub enum SessionAction {
    /// Write these bytes, exactly as read, to the subprocess input, then
    /// collect and frame one batch.
    Forward(Vec<u8>),
    /// Return control to the acceptor; the session is over.
    End,
}

/// The handler's decision on one uplink read: a line is forwarded verbatim,
/// delimiter included; a closed or failed uplink ends the session.
pub fn session_command_action(r: UplinkRead) -> (a: SessionAction)
    ensures
        (match r {
            UplinkRead::Line(l) => a == SessionAction::Forward(l),
            UplinkRead::Closed => a is End,
            UplinkRead::Failed => a is End,
        }),
{
    match r {
        UplinkRead::Line(l) => SessionAction::Forward(l),
        UplinkRead::Closed => SessionAction::End,
        UplinkRead::Failed => SessionAction::End,
    }
}

/// The downlink bytes for a sequence of batches: each one framed, in order.
pub open spec fn spec_downlink(batches: Seq<Seq<u8>>) -> Seq<u8>
    decreases batches.len(),
{
    if batches.len() == 0 {
        Seq::empty()
    } else {
        spec_downlink(batches.drop_last()) + spec_encode(batches.last())
    }
}

/// Everything one session writes to the downlink, given the output events
/// the collector saw: each quiet period closes one batch, and each batch
/// goes out as one frame, in the order the batches were closed.
pub fn session_downlink(events: &Vec<OutputEvent>) -> (r: Vec<u8>)
    ensures
        r@ == spec_downlink(spec_batches(events@)),
{
    let batches = collect_batches(events);
    let mut out: Vec<u8> = Vec::new();
    let mut i: usize = 0;
    while i < batches.len()
        invariant
            0 <= i <= batches@.len(),
            views_of(batches@) == spec_batches(events@),
            out@ == spec_downlink(views_of(batches@).take(i as int)),
        decreases batches@.len() - i,
    {
        let frame = encode_batch(batches[i].as_slice());
        out.extend_from_slice(frame.as_slice());
        proof {
            let vs = views_of(batches@);
            assert(vs.take(i + 1).drop_last() =~= vs.take(i as int));
            assert(vs.take(i + 1).last() == vs[i as int]);
        }
        i = i + 1;
    }
    proof {
        assert(views_of(batches@).take(batches@.len() as int) =~= views_of(batches@));
    }
    out
}

} // verus!
