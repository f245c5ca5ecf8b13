//! The output aggregator: turns the stream of subprocess output lines into
//! discrete response batches delimited by trailing silence.
//!
//! The two stream readers push lines onto one ordered queue without marking
//! their source. What the collector then sees is a sequence of events: a
//! line arrived within the quiet period, or the quiet period passed with
//! nothing arriving. The first quiet period ends the batch; lines are
//! concatenated verbatim, with no separator inserted between them.

use vstd::prelude::*;

use crate::bytes::concat_all;
use crate::bytes::views_of;

verus! {

/// What the batch collector observes on each wait on the line queue: one
/// more line arrived before the quiet period ran out, or it did run out.
pub enum OutputEvent {
    Line(Vec<u8>),
    Quiet,
}

/// The payload of a line event; the empty sequence for a quiet event.
pub open spec fn line_of(e: OutputEvent) -> Seq<u8> {
    match e {
        OutputEvent::Line(l) => l@,
        OutputEvent::Quiet => Seq::empty(),
    }
}

/// All events in the sequence are lines (none is a quiet period).
pub open spec fn all_lines(events: Seq<OutputEvent>) -> bool {
    forall|i: int| 0 <= i < events.len() ==> events[i] is Line
}

/// The payloads of a sequence of line events.
pub open spec fn lines_payload(events: Seq<OutputEvent>) -> Seq<Seq<u8>> {
    events.map_values(|e: OutputEvent| line_of(e))
}

/// The batches an event sequence produces, starting from accumulated bytes
/// `acc`: a line extends the accumulator, a quiet period emits it as one
/// batch and resets it. Bytes still accumulated when the events end have
/// seen no quiet period yet and form no batch.
pub open spec fn spec_batches_from(acc: Seq<u8>, events: Seq<OutputEvent>) -> Seq<Seq<u8>>
    decreases events.len(),
{
    if events.len() == 0 {
        Seq::empty()
    } else {
        match events.first() {
            OutputEvent::Line(l) => spec_batches_from(acc + l@, events.drop_first()),
            OutputEvent::Quiet => seq![acc] + spec_batches_from(
                Seq::empty(),
                events.drop_first(),
            ),
        }
    }
}

/// The batches an event sequence produces, from an empty accumulator.
pub open spec fn spec_batches(events: Seq<OutputEvent>) -> Seq<Seq<u8>> {
    spec_batches_from(Seq::empty(), events)
}

/// One collect-one-batch call, given the lines that arrived before the
/// first quiet period: the batch is their concatenation, verbatim, with no
/// separator between constituent lines.
pub fn collect_batch(lines: &Vec<Vec<u8>>) -> (r: Vec<u8>)
    ensures
        r@ == concat_all(views_of(lines@)),
{
    let mut acc: Vec<u8> = Vec::new();
    let mut i: usize = 0;
    while i < lines.len()
        invariant
            0 <= i <= lines@.len(),
            acc@ == concat_all(views_of(lines@).take(i as int)),
        decreases lines@.len() - i,
    {
        acc.extend_from_slice(lines[i].as_slice());
        proof {
            let vs = views_of(lines@);
            assert(vs.take(i + 1).drop_last() =~= vs.take(i as int));
            assert(vs.take(i + 1).last() == vs[i as int]);
        }
        i = i + 1;
    }
    proof {
        assert(views_of(lines@).take(lines@.len() as int) =~= views_of(lines@));
    }
    acc
}

/// Runs the collector over a whole event sequence: every quiet period closes
/// one batch, and bytes that no quiet period has closed yet are not emitted.
pub fn collect_batches(events: &Vec<OutputEvent>) -> (r: Vec<Vec<u8>>)
    ensures
        views_of(r@) == spec_batches(events@),
{
    let mut out: Vec<Vec<u8>> = Vec::new();
    let mut acc: Vec<u8> = Vec::new();
    let mut i: usize = 0;
    proof {
        assert(events@.skip(0) =~= events@);
        assert(views_of(out@) =~= Seq::<Seq<u8>>::empty());
        assert(Seq::<Seq<u8>>::empty() + spec_batches(events@) =~= spec_batches(events@));
    }
    while i < events.len()
        invariant
            0 <= i <= events@.len(),
            views_of(out@) + spec_batches_from(acc@, events@.skip(i as int)) == spec_batches(
                events@,
            ),
        decreases events@.len() - i,
    {
        proof {
            assert(events@.skip(i as int).first() == events@[i as int]);
            assert(events@.skip(i as int).drop_first() =~= events@.skip(i as int + 1));
        }
        let ghost acc0 = acc@;
        let ghost out0 = out@;
        match &events[i] {
            OutputEvent::Line(l) => {
                proof {
                    assert(events@[i as int] == OutputEvent::Line(*l));
                }
                acc.extend_from_slice(l.as_slice());
                proof {
                    let es = events@.skip(i as int);
                    assert(es.len() > 0);
                    assert(es.first() == OutputEvent::Line(*l));
                    assert(spec_batches_from(acc0, es) == spec_batches_from(
                        acc0 + (*l)@,
                        es.drop_first(),
                    ));
                    assert(acc@ == acc0 + (*l)@);
                    assert(es.drop_first() == events@.skip(i as int + 1));
                }
            },
            OutputEvent::Quiet => {
                out.push(acc);
                acc = Vec::new();
                proof {
                    assert(views_of(out@) =~= views_of(out0).push(acc0));
                    assert(spec_batches_from(acc0, events@.skip(i as int)) == seq![acc0]
                        + spec_batches_from(acc@, events@.skip(i as int + 1)));
                    assert(views_of(out0) + (seq![acc0] + spec_batches_from(
                        acc@,
                        events@.skip(i as int + 1),
                    )) =~= views_of(out@) + spec_batches_from(acc@, events@.skip(i as int + 1)));
                }
            },
        }
        i = i + 1;
    }
    proof {
        assert(events@.skip(i as int).len() == 0);
        assert(views_of(out@) + Seq::<Seq<u8>>::empty() =~= views_of(out@));
    }
    out
}

/// Running the collector over line events accumulates their concatenation:
/// events `lines ++ rest`, where `lines` are all line events, produce the
/// same batches as `rest` started with those payloads already accumulated.
pub proof fn lemma_lines_accumulate(
    acc: Seq<u8>,
    lines: Seq<OutputEvent>,
    rest: Seq<OutputEvent>,
)
    requires
        all_lines(lines),
    ensures
        spec_batches_from(acc, lines + rest) == spec_batches_from(
            acc + concat_all(lines_payload(lines)),
            rest,
        ),
    decreases lines.len(),
{
    if lines.len() == 0 {
        assert(lines + rest =~= rest);
        assert(lines_payload(lines) =~= Seq::<Seq<u8>>::empty());
        assert(acc + concat_all(lines_payload(lines)) =~= acc);
    } else {
        let e = lines.first();
        let tail = lines.drop_first();
        assert(lines[0] is Line);
        assert(lines =~= seq![e] + tail);
        assert((lines + rest).first() == e);
        assert((lines + rest).drop_first() =~= tail + rest);
        assert(forall|i: int| 0 <= i < tail.len() ==> tail[i] == lines[i + 1]);
        lemma_lines_accumulate(acc + line_of(e), tail, rest);
        assert(spec_batches_from(acc, lines + rest) == spec_batches_from(
            (acc + line_of(e)) + concat_all(lines_payload(tail)),
            rest,
        ));
        lemma_concat_all_cons_payload(e, tail);
        assert((acc + line_of(e)) + concat_all(lines_payload(tail)) =~= acc + (line_of(e)
            + concat_all(lines_payload(tail))));
    }
}

/// The payload concatenation of `[e] ++ tail` is `e`'s payload followed by
/// the payload concatenation of `tail`.
proof fn lemma_concat_all_cons_payload(e: OutputEvent, tail: Seq<OutputEvent>)
    ensures
        concat_all(lines_payload(seq![e] + tail)) == line_of(e) + concat_all(lines_payload(tail)),
{
    assert(lines_payload(seq![e] + tail) =~= seq![line_of(e)] + lines_payload(tail));
    crate::bytes::lemma_concat_all_cons(line_of(e), lines_payload(tail));
}

/// Batch boundary by silence: line events with no quiet period among them
/// all land, concatenated, in one batch; a quiet period between two groups
/// of line events splits them across two batches.
pub proof fn lemma_batch_boundary(first: Seq<OutputEvent>, second: Seq<OutputEvent>)
    requires
        all_lines(first),
        all_lines(second),
    ensures
        spec_batches(first + seq![OutputEvent::Quiet] + second + seq![OutputEvent::Quiet])
            == seq![
            concat_all(lines_payload(first)),
            concat_all(lines_payload(second)),
        ],
{
    let q = seq![OutputEvent::Quiet];
    let es = first + q + second + q;
    assert(es =~= first + (q + second + q));
    lemma_lines_accumulate(Seq::empty(), first, q + second + q);
    let c1 = Seq::<u8>::empty() + concat_all(lines_payload(first));
    assert(c1 =~= concat_all(lines_payload(first)));
    assert((q + second + q).first() == OutputEvent::Quiet);
    assert((q + second + q).drop_first() =~= second + q);
    assert(spec_batches_from(c1, q + second + q) == seq![c1] + spec_batches_from(
        Seq::empty(),
        second + q,
    ));
    lemma_lines_accumulate(Seq::empty(), second, q);
    let c2 = Seq::<u8>::empty() + concat_all(lines_payload(second));
    assert(c2 =~= concat_all(lines_payload(second)));
    assert(q.first() == OutputEvent::Quiet);
    assert(q.drop_first() =~= Seq::<OutputEvent>::empty());
    assert(spec_batches_from(c2, q) == seq![c2] + spec_batches_from(
        Seq::empty(),
        Seq::<OutputEvent>::empty(),
    ));
    assert(seq![c1] + (seq![c2] + Seq::<Seq<u8>>::empty()) =~= seq![
        concat_all(lines_payload(first)),
        concat_all(lines_payload(second)),
    ]);
}

} // verus!
