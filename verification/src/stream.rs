//! The standalone streaming consumer: it walks the chunked transfer
//! eagerly, hands each decoded chunk to a sink as it arrives, and stops
//! at the first failure. Unlike the per-element policy of the streamed
//! [`crate::client::Response`], any failure here ends consumption: a
//! transport failure stops the walk without failing the whole run,
//! while a decode failure fails it.

use vstd::prelude::*;
use vstd::utf8::decode_utf8;
use vstd::utf8::valid_utf8;

use crate::client::ChunkEvent;
use crate::client::ChunkEventView;

verus! {

/// What the consumer does with one transport item: hand the decoded
/// chunk to the sink, stop quietly after a transport failure, or fail
/// on a chunk that does not decode.
#[derive(Debug, PartialEq, Eq)]
pub enum StreamAction {
    Print(String),
    StopAfterTransport(String),
    FailDecode,
}

/// How consuming a whole transfer ended: all items consumed, stopped
/// early by a transport failure with its message, or failed on an
/// undecodable chunk.
#[derive(Debug, PartialEq, Eq)]
pub enum ConsumeEnd {
    Finished,
    TransportStopped(String),
    DecodeFailed,
}

/// The mathematical value of a [`ConsumeEnd`].
pub enum ConsumeEndView {
    Finished,
    TransportStopped(Seq<char>),
    DecodeFailed,
}

impl View for ConsumeEnd {
    type V = ConsumeEndView;

    open spec fn view(&self) -> ConsumeEndView {
        match self {
            ConsumeEnd::Finished => ConsumeEndView::Finished,
            ConsumeEnd::TransportStopped(m) => ConsumeEndView::TransportStopped(m@),
            ConsumeEnd::DecodeFailed => ConsumeEndView::DecodeFailed,
        }
    }
}

/// Everything observable the consumer did: the chunks handed to the
/// sink, in order, and how consumption ended.
#[derive(Debug)]
pub struct ConsumeLog {
    pub printed: Vec<String>,
    pub end: ConsumeEnd,
}

/// What the consumer decides for one transport item.
pub open spec fn step_ok(ev: ChunkEventView, a: StreamAction) -> bool {
    match ev {
        ChunkEventView::Bytes(b) => {
            if valid_utf8(b) {
                a matches StreamAction::Print(s) && s@ == decode_utf8(b)
            } else {
                a is FailDecode
            }
        },
        ChunkEventView::TransportFailed(m) => (a matches StreamAction::StopAfterTransport(mm)
            && mm@ == m),
    }
}

/// Decides what to do with one transport item, as [`step_ok`] states
/// it. The surrounding loop performs the action: it writes a printed
/// chunk to its sink and stops on either failure.
pub fn stream_step(event: &ChunkEvent) -> (a: StreamAction)
    ensures
        step_ok(event@, a),
{
    match event {
        ChunkEvent::Bytes(b) => {
            match crate::codec::decode_chunk(b) {
                Some(s) => StreamAction::Print(s),
                None => StreamAction::FailDecode,
            }
        },
        ChunkEvent::TransportFailed(m) => StreamAction::StopAfterTransport(m.clone()),
    }
}

/// What eager consumption of a whole transfer produces: the decoded
/// chunks before the first failing item, and how consumption ends at
/// that item — or `Finished` when no item fails.
pub open spec fn spec_consume(events: Seq<ChunkEventView>) -> (Seq<Seq<char>>, ConsumeEndView)
    decreases events.len(),
{
    if events.len() == 0 {
        (Seq::<Seq<char>>::empty(), ConsumeEndView::Finished)
    } else {
        match events[0] {
            ChunkEventView::TransportFailed(m) => (
                Seq::<Seq<char>>::empty(),
                ConsumeEndView::TransportStopped(m),
            ),
            ChunkEventView::Bytes(b) => {
                if valid_utf8(b) {
                    let rest = spec_consume(events.drop_first());
                    (seq![decode_utf8(b)] + rest.0, rest.1)
                } else {
                    (Seq::<Seq<char>>::empty(), ConsumeEndView::DecodeFailed)
                }
            },
        }
    }
}

/// Consumes a whole transfer eagerly, one [`stream_step`] decision per
/// item, stopping at the first failure.
pub fn consume_events(events: &Vec<ChunkEvent>) -> (log: ConsumeLog)
    ensures
        log.printed.deep_view() == spec_consume(events.deep_view()).0,
        log.end@ == spec_consume(events.deep_view()).1,
{
    let ghost full = events.deep_view();
    let n = events.len();
    let mut printed: Vec<String> = Vec::new();
    let mut i: usize = 0;
    proof {
        assert(full.skip(0) =~= full);
        assert(printed.deep_view() =~= Seq::<Seq<char>>::empty());
        assert(Seq::<Seq<char>>::empty() + spec_consume(full).0 =~= spec_consume(full).0);
    }
    while i < n
        invariant
            i <= n,
            n == events@.len(),
            full == events.deep_view(),
            spec_consume(full).0 == printed.deep_view() + spec_consume(full.skip(i as int)).0,
            spec_consume(full).1 == spec_consume(full.skip(i as int)).1,
        decreases n - i,
    {
        let ghost rest = full.skip(i as int);
        proof {
            assert(rest[0] == full[i as int]);
            assert(full[i as int] == events@[i as int]@);
            assert(rest.drop_first() =~= full.skip(i as int + 1));
        }
        match stream_step(&events[i]) {
            StreamAction::Print(s) => {
                let ghost printed_before = printed.deep_view();
                printed.push(s);
                proof {
                    assert(printed.deep_view() =~= printed_before + seq![s@]);
                    assert((printed_before + seq![s@]) + spec_consume(
                        full.skip(i as int + 1),
                    ).0 =~= printed_before + (seq![s@] + spec_consume(full.skip(i as int + 1)).0));
                }
                i = i + 1;
            },
            StreamAction::StopAfterTransport(m) => {
                proof {
                    assert(printed.deep_view() + Seq::<Seq<char>>::empty() =~= printed.deep_view());
                }
                return ConsumeLog { printed, end: ConsumeEnd::TransportStopped(m) };
            },
            StreamAction::FailDecode => {
                proof {
                    assert(printed.deep_view() + Seq::<Seq<char>>::empty() =~= printed.deep_view());
                }
                return ConsumeLog { printed, end: ConsumeEnd::DecodeFailed };
            },
        }
    }
    proof {
        assert(full.skip(n as int) =~= Seq::<ChunkEventView>::empty());
        assert(printed.deep_view() + Seq::<Seq<char>>::empty() =~= printed.deep_view());
    }
    ConsumeLog { printed, end: ConsumeEnd::Finished }
}

/// Law: when every item is a chunk of valid UTF-8, the consumer hands
/// every chunk decoded to the sink, in transport order, and finishes
/// without a failure.
pub proof fn lemma_consume_all_chunks_valid(events: Seq<ChunkEventView>)
    requires
        forall|i: int|
            0 <= i < events.len() ==> ((#[trigger] events[i]) matches ChunkEventView::Bytes(b)
                && valid_utf8(b)),
    ensures
        spec_consume(events).0.len() == events.len(),
        forall|i: int|
            0 <= i < events.len() ==> spec_consume(events).0[i] == decode_utf8(
                events[i]->Bytes_0,
            ),
        spec_consume(events).1 is Finished,
    decreases events.len(),
{
    if events.len() > 0 {
        let tail = events.drop_first();
        assert(forall|i: int| 0 <= i < tail.len() ==> #[trigger] tail[i] == events[i + 1]);
        lemma_consume_all_chunks_valid(tail);
    }
}

/// Law: consumption stops at the first failing item. Every chunk before
/// it is handed to the sink decoded; no later item contributes
/// anything; and the end records a transport stop or a decode failure
/// as that item requires.
pub proof fn lemma_consume_stops_at_first_failure(events: Seq<ChunkEventView>, i: int)
    requires
        0 <= i < events.len(),
        forall|j: int|
            0 <= j < i ==> ((#[trigger] events[j]) matches ChunkEventView::Bytes(b) && valid_utf8(
                b,
            )),
        events[i] matches ChunkEventView::Bytes(b) ==> !valid_utf8(b),
    ensures
        spec_consume(events).0.len() == i,
        forall|j: int|
            0 <= j < i ==> spec_consume(events).0[j] == decode_utf8(events[j]->Bytes_0),
        events[i] matches ChunkEventView::TransportFailed(m) ==> spec_consume(events).1
            == ConsumeEndView::TransportStopped(m),
        events[i] matches ChunkEventView::Bytes(b) ==> spec_consume(events).1 is DecodeFailed,
    decreases i,
{
    if i > 0 {
        let tail = events.drop_first();
        assert(forall|j: int| 0 <= j < tail.len() ==> #[trigger] tail[j] == events[j + 1]);
        lemma_consume_stops_at_first_failure(tail, i - 1);
    }
}

} // verus!
