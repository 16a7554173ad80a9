//! What a receive returns over a whole run of reads: the laws that tie the
//! sender's bytes to the receiver's frames.

use super::frame::{be_bytes, be_u32, frame, lemma_be_bytes_read, lemma_frame_parts};
use super::receiver::{
    begin, feed, Phase, ReadEventView, ReceiverView, RecvError, RecvStepView, RETRY_LIMIT,
};
use vstd::prelude::*;

verus! {

/// The bytes that a run of read outcomes brings, in order.
pub open spec fn delivered(events: Seq<ReadEventView>) -> Seq<u8>
    decreases events.len(),
{
    if events.len() == 0 {
        Seq::<u8>::empty()
    } else {
        let rest = delivered(events.drop_first());
        match events[0] {
            ReadEventView::Bytes(bytes) => bytes + rest,
            _ => rest,
        }
    }
}

/// A read outcome that keeps a receive going: some bytes, or nothing ready.
pub open spec fn is_progress(event: ReadEventView) -> bool {
    match event {
        ReadEventView::Bytes(bytes) => bytes.len() > 0,
        ReadEventView::WouldBlock => true,
        ReadEventView::Failed => false,
    }
}

/// A receive that has asked for a read, carried on over the outcomes of the
/// reads that follow, as far as they go: it stops at the first step that is
/// not a request for a read.
pub open spec fn run(s: ReceiverView, events: Seq<ReadEventView>) -> (ReceiverView, RecvStepView)
    decreases events.len(),
{
    if events.len() == 0 {
        (s, RecvStepView::NeedRead)
    } else {
        let (next, step) = feed(s, events[0]);
        if step is NeedRead {
            run(next, events.drop_first())
        } else {
            (next, step)
        }
    }
}

/// One whole receive: opened on `s`, then carried on over `events`.
pub open spec fn recv_over(s: ReceiverView, events: Seq<ReadEventView>) -> (
    ReceiverView,
    RecvStepView,
) {
    let (opened, step) = begin(s);
    if step is NeedRead {
        run(opened, events)
    } else {
        (opened, step)
    }
}

/// The bytes of the stream that a receiver has taken in and not yet handed
/// out as a frame: a length that it has read, then its buffer.
pub open spec fn unframed(s: ReceiverView) -> Seq<u8> {
    match s.phase {
        Phase::AwaitingLength => s.buffer,
        Phase::AwaitingBody(len) => be_bytes(len) + s.buffer,
    }
}

/// No read before the last one completes the frame of `payload_len` bytes,
/// given that `held` bytes of it are there at the start.
pub open spec fn completes_at_last(
    held: nat,
    events: Seq<ReadEventView>,
    payload_len: nat,
) -> bool {
    forall|i: int|
        0 <= i < events.len() - 1 && events[i] is Bytes ==> held + (#[trigger] delivered(
            events.take(i + 1),
        )).len() < 4 + payload_len
}

/// One read that brings bytes delivers those bytes.
pub proof fn lemma_delivered_one(bytes: Seq<u8>)
    ensures
        delivered(seq![ReadEventView::Bytes(bytes)]) == bytes,
{
    let events = seq![ReadEventView::Bytes(bytes)];
    assert(events.drop_first() =~= Seq::<ReadEventView>::empty());
    assert(delivered(events.drop_first()) == Seq::<u8>::empty());
    assert(delivered(events) =~= bytes);
}

proof fn lemma_delivered_first(events: Seq<ReadEventView>, i: int)
    requires
        0 <= i < events.len(),
    ensures
        delivered(events.take(i + 1)) == (match events[0] {
            ReadEventView::Bytes(bytes) => bytes,
            _ => Seq::<u8>::empty(),
        }) + delivered(events.drop_first().take(i)),
{
    let head = events.take(i + 1);
    assert(head.drop_first() =~= events.drop_first().take(i));
    assert(head[0] == events[0]);
    match events[0] {
        ReadEventView::Bytes(bytes) => {},
        _ => {
            assert(Seq::<u8>::empty() + delivered(head.drop_first()) =~= delivered(
                head.drop_first(),
            ));
        },
    }
}

/// The induction behind `lemma_recv_delivers`, over a receive in progress.
proof fn lemma_run_delivers(
    s: ReceiverView,
    events: Seq<ReadEventView>,
    payload: Seq<u8>,
    rest: Seq<u8>,
)
    requires
        events.len() >= 1,
        1 <= s.attempts,
        s.attempts + events.len() <= RETRY_LIMIT + 2,
        forall|i: int| 0 <= i < events.len() ==> is_progress(#[trigger] events[i]),
        events.last() is Bytes,
        payload.len() <= u32::MAX,
        s.phase matches Phase::AwaitingBody(len) ==> len == payload.len() && s.buffer.len() < len,
        unframed(s) + delivered(events) == frame(payload) + rest,
        completes_at_last(unframed(s).len(), events, payload.len()),
    ensures
        run(s, events) == (
            ReceiverView {
                buffer: rest,
                phase: Phase::AwaitingLength,
                attempts: (s.attempts + events.len() - 1) as nat,
            },
            RecvStepView::Frame(payload),
        ),
    decreases events.len(),
{
    let whole = frame(payload) + rest;
    lemma_frame_parts(payload);
    lemma_be_bytes_read(payload.len() as u32);
    let tail = events.drop_first();
    assert(is_progress(events[0]));
    if events.len() == 1 {
        let bytes = events[0]->Bytes_0;
        assert(events =~= seq![ReadEventView::Bytes(bytes)]);
        lemma_delivered_one(bytes);
        let filled = s.buffer + bytes;
        match s.phase {
            Phase::AwaitingLength => {
                assert(filled == whole);
                assert(filled.subrange(0, 4) =~= frame(payload).subrange(0, 4));
                let body = filled.subrange(4, filled.len() as int);
                assert(body.subrange(0, payload.len() as int) =~= payload);
                assert(body.subrange(payload.len() as int, body.len() as int) =~= rest);
            },
            Phase::AwaitingBody(len) => {
                assert(be_bytes(len) + filled =~= whole);
                assert(filled =~= whole.subrange(4, whole.len() as int));
                assert(filled.subrange(0, payload.len() as int) =~= payload);
                assert(filled.subrange(payload.len() as int, filled.len() as int) =~= rest);
            },
        }
    } else {
        let (next, step) = feed(s, events[0]);
        lemma_delivered_first(events, 0);
        assert(events.drop_first().take(0) =~= Seq::<ReadEventView>::empty());
        assert(tail.last() == events.last());
        assert forall|i: int| 0 <= i < tail.len() implies is_progress(#[trigger] tail[i]) by {
            assert(tail[i] == events[i + 1]);
        }
        match events[0] {
            ReadEventView::Bytes(bytes) => {
                assert(delivered(events.take(1)) =~= bytes);
                assert(unframed(s).len() + bytes.len() < 4 + payload.len());
                let filled = s.buffer + bytes;
                assert(unframed(s) + delivered(events) =~= (unframed(s) + bytes) + delivered(
                    tail,
                ));
                match s.phase {
                    Phase::AwaitingLength => {
                        if filled.len() >= 4 {
                            assert(filled.subrange(0, 4) =~= whole.subrange(0, 4));
                            assert(whole.subrange(0, 4) =~= frame(payload).subrange(0, 4));
                            assert(be_bytes(payload.len() as u32) + filled.subrange(
                                4,
                                filled.len() as int,
                            ) =~= filled);
                        }
                    },
                    Phase::AwaitingBody(len) => {
                        assert(be_bytes(len) + filled =~= unframed(s) + bytes);
                    },
                }
                assert(step is NeedRead);
                assert(unframed(next) == unframed(s) + bytes);
            },
            _ => {
                assert(step is NeedRead);
                assert(unframed(next) == unframed(s));
            },
        }
        assert(completes_at_last(unframed(next).len(), tail, payload.len())) by {
            assert forall|i: int| 0 <= i < tail.len() - 1 && tail[i] is Bytes implies unframed(
                next,
            ).len() + (#[trigger] delivered(tail.take(i + 1))).len() < 4 + payload.len() by {
                lemma_delivered_first(events, i + 1);
                assert(events[i + 1] == tail[i]);
                assert(unframed(s).len() + delivered(events.take(i + 2)).len() < 4
                    + payload.len());
            }
        }
        lemma_run_delivers(next, tail, payload, rest);
    }
}

/// A receive returns the frame that the stream carries next, however the
/// stream is cut into reads.
///
/// The receiver starts with `start.buffer` left over; the reads bring bytes or
/// find nothing ready, at most `RETRY_LIMIT + 1` of them; what was left over
/// and what the reads bring is the frame of `payload` and then `rest`; and the
/// last read, no earlier one, brings the frame's last byte or comes after it.
/// Then the receive ends at the last read with `payload`, and `rest` stays
/// buffered. The cuts may fall anywhere, inside the length prefix too.
pub proof fn lemma_recv_delivers(
    start: ReceiverView,
    events: Seq<ReadEventView>,
    payload: Seq<u8>,
    rest: Seq<u8>,
)
    requires
        1 <= events.len() <= RETRY_LIMIT + 1,
        forall|i: int| 0 <= i < events.len() ==> is_progress(#[trigger] events[i]),
        events.last() is Bytes,
        payload.len() <= u32::MAX,
        start.buffer + delivered(events) == frame(payload) + rest,
        completes_at_last(start.buffer.len(), events, payload.len()),
    ensures
        recv_over(start, events) == (
            ReceiverView {
                buffer: rest,
                phase: Phase::AwaitingLength,
                attempts: events.len(),
            },
            RecvStepView::Frame(payload),
        ),
{
    let (opened, step) = begin(start);
    lemma_run_delivers(opened, events, payload, rest);
}

/// Round trip: the bytes that `send` makes of a payload, brought by one read
/// to a receiver with nothing buffered, come out of the receive as that
/// payload, and nothing stays buffered.
pub proof fn lemma_round_trip(start: ReceiverView, payload: Seq<u8>)
    requires
        start.buffer.len() == 0,
        payload.len() <= u32::MAX,
    ensures
        recv_over(start, seq![ReadEventView::Bytes(frame(payload))]) == (
            ReceiverView {
                buffer: Seq::<u8>::empty(),
                phase: Phase::AwaitingLength,
                attempts: 1,
            },
            RecvStepView::Frame(payload),
        ),
{
    let events = seq![ReadEventView::Bytes(frame(payload))];
    lemma_frame_parts(payload);
    lemma_delivered_one(frame(payload));
    assert(start.buffer + delivered(events) =~= frame(payload) + Seq::<u8>::empty());
    lemma_recv_delivers(start, events, payload, Seq::<u8>::empty());
}

/// Split arrival: a frame that reaches a receiver with nothing buffered in any
/// number of non-empty pieces, with reads that find nothing ready between
/// them, within the reads that one receive may make, comes out as its payload
/// at the read that brings its last byte.
pub proof fn lemma_split_arrival(
    start: ReceiverView,
    events: Seq<ReadEventView>,
    payload: Seq<u8>,
)
    requires
        start.buffer.len() == 0,
        1 <= events.len() <= RETRY_LIMIT + 1,
        forall|i: int| 0 <= i < events.len() ==> is_progress(#[trigger] events[i]),
        events.last() is Bytes,
        payload.len() <= u32::MAX,
        delivered(events) == frame(payload),
    ensures
        recv_over(start, events) == (
            ReceiverView {
                buffer: Seq::<u8>::empty(),
                phase: Phase::AwaitingLength,
                attempts: events.len(),
            },
            RecvStepView::Frame(payload),
        ),
{
    lemma_frame_parts(payload);
    assert(start.buffer + delivered(events) =~= frame(payload) + Seq::<u8>::empty());
    assert forall|i: int| 0 <= i < events.len() - 1 && events[i] is Bytes implies
        start.buffer.len() + (#[trigger] delivered(events.take(i + 1))).len() < 4
        + payload.len() by {
        lemma_delivered_split(events, i + 1);
        lemma_delivered_last_nonempty(events.skip(i + 1));
    }
    lemma_recv_delivers(start, events, payload, Seq::<u8>::empty());
}

/// The bytes of a run are those of its first `n` outcomes, then those of the
/// others.
pub proof fn lemma_delivered_split(events: Seq<ReadEventView>, n: int)
    requires
        0 <= n <= events.len(),
    ensures
        delivered(events) == delivered(events.take(n)) + delivered(events.skip(n)),
    decreases n,
{
    if n == 0 {
        assert(events.take(0) =~= Seq::<ReadEventView>::empty());
        assert(events.skip(0) =~= events);
        assert(delivered(events) =~= Seq::<u8>::empty() + delivered(events));
    } else {
        let tail = events.drop_first();
        lemma_delivered_split(tail, n - 1);
        assert(events.take(n).drop_first() =~= tail.take(n - 1));
        assert(events.skip(n) =~= tail.skip(n - 1));
        assert(events.take(n)[0] == events[0]);
        match events[0] {
            ReadEventView::Bytes(bytes) => {
                assert(bytes + (delivered(tail.take(n - 1)) + delivered(tail.skip(n - 1)))
                    =~= (bytes + delivered(tail.take(n - 1))) + delivered(tail.skip(n - 1)));
            },
            _ => {},
        }
    }
}

proof fn lemma_delivered_last_nonempty(events: Seq<ReadEventView>)
    requires
        events.len() >= 1,
        events.last() is Bytes,
        events.last()->Bytes_0.len() > 0,
    ensures
        delivered(events).len() > 0,
    decreases events.len(),
{
    if events.len() > 1 {
        let tail = events.drop_first();
        assert(tail.last() == events.last());
        lemma_delivered_last_nonempty(tail);
    } else {
        assert(events.drop_first() =~= Seq::<ReadEventView>::empty());
    }
}

/// Back-to-back frames: two frames that one read brings to a receiver with
/// nothing buffered come out of two receives in order. The first receive ends
/// at that read with the first payload and keeps the second frame buffered.
/// The second receive asks for a read before it looks at the buffer; as soon
/// as a read brings more bytes it ends with the second payload, and the new
/// bytes stay buffered.
pub proof fn lemma_back_to_back(
    start: ReceiverView,
    first: Seq<u8>,
    second: Seq<u8>,
    more: Seq<u8>,
)
    requires
        start.buffer.len() == 0,
        first.len() <= u32::MAX,
        second.len() <= u32::MAX,
        more.len() > 0,
    ensures
        ({
            let (between, one) = recv_over(
                start,
                seq![ReadEventView::Bytes(frame(first) + frame(second))],
            );
            let (after, two) = recv_over(between, seq![ReadEventView::Bytes(more)]);
            &&& one == RecvStepView::Frame(first)
            &&& between.buffer == frame(second)
            &&& two == RecvStepView::Frame(second)
            &&& after.buffer == more
        }),
{
    let both = seq![ReadEventView::Bytes(frame(first) + frame(second))];
    lemma_frame_parts(first);
    lemma_frame_parts(second);
    lemma_delivered_one(frame(first) + frame(second));
    assert(start.buffer + delivered(both) =~= frame(first) + frame(second));
    lemma_recv_delivers(start, both, first, frame(second));
    let (between, one) = recv_over(start, both);
    let next = seq![ReadEventView::Bytes(more)];
    lemma_delivered_one(more);
    lemma_recv_delivers(between, next, second, more);
}

/// A frame that is whole in the buffer when a receive opens does not come out
/// by itself: where the stream ends before another byte arrives, the receive
/// fails as malformed, the frame still buffered.
pub proof fn lemma_buffered_frame_waits(start: ReceiverView, payload: Seq<u8>)
    requires
        payload.len() <= u32::MAX,
        start.buffer == frame(payload),
    ensures
        begin(start).1 == RecvStepView::NeedRead,
        recv_over(start, seq![ReadEventView::Bytes(Seq::<u8>::empty())]).1
            == RecvStepView::Failed(RecvError::Malformed),
        recv_over(start, seq![ReadEventView::Bytes(Seq::<u8>::empty())]).0.buffer == frame(
            payload,
        ),
{
    lemma_frame_parts(payload);
}

/// A run of reads that all find nothing ready.
pub open spec fn idle_reads(count: nat) -> Seq<ReadEventView> {
    Seq::new(count, |i: int| ReadEventView::WouldBlock)
}

proof fn lemma_run_idle(s: ReceiverView, count: nat)
    requires
        s.phase is AwaitingLength,
        1 <= s.attempts <= RETRY_LIMIT + 1,
    ensures
        s.attempts + count <= RETRY_LIMIT + 1 ==> run(s, idle_reads(count)) == (
            ReceiverView { attempts: s.attempts + count, ..s },
            RecvStepView::NeedRead,
        ),
        s.attempts + count == RETRY_LIMIT + 2 ==> run(s, idle_reads(count)) == (
            ReceiverView { attempts: (RETRY_LIMIT + 1) as nat, ..s },
            RecvStepView::Failed(RecvError::Stalled),
        ),
    decreases count,
{
    if count > 0 {
        assert(idle_reads(count).drop_first() =~= idle_reads((count - 1) as nat));
        if s.attempts <= RETRY_LIMIT {
            lemma_run_idle(ReceiverView { attempts: s.attempts + 1, ..s }, (count - 1) as nat);
        }
    }
}

/// The retry bound: a receive asks for a read again after each of its first
/// `RETRY_LIMIT` reads that find nothing ready, and fails as stalled at the
/// next such read. The buffer is not touched.
pub proof fn lemma_stall(start: ReceiverView, count: nat)
    ensures
        count <= RETRY_LIMIT ==> recv_over(start, idle_reads(count)).1
            == RecvStepView::NeedRead,
        count == RETRY_LIMIT + 1 ==> recv_over(start, idle_reads(count)).1
            == RecvStepView::Failed(RecvError::Stalled),
        count <= RETRY_LIMIT + 1 ==> recv_over(start, idle_reads(count)).0.buffer
            == start.buffer,
{
    let (opened, step) = begin(start);
    lemma_run_idle(opened, count);
}

/// Clean close: where the stream ends while nothing is buffered, the receive
/// ends as closed; where it ends while bytes are buffered, the receive fails
/// as malformed. Either way the receiver keeps what it holds.
pub proof fn lemma_end_of_stream(s: ReceiverView)
    ensures
        s.buffer.len() == 0 ==> feed(s, ReadEventView::Bytes(Seq::<u8>::empty())) == (
            s,
            RecvStepView::Closed,
        ),
        s.buffer.len() > 0 ==> feed(s, ReadEventView::Bytes(Seq::<u8>::empty())) == (
            s,
            RecvStepView::Failed(RecvError::Malformed),
        ),
{
}

} // verus!
