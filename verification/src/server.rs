//! The dispatch loop of one connection: receive a request, have the service
//! handle it, send the response, and receive again.
//!
//! The library accepts no connection and calls no service. A `Session` is the
//! loop's bookkeeping: the caller does what each turn says and reports back
//! what came of it.

use vstd::prelude::*;

verus! {

/// Where a session is in its loop.
#[derive(Debug, PartialEq, Eq, Structural, Clone, Copy)]
pub enum SessionPhase {
    /// Waiting for what the receive brings.
    Receiving,
    /// A request is with the service.
    Handling,
    /// A response is being sent.
    Sending,
    /// The loop has ended.
    Closed,
}

/// What came of the last turn.
#[derive(Debug, PartialEq, Eq)]
pub enum SessionEvent {
    /// The receive returned this request.
    Request(Vec<u8>),
    /// The receive found the stream closed, with nothing left unread.
    PeerClosed,
    /// The receive failed.
    RecvFailed,
    /// The service returned this response.
    Response(Vec<u8>),
    /// The response went out.
    Sent,
    /// Sending the response failed.
    SendFailed,
}

/// What the caller does next.
#[derive(Debug, PartialEq, Eq)]
pub enum SessionTurn {
    /// Receive the next frame.
    Receive,
    /// Hand this request to the service.
    Handle(Vec<u8>),
    /// Send this response as one frame.
    Send(Vec<u8>),
    /// End the task of this connection. Other connections are not touched.
    Close,
}

/// A `SessionEvent` as a mathematical value.
pub enum SessionEventView {
    Request(Seq<u8>),
    PeerClosed,
    RecvFailed,
    Response(Seq<u8>),
    Sent,
    SendFailed,
}

/// A `SessionTurn` as a mathematical value.
pub enum SessionTurnView {
    Receive,
    Handle(Seq<u8>),
    Send(Seq<u8>),
    Close,
}

impl View for SessionEvent {
    type V = SessionEventView;

    open spec fn view(&self) -> SessionEventView {
        match self {
            SessionEvent::Request(frame) => SessionEventView::Request(frame@),
            SessionEvent::PeerClosed => SessionEventView::PeerClosed,
            SessionEvent::RecvFailed => SessionEventView::RecvFailed,
            SessionEvent::Response(frame) => SessionEventView::Response(frame@),
            SessionEvent::Sent => SessionEventView::Sent,
            SessionEvent::SendFailed => SessionEventView::SendFailed,
        }
    }
}

impl View for SessionTurn {
    type V = SessionTurnView;

    open spec fn view(&self) -> SessionTurnView {
        match self {
            SessionTurn::Receive => SessionTurnView::Receive,
            SessionTurn::Handle(frame) => SessionTurnView::Handle(frame@),
            SessionTurn::Send(frame) => SessionTurnView::Send(frame@),
            SessionTurn::Close => SessionTurnView::Close,
        }
    }
}

/// One step of the loop.
///
/// * While receiving: a request goes to the service; a closed stream or a
///   failed receive ends the session.
/// * While the service handles a request: its response is sent.
/// * While sending: once the response is out the next receive starts; a
///   failed send ends the session.
/// * An event that does not answer the last turn ends the session, and an
///   ended session stays ended.
pub open spec fn dispatch(phase: SessionPhase, event: SessionEventView) -> (
    SessionPhase,
    SessionTurnView,
) {
    match (phase, event) {
        (SessionPhase::Receiving, SessionEventView::Request(frame)) => (
            SessionPhase::Handling,
            SessionTurnView::Handle(frame),
        ),
        (SessionPhase::Handling, SessionEventView::Response(frame)) => (
            SessionPhase::Sending,
            SessionTurnView::Send(frame),
        ),
        (SessionPhase::Sending, SessionEventView::Sent) => (
            SessionPhase::Receiving,
            SessionTurnView::Receive,
        ),
        _ => (SessionPhase::Closed, SessionTurnView::Close),
    }
}

/// The phase of a session after a run of events.
pub open spec fn phase_after(phase: SessionPhase, events: Seq<SessionEventView>) -> SessionPhase
    decreases events.len(),
{
    if events.len() == 0 {
        phase
    } else {
        dispatch(phase_after(phase, events.drop_last()), events.last()).0
    }
}

/// The turns that a session takes over a run of events, one per event.
pub open spec fn turns(phase: SessionPhase, events: Seq<SessionEventView>) -> Seq<SessionTurnView>
    decreases events.len(),
{
    if events.len() == 0 {
        Seq::<SessionTurnView>::empty()
    } else {
        turns(phase, events.drop_last()).push(
            dispatch(phase_after(phase, events.drop_last()), events.last()).1,
        )
    }
}

/// The requests that went to the service among `run`, in order.
pub open spec fn handled(run: Seq<SessionTurnView>) -> Seq<Seq<u8>>
    decreases run.len(),
{
    if run.len() == 0 {
        Seq::<Seq<u8>>::empty()
    } else {
        match run.last() {
            SessionTurnView::Handle(frame) => handled(run.drop_last()).push(frame),
            _ => handled(run.drop_last()),
        }
    }
}

/// The responses that were sent among `run`, in order.
pub open spec fn sent(run: Seq<SessionTurnView>) -> Seq<Seq<u8>>
    decreases run.len(),
{
    if run.len() == 0 {
        Seq::<Seq<u8>>::empty()
    } else {
        match run.last() {
            SessionTurnView::Send(frame) => sent(run.drop_last()).push(frame),
            _ => sent(run.drop_last()),
        }
    }
}

/// The requests that the receives returned among `events`, in order.
pub open spec fn requests(events: Seq<SessionEventView>) -> Seq<Seq<u8>>
    decreases events.len(),
{
    if events.len() == 0 {
        Seq::<Seq<u8>>::empty()
    } else {
        match events.last() {
            SessionEventView::Request(frame) => requests(events.drop_last()).push(frame),
            _ => requests(events.drop_last()),
        }
    }
}

/// The responses that the service returned among `events`, in order.
pub open spec fn responses(events: Seq<SessionEventView>) -> Seq<Seq<u8>>
    decreases events.len(),
{
    if events.len() == 0 {
        Seq::<Seq<u8>>::empty()
    } else {
        match events.last() {
            SessionEventView::Response(frame) => responses(events.drop_last()).push(frame),
            _ => responses(events.drop_last()),
        }
    }
}

/// Half-duplex dispatch. Over any run of events on a new session:
///
/// * never more than one request is with the service or on its way back:
///   the requests handed over are as many as the responses sent, or one more;
/// * requests go to the service in the order in which they were received, and
///   responses go out in the order in which the service returned them, none
///   left out and none twice;
/// * until the session has ended, every request received has gone to the
///   service and every response returned has been sent.
pub proof fn lemma_half_duplex(events: Seq<SessionEventView>)
    ensures
        ({
            let run = turns(SessionPhase::Receiving, events);
            let phase = phase_after(SessionPhase::Receiving, events);
            &&& run.len() == events.len()
            &&& sent(run).len() <= handled(run).len() <= sent(run).len() + 1
            &&& handled(run).len() <= requests(events).len()
            &&& sent(run).len() <= responses(events).len()
            &&& handled(run) == requests(events).take(handled(run).len() as int)
            &&& sent(run) == responses(events).take(sent(run).len() as int)
            &&& phase != SessionPhase::Closed ==> handled(run) == requests(events) && sent(run)
                == responses(events)
            &&& phase == SessionPhase::Handling <==> handled(run).len() == sent(run).len() + 1
                && phase != SessionPhase::Closed
        }),
    decreases events.len(),
{
    let run = turns(SessionPhase::Receiving, events);
    if events.len() == 0 {
        assert(handled(run) =~= requests(events).take(0));
        assert(sent(run) =~= responses(events).take(0));
    } else {
        let before = events.drop_last();
        lemma_half_duplex(before);
        let ran = turns(SessionPhase::Receiving, before);
        assert(run.drop_last() =~= ran);
        let h = handled(ran);
        let t = sent(ran);
        assert(requests(events).take(h.len() as int) =~= requests(before).take(h.len() as int));
        assert(responses(events).take(t.len() as int) =~= responses(before).take(
            t.len() as int,
        ));
        assert(requests(events).take(requests(events).len() as int) =~= requests(events));
        assert(responses(events).take(responses(events).len() as int) =~= responses(events));
        assert(requests(before).take(requests(before).len() as int) =~= requests(before));
        assert(responses(before).take(responses(before).len() as int) =~= responses(before));
        assert(handled(run) =~= requests(events).take(handled(run).len() as int));
        assert(sent(run) =~= responses(events).take(sent(run).len() as int));
    }
}

/// The bookkeeping of one connection's loop.
#[derive(Debug)]
pub struct Session {
    phase: SessionPhase,
}

impl View for Session {
    type V = SessionPhase;

    closed spec fn view(&self) -> SessionPhase {
        self.phase
    }
}

impl Session {
    /// A session for a connection that was just accepted. Its first turn is a
    /// receive.
    pub fn new() -> (session: Self)
        ensures
            session@ == SessionPhase::Receiving,
    {
        Session { phase: SessionPhase::Receiving }
    }

    /// Where the session is.
    pub fn phase(&self) -> (phase: SessionPhase)
        ensures
            phase == self@,
    {
        self.phase
    }

    /// Takes what came of the last turn and says what to do next.
    pub fn step(&mut self, event: SessionEvent) -> (turn: SessionTurn)
        ensures
            (final(self)@, turn@) == dispatch(old(self)@, event@),
    {
        match self.phase {
            SessionPhase::Receiving => {
                if let SessionEvent::Request(frame) = event {
                    self.phase = SessionPhase::Handling;
                    return SessionTurn::Handle(frame);
                }
            },
            SessionPhase::Handling => {
                if let SessionEvent::Response(frame) = event {
                    self.phase = SessionPhase::Sending;
                    return SessionTurn::Send(frame);
                }
            },
            SessionPhase::Sending => {
                if let SessionEvent::Sent = event {
                    self.phase = SessionPhase::Receiving;
                    return SessionTurn::Receive;
                }
            },
            SessionPhase::Closed => {},
        }
        self.phase = SessionPhase::Closed;
        SessionTurn::Close
    }
}

} // verus!
