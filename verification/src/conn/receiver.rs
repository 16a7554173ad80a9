//! The receiving side: a state machine that rebuilds frames from the bytes
//! of a stream, however the stream cuts them into deliveries.
//!
//! The machine performs no read. `recv` opens one receive and says what to do
//! first; after each read the caller hands the outcome to `on_read`, which
//! says what to do next, until a frame, the end of the stream or an error
//! comes out. The spec functions `begin` and `feed` are that machine
//! on mathematical values; `recv` and `on_read` compute exactly them.

use super::buffer::{
    buffer_advance, buffer_extend, buffer_get_u32, buffer_len, buffer_prefix,
    buffer_with_capacity, buffered,
};
use super::frame::be_u32;
use vstd::prelude::*;

verus! {

/// The number of reads one receive may ask for beyond the first.
pub const RETRY_LIMIT: usize = 1000;

/// The room that a new receiver sets aside for its buffer.
pub const INITIAL_CAPACITY: usize = 1024;

/// Why a receive failed.
#[derive(Debug, PartialEq, Eq, Structural, Clone, Copy)]
pub enum RecvError {
    /// The receive used up its reads without completing a frame.
    Stalled,
    /// The stream ended while bytes were still buffered.
    Malformed,
    /// The read itself failed.
    Io,
}

/// Where the receiver is within a frame.
#[derive(Debug, PartialEq, Eq, Structural, Clone, Copy)]
pub enum Phase {
    /// No length has been read for the next frame.
    AwaitingLength,
    /// The length prefix has been read and removed; the body has this many
    /// bytes.
    AwaitingBody(u32),
}

/// What one non-blocking read came back with.
#[derive(Debug, PartialEq, Eq)]
pub enum ReadEvent {
    /// The bytes that were read. None at all means that the stream has ended.
    Bytes(Vec<u8>),
    /// Nothing was ready to be read.
    WouldBlock,
    /// The read failed for another reason.
    Failed,
}

/// What the caller does next.
#[derive(Debug, PartialEq, Eq)]
pub enum RecvStep {
    /// Wait until the stream is readable, read once without blocking, and hand
    /// the outcome to `on_read`.
    NeedRead,
    /// The receive is over: this is the next frame's payload.
    Frame(Vec<u8>),
    /// The receive is over: the stream ended with nothing left unread.
    Closed,
    /// The receive is over: it failed.
    Failed(RecvError),
}

/// A read outcome as a mathematical value.
pub enum ReadEventView {
    Bytes(Seq<u8>),
    WouldBlock,
    Failed,
}

/// A step as a mathematical value.
pub enum RecvStepView {
    NeedRead,
    Frame(Seq<u8>),
    Closed,
    Failed(RecvError),
}

impl View for ReadEvent {
    type V = ReadEventView;

    open spec fn view(&self) -> ReadEventView {
        match self {
            ReadEvent::Bytes(bytes) => ReadEventView::Bytes(bytes@),
            ReadEvent::WouldBlock => ReadEventView::WouldBlock,
            ReadEvent::Failed => ReadEventView::Failed,
        }
    }
}

impl View for RecvStep {
    type V = RecvStepView;

    open spec fn view(&self) -> RecvStepView {
        match self {
            RecvStep::NeedRead => RecvStepView::NeedRead,
            RecvStep::Frame(payload) => RecvStepView::Frame(payload@),
            RecvStep::Closed => RecvStepView::Closed,
            RecvStep::Failed(error) => RecvStepView::Failed(*error),
        }
    }
}

/// The receiver as a mathematical value.
pub struct ReceiverView {
    /// The bytes that were read and not yet handed out, oldest first. A length
    /// prefix that has been read is no longer among them.
    pub buffer: Seq<u8>,
    /// Where the receiver is within a frame.
    pub phase: Phase,
    /// The number of reads that the current receive has asked for.
    pub attempts: nat,
}

/// Takes the first `len` buffered bytes out as a frame.
pub open spec fn extract(s: ReceiverView, len: nat) -> (ReceiverView, RecvStepView)
    recommends
        len <= s.buffer.len(),
{
    (
        ReceiverView {
            buffer: s.buffer.subrange(len as int, s.buffer.len() as int),
            phase: Phase::AwaitingLength,
            attempts: s.attempts,
        },
        RecvStepView::Frame(s.buffer.subrange(0, len as int)),
    )
}

/// The head of each round of a receive: gives up once the reads are used up,
/// hands out a frame whose length is known and whose bytes are all there, and
/// otherwise asks for a read.
pub open spec fn poll(s: ReceiverView) -> (ReceiverView, RecvStepView) {
    if s.attempts > RETRY_LIMIT {
        (s, RecvStepView::Failed(RecvError::Stalled))
    } else {
        let counted = ReceiverView { attempts: s.attempts + 1, ..s };
        match s.phase {
            Phase::AwaitingBody(len) if s.buffer.len() >= len => extract(counted, len as nat),
            _ => (counted, RecvStepView::NeedRead),
        }
    }
}

/// Opens a receive: the bytes left over from earlier receives stay, no length
/// is known, and no read has been asked for yet.
pub open spec fn begin(s: ReceiverView) -> (ReceiverView, RecvStepView) {
    poll(ReceiverView { buffer: s.buffer, phase: Phase::AwaitingLength, attempts: 0 })
}

/// What a read outcome does to a receive.
///
/// * No bytes: the stream has ended. With an empty buffer that is a clean
///   close, with bytes in the buffer the stream is malformed. The receiver
///   stays as it is.
/// * Some bytes: they go behind the buffered ones. Where no length is known
///   and four bytes are there, they are read as the length and removed. Where
///   the length is known and the body is all there, it goes out as the frame,
///   and what lies behind it stays buffered. Otherwise the next round starts.
/// * Nothing ready: the next round starts.
/// * A failed read: the receive fails, and the receiver stays as it is.
pub open spec fn feed(s: ReceiverView, event: ReadEventView) -> (ReceiverView, RecvStepView) {
    match event {
        ReadEventView::Bytes(bytes) => {
            if bytes.len() == 0 {
                if s.buffer.len() == 0 {
                    (s, RecvStepView::Closed)
                } else {
                    (s, RecvStepView::Failed(RecvError::Malformed))
                }
            } else {
                let filled = ReceiverView { buffer: s.buffer + bytes, ..s };
                match filled.phase {
                    Phase::AwaitingLength => {
                        if filled.buffer.len() < 4 {
                            poll(filled)
                        } else {
                            let len = be_u32(filled.buffer.subrange(0, 4)) as u32;
                            feed_body(
                                ReceiverView {
                                    buffer: filled.buffer.subrange(4, filled.buffer.len() as int),
                                    phase: Phase::AwaitingBody(len),
                                    ..filled
                                },
                                len,
                            )
                        }
                    },
                    Phase::AwaitingBody(len) => feed_body(filled, len),
                }
            }
        },
        ReadEventView::WouldBlock => poll(s),
        ReadEventView::Failed => (s, RecvStepView::Failed(RecvError::Io)),
    }
}

/// The end of a round in which bytes came and the length is known.
pub open spec fn feed_body(s: ReceiverView, len: u32) -> (ReceiverView, RecvStepView) {
    if s.buffer.len() < len {
        poll(s)
    } else {
        extract(s, len as nat)
    }
}

/// Whether the receiver can take `count` more bytes into its buffer: the
/// buffer may not outgrow what one allocation can hold.
pub open spec fn has_room(s: ReceiverView, count: nat) -> bool {
    s.buffer.len() + count <= isize::MAX
}

/// The receiving half of a connection's codec.
pub struct Receiver {
    buffer: bytes::BytesMut,
    phase: Phase,
    attempts: usize,
}

impl View for Receiver {
    type V = ReceiverView;

    closed spec fn view(&self) -> ReceiverView {
        ReceiverView {
            buffer: buffered(self.buffer),
            phase: self.phase,
            attempts: self.attempts as nat,
        }
    }
}

impl Receiver {
    /// The receiving half for a new connection: nothing buffered.
    pub fn from() -> (receiver: Self)
        ensures
            receiver@ == (ReceiverView {
                buffer: Seq::<u8>::empty(),
                phase: Phase::AwaitingLength,
                attempts: 0,
            }),
    {
        Receiver {
            buffer: buffer_with_capacity(INITIAL_CAPACITY),
            phase: Phase::AwaitingLength,
            attempts: 0,
        }
    }

    /// The number of bytes that are buffered.
    pub fn buffered_len(&self) -> (n: usize)
        ensures
            n == self@.buffer.len(),
    {
        buffer_len(&self.buffer)
    }

    /// Opens a receive. Bytes left over from earlier receives stay buffered.
    /// The first step always asks for a read: a frame that is already whole in
    /// the buffer comes out only after the next bytes have arrived.
    pub fn recv(&mut self) -> (step: RecvStep)
        ensures
            (final(self)@, step@) == begin(old(self)@),
            step@ == RecvStepView::NeedRead,
    {
        self.phase = Phase::AwaitingLength;
        self.attempts = 0;
        self.poll()
    }

    /// Takes the outcome of the read that the last step asked for and says
    /// what to do next.
    pub fn on_read(&mut self, event: ReadEvent) -> (step: RecvStep)
        requires
            event@ matches ReadEventView::Bytes(bytes) ==> has_room(old(self)@, bytes.len()),
        ensures
            (final(self)@, step@) == feed(old(self)@, event@),
    {
        match event {
            ReadEvent::Bytes(bytes) => {
                if bytes.len() == 0 {
                    if buffer_len(&self.buffer) == 0 {
                        RecvStep::Closed
                    } else {
                        RecvStep::Failed(RecvError::Malformed)
                    }
                } else {
                    buffer_extend(&mut self.buffer, bytes.as_slice());
                    let len = match self.phase {
                        Phase::AwaitingLength => {
                            if buffer_len(&self.buffer) < 4 {
                                return self.poll();
                            }
                            let len = buffer_get_u32(&mut self.buffer);
                            self.phase = Phase::AwaitingBody(len);
                            len
                        },
                        Phase::AwaitingBody(len) => len,
                    };
                    if buffer_len(&self.buffer) < len as usize {
                        return self.poll();
                    }
                    self.extract_frame(len as usize)
                }
            },
            ReadEvent::WouldBlock => self.poll(),
            ReadEvent::Failed => RecvStep::Failed(RecvError::Io),
        }
    }

    /// `on_read` for a caller that has not checked the room: where the bytes
    /// do not fit, nothing is done and `None` comes back.
    pub fn try_on_read(&mut self, event: ReadEvent) -> (step: Option<RecvStep>)
        ensures
            match event@ {
                ReadEventView::Bytes(bytes) if !has_room(old(self)@, bytes.len()) => {
                    step is None && final(self)@ == old(self)@
                },
                _ => step is Some && (final(self)@, step->Some_0@) == feed(old(self)@, event@),
            },
    {
        let fits = match &event {
            ReadEvent::Bytes(bytes) => {
                let held = buffer_len(&self.buffer);
                held <= isize::MAX as usize && bytes.len() <= isize::MAX as usize - held
            },
            _ => true,
        };
        if fits {
            Some(self.on_read(event))
        } else {
            None
        }
    }

    fn poll(&mut self) -> (step: RecvStep)
        ensures
            (final(self)@, step@) == poll(old(self)@),
    {
        if self.attempts > RETRY_LIMIT {
            return RecvStep::Failed(RecvError::Stalled);
        }
        self.attempts = self.attempts + 1;
        match self.phase {
            Phase::AwaitingBody(len) => {
                if buffer_len(&self.buffer) >= len as usize {
                    return self.extract_frame(len as usize);
                }
            },
            Phase::AwaitingLength => {},
        }
        RecvStep::NeedRead
    }

    fn extract_frame(&mut self, len: usize) -> (step: RecvStep)
        requires
            len <= old(self)@.buffer.len(),
        ensures
            (final(self)@, step@) == extract(old(self)@, len as nat),
    {
        let payload = buffer_prefix(&self.buffer, len);
        buffer_advance(&mut self.buffer, len);
        self.phase = Phase::AwaitingLength;
        RecvStep::Frame(payload)
    }
}

} // verus!
