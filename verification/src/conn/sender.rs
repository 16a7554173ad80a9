//! The sending side: turns a payload into the bytes of one frame.

use super::frame::{encode_len, frame};
use vstd::prelude::*;

verus! {

/// The sending half of a connection's codec. It keeps nothing between frames:
/// each frame is complete in the bytes that `send` returns.
#[derive(Debug)]
pub struct Sender {}

impl Sender {
    /// The sending half for a new connection.
    pub fn from() -> Self {
        Sender {}
    }

    /// The bytes to put on the wire for `data`: the length prefix, then the
    /// payload. The caller writes them as one run and flushes before the next
    /// `send`. A payload of more than `u32::MAX` bytes has no prefix, and so
    /// no frame.
    pub fn send(&mut self, data: &[u8]) -> (wire: Vec<u8>)
        requires
            data@.len() <= u32::MAX,
        ensures
            wire@ == frame(data@),
    {
        let header = encode_len(data.len() as u32);
        let mut wire: Vec<u8> = Vec::new();
        wire.push(header[0]);
        wire.push(header[1]);
        wire.push(header[2]);
        wire.push(header[3]);
        let ghost head = wire@;
        wire.extend_from_slice(data);
        assert(wire@ =~= head + data@);
        assert(head =~= header@);
        wire
    }

    /// `send` for a caller that has not checked the length: a payload that is
    /// too long for a frame gives `None`.
    pub fn try_send(&mut self, data: &[u8]) -> (wire: Option<Vec<u8>>)
        ensures
            match wire {
                Some(bytes) => data@.len() <= u32::MAX && bytes@ == frame(data@),
                None => data@.len() > u32::MAX,
            },
    {
        if data.len() <= u32::MAX as usize {
            Some(self.send(data))
        } else {
            None
        }
    }
}

} // verus!
