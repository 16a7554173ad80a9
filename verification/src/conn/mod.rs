//! Length-prefixed framing over a byte stream: the sender's encoding and the
//! receiver's state machine.

pub mod buffer;
pub mod delivery;
pub mod frame;
pub mod receiver;
pub mod sender;
