//! Transport and storage primitives for a peer of a file-synchronisation
//! service, written without I/O: every function maps plain values to plain
//! values, and the program around the library performs the reads and writes
//! that the functions ask for.
//!
//! * [`conn`]: length-prefixed framing, as the bytes that a sender writes and
//!   the state machine by which a receiver rebuilds frames from a stream.
//! * [`server`]: the receive, handle, send loop of one connection.
//! * [`fs`]: the versioned chunk set, fingerprints, and the planning side of a
//!   file store rooted at one directory.
//! * [`watch`]: which paths of a file-system event are reported, and as what.

pub mod conn;
pub mod fs;
pub mod server;
pub mod watch;
