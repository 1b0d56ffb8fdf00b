//! Frame flags.

use vstd::prelude::*;

verus! {

/// DATA and HEADERS: the last frame the sender sends on the stream.
pub const END_STREAM: u8 = 0x01;

/// PING and SETTINGS: the frame acknowledges the peer's frame.
pub const ACK: u8 = 0x01;

/// HEADERS, CONTINUATION, PUSH_PROMISE: the header block is complete.
pub const END_HEADERS: u8 = 0x04;

/// DATA, HEADERS, PUSH_PROMISE: the payload is padded.
pub const PADDED: u8 = 0x08;

/// HEADERS: the frame carries priority information.
pub const PRIORITY: u8 = 0x20;

} // verus!
