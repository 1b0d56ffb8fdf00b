//! HTTP/2 frames appended to a byte buffer.

use super::Encode;
use crate::error::Error;
use crate::http::v2::frame::{encoded_block, frame_size_bound, frame_writable, spec_frame_bytes, Frame};
use crate::wire::{buf_contents, buf_put, buf_reserve, fresh_table, hpack_encoder_new};
use vstd::prelude::*;

verus! {

/// Writes frames into a byte buffer; each HEADERS frame gets its header block
/// from an HPACK encoder of its own.
#[derive(Debug)]
pub struct FrameEncoder {}

impl Encode<Frame> for FrameEncoder {
    open spec fn can_encode(&self, item: Frame, buffered: Seq<u8>) -> bool {
        frame_writable(item@) && buffered.len() + frame_size_bound(item@) <= isize::MAX
    }

    /// Appends the bytes of `item`, the header block of a HEADERS frame
    /// encoded by a fresh HPACK encoder; never fails.
    fn encode(&mut self, item: Frame, stream: &mut bytes::BytesMut) -> (r: Result<(), Error>)
        ensures
            r is Ok,
            buf_contents(*final(stream)) == buf_contents(*old(stream)) + spec_frame_bytes(
                item@,
                encoded_block(item@, fresh_table()),
            ),
    {
        let mut encoder = hpack_encoder_new();
        let bytes = item.encode(&mut encoder);
        buf_reserve(stream, bytes.len());
        buf_put(stream, bytes.as_slice());
        Ok(())
    }
}

} // verus!
