//! A frame codec that keeps the HPACK state of a connection.

use super::frame::{
    encoded_block, frame_size_bound, frame_writable, header_len, header_stream_id,
    parse_frame_header, read_fails, read_result_view, spec_decode_headers, spec_frame_bytes,
    spec_read_frame, Frame, FrameView,
};
use crate::http::codec::{Codec, Decode, Encode};
use crate::wire::{buf_bytes, buf_contents, buf_put, buf_reserve, buf_split_to};
use crate::error::Error;
use crate::wire::{decoder_table, encoder_table, fresh_table, hpack_decoder_new, hpack_encoder_new};
use vstd::prelude::*;

verus! {

/// Frames to and from bytes, with one HPACK encoder for the frames sent and
/// one HPACK decoder for the frames received.
pub struct FrameCodec {
    hpack_encoder: hpack::Encoder<'static>,
    hpack_decoder: hpack::Decoder<'static>,
}

/// The state of a codec: the dynamic tables of its HPACK encoder and of its
/// HPACK decoder.
pub struct FrameCodecView {
    pub encoder_table: (Seq<(Seq<u8>, Seq<u8>)>, nat),
    pub decoder_table: (Seq<(Seq<u8>, Seq<u8>)>, nat),
}

impl View for FrameCodec {
    type V = FrameCodecView;

    closed spec fn view(&self) -> FrameCodecView {
        FrameCodecView {
            encoder_table: encoder_table(self.hpack_encoder),
            decoder_table: decoder_table(self.hpack_decoder),
        }
    }
}

/// The HEADERS frame at the front of `input`, and the bytes it takes, as a
/// decoder with dynamic table `table` reads its block.
pub open spec fn spec_read_headers(table: (Seq<(Seq<u8>, Seq<u8>)>, nat), input: Seq<u8>) -> Result<
    (FrameView, nat),
    Error,
> {
    let len = header_len(input) as nat;
    match spec_decode_headers(
        table,
        header_stream_id(input),
        input[4],
        input.subrange(9, 9 + len as int),
    ) {
        Ok(f) => Ok((f, 9 + len)),
        Err(e) => Err(e),
    }
}

/// A complete HEADERS frame is at the front of `input`.
pub open spec fn complete_headers(input: Seq<u8>) -> bool {
    input.len() >= 9 && input.len() >= 9 + header_len(input) && input[3] == 0x01
}

impl FrameCodec {
    /// A codec with empty HPACK tables.
    pub fn new() -> (c: FrameCodec)
        ensures
            c@ == (FrameCodecView { encoder_table: fresh_table(), decoder_table: fresh_table() }),
    {
        FrameCodec { hpack_encoder: hpack_encoder_new(), hpack_decoder: hpack_decoder_new() }
    }

    /// The frame at the front of `input` and the number of bytes it takes,
    /// as `Frame::read` reads it, except that the fields of a HEADERS frame
    /// are decoded with the codec's HPACK decoder, from its table as it was
    /// before the call, and kept. Only a HEADERS frame touches the decoder,
    /// and nothing touches the encoder.
    pub fn decode_frame(&mut self, input: &[u8]) -> (r: Result<(Frame, usize), Error>)
        requires
            !read_fails(input@),
        ensures
            !complete_headers(input@) ==> read_result_view(r) == spec_read_frame(input@)
                && final(self)@ == old(self)@,
            complete_headers(input@) ==> read_result_view(r) == spec_read_headers(
                old(self)@.decoder_table,
                input@,
            ),
            final(self)@.encoder_table == old(self)@.encoder_table,
    {
        proof {
            reveal(spec_read_frame);
        }
        if input.len() < 9 {
            return Err(Error::UnexpectedEof);
        }
        let mut header = [0u8; 9];
        let mut i: usize = 0;
        while i < 9
            invariant
                i <= 9,
                input@.len() >= 9,
                header@.len() == 9,
                forall|j: int| 0 <= j < i ==> header@[j] == input@[j],
            decreases 9 - i,
        {
            header[i] = input[i];
            i = i + 1;
        }
        assert(header@ =~= input@.subrange(0, 9));
        let len = (((header[0] as u32) << 16u32) | ((header[1] as u32) << 8u32) | (header[2] as u32))
            as usize;
        if input.len() - 9 < len {
            return Err(Error::UnexpectedEof);
        }
        let payload = &input[9..9 + len];
        assert(payload@ == input@.subrange(9, 9 + header_len(input@) as int));
        match Frame::decode(&header, payload, &mut self.hpack_decoder) {
            Ok(f) => Ok((f, 9 + len)),
            Err(e) => Err(e),
        }
    }

    /// The bytes of a frame, with the header block of a HEADERS frame encoded
    /// by the codec's HPACK encoder from its table as it was before the call.
    /// Only a HEADERS frame touches the encoder, and nothing touches the
    /// decoder.
    pub fn encode_frame(&mut self, frame: Frame) -> (b: Vec<u8>)
        requires
            frame_writable(frame@),
        ensures
            b@ == spec_frame_bytes(frame@, encoded_block(frame@, old(self)@.encoder_table)),
            b@.len() <= frame_size_bound(frame@),
            !(frame@ is Headers) ==> final(self)@ == old(self)@,
            final(self)@.decoder_table == old(self)@.decoder_table,
    {
        frame.encode(&mut self.hpack_encoder)
    }
}

impl Default for FrameCodec {
    fn default() -> (c: FrameCodec)
        ensures
            c@ == (FrameCodecView { encoder_table: fresh_table(), decoder_table: fresh_table() }),
    {
        FrameCodec::new()
    }
}

/// A whole frame is at the front of `input`: its nine header bytes and the
/// payload they announce.
pub open spec fn frame_complete(input: Seq<u8>) -> bool {
    input.len() >= 9 && input.len() >= 9 + header_len(input)
}

/// A decoded frame, if any, seen as plain values.
pub open spec fn next_frame_view(r: Result<Option<Frame>, Error>) -> Result<Option<FrameView>, Error> {
    match r {
        Ok(Some(f)) => Ok(Some(f@)),
        Ok(None) => Ok(None),
        Err(e) => Err(e),
    }
}

/// A frame read, without its length.
pub open spec fn frame_only(r: Result<(FrameView, nat), Error>) -> Result<Option<FrameView>, Error> {
    match r {
        Ok((f, _)) => Ok(Some(f)),
        Err(e) => Err(e),
    }
}

/// The frame that `spec_read_frame` reads, without its length.
pub open spec fn read_frame_only(input: Seq<u8>) -> Result<Option<FrameView>, Error> {
    frame_only(spec_read_frame(input))
}

impl Decode<Frame> for FrameCodec {
    open spec fn can_decode(&self, buffered: Seq<u8>) -> bool {
        !read_fails(buffered)
    }

    /// Takes the frame at the front of `stream` off it and decodes it as
    /// `decode_frame` does; a frame that does not decode is taken off too.
    /// `None` while the frame has not arrived in full, and then the buffer
    /// stays as it is.
    fn decode(&mut self, stream: &mut bytes::BytesMut) -> (r: Result<Option<Frame>, Error>)
        ensures
            !frame_complete(buf_contents(*old(stream))) ==> r == Ok::<Option<Frame>, Error>(None)
                && buf_contents(*final(stream)) == buf_contents(*old(stream)),
            frame_complete(buf_contents(*old(stream))) ==> buf_contents(*final(stream))
                == buf_contents(*old(stream)).skip(9 + header_len(buf_contents(*old(stream)))),
            frame_complete(buf_contents(*old(stream))) && !complete_headers(
                buf_contents(*old(stream)),
            ) ==> next_frame_view(r) == read_frame_only(buf_contents(*old(stream))),
            complete_headers(buf_contents(*old(stream))) ==> next_frame_view(r)
                == frame_only(spec_read_headers(old(self)@.decoder_table, buf_contents(*old(stream)))),
            !complete_headers(buf_contents(*old(stream))) ==> final(self)@ == old(self)@,
            final(self)@.encoder_table == old(self)@.encoder_table,
    {
        proof {
            reveal(spec_read_frame);
        }
        let bytes = buf_bytes(stream);
        if bytes.len() < 9 {
            return Ok(None);
        }
        let (len, _) = parse_frame_header(bytes);
        if bytes.len() - 9 < len {
            return Ok(None);
        }
        let r = self.decode_frame(bytes);
        let _ = buf_split_to(stream, 9 + len);
        match r {
            Ok((f, _)) => Ok(Some(f)),
            Err(e) => Err(e),
        }
    }
}

impl Encode<Frame> for FrameCodec {
    open spec fn can_encode(&self, item: Frame, buffered: Seq<u8>) -> bool {
        frame_writable(item@) && buffered.len() + frame_size_bound(item@) <= isize::MAX
    }

    /// Appends the bytes of `item`, with the header block of a HEADERS frame
    /// encoded by the codec's HPACK encoder as `encode_frame` does; never
    /// fails.
    fn encode(&mut self, item: Frame, stream: &mut bytes::BytesMut) -> (r: Result<(), Error>)
        ensures
            r is Ok,
            buf_contents(*final(stream)) == buf_contents(*old(stream)) + spec_frame_bytes(
                item@,
                encoded_block(item@, old(self)@.encoder_table),
            ),
            !(item@ is Headers) ==> final(self)@ == old(self)@,
            final(self)@.decoder_table == old(self)@.decoder_table,
    {
        let bytes = self.encode_frame(item);
        buf_reserve(stream, bytes.len());
        buf_put(stream, bytes.as_slice());
        Ok(())
    }
}

impl Codec<Frame> for FrameCodec {

}

} // verus!
