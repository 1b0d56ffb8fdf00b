//! HTTP/2 frames and their wire format.
//!
//! Every frame starts with a nine-byte header: the payload length (24 bits),
//! the frame type, the flags and the stream identifier (31 bits, the top bit
//! reserved), all big-endian.

use super::error::{spec_error_from, spec_error_value, Error as ErrorCode};
use super::flags;
use super::settings::{setting_bytes, spec_read_setting, Setting};
use crate::error::Error;
use crate::http::message::SerDe;
use crate::header_block::{header_block_safe, hpack_block_safe};
use crate::http::header::{spec_header_new, Header, HeaderView};
use crate::text::str_from_utf8;
use crate::wire::{
    append_bytes, be24, be32, bytes_to_vec, from_be16, from_be24, from_be32, hpack_decode,
    hpack_decoder_new, hpack_bound, hpack_encode, u32_from_be, u32_to_be, vec_put_u32, byte_pairs,
    decoder_table, encoder_table, fresh_table, hpack_decoded, hpack_encoded,
};
use vstd::prelude::*;
use vstd::utf8::{decode_utf8, encode_utf8, valid_utf8};

verus! {

// ---------------------------------------------------------------------------
// Frame types
// ---------------------------------------------------------------------------

/// The type of a frame.
#[derive(Debug, Clone, Copy, PartialEq, Eq, Structural)]
pub enum Type {
    Data,
    Headers,
    Priority,
    RstStream,
    Settings,
    PushPromise,
    Ping,
    GoAway,
    WindowUpdate,
    Continuation,
    Unknown(u8),
}

/// The type that a type byte names; bytes without a name are `Unknown`.
pub open spec fn spec_type_from(v: u8) -> Type {
    match v {
        0x00 => Type::Data,
        0x01 => Type::Headers,
        0x02 => Type::Priority,
        0x03 => Type::RstStream,
        0x04 => Type::Settings,
        0x05 => Type::PushPromise,
        0x06 => Type::Ping,
        0x07 => Type::GoAway,
        0x08 => Type::WindowUpdate,
        0x09 => Type::Continuation,
        _ => Type::Unknown(v),
    }
}

/// The type byte of each type.
pub open spec fn spec_type_value(t: Type) -> u8 {
    match t {
        Type::Data => 0x00,
        Type::Headers => 0x01,
        Type::Priority => 0x02,
        Type::RstStream => 0x03,
        Type::Settings => 0x04,
        Type::PushPromise => 0x05,
        Type::Ping => 0x06,
        Type::GoAway => 0x07,
        Type::WindowUpdate => 0x08,
        Type::Continuation => 0x09,
        Type::Unknown(v) => v,
    }
}

impl Type {
    /// The type that a type byte names.
    pub fn from_value(v: u8) -> (t: Type)
        ensures
            t == spec_type_from(v),
    {
        match v {
            0x00 => Type::Data,
            0x01 => Type::Headers,
            0x02 => Type::Priority,
            0x03 => Type::RstStream,
            0x04 => Type::Settings,
            0x05 => Type::PushPromise,
            0x06 => Type::Ping,
            0x07 => Type::GoAway,
            0x08 => Type::WindowUpdate,
            0x09 => Type::Continuation,
            _ => Type::Unknown(v),
        }
    }

    /// The type byte of the type.
    pub fn value(&self) -> (v: u8)
        ensures
            v == spec_type_value(*self),
    {
        match self {
            Type::Data => 0x00,
            Type::Headers => 0x01,
            Type::Priority => 0x02,
            Type::RstStream => 0x03,
            Type::Settings => 0x04,
            Type::PushPromise => 0x05,
            Type::Ping => 0x06,
            Type::GoAway => 0x07,
            Type::WindowUpdate => 0x08,
            Type::Continuation => 0x09,
            Type::Unknown(v) => *v,
        }
    }
}

impl From<u8> for Type {
    fn from(v: u8) -> (t: Type) {
        Type::from_value(v)
    }
}

impl vstd::std_specs::convert::FromSpecImpl<u8> for Type {
    open spec fn obeys_from_spec() -> bool {
        true
    }

    open spec fn from_spec(v: u8) -> Type {
        spec_type_from(v)
    }
}

impl From<Type> for u8 {
    fn from(t: Type) -> (v: u8) {
        t.value()
    }
}

impl vstd::std_specs::convert::FromSpecImpl<Type> for u8 {
    open spec fn obeys_from_spec() -> bool {
        true
    }

    open spec fn from_spec(t: Type) -> u8 {
        spec_type_value(t)
    }
}

/// A type byte turned into a type and back is the same byte.
pub proof fn lemma_type_value_roundtrip(v: u8)
    ensures
        spec_type_value(spec_type_from(v)) == v,
{
}

/// A type that is not an unnamed alias of a named byte survives the trip
/// through its byte.
pub proof fn lemma_type_roundtrip(t: Type)
    requires
        t matches Type::Unknown(v) ==> v > 0x09,
    ensures
        spec_type_from(spec_type_value(t)) == t,
{
}

// ---------------------------------------------------------------------------
// Frame header
// ---------------------------------------------------------------------------

/// The nine header bytes of a frame.
pub open spec fn frame_header(len: u32, frame_type: u8, flags: u8, stream_id: u32) -> Seq<u8> {
    be24(len) + seq![frame_type, flags] + be32(stream_id)
}

/// The payload length that a frame header announces.
pub open spec fn header_len(h: Seq<u8>) -> u32 {
    from_be24(h[0], h[1], h[2])
}

/// The stream identifier that a frame header names, reserved bit cleared.
pub open spec fn header_stream_id(h: Seq<u8>) -> u32 {
    from_be32(h[5] & 0x7fu8, h[6], h[7], h[8])
}

/// Appends a frame header to `b`.
fn push_frame_header(b: &mut Vec<u8>, len: u32, frame_type: u8, flags: u8, stream_id: u32)
    requires
        old(b)@.len() + 9 <= isize::MAX,
    ensures
        final(b)@ == old(b)@ + frame_header(len, frame_type, flags, stream_id),
{
    b.push((len >> 16u32) as u8);
    b.push((len >> 8u32) as u8);
    b.push(len as u8);
    b.push(frame_type);
    b.push(flags);
    b.push((stream_id >> 24u32) as u8);
    b.push((stream_id >> 16u32) as u8);
    b.push((stream_id >> 8u32) as u8);
    b.push(stream_id as u8);
    assert(b@ =~= old(b)@ + frame_header(len, frame_type, flags, stream_id));
}

// ---------------------------------------------------------------------------
// Frames
// ---------------------------------------------------------------------------

/// A decoded HTTP/2 frame.
#[derive(Debug)]
pub enum Frame {
    Data { stream_id: u32, flags: u8, data: Vec<u8> },
    Headers { stream_id: u32, flags: u8, items: Vec<Header> },
    RstStream { stream_id: u32, error_code: ErrorCode },
    Settings { ack: u8, items: Vec<Setting> },
    WindowUpdate { stream_id: u32, increment: u32 },
    Ping { ack: bool, opaque_data: Vec<u8> },
}

/// A frame seen as plain values.
pub enum FrameView {
    Data { stream_id: u32, flags: u8, data: Seq<u8> },
    Headers { stream_id: u32, flags: u8, items: Seq<HeaderView> },
    RstStream { stream_id: u32, error_code: ErrorCode },
    Settings { ack: u8, settings: Seq<Setting> },
    WindowUpdate { stream_id: u32, increment: u32 },
    Ping { ack: bool, opaque_data: Seq<u8> },
}

/// The views of a list of header fields.
pub open spec fn headers_view(items: Seq<Header>) -> Seq<HeaderView> {
    items.map_values(|h: Header| h@)
}

impl View for Frame {
    type V = FrameView;

    open spec fn view(&self) -> FrameView {
        match self {
            Frame::Data { stream_id, flags, data } => FrameView::Data {
                stream_id: *stream_id,
                flags: *flags,
                data: data@,
            },
            Frame::Headers { stream_id, flags, items } => FrameView::Headers {
                stream_id: *stream_id,
                flags: *flags,
                items: headers_view(items@),
            },
            Frame::RstStream { stream_id, error_code } => FrameView::RstStream {
                stream_id: *stream_id,
                error_code: *error_code,
            },
            Frame::Settings { ack, items } => FrameView::Settings { ack: *ack, settings: items@ },
            Frame::WindowUpdate { stream_id, increment } => FrameView::WindowUpdate {
                stream_id: *stream_id,
                increment: *increment,
            },
            Frame::Ping { ack, opaque_data } => FrameView::Ping {
                ack: *ack,
                opaque_data: opaque_data@,
            },
        }
    }
}

/// A frame result seen as plain values.
pub open spec fn frame_result_view(r: Result<Frame, Error>) -> Result<FrameView, Error> {
    match r {
        Ok(f) => Ok(f@),
        Err(e) => Err(e),
    }
}

/// The payload of a SETTINGS frame: the six bytes of each parameter.
pub open spec fn settings_payload(items: Seq<Setting>) -> Seq<u8>
    decreases items.len(),
{
    if items.len() == 0 {
        Seq::empty()
    } else {
        settings_payload(items.drop_last()) + setting_bytes(items.last())
    }
}

/// The bytes of a frame, where `block` is the header block that a HEADERS
/// frame carries (other frames ignore it).
pub open spec fn spec_frame_bytes(f: FrameView, block: Seq<u8>) -> Seq<u8> {
    match f {
        FrameView::Settings { ack, settings: items } => frame_header(
            ((items.len() as u32) * 6) as u32,
            0x04,
            ack,
            0,
        ) + settings_payload(items),
        FrameView::WindowUpdate { stream_id, increment } => frame_header(4, 0x08, 0, stream_id)
            + be32(increment),
        FrameView::Headers { stream_id, flags, items } => frame_header(
            block.len() as u32,
            0x01,
            flags,
            stream_id,
        ) + block,
        FrameView::Data { stream_id, flags, data } => frame_header(
            data.len() as u32,
            0x00,
            flags,
            stream_id,
        ) + data,
        FrameView::RstStream { stream_id, error_code } => frame_header(4, 0x03, 0, stream_id)
            + be32(spec_error_value(error_code)),
        FrameView::Ping { ack, opaque_data } => frame_header(
            opaque_data.len() as u32,
            0x06,
            if ack { 1 } else { 0 },
            0,
        ) + opaque_data,
    }
}

/// The most bytes that a frame takes once encoded: a HEADERS frame takes
/// the nine header bytes and at most `hpack_bound` bytes of header block.
pub open spec fn frame_size_bound(f: FrameView) -> nat {
    match f {
        FrameView::Headers { stream_id: _, flags: _, items } => 9 + hpack_bound(
            header_byte_pairs(items),
        ),
        _ => spec_frame_bytes(f, Seq::empty()).len(),
    }
}

/// Sizes that a frame must keep to be written: the SETTINGS length field
/// must not overflow, and the bytes must fit in memory.
pub open spec fn frame_writable(f: FrameView) -> bool {
    match f {
        FrameView::Settings { ack: _, settings: items } => (items.len() as u32) * 6 <= u32::MAX && items.len()
            * 6 + 9 <= isize::MAX,
        FrameView::Data { stream_id: _, flags: _, data } => data.len() + 9 <= isize::MAX,
        FrameView::Ping { ack: _, opaque_data } => opaque_data.len() + 9 <= isize::MAX,
        _ => true,
    }
}

/// The parameters read from the first `n` six-byte groups of a SETTINGS
/// payload; the first unknown identifier stops the reading.
pub open spec fn spec_read_settings(payload: Seq<u8>, n: nat) -> Result<Seq<Setting>, Error>
    decreases n,
{
    if n == 0 {
        Ok(Seq::empty())
    } else {
        match spec_read_settings(payload, (n - 1) as nat) {
            Ok(items) => match spec_read_setting(
                payload.subrange(6 * (n - 1), 6 * (n - 1) + 6),
            ) {
                Ok(s) => Ok(items.push(s)),
                Err(e) => Err(e),
            },
            Err(e) => Err(e),
        }
    }
}

/// The frame types that the library reads: DATA, HEADERS, RST_STREAM,
/// SETTINGS and WINDOW_UPDATE.
pub open spec fn supported_type(frame_type: u8) -> bool {
    frame_type == 0x00 || frame_type == 0x01 || frame_type == 0x03 || frame_type == 0x04
        || frame_type == 0x08
}

/// The payloads on which decoding a frame fails outright: an unsupported
/// type, a padded DATA frame whose pad length does not fit its announced
/// length `len` or the payload, an RST_STREAM payload shorter than four
/// bytes, or a HEADERS payload that the HPACK decoder cannot take (see
/// `hpack_block_safe`).
pub open spec fn decode_fails(frame_type: u8, flags: u8, len: nat, payload: Seq<u8>) -> bool {
    ||| !supported_type(frame_type)
    ||| (frame_type == 0x00 && flags & flags::PADDED != 0 && (payload.len() == 0 || payload[0]
        >= len || len - payload[0] > payload.len()))
    ||| (frame_type == 0x03 && payload.len() < 4)
    ||| (frame_type == 0x01 && !hpack_block_safe(payload))
}

/// A header block that a fresh HPACK decoder takes: an empty one, or one
/// that decodes against an empty table.
pub open spec fn fresh_decodes(block: Seq<u8>) -> bool {
    block.len() == 0 || hpack_decoded(fresh_table(), block) is Some
}

/// The frame that a payload holds, given the fields of its header; a HEADERS
/// frame is given with no header fields, where a fresh HPACK decoder takes
/// its block, and is `Error::InvalidHeaderBlock` where it does not.
pub open spec fn spec_decode(frame_type: u8, flags: u8, stream_id: u32, len: nat, payload: Seq<
    u8,
>) -> Result<FrameView, Error> {
    if frame_type == 0x00 {
        Ok(
            FrameView::Data {
                stream_id,
                flags,
                data: if flags & flags::PADDED == 0 {
                    payload
                } else {
                    payload.subrange(1, len - payload[0])
                },
            },
        )
    } else if frame_type == 0x01 {
        if fresh_decodes(payload) {
            Ok(FrameView::Headers { stream_id, flags, items: Seq::empty() })
        } else {
            Err(Error::InvalidHeaderBlock)
        }
    } else if frame_type == 0x03 {
        Ok(
            FrameView::RstStream {
                stream_id,
                error_code: spec_error_from(from_be32(payload[0], payload[1], payload[2], payload[3])),
            },
        )
    } else if frame_type == 0x04 {
        match spec_read_settings(payload, payload.len() / 6) {
            Ok(items) => Ok(FrameView::Settings { ack: flags, settings: items }),
            Err(e) => Err(e),
        }
    } else {
        if payload.len() == 4 {
            let increment = from_be32(payload[0], payload[1], payload[2], payload[3])
                & 0x7fff_ffffu32;
            if increment == 0 {
                Err(Error::ZeroWindowIncrement)
            } else {
                Ok(FrameView::WindowUpdate { stream_id, increment })
            }
        } else {
            Err(Error::WindowUpdateLength)
        }
    }
}

/// Reading a frame from the front of `input` fails outright: the whole
/// frame is there, and its payload is one on which decoding fails.
pub open spec fn read_fails(input: Seq<u8>) -> bool {
    input.len() >= 9 && input.len() >= 9 + header_len(input) && decode_fails(
        input[3],
        input[4],
        header_len(input) as nat,
        input.subrange(9, 9 + header_len(input)),
    )
}

/// The frame at the front of `input` and the number of bytes it takes; a
/// HEADERS frame is given with no header fields (see `spec_decode`).
#[verifier::opaque]
pub open spec fn spec_read_frame(input: Seq<u8>) -> Result<(FrameView, nat), Error> {
    if input.len() < 9 || input.len() < 9 + header_len(input) {
        Err(Error::UnexpectedEof)
    } else {
        let len = header_len(input) as nat;
        match spec_decode(
            input[3],
            input[4],
            header_stream_id(input),
            len,
            input.subrange(9, 9 + len as int),
        ) {
            Ok(f) => Ok((f, 9 + len)),
            Err(e) => Err(e),
        }
    }
}

/// The header fields that decoded (name, value) byte pairs denote, if every
/// name and value is valid UTF-8.
pub open spec fn spec_decoded_headers(decoded: Seq<(Seq<u8>, Seq<u8>)>) -> Option<Seq<HeaderView>>
    decreases decoded.len(),
{
    if decoded.len() == 0 {
        Some(Seq::empty())
    } else {
        match spec_decoded_headers(decoded.drop_last()) {
            Some(items) => {
                let (k, v) = decoded.last();
                if valid_utf8(k) && valid_utf8(v) {
                    Some(items.push(spec_header_new(decode_utf8(k), decode_utf8(v))))
                } else {
                    None
                }
            },
            None => None,
        }
    }
}

/// The (name, value) bytes of header fields.
pub open spec fn header_byte_pairs(hs: Seq<HeaderView>) -> Seq<(Seq<u8>, Seq<u8>)> {
    hs.map_values(|h: HeaderView| (encode_utf8(h.name), encode_utf8(h.value)))
}

/// The HEADERS frame that decoded header pairs make.
pub open spec fn spec_headers_frame(stream_id: u32, flags: u8, decoded: Seq<(Seq<u8>, Seq<u8>)>) -> Result<
    FrameView,
    Error,
> {
    match spec_decoded_headers(decoded) {
        Some(items) => Ok(FrameView::Headers { stream_id, flags, items }),
        None => Err(Error::InvalidUtf8),
    }
}

/// The HEADERS frame that a header block makes when an HPACK decoder with
/// dynamic table `table` reads it: `Error::InvalidHeaderBlock` where the
/// block does not decode.
pub open spec fn spec_decode_headers(
    table: (Seq<(Seq<u8>, Seq<u8>)>, nat),
    stream_id: u32,
    flags: u8,
    block: Seq<u8>,
) -> Result<FrameView, Error> {
    match hpack_decoded(table, block) {
        Some(d) => spec_headers_frame(stream_id, flags, d),
        None => Err(Error::InvalidHeaderBlock),
    }
}

/// The header block that `Frame::encode` writes for a frame, from an HPACK
/// encoder with dynamic table `table`: the encoded fields of a HEADERS frame,
/// and nothing for other frames.
pub open spec fn encoded_block(f: FrameView, table: (Seq<(Seq<u8>, Seq<u8>)>, nat)) -> Seq<u8> {
    match f {
        FrameView::Headers { stream_id: _, flags: _, items } => hpack_encoded(
            table,
            header_byte_pairs(items),
        ),
        _ => Seq::empty(),
    }
}

/// Once reading a SETTINGS payload fails, reading more of it fails alike.
proof fn lemma_read_settings_err(payload: Seq<u8>, i: nat, n: nat)
    requires
        i <= n,
        spec_read_settings(payload, i) is Err,
    ensures
        spec_read_settings(payload, n) == spec_read_settings(payload, i),
    decreases n - i,
{
    if i < n {
        lemma_read_settings_err(payload, i, (n - 1) as nat);
    }
}

/// Reads the parameters of a SETTINGS payload.
fn read_settings(payload: &[u8]) -> (r: Result<Vec<Setting>, Error>)
    ensures
        match (r, spec_read_settings(payload@, payload@.len() / 6)) {
            (Ok(items), Ok(s)) => items@ == s,
            (Err(e), Err(d)) => e == d,
            _ => false,
        },
{
    let plen = payload.len();
    let n = plen / 6;
    let mut items: Vec<Setting> = Vec::new();
    let mut i: usize = 0;
    while i < n
        invariant
            plen == payload@.len(),
            n == payload@.len() / 6,
            i <= n,
            spec_read_settings(payload@, i as nat) == Ok::<Seq<Setting>, Error>(items@),
        decreases n - i,
    {
        assert(6 * i + 6 <= plen) by (nonlinear_arith)
            requires
                i < n,
                n == plen / 6,
        ;
        let chunk = &payload[6 * i..6 * i + 6];
        assert(chunk@ == payload@.subrange(6 * i, 6 * i + 6));
        match Setting::from_bytes(chunk) {
            Ok(s) => {
                items.push(s);
            },
            Err(e) => {
                proof {
                    lemma_read_settings_err(payload@, (i + 1) as nat, n as nat);
                }
                return Err(e);
            },
        }
        i = i + 1;
    }
    Ok(items)
}

/// Decodes the payload of a frame of any type but HEADERS.
fn decode_payload(frame_type: u8, flags: u8, stream_id: u32, len: usize, payload: &[u8]) -> (r:
    Result<Frame, Error>)
    requires
        frame_type != 0x01,
        !decode_fails(frame_type, flags, len as nat, payload@),
    ensures
        frame_result_view(r) == spec_decode(frame_type, flags, stream_id, len as nat, payload@),
{
    if frame_type == 0x00 {
        let data = if flags & flags::PADDED == 0 {
            bytes_to_vec(payload)
        } else {
            let pad_length = payload[0] as usize;
            bytes_to_vec(&payload[1..len - pad_length])
        };
        Ok(Frame::Data { stream_id, flags, data })
    } else if frame_type == 0x03 {
        let code = u32_from_be(payload);
        Ok(Frame::RstStream { stream_id, error_code: ErrorCode::from_value(code) })
    } else if frame_type == 0x04 {
        match read_settings(payload) {
            Ok(items) => Ok(Frame::Settings { ack: flags, items }),
            Err(e) => Err(e),
        }
    } else {
        if payload.len() == 4 {
            let raw = u32_from_be(payload);
            let increment = raw & 0x7fff_ffffu32;
            if increment == 0 {
                return Err(Error::ZeroWindowIncrement);
            }
            Ok(Frame::WindowUpdate { stream_id, increment })
        } else {
            Err(Error::WindowUpdateLength)
        }
    }
}

/// The payload length and stream identifier of a frame header.
pub(crate) fn parse_frame_header(h: &[u8]) -> (r: (usize, u32))
    requires
        h@.len() >= 9,
    ensures
        r.0 == header_len(h@),
        r.1 == header_stream_id(h@),
{
    let len = (((h[0] as u32) << 16u32) | ((h[1] as u32) << 8u32) | (h[2] as u32)) as usize;
    let stream_id = (((h[5] & 0x7fu8) as u32) << 24u32) | ((h[6] as u32) << 16u32) | ((h[7] as u32)
        << 8u32) | (h[8] as u32);
    (len, stream_id)
}

/// A read result seen as plain values.
pub open spec fn read_result_view(r: Result<(Frame, usize), Error>) -> Result<(FrameView, nat), Error> {
    match r {
        Ok((f, n)) => Ok((f@, n as nat)),
        Err(e) => Err(e),
    }
}

/// Whether decoding fails outright on a payload.
fn check_decode(frame_type: u8, flags: u8, len: usize, payload: &[u8]) -> (r: bool)
    ensures
        r == !decode_fails(frame_type, flags, len as nat, payload@),
{
    if !(frame_type == 0x00 || frame_type == 0x01 || frame_type == 0x03 || frame_type == 0x04
        || frame_type == 0x08) {
        return false;
    }
    if frame_type == 0x00 && flags & flags::PADDED != 0 {
        if payload.len() == 0 {
            return false;
        }
        let pad = payload[0] as usize;
        if pad >= len || len - pad > payload.len() {
            return false;
        }
    }
    if frame_type == 0x01 && !header_block_safe(payload) {
        return false;
    }
    !(frame_type == 0x03 && payload.len() < 4)
}

impl Frame {
    /// Whether `Frame::read` accepts `input`: it does, but for a complete
    /// frame of an unsupported type, a padded DATA frame whose pad length is
    /// not below its payload length, an RST_STREAM frame with fewer than
    /// four payload bytes, or a HEADERS frame whose header block holds a
    /// size update that is cut short.
    pub fn can_read(input: &[u8]) -> (r: bool)
        ensures
            r == !read_fails(input@),
    {
        if input.len() < 9 {
            return true;
        }
        let (len, _) = parse_frame_header(input);
        if input.len() - 9 < len {
            return true;
        }
        check_decode(input[3], input[4], len, &input[9..9 + len])
    }

    /// Whether `Frame::decode` accepts a header and a payload.
    pub fn can_decode(header: &[u8; 9], payload: &[u8]) -> (r: bool)
        ensures
            r == !decode_fails(header@[3], header@[4], header_len(header@) as nat, payload@),
    {
        let (len, _) = parse_frame_header(header.as_slice());
        check_decode(header[3], header[4], len, payload)
    }

    /// The frame at the front of `input`, and the number of bytes it takes:
    /// the nine header bytes and the payload length they announce.
    /// `Error::UnexpectedEof` when `input` is shorter than that. The header
    /// block of a HEADERS frame is decoded with a fresh HPACK decoder and its
    /// fields dropped: the frame comes back without fields, or
    /// `Error::InvalidHeaderBlock` exactly when the block does not decode.
#[verifier::spinoff_prover]
    fn read_frame(input: &[u8]) -> (r: Result<(Frame, usize), Error>)
        requires
            !read_fails(input@),
        ensures
            read_result_view(r) == spec_read_frame(input@),
    {
        proof {
            reveal(spec_read_frame);
        }
        if input.len() < 9 {
            return Err(Error::UnexpectedEof);
        }
        let (len, stream_id) = parse_frame_header(input);
        if input.len() - 9 < len {
            return Err(Error::UnexpectedEof);
        }
        let frame_type = input[3];
        let flags = input[4];
        let payload = &input[9..9 + len];
        assert(payload@ == input@.subrange(9, 9 + header_len(input@) as int));
        if frame_type == 0x01 {
            let mut decoder = hpack_decoder_new();
            let decoded = hpack_decode(&mut decoder, payload);
            assert(fresh_decodes(payload@) == decoded is Some);
            match decoded {
                Some(_) => {
                    let items: Vec<Header> = Vec::new();
                    assert(headers_view(items@) =~= Seq::<HeaderView>::empty());
                    Ok((Frame::Headers { stream_id, flags, items }, 9 + len))
                },
                None => Err(Error::InvalidHeaderBlock),
            }
        } else {
            match decode_payload(frame_type, flags, stream_id, len, payload) {
                Ok(f) => Ok((f, 9 + len)),
                Err(e) => Err(e),
            }
        }
    }

    /// The frame that a header and a payload hold. The header block of a
    /// HEADERS frame is decoded with `decoder`, from its dynamic table as it
    /// was before the call, into fields made by `Header::new`:
    /// `Error::InvalidHeaderBlock` when the block does not decode,
    /// `Error::InvalidUtf8` when a decoded name or value is not text. Only a
    /// HEADERS frame touches `decoder`.
    pub fn decode(header: &[u8; 9], payload: &[u8], decoder: &mut hpack::Decoder<'static>) -> (r:
        Result<Frame, Error>)
        requires
            !decode_fails(header@[3], header@[4], header_len(header@) as nat, payload@),
        ensures
            header@[3] != 0x01 ==> frame_result_view(r) == spec_decode(
                header@[3],
                header@[4],
                header_stream_id(header@),
                header_len(header@) as nat,
                payload@,
            ),
            header@[3] != 0x01 ==> *final(decoder) == *old(decoder),
            header@[3] == 0x01 ==> frame_result_view(r) == spec_decode_headers(
                decoder_table(*old(decoder)),
                header_stream_id(header@),
                header@[4],
                payload@,
            ),
    {
        let (len, stream_id) = parse_frame_header(header.as_slice());
        let frame_type = header[3];
        let flags = header[4];
        if frame_type == 0x01 {
            let ghost table = decoder_table(*decoder);
            let block = hpack_decode(decoder, payload);
            assert(crate::wire::opt_byte_pairs(block) == hpack_decoded(table, payload@));
            match block {
                Some(decoded) => {
                    let ghost d = byte_pairs(decoded@);
                    let r = Frame::headers_from_block(stream_id, flags, decoded);
                    assert(frame_result_view(r) == spec_headers_frame(stream_id, flags, d));
                    r
                },
                None => Err(Error::InvalidHeaderBlock),
            }
        } else {
            decode_payload(frame_type, flags, stream_id, len, payload)
        }
    }

    /// The bytes of the frame, with an empty header block for a HEADERS
    /// frame.
    fn frame_bytes(&self) -> (b: Vec<u8>)
        requires
            frame_writable(self@),
        ensures
            b@ == spec_frame_bytes(self@, Seq::empty()),
    {
        self.write_with_block(Vec::new())
    }

    /// The bytes of the frame, with the header block of a HEADERS frame
    /// encoded by `encoder` from its dynamic table as it was before the call.
    /// Only a HEADERS frame touches `encoder`.
    pub fn encode(&self, encoder: &mut hpack::Encoder<'static>) -> (b: Vec<u8>)
        requires
            frame_writable(self@),
        ensures
            b@ == spec_frame_bytes(self@, encoded_block(self@, encoder_table(*old(encoder)))),
            b@.len() >= 9,
            b@.len() <= frame_size_bound(self@),
            !(self@ is Headers) ==> *final(encoder) == *old(encoder),
            (self@ matches FrameView::Headers { items, .. } && items.len() == 0) ==> b@.len() == 9,
    {
        let ghost table = encoder_table(*encoder);
        let block = match self {
            Frame::Headers { stream_id: _, flags: _, items } => {
                let pairs = header_pairs(items);
                hpack_encode(encoder, &pairs)
            },
            _ => Vec::new(),
        };
        assert(block@ == encoded_block(self@, table));
        proof {
            if let FrameView::Headers { items, .. } = self@ {
                assert(items.len() == 0 ==> block@.len() == 0);
            }
        }
        let b = self.write_with_block(block);
        proof {
            lemma_frame_bytes_skip(self@, block@);
        }
        b
    }

    /// The bytes of the frame, with `block` as the header block of a HEADERS
    /// frame.
    fn write_with_block(&self, block: Vec<u8>) -> (b: Vec<u8>)
        requires
            frame_writable(self@),
        ensures
            b@ == spec_frame_bytes(self@, block@),
    {
        let mut b: Vec<u8> = Vec::new();
        match self {
            Frame::Settings { ack, items } => {
                let len: u32 = (items.len() as u32) * 6;
                push_frame_header(&mut b, len, 0x04, *ack, 0);
                let mut i: usize = 0;
                while i < items.len()
                    invariant
                        i <= items@.len(),
                        items@.len() * 6 + 9 <= isize::MAX,
                        b@ == frame_header(len, 0x04, *ack, 0) + settings_payload(
                            items@.take(i as int),
                        ),
                        b@.len() == 9 + 6 * i,
                    decreases items@.len() - i,
                {
                    let bytes = items[i].to_bytes();
                    append_bytes(&mut b, bytes.as_slice());
                    assert(items@.take(i + 1).drop_last() =~= items@.take(i as int));
                    i = i + 1;
                }
                assert(items@.take(items@.len() as int) =~= items@);
            },
            Frame::WindowUpdate { stream_id, increment } => {
                push_frame_header(&mut b, 4, 0x08, 0, *stream_id);
                let v = u32_to_be(*increment);
                append_bytes(&mut b, v.as_slice());
            },
            Frame::Headers { stream_id, flags, items: _ } => {
                push_frame_header(&mut b, block.len() as u32, 0x01, *flags, *stream_id);
                append_bytes(&mut b, block.as_slice());
            },
            Frame::Data { stream_id, flags, data } => {
                push_frame_header(&mut b, data.len() as u32, 0x00, *flags, *stream_id);
                append_bytes(&mut b, data.as_slice());
            },
            Frame::RstStream { stream_id, error_code } => {
                push_frame_header(&mut b, 4, 0x03, 0, *stream_id);
                let v = u32_to_be(error_code.value());
                append_bytes(&mut b, v.as_slice());
            },
            Frame::Ping { ack, opaque_data } => {
                let flags: u8 = if *ack { 1 } else { 0 };
                push_frame_header(&mut b, opaque_data.len() as u32, 0x06, flags, 0);
                append_bytes(&mut b, opaque_data.as_slice());
            },
        }
        b
    }

    /// The HEADERS frame that decoded (name, value) byte pairs make; each
    /// field is made by `Header::new`. `Error::InvalidUtf8` when a name or a
    /// value is not valid UTF-8.
    pub fn headers_from_block(stream_id: u32, flags: u8, decoded: Vec<(Vec<u8>, Vec<u8>)>) -> (r:
        Result<Frame, Error>)
        ensures
            frame_result_view(r) == spec_headers_frame(stream_id, flags, byte_pairs(decoded@)),
    {
        let mut items: Vec<Header> = Vec::new();
        let mut i: usize = 0;
        while i < decoded.len()
            invariant
                i <= decoded@.len(),
                spec_decoded_headers(byte_pairs(decoded@).take(i as int)) == Some(
                    headers_view(items@),
                ),
            decreases decoded@.len() - i,
        {
            let ghost pv = byte_pairs(decoded@);
            assert(pv.take(i + 1).drop_last() =~= pv.take(i as int));
            let name = str_from_utf8(decoded[i].0.as_slice());
            let value = str_from_utf8(decoded[i].1.as_slice());
            match (name, value) {
                (Some(n), Some(v)) => {
                    let h = Header::new(n, v);
                    let ghost before = items@;
                    let ghost hv = h@;
                    items.push(h);
                    assert(headers_view(items@) =~= headers_view(before).push(hv));
                },
                _ => {
                    proof {
                        lemma_decoded_headers_none(pv, (i + 1) as nat, pv.len());
                        assert(pv.take(pv.len() as int) =~= pv);
                    }
                    return Err(Error::InvalidUtf8);
                },
            }
            i = i + 1;
        }
        proof {
            assert(byte_pairs(decoded@).take(decoded@.len() as int) =~= byte_pairs(decoded@));
        }
        Ok(Frame::Headers { stream_id, flags, items })
    }
}

/// The (name, value) bytes of header fields.
pub fn header_pairs(items: &Vec<Header>) -> (pairs: Vec<(Vec<u8>, Vec<u8>)>)
    ensures
        byte_pairs(pairs@) == header_byte_pairs(headers_view(items@)),
{
    let mut pairs: Vec<(Vec<u8>, Vec<u8>)> = Vec::new();
    let mut i: usize = 0;
    while i < items.len()
        invariant
            i <= items@.len(),
            byte_pairs(pairs@) == header_byte_pairs(headers_view(items@)).take(i as int),
        decreases items@.len() - i,
    {
        let name = bytes_to_vec(items[i].name().as_bytes());
        let value = bytes_to_vec(items[i].value().as_bytes());
        let ghost hv = headers_view(items@)[i as int];
        assert(name@ == encode_utf8(hv.name) && value@ == encode_utf8(hv.value));
        let ghost before = byte_pairs(pairs@);
        let ghost entry = (name@, value@);
        pairs.push((name, value));
        assert(byte_pairs(pairs@) =~= before.push(entry));
        assert(header_byte_pairs(headers_view(items@)).take(i + 1) =~= header_byte_pairs(
            headers_view(items@),
        ).take(i as int).push(entry));
        i = i + 1;
    }
    assert(header_byte_pairs(headers_view(items@)).take(items@.len() as int) =~= header_byte_pairs(headers_view(items@)));
    pairs
}

/// The header block of frame bytes starts after the nine header bytes.
proof fn lemma_frame_bytes_skip(f: FrameView, block: Seq<u8>)
    ensures
        spec_frame_bytes(f, block).len() >= 9,
        spec_frame_bytes(f, block) == spec_frame_bytes(f, spec_frame_bytes(f, block).skip(9)),
{
    let b = spec_frame_bytes(f, block);
    if f is Headers {
        assert(b.skip(9) =~= block);
    }
}

/// Once decoded pairs hold a field that is not UTF-8, longer prefixes do too.
proof fn lemma_decoded_headers_none(d: Seq<(Seq<u8>, Seq<u8>)>, i: nat, n: nat)
    requires
        i <= n <= d.len(),
        spec_decoded_headers(d.take(i as int)) is None,
    ensures
        spec_decoded_headers(d.take(n as int)) is None,
    decreases n - i,
{
    if i < n {
        lemma_decoded_headers_none(d, i, (n - 1) as nat);
        assert(d.take(n as int).drop_last() =~= d.take(n - 1));
    }
}


impl SerDe for Frame {
    open spec fn readable(input: Seq<u8>) -> bool {
        !read_fails(input)
    }

    open spec fn writable(&self) -> bool {
        frame_writable(self@)
    }

    /// The frame at the front of `input`, and the number of bytes it takes:
    /// the nine header bytes and the payload length they announce.
    /// `Error::UnexpectedEof` when `input` is shorter than that. The header
    /// block of a HEADERS frame is decoded with a fresh HPACK decoder and its
    /// fields dropped: the frame comes back without fields, or
    /// `Error::InvalidHeaderBlock` exactly when the block does not decode.
    fn read(input: &[u8]) -> (r: Result<(Frame, usize), Error>)
        ensures
            read_result_view(r) == spec_read_frame(input@),
    {
        Frame::read_frame(input)
    }

    /// Appends the bytes of the frame, with an empty header block for a
    /// HEADERS frame.
    fn write(&self, out: &mut Vec<u8>) -> (r: Result<(), Error>)
        ensures
            r is Ok,
            final(out)@ == old(out)@ + spec_frame_bytes(self@, Seq::empty()),
    {
        let b = self.frame_bytes();
        append_bytes(out, b.as_slice());
        Ok(())
    }
}

// ---------------------------------------------------------------------------
// Raw frames
// ---------------------------------------------------------------------------

/// A frame as its header fields and undecoded payload.
pub struct RawFrame {
    frame_type: Type,
    flags: u8,
    stream_id: u32,
    payload: Option<Vec<u8>>,
}

/// A raw frame seen as plain values.
pub struct RawFrameView {
    pub frame_type: Type,
    pub flags: u8,
    pub stream_id: u32,
    pub payload: Option<Seq<u8>>,
}

impl View for RawFrame {
    type V = RawFrameView;

    closed spec fn view(&self) -> RawFrameView {
        RawFrameView {
            frame_type: self.frame_type,
            flags: self.flags,
            stream_id: self.stream_id,
            payload: match self.payload {
                Some(p) => Some(p@),
                None => None,
            },
        }
    }
}

/// A raw read result seen as plain values.
pub open spec fn raw_result_view(r: Result<(RawFrame, usize), Error>) -> Result<(RawFrameView, nat), Error> {
    match r {
        Ok((f, n)) => Ok((f@, n as nat)),
        Err(e) => Err(e),
    }
}

/// The raw frame at the front of `input` and the number of bytes it takes;
/// an empty payload is no payload.
pub open spec fn spec_read_raw(input: Seq<u8>) -> Result<(RawFrameView, nat), Error> {
    if input.len() < 9 || input.len() < 9 + header_len(input) {
        Err(Error::UnexpectedEof)
    } else {
        let len = header_len(input) as nat;
        Ok(
            (
                RawFrameView {
                    frame_type: spec_type_from(input[3]),
                    flags: input[4],
                    stream_id: header_stream_id(input),
                    payload: if len > 0 {
                        Some(input.subrange(9, 9 + len as int))
                    } else {
                        None
                    },
                },
                9 + len,
            ),
        )
    }
}

impl RawFrame {
    /// An RST_STREAM frame for a stream, without payload.
    pub fn reset_stream(stream_id: u32) -> (f: RawFrame)
        ensures
            f@ == (RawFrameView { frame_type: Type::RstStream, flags: 0, stream_id, payload: None }),
    {
        RawFrame { frame_type: Type::RstStream, flags: 0, stream_id, payload: None }
    }

    /// A PING frame with its opaque data; the ACK flag when `ack`.
    pub fn ping(ack: bool, opaque_data: Vec<u8>) -> (f: RawFrame)
        ensures
            f@ == (RawFrameView {
                frame_type: Type::Ping,
                flags: if ack { flags::ACK } else { 0 },
                stream_id: 0,
                payload: Some(opaque_data@),
            }),
    {
        RawFrame {
            frame_type: Type::Ping,
            flags: if ack { 1 } else { 0 },
            stream_id: 0,
            payload: Some(opaque_data),
        }
    }

    /// A GOAWAY frame: the last stream identifier and the error code, then
    /// the debug data, if any. The frame names the last stream as its own.
    pub fn goaway(last_stream_id: u32, error_code: ErrorCode, additional_debug_data: Option<&[u8]>) -> (f: RawFrame)
        requires
            additional_debug_data matches Some(d) ==> d@.len() + 8 <= isize::MAX,
        ensures
            f@ == (RawFrameView {
                frame_type: Type::GoAway,
                flags: 0,
                stream_id: last_stream_id,
                payload: Some(be32(last_stream_id) + be32(spec_error_value(error_code)) + match additional_debug_data {
                    Some(d) => d@,
                    None => Seq::empty(),
                }),
            }),
    {
        let mut payload: Vec<u8> = Vec::new();
        vec_put_u32(&mut payload, last_stream_id);
        vec_put_u32(&mut payload, error_code.value());
        match additional_debug_data {
            Some(data) => {
                append_bytes(&mut payload, data);
            },
            None => {
                assert(payload@ =~= payload@ + Seq::<u8>::empty());
            },
        }
        RawFrame { frame_type: Type::GoAway, flags: 0, stream_id: last_stream_id, payload: Some(payload) }
    }

    /// A WINDOW_UPDATE frame: the increment is the payload.
    pub fn window_update(stream_id: u32, increment: u32) -> (f: RawFrame)
        ensures
            f@ == (RawFrameView {
                frame_type: Type::WindowUpdate,
                flags: 0,
                stream_id,
                payload: Some(be32(increment)),
            }),
    {
        let bytes = u32_to_be(increment);
        RawFrame {
            frame_type: Type::WindowUpdate,
            flags: 0,
            stream_id,
            payload: Some(bytes_to_vec(bytes.as_slice())),
        }
    }

    /// The raw frame at the front of `input` and the number of bytes it
    /// takes; `Error::UnexpectedEof` when `input` is shorter than that.
    fn read_raw(input: &[u8]) -> (r: Result<(RawFrame, usize), Error>)
        ensures
            raw_result_view(r) == spec_read_raw(input@),
    {
        if input.len() < 9 {
            return Err(Error::UnexpectedEof);
        }
        let (len, stream_id) = parse_frame_header(input);
        if input.len() - 9 < len {
            return Err(Error::UnexpectedEof);
        }
        let frame_type = Type::from_value(input[3]);
        let flags = input[4];
        let payload = if len > 0 {
            Some(bytes_to_vec(&input[9..9 + len]))
        } else {
            None
        };
        Ok((RawFrame { frame_type, flags, stream_id, payload }, 9 + len))
    }

    /// The type of the frame.
    pub fn frame_type(&self) -> (t: Type)
        ensures
            t == self@.frame_type,
    {
        self.frame_type
    }

    /// The flags of the frame.
    pub fn flags(&self) -> (f: u8)
        ensures
            f == self@.flags,
    {
        self.flags
    }

    /// The stream identifier of the frame.
    pub fn stream_id(&self) -> (id: u32)
        ensures
            id == self@.stream_id,
    {
        self.stream_id
    }

    /// The payload of the frame, if it has one.
    pub fn payload(&self) -> (p: Option<&[u8]>)
        ensures
            match (p, self@.payload) {
                (Some(a), Some(b)) => a@ == b,
                (None, None) => true,
                _ => false,
            },
    {
        match &self.payload {
            Some(v) => Some(v.as_slice()),
            None => None,
        }
    }
}

// ---------------------------------------------------------------------------
// Laws of the frame format
// ---------------------------------------------------------------------------

proof fn lemma_be24_roundtrip(len: u32)
    requires
        len < 0x100_0000,
    ensures
        from_be24(be24(len)[0], be24(len)[1], be24(len)[2]) == len,
{
    let b0 = (len >> 16u32) as u8;
    let b1 = (len >> 8u32) as u8;
    let b2 = len as u8;
    assert(((b0 as u32) << 16u32) | ((b1 as u32) << 8u32) | (b2 as u32) == len) by (bit_vector)
        requires
            len < 0x100_0000,
            b0 == (len >> 16u32) as u8,
            b1 == (len >> 8u32) as u8,
            b2 == len as u8,
    ;
}

proof fn lemma_from_be24_roundtrip(b0: u8, b1: u8, b2: u8)
    ensures
        be24(from_be24(b0, b1, b2)) == seq![b0, b1, b2],
        from_be24(b0, b1, b2) < 0x100_0000,
{
    let v = from_be24(b0, b1, b2);
    assert((v >> 16u32) as u8 == b0 && (v >> 8u32) as u8 == b1 && v as u8 == b2 && v
        < 0x100_0000) by (bit_vector)
        requires
            v == ((b0 as u32) << 16u32) | ((b1 as u32) << 8u32) | (b2 as u32),
    ;
    assert(be24(v) =~= seq![b0, b1, b2]);
}

proof fn lemma_masked_roundtrip(v: u32)
    requires
        v <= 0x7fff_ffff,
    ensures
        from_be32(be32(v)[0] & 0x7fu8, be32(v)[1], be32(v)[2], be32(v)[3]) == v,
        from_be32(be32(v)[0], be32(v)[1], be32(v)[2], be32(v)[3]) & 0x7fff_ffffu32 == v,
{
    let b0 = (v >> 24u32) as u8;
    let b1 = (v >> 16u32) as u8;
    let b2 = (v >> 8u32) as u8;
    let b3 = v as u8;
    assert(((((b0 & 0x7fu8) as u32) << 24u32) | ((b1 as u32) << 16u32) | ((b2 as u32) << 8u32) | (
    b3 as u32)) == v && ((((b0 as u32) << 24u32) | ((b1 as u32) << 16u32) | ((b2 as u32) << 8u32)
        | (b3 as u32)) & 0x7fff_ffffu32) == v) by (bit_vector)
        requires
            v <= 0x7fff_ffff,
            b0 == (v >> 24u32) as u8,
            b1 == (v >> 16u32) as u8,
            b2 == (v >> 8u32) as u8,
            b3 == v as u8,
    ;
}

proof fn lemma_from_masked_roundtrip(b0: u8, b1: u8, b2: u8, b3: u8)
    requires
        b0 & 0x80u8 == 0,
    ensures
        be32(from_be32(b0 & 0x7fu8, b1, b2, b3)) == seq![b0, b1, b2, b3],
        be32(from_be32(b0, b1, b2, b3) & 0x7fff_ffffu32) == seq![b0, b1, b2, b3],
{
    let v = from_be32(b0 & 0x7fu8, b1, b2, b3);
    let w = from_be32(b0, b1, b2, b3) & 0x7fff_ffffu32;
    assert((v >> 24u32) as u8 == b0 && (v >> 16u32) as u8 == b1 && (v >> 8u32) as u8 == b2 && v
        as u8 == b3 && w == v) by (bit_vector)
        requires
            b0 & 0x80u8 == 0,
            v == ((((b0 & 0x7fu8) as u32) << 24u32) | ((b1 as u32) << 16u32) | ((b2 as u32)
                << 8u32) | (b3 as u32)),
            w == ((((b0 as u32) << 24u32) | ((b1 as u32) << 16u32) | ((b2 as u32) << 8u32) | (
            b3 as u32)) & 0x7fff_ffffu32),
    ;
    assert(be32(v) =~= seq![b0, b1, b2, b3]);
}

/// The header fields read from the bytes of a frame header.
/// The header fields read from the bytes of a frame header.
proof fn lemma_header_read(len: u32, frame_type: u8, flags: u8, stream_id: u32, rest: Seq<u8>)
    requires
        len < 0x100_0000,
        stream_id <= 0x7fff_ffff,
    ensures
        ({
            let b = frame_header(len, frame_type, flags, stream_id) + rest;
            &&& b.len() == 9 + rest.len()
            &&& header_len(b) == len
            &&& b[3] == frame_type
            &&& b[4] == flags
            &&& header_stream_id(b) == stream_id
            &&& b.subrange(9, b.len() as int) == rest
        }),
{
    let h = frame_header(len, frame_type, flags, stream_id);
    lemma_be24_roundtrip(len);
    lemma_masked_roundtrip(stream_id);
    let l = be24(len);
    let s = be32(stream_id);
    assert(h =~= seq![l[0], l[1], l[2], frame_type, flags, s[0], s[1], s[2], s[3]]);
    let b = h + rest;
    assert(b[0] == l[0] && b[1] == l[1] && b[2] == l[2]);
    assert(b[3] == frame_type && b[4] == flags);
    assert(b[5] == s[0] && b[6] == s[1] && b[7] == s[2] && b[8] == s[3]);
    assert(b.subrange(9, b.len() as int) =~= rest);
}

/// The parameters of a SETTINGS payload are read back from it.
proof fn lemma_settings_payload_read(items: Seq<Setting>, rest: Seq<u8>)
    ensures
        settings_payload(items).len() == 6 * items.len(),
        spec_read_settings(settings_payload(items) + rest, items.len()) == Ok::<
            Seq<Setting>,
            Error,
        >(items),
    decreases items.len(),
{
    if items.len() > 0 {
        let last = items.last();
        let p = settings_payload(items.drop_last());
        lemma_settings_payload_read(items.drop_last(), setting_bytes(last) + rest);
        assert(settings_payload(items) + rest =~= p + (setting_bytes(last) + rest));
        let full = settings_payload(items) + rest;
        let n = items.len();
        assert(p.len() == 6 * (n - 1));
        assert(spec_read_settings(full, (n - 1) as nat) == Ok::<Seq<Setting>, Error>(
            items.drop_last(),
        ));
        assert(full.subrange(6 * (n - 1), 6 * (n - 1) + 6) =~= setting_bytes(last));
        super::settings::lemma_setting_roundtrip(last);
        assert(items.drop_last().push(last) =~= items);
        assert(spec_read_settings(full, n) == Ok::<Seq<Setting>, Error>(items));
    } else {
        assert(items =~= Seq::<Setting>::empty());
    }
}

/// A SETTINGS payload read into parameters is written back as the same
/// bytes, provided its length is a multiple of six and every `EnablePush`
/// value is 0 or 1.
proof fn lemma_settings_payload_write(payload: Seq<u8>, n: nat)
    requires
        6 * n <= payload.len(),
        spec_read_settings(payload, n) is Ok,
        forall|k: int|
            0 <= k < n ==> (#[trigger] from_be16(payload[6 * k], payload[6 * k + 1]) == 0x02
                ==> from_be32(
                payload[6 * k + 2],
                payload[6 * k + 3],
                payload[6 * k + 4],
                payload[6 * k + 5],
            ) <= 1),
    ensures
        settings_payload(spec_read_settings(payload, n)->Ok_0) == payload.subrange(0, 6 * n as int),
        spec_read_settings(payload, n)->Ok_0.len() == n,
    decreases n,
{
    if n == 0 {
        assert(payload.subrange(0, 0) =~= Seq::<u8>::empty());
        assert(spec_read_settings(payload, n)->Ok_0 =~= Seq::<Setting>::empty());
    } else {
        let m: int = n - 1;
        lemma_settings_payload_write(payload, m as nat);
        let chunk = payload.subrange(6 * m, 6 * m + 6);
        assert(chunk[0] == payload[6 * m] && chunk[1] == payload[6 * m + 1]);
        assert(chunk[2] == payload[6 * m + 2] && chunk[3] == payload[6 * m + 3]);
        assert(chunk[4] == payload[6 * m + 4] && chunk[5] == payload[6 * m + 5]);
        assert(from_be16(payload[6 * m], payload[6 * m + 1]) == 0x02 ==> from_be32(
            payload[6 * m + 2],
            payload[6 * m + 3],
            payload[6 * m + 4],
            payload[6 * m + 5],
        ) <= 1);
        super::settings::lemma_setting_bytes_roundtrip(chunk);
        let items = spec_read_settings(payload, n)->Ok_0;
        assert(items.drop_last() =~= spec_read_settings(payload, m as nat)->Ok_0);
        assert(payload.subrange(0, 6 * n as int) =~= payload.subrange(0, 6 * m) + chunk);
    }
}

/// The frames that survive writing and reading back: stream identifiers
/// without the reserved bit, payload lengths that fit the 24-bit field, no
/// PADDED flag on DATA (the padding is not written), no header fields on
/// HEADERS (`write` sends an empty header block), and a WINDOW_UPDATE
/// increment between 1 and 2^31 - 1. A PING frame is written but not read.
pub open spec fn frame_roundtrips(f: FrameView) -> bool {
    match f {
        FrameView::Data { stream_id, flags, data } => stream_id <= 0x7fff_ffff && flags
            & flags::PADDED == 0 && data.len() < 0x100_0000,
        FrameView::Headers { stream_id, flags: _, items } => stream_id <= 0x7fff_ffff && items.len()
            == 0,
        FrameView::RstStream { stream_id, error_code: _ } => stream_id <= 0x7fff_ffff,
        FrameView::Settings { ack: _, settings: items } => 6 * items.len() < 0x100_0000,
        FrameView::WindowUpdate { stream_id, increment } => stream_id <= 0x7fff_ffff && 0
            < increment <= 0x7fff_ffff,
        FrameView::Ping { .. } => false,
    }
}

/// A frame whose header and payload decode to `f` is read as `f`, taking
/// the header and the payload.
proof fn lemma_read_decoded(input: Seq<u8>, len: u32, frame_type: u8, flags: u8, stream_id: u32, f: FrameView)
    requires
        input.len() >= 9 + len,
        header_len(input) == len,
        input[3] == frame_type,
        input[4] == flags,
        header_stream_id(input) == stream_id,
        spec_decode(frame_type, flags, stream_id, len as nat, input.subrange(9, 9 + len as int))
            == Ok::<FrameView, Error>(f),
    ensures
        spec_read_frame(input) == Ok::<(FrameView, nat), Error>((f, (9 + len) as nat)),
{
    reveal(spec_read_frame);
}

#[verifier::spinoff_prover]
proof fn lemma_write_read_settings(ack: u8, items: Seq<Setting>, rest: Seq<u8>)
    requires
        6 * items.len() < 0x100_0000,
    ensures
        ({
            let f = FrameView::Settings { ack, settings: items };
            let b = spec_frame_bytes(f, Seq::empty());
            spec_read_frame(b + rest) == Ok::<(FrameView, nat), Error>((f, b.len()))
        }),
{
    reveal(spec_read_frame);
    let f = FrameView::Settings { ack, settings: items };
    let b = spec_frame_bytes(f, Seq::empty());
    let len = ((items.len() as u32) * 6) as u32;
    assert(len == 6 * items.len());
    lemma_settings_payload_read(items, Seq::empty());
    lemma_header_read(len, 0x04, ack, 0, settings_payload(items) + rest);
    assert(b + rest =~= frame_header(len, 0x04, ack, 0) + (settings_payload(items) + rest));
    let payload = (b + rest).subrange(9, 9 + len as int);
    assert(payload =~= settings_payload(items));
    assert(payload.len() / 6 == items.len());
    assert(payload + Seq::<u8>::empty() =~= payload);
}

/// The bytes of a frame header and a payload that decodes to `f` are read
/// as `f`, whatever follows them.
#[verifier::spinoff_prover]
proof fn lemma_read_written(len: u32, frame_type: u8, flags: u8, stream_id: u32, payload: Seq<u8>, rest: Seq<u8>, f: FrameView)
    requires
        len == payload.len(),
        len < 0x100_0000,
        stream_id <= 0x7fff_ffff,
        spec_decode(frame_type, flags, stream_id, len as nat, payload) == Ok::<FrameView, Error>(f),
    ensures
        spec_read_frame(frame_header(len, frame_type, flags, stream_id) + payload + rest) == Ok::<
            (FrameView, nat),
            Error,
        >((f, (9 + len) as nat)),
{
    let input = frame_header(len, frame_type, flags, stream_id) + payload + rest;
    lemma_header_read(len, frame_type, flags, stream_id, payload + rest);
    assert(input =~= frame_header(len, frame_type, flags, stream_id) + (payload + rest));
    assert(input.subrange(9, 9 + len as int) =~= payload);
    lemma_read_decoded(input, len, frame_type, flags, stream_id, f);
}

#[verifier::spinoff_prover]
proof fn lemma_write_read_data(stream_id: u32, flags: u8, data: Seq<u8>, rest: Seq<u8>)
    requires
        stream_id <= 0x7fff_ffff,
        flags & flags::PADDED == 0,
        data.len() < 0x100_0000,
    ensures
        ({
            let f = FrameView::Data { stream_id, flags, data };
            let b = spec_frame_bytes(f, Seq::empty());
            spec_read_frame(b + rest) == Ok::<(FrameView, nat), Error>((f, b.len()))
        }),
{
    let f = FrameView::Data { stream_id, flags, data };
    let len = data.len() as u32;
    assert(len == data.len());
    lemma_data_bytes(stream_id, flags, data);
    lemma_decode_data(stream_id, flags, data);
    lemma_read_written(len, 0x00, flags, stream_id, data, rest, f);
}

/// The bytes of a DATA frame: its header, then its data.
proof fn lemma_data_bytes(stream_id: u32, flags: u8, data: Seq<u8>)
    ensures
        spec_frame_bytes(FrameView::Data { stream_id, flags, data }, Seq::empty()) == frame_header(
            data.len() as u32,
            0x00,
            flags,
            stream_id,
        ) + data,
{
}

/// The payload of a DATA frame without padding is its data.
proof fn lemma_decode_data(stream_id: u32, flags: u8, data: Seq<u8>)
    requires
        flags & flags::PADDED == 0,
    ensures
        spec_decode(0x00, flags, stream_id, data.len(), data) == Ok::<FrameView, Error>(
            FrameView::Data { stream_id, flags, data },
        ),
{
}

#[verifier::spinoff_prover]
proof fn lemma_write_read_headers(stream_id: u32, flags: u8, rest: Seq<u8>)
    requires
        stream_id <= 0x7fff_ffff,
    ensures
        ({
            let f = FrameView::Headers { stream_id, flags, items: Seq::empty() };
            let b = spec_frame_bytes(f, Seq::empty());
            spec_read_frame(b + rest) == Ok::<(FrameView, nat), Error>((f, b.len()))
        }),
{
    let f = FrameView::Headers { stream_id, flags, items: Seq::empty() };
    let e = Seq::<u8>::empty();
    assert(spec_frame_bytes(f, e) =~= frame_header(0, 0x01, flags, stream_id) + e);
    assert(spec_decode(0x01, flags, stream_id, 0, e) == Ok::<FrameView, Error>(f));
    lemma_read_written(0, 0x01, flags, stream_id, e, rest, f);
}

/// The payload of an RST_STREAM frame decodes to its error code.
proof fn lemma_decode_rst(stream_id: u32, error_code: ErrorCode, payload: Seq<u8>)
    requires
        payload == be32(spec_error_value(error_code)),
    ensures
        spec_decode(0x03, 0, stream_id, 4, payload) == Ok::<FrameView, Error>(
            FrameView::RstStream { stream_id, error_code },
        ),
{
    crate::wire::lemma_be32_roundtrip(spec_error_value(error_code));
    super::error::lemma_error_roundtrip(error_code);
}

#[verifier::spinoff_prover]
proof fn lemma_write_read_rst(stream_id: u32, error_code: ErrorCode, rest: Seq<u8>)
    requires
        stream_id <= 0x7fff_ffff,
    ensures
        ({
            let f = FrameView::RstStream { stream_id, error_code };
            let b = spec_frame_bytes(f, Seq::empty());
            spec_read_frame(b + rest) == Ok::<(FrameView, nat), Error>((f, b.len()))
        }),
{
    let f = FrameView::RstStream { stream_id, error_code };
    let p = be32(spec_error_value(error_code));
    assert(spec_frame_bytes(f, Seq::empty()) == frame_header(4, 0x03, 0, stream_id) + p);
    lemma_decode_rst(stream_id, error_code, p);
    lemma_read_written(4, 0x03, 0, stream_id, p, rest, f);
}

/// The payload of a WINDOW_UPDATE frame decodes to its increment.
proof fn lemma_decode_window(stream_id: u32, increment: u32, payload: Seq<u8>)
    requires
        0 < increment <= 0x7fff_ffff,
        payload == be32(increment),
    ensures
        spec_decode(0x08, 0, stream_id, 4, payload) == Ok::<FrameView, Error>(
            FrameView::WindowUpdate { stream_id, increment },
        ),
{
    lemma_masked_roundtrip(increment);
}

#[verifier::spinoff_prover]
proof fn lemma_write_read_window(stream_id: u32, increment: u32, rest: Seq<u8>)
    requires
        stream_id <= 0x7fff_ffff,
        0 < increment <= 0x7fff_ffff,
    ensures
        ({
            let f = FrameView::WindowUpdate { stream_id, increment };
            let b = spec_frame_bytes(f, Seq::empty());
            spec_read_frame(b + rest) == Ok::<(FrameView, nat), Error>((f, b.len()))
        }),
{
    let f = FrameView::WindowUpdate { stream_id, increment };
    let p = be32(increment);
    assert(spec_frame_bytes(f, Seq::empty()) == frame_header(4, 0x08, 0, stream_id) + p);
    lemma_decode_window(stream_id, increment, p);
    lemma_read_written(4, 0x08, 0, stream_id, p, rest, f);
}

/// Law: a frame written by `Frame::write` is read back by `Frame::read` as
/// the same frame, taking exactly the written bytes, whatever follows them.
pub proof fn lemma_frame_write_read(f: FrameView, rest: Seq<u8>)
    requires
        frame_roundtrips(f),
    ensures
        ({
            let b = spec_frame_bytes(f, Seq::empty());
            spec_read_frame(b + rest) == Ok::<(FrameView, nat), Error>((f, b.len()))
        }),
{
    match f {
        FrameView::Data { stream_id, flags, data } => {
            lemma_write_read_data(stream_id, flags, data, rest);
        },
        FrameView::Settings { ack, settings: items } => {
            lemma_write_read_settings(ack, items, rest);
        },
        FrameView::Headers { stream_id, flags, items } => {
            assert(items =~= Seq::<HeaderView>::empty());
            lemma_write_read_headers(stream_id, flags, rest);
        },
        FrameView::RstStream { stream_id, error_code } => {
            lemma_write_read_rst(stream_id, error_code, rest);
        },
        FrameView::WindowUpdate { stream_id, increment } => {
            lemma_write_read_window(stream_id, increment, rest);
        },
        FrameView::Ping { .. } => {},
    }
}

/// The frame bytes that `Frame::write` reproduces from the frame read from
/// them: no reserved stream bit, no PADDED flag on DATA, an empty header
/// block on HEADERS, zero flags on RST_STREAM and WINDOW_UPDATE, an error
/// code the protocol defines, a SETTINGS payload of whole entries with
/// `EnablePush` values of 0 or 1, and no reserved bit on a WINDOW_UPDATE
/// increment.
pub open spec fn bytes_roundtrip(b: Seq<u8>) -> bool {
    let len = header_len(b);
    let payload = b.subrange(9, b.len() as int);
    &&& b.len() >= 9
    &&& b.len() == 9 + len
    &&& supported_type(b[3])
    &&& b[5] & 0x80u8 == 0
    &&& (b[3] == 0x00 ==> b[4] & flags::PADDED == 0)
    &&& (b[3] == 0x01 ==> len == 0)
    &&& (b[3] == 0x03 ==> b[4] == 0 && len == 4 && from_be32(
        payload[0],
        payload[1],
        payload[2],
        payload[3],
    ) <= 0x0d)
    &&& (b[3] == 0x04 ==> b[5] == 0 && b[6] == 0 && b[7] == 0 && b[8] == 0 && len % 6 == 0 && forall|k: int|
        0 <= k < len / 6 ==> (#[trigger] from_be16(payload[6 * k], payload[6 * k + 1]) == 0x02
            ==> from_be32(payload[6 * k + 2], payload[6 * k + 3], payload[6 * k + 4], payload[6 * k
            + 5]) <= 1))
    &&& (b[3] == 0x08 ==> b[4] == 0 && payload[0] & 0x80u8 == 0)
}

/// Law: bytes read by `Frame::read` into a frame are written back by
/// `Frame::write` as the same bytes, where they are in the form that
/// `bytes_roundtrip` describes.
#[verifier::rlimit(40)]
#[verifier::spinoff_prover]
pub proof fn lemma_frame_read_write(b: Seq<u8>)
    requires
        bytes_roundtrip(b),
        spec_read_frame(b) is Ok,
    ensures
        spec_frame_bytes(spec_read_frame(b)->Ok_0.0, Seq::empty()) == b,
        spec_read_frame(b)->Ok_0.1 == b.len(),
{
    reveal(spec_read_frame);
    let len = header_len(b);
    let payload = b.subrange(9, b.len() as int);
    let f = spec_read_frame(b)->Ok_0.0;
    let sid = header_stream_id(b);
    lemma_from_be24_roundtrip(b[0], b[1], b[2]);
    lemma_from_masked_roundtrip(b[5], b[6], b[7], b[8]);
    assert(payload =~= b.subrange(9, 9 + len as int));
    let out = spec_frame_bytes(f, Seq::empty());
    if b[3] == 0x00 {
        assert(out =~= b);
    } else if b[3] == 0x01 {
        assert(out =~= b);
    } else if b[3] == 0x03 {
        let v = from_be32(payload[0], payload[1], payload[2], payload[3]);
        crate::wire::lemma_from_be32_roundtrip(payload[0], payload[1], payload[2], payload[3]);
        super::error::lemma_error_value_roundtrip(v);
        assert(out =~= b);
    } else if b[3] == 0x04 {
        lemma_settings_payload_write(payload, (len / 6) as nat);
        assert(payload.subrange(0, 6 * (len / 6)) =~= payload);
        let items = spec_read_settings(payload, payload.len() / 6)->Ok_0;
        assert(items.len() == len / 6);
        assert((items.len() as u32) * 6 == len);
        crate::wire::lemma_from_be32_roundtrip(0, 0, 0, 0);
        assert(from_be32(0, 0, 0, 0) == 0) by (bit_vector);
        assert(out =~= b);
    } else {
        lemma_from_masked_roundtrip(payload[0], payload[1], payload[2], payload[3]);
        assert(out =~= b);
    }
}

impl SerDe for RawFrame {
    open spec fn readable(input: Seq<u8>) -> bool {
        true
    }

    open spec fn writable(&self) -> bool {
        true
    }

    /// The raw frame at the front of `input` and the number of bytes it
    /// takes; `Error::UnexpectedEof` when `input` is shorter than that.
    fn read(input: &[u8]) -> (r: Result<(RawFrame, usize), Error>)
        ensures
            raw_result_view(r) == spec_read_raw(input@),
    {
        RawFrame::read_raw(input)
    }

    /// Writes nothing: a raw frame is only read.
    fn write(&self, out: &mut Vec<u8>) -> (r: Result<(), Error>)
        ensures
            r is Ok,
            final(out)@ == old(out)@,
    {
        Ok(())
    }
}

} // verus!
