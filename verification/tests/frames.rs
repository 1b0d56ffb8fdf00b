use bytes::BytesMut;
use mhttpd::http::codec::{Decode, Encode};
use mhttpd::http::{ResponseBuilder, StatusCode, Version};
use mhttpd::header_block::header_block_safe;
use mhttpd::error::Error;
use mhttpd::http::message::request::Request;
use mhttpd::http::v2::codec::FrameCodec;
use mhttpd::http::v2::connection::{is_client_settings, server_settings, Action, Connection};
use mhttpd::http::v2::frame::RawFrame;
use mhttpd::http::v2::preface::{preface, Preface};
use mhttpd::http::v2::settings::Setting;
use mhttpd::http::v2::stream::{State, Stream};
use mhttpd::http::v2::{ErrorCode, Frame, FrameType};
use mhttpd::http::{Header, SerDe};

#[test]
fn error_test_conv() {
    assert!(matches!(1u32.into(), ErrorCode::ProtocolError));
    assert_eq!(u32::from(ErrorCode::ProtocolError), 1u32);
}

#[test]
fn test_serde_data() {
    let raw = [0, 0, 0, 0, 0, 0, 0, 0, 0];
    let (frame, _) = Frame::read(&raw).unwrap();
    println!("{frame:?}");
    let mut v = Vec::new();
    frame.write(&mut v).unwrap();
    println!("{v:?}");
    assert_eq!(raw, v.as_slice());
}

#[test]
fn test_serde_headers() {
    let raw = [
        0, 0, 30, 1, 5, 0, 0, 0, 1, 130, 134, 65, 138, 8, 157, 92, 11, 129, 112, 220, 120, 0, 7,
        132, 122, 136, 37, 182, 80, 195, 203, 186, 184, 127, 83, 3, 42, 47, 42,
    ];
    let (frame, _) = Frame::read(&raw).unwrap();
    println!("{frame:?}");
    let mut v = Vec::new();
    frame.write(&mut v).unwrap();
    println!("{v:?}");
    // assert_eq!(raw, v.as_slice());
}

#[test]
fn test_serde_settings() {
    let raw = [
        0, 0, 18, 4, 0, 0, 0, 0, 0, 0, 3, 0, 0, 0, 100, 0, 4, 0, 160, 0, 0, 0, 2, 0, 0, 0, 0,
    ];
    let (frame, _) = Frame::read(&raw).unwrap();
    println!("{frame:?}");
    let mut v = Vec::new();
    frame.write(&mut v).unwrap();
    println!("{v:?}");
    assert_eq!(raw, v.as_slice());
}

#[test]
fn test_serde_window_update() {
    let raw = [0, 0, 4, 8, 0, 0, 0, 0, 0, 62, 127, 0, 1];
    let (frame, _) = Frame::read(&raw).unwrap();
    println!("{frame:?}");
    let mut v = Vec::new();
    frame.write(&mut v).unwrap();
    println!("{v:?}");
    assert_eq!(raw, v.as_slice());
}

#[test]
fn test_hpack() {
    let raw = [
        130, 134, 65, 138, 8, 157, 92, 11, 129, 112, 220, 120, 0, 7, 132, 122, 136, 37, 182, 80,
        195, 203, 186, 184, 127, 83, 3, 42, 47, 42,
    ];
    let mut decoder = hpack::Decoder::new();
    let items = decoder.decode(&raw).unwrap();
    let mut encoder = hpack::Encoder::new();
    let _result = encoder.encode(items.iter().map(|(k, v)| (&k[..], &v[..])));
    // assert_eq!(raw, result.as_slice());
}

#[test]
fn settings_test_serde() {
    let raw = [0, 3, 0, 0, 0, 0x64, 0, 4, 0, 0xa0, 0, 0, 0, 2, 0, 0, 0, 0];
    let mut buf = Vec::new();

    for item in raw.chunks(6) {
        let (setting, _) = Setting::read(item).unwrap();
        println!("{setting:?}");
        setting.write(&mut buf).unwrap();
    }
    assert_eq!(buf, raw);
}

#[test]
fn test_upgrade() {
    let raw = r#"
GET / HTTP/1.1
Host: localhost:8000
User-Agent: curl/8.7.1
Accept: */*
Connection: Upgrade, HTTP2-Settings
Upgrade: h2c
HTTP2-Settings: AAMAAABkAAQAoAAAAAIAAAAA


        "#;
    let _ = raw;
    let v = [
        71, 69, 84, 32, 47, 32, 72, 84, 84, 80, 47, 49, 46, 49, 13, 10, 72, 111, 115, 116, 58, 32,
        108, 111,
    ];
    let s = std::str::from_utf8(v.as_slice());
    println!("{s:?}");
}

// ---------------------------------------------------------------------------
// Further cases
// ---------------------------------------------------------------------------

#[test]
fn error_codes_round_trip_and_unknown_codes() {
    for v in 0u32..=13 {
        assert_eq!(u32::from(ErrorCode::from(v)), v);
    }
    assert_eq!(ErrorCode::from_value(0x0d), ErrorCode::Http11Required);
    assert_eq!(ErrorCode::from_value(0x99), ErrorCode::InternalError);
}

#[test]
fn frame_types_round_trip() {
    for v in 0u8..=255 {
        assert_eq!(u8::from(FrameType::from(v)), v);
    }
    assert!(matches!(FrameType::from(0x04), FrameType::Settings));
    assert!(matches!(FrameType::from(0x42), FrameType::Unknown(0x42)));
}

#[test]
fn settings_read_errors() {
    assert_eq!(Setting::read(&[0, 1, 0]).unwrap_err(), Error::UnexpectedEof);
    assert_eq!(Setting::read(&[0, 9, 0, 0, 0, 1]).unwrap_err(), Error::InvalidSettingIdentifier);
    let (s, used) = Setting::read(&[0, 2, 0, 0, 0, 7]).unwrap();
    assert_eq!(used, 6);
    assert_eq!(s, Setting::EnablePush(true));
    let mut b = Vec::new();
    s.write(&mut b).unwrap();
    assert_eq!(b, vec![0, 2, 0, 0, 0, 1]);
    assert_eq!(Setting::MaxFrameSize(0x4000).identifier(), 5);
    assert_eq!(Setting::MaxFrameSize(0x4000).value(), 0x4000);
}

#[test]
fn frame_read_reports_each_error() {
    assert_eq!(Frame::read(&[0, 0, 4, 8]).unwrap_err(), Error::UnexpectedEof);
    assert_eq!(Frame::read(&[0, 0, 4, 8, 0, 0, 0, 0, 0, 1]).unwrap_err(), Error::UnexpectedEof);
    assert_eq!(
        Frame::read(&[0, 0, 4, 8, 0, 0, 0, 0, 0, 0x80, 0, 0, 0]).unwrap_err(),
        Error::ZeroWindowIncrement
    );
    assert_eq!(
        Frame::read(&[0, 0, 3, 8, 0, 0, 0, 0, 0, 0, 0, 1]).unwrap_err(),
        Error::WindowUpdateLength
    );
    assert_eq!(
        Frame::read(&[0, 0, 6, 4, 0, 0, 0, 0, 0, 0, 9, 0, 0, 0, 0]).unwrap_err(),
        Error::InvalidSettingIdentifier
    );
    assert_eq!(Frame::read(&[0, 0, 1, 1, 4, 0, 0, 0, 1, 0xff]).unwrap_err(), Error::InvalidHeaderBlock);
    assert!(!Frame::can_read(&[0, 0, 0, 7, 0, 0, 0, 0, 0]));
    assert!(!Frame::can_read(&[0, 0, 2, 3, 0, 0, 0, 0, 1, 0, 0]));
    assert!(Frame::can_read(&[0, 0, 4, 3, 0, 0, 0, 0, 1, 0, 0, 0, 8]));
}

#[test]
fn frame_read_padded_data_and_reset() {
    // DATA, PADDED, pad length 2: "ab" then two bytes of padding.
    let raw = [0, 0, 5, 0, 0x08, 0, 0, 0, 3, 2, b'a', b'b', 0, 0, 0xee];
    let (frame, used) = Frame::read(&raw).unwrap();
    assert_eq!(used, 14);
    assert!(matches!(frame, Frame::Data { stream_id: 3, flags: 0x08, ref data } if data == b"ab"));
    let raw = [0, 0, 4, 3, 0, 0x80, 0, 0, 5, 0, 0, 0, 8];
    let (frame, _) = Frame::read(&raw).unwrap();
    assert!(matches!(frame, Frame::RstStream { stream_id: 5, error_code: ErrorCode::Cancel }));
    let mut b = Vec::new();
    frame.write(&mut b).unwrap();
    assert_eq!(b, vec![0, 0, 4, 3, 0, 0, 0, 0, 5, 0, 0, 0, 8]);
}

#[test]
fn frame_codec_keeps_header_fields() {
    let mut codec = FrameCodec::new();
    let frame = Frame::Headers {
        stream_id: 1,
        flags: 0x05,
        items: vec![Header::new(":method", "GET"), Header::new(":path", "/")],
    };
    let bytes = codec.encode_frame(frame);
    assert_eq!(bytes[3], 0x01);
    let mut peer = FrameCodec::new();
    let (back, used) = peer.decode_frame(&bytes).unwrap();
    assert_eq!(used, bytes.len());
    match back {
        Frame::Headers { stream_id, flags, items } => {
            assert_eq!(stream_id, 1);
            assert_eq!(flags, 0x05);
            assert_eq!(items.len(), 2);
            assert_eq!(items[0].name(), ":method");
            assert_eq!(items[0].value(), "GET");
            assert!(matches!(items[1], Header::Pseudo { .. }));
        }
        other => panic!("unexpected frame {other:?}"),
    }
}

#[test]
fn raw_frames() {
    let f = RawFrame::window_update(7, 0x10);
    assert!(matches!(f.frame_type(), FrameType::WindowUpdate));
    assert_eq!(f.stream_id(), 7);
    assert_eq!(f.payload(), Some(&[0u8, 0, 0, 0x10][..]));
    let f = RawFrame::reset_stream(9);
    assert!(matches!(f.frame_type(), FrameType::RstStream));
    assert_eq!(f.stream_id(), 9);
    let f = RawFrame::ping(true, vec![1, 2, 3, 4, 5, 6, 7, 8]);
    assert_eq!(f.flags(), 1);
    assert_eq!(f.payload(), Some(&[1u8, 2, 3, 4, 5, 6, 7, 8][..]));
    let f = RawFrame::goaway(3, ErrorCode::ProtocolError, Some(b"bye"));
    assert_eq!(f.payload(), Some(&[0u8, 0, 0, 3, 0, 0, 0, 1, b'b', b'y', b'e'][..]));
    let (r, used) = RawFrame::read(&[0, 0, 0, 4, 1, 0, 0, 0, 0]).unwrap();
    assert_eq!(used, 9);
    assert_eq!(r.flags(), 1);
    assert!(r.payload().is_none());
    let mut b = vec![7u8];
    r.write(&mut b).unwrap();
    assert_eq!(b, vec![7u8]);
}

#[test]
fn preface_is_read_only_when_complete_and_exact() {
    let p = preface();
    assert_eq!(&p[..], b"PRI * HTTP/2.0\r\n\r\nSM\r\n\r\n");
    let mut input = p.to_vec();
    input.extend_from_slice(&[0, 0, 0]);
    let (_, used) = Preface::read(&input).unwrap();
    assert_eq!(used, 24);
    assert_eq!(Preface::read(&p[..10]).unwrap_err(), Error::UnexpectedEof);
    assert_eq!(Preface::read(b"GET / HTTP/1.1\r\n\r\n123456").unwrap_err(), Error::InvalidPreface);
}

#[test]
fn streams_start_idle_and_take_frames() {
    let mut s = Stream::new(3);
    assert_eq!(s.id(), 3);
    assert_eq!(s.state(), State::Idle);
    let f = Frame::WindowUpdate { stream_id: 3, increment: 1 };
    assert!(s.process(&f).is_ok());
    assert_eq!(s.state(), State::Idle);
}

#[test]
fn connection_builds_a_request_from_headers_and_data() {
    let mut c = Connection::new();
    let headers = Frame::Headers {
        stream_id: 1,
        flags: 0x04,
        items: vec![
            Header::new(":method", "POST"),
            Header::new(":scheme", "http"),
            Header::new(":path", "/form"),
            Header::new("content-type", "text/plain"),
        ],
    };
    assert!(Connection::accepts(&headers));
    assert!(matches!(c.on_frame(headers), Action::Continue));
    assert_eq!(c.stream(1).unwrap().state(), State::Idle);
    let data = Frame::Data { stream_id: 1, flags: 0x01, data: b"hello".to_vec() };
    match c.on_frame(data) {
        Action::Complete { stream_id, builder } => {
            assert_eq!(stream_id, 1);
            let r: Request = builder.build().unwrap();
            assert_eq!(r.path, "/form");
            assert_eq!(r.body.as_deref(), Some(&b"hello"[..]));
        }
        other => panic!("unexpected action {other:?}"),
    }
    assert_eq!(c.stream(1).unwrap().state(), State::Closed);
}

#[test]
fn connection_answers_settings_and_resets() {
    let mut c = Connection::new();
    let s = Frame::Settings { ack: 0, items: vec![Setting::MaxConcurrentStreams(100)] };
    assert!(is_client_settings(&s));
    match c.on_frame(s) {
        Action::Send(Frame::Settings { ack, items }) => {
            assert_eq!(ack, 1);
            assert!(items.is_empty());
        }
        other => panic!("unexpected action {other:?}"),
    }
    assert!(matches!(c.on_frame(Frame::Settings { ack: 1, items: vec![] }), Action::Continue));
    let rst = Frame::RstStream { stream_id: 5, error_code: ErrorCode::Cancel };
    assert!(matches!(c.on_frame(rst), Action::Reset));
    assert!(c.stream(5).is_none());
    let bad = Frame::Headers { stream_id: 1, flags: 0, items: vec![Header::new(":method", "FETCH")] };
    assert!(!Connection::accepts(&bad));
}

#[test]
fn server_settings_frame_bytes() {
    let f = server_settings();
    let mut b = Vec::new();
    f.write(&mut b).unwrap();
    assert_eq!(&b[..9], &[0, 0, 36, 4, 0, 0, 0, 0, 0]);
    assert_eq!(&b[9..15], &[0, 1, 0, 0, 0x40, 0]);
    assert_eq!(b.len(), 45);
}

#[test]
fn header_blocks_with_a_cut_short_size_update_are_refused() {
    // A size update whose integer needs a continuation byte that is missing.
    let cut = [0, 0, 1, 1, 4, 0, 0, 0, 1, 0x3f];
    assert!(!Frame::can_read(&cut));
    // A complete size update to 4096 bytes: decoded, no fields.
    let whole = [0, 0, 3, 1, 4, 0, 0, 0, 1, 0x3f, 0xe1, 0x1f];
    assert!(Frame::can_read(&whole));
    let (frame, used) = Frame::read(&whole).unwrap();
    assert_eq!(used, 12);
    assert!(matches!(frame, Frame::Headers { stream_id: 1, flags: 4, ref items } if items.is_empty()));
    // The size update after a literal field is found too.
    let later = [0, 0, 7, 1, 4, 0, 0, 0, 1, 0x40, 1, b'a', 1, b'b', 0x3f, 0xff];
    assert!(!Frame::can_read(&later));
}

#[test]
fn header_block_safety_is_told_from_the_bytes() {
    assert!(header_block_safe(&[]));
    assert!(header_block_safe(&[0x82, 0x86, 0x84]));
    assert!(!header_block_safe(&[0x20 | 0x1f]));
    assert!(header_block_safe(&[0x20 | 0x05]));
    // Five bytes of size update still continuing: too long for the decoder.
    assert!(!header_block_safe(&[0x3f, 0xff, 0xff, 0xff, 0xff]));
    // A literal whose value runs past the end ends the walk: the decoder
    // stops there with an error.
    assert!(header_block_safe(&[0x40, 1, b'a', 9, b'b', 0x3f]));
}

#[test]
fn a_response_goes_out_as_headers_then_data() {
    let r = ResponseBuilder::new()
        .version(Version::Http2)
        .status(StatusCode::OK)
        .headers(vec![Header::new("content-length", "2")])
        .body(b"hi".to_vec())
        .build()
        .unwrap();
    let (h, d) = mhttpd::http::v2::connection::response_frames(7, r);
    match h {
        Frame::Headers { stream_id, flags, items } => {
            assert_eq!(stream_id, 7);
            assert_eq!(flags, 0x04);
            assert_eq!(items.len(), 2);
            assert_eq!(items[0].name(), ":status");
            assert_eq!(items[0].value(), "200");
            assert_eq!(items[1].name(), "content-length");
        }
        other => panic!("unexpected frame {other:?}"),
    }
    assert!(matches!(d, Frame::Data { stream_id: 7, flags: 0x01, ref data } if data == b"hi"));
}

#[test]
fn frame_codec_over_a_byte_buffer() {
    let mut codec = FrameCodec::new();
    let mut wire = BytesMut::new();
    codec
        .encode(
            Frame::Headers { stream_id: 3, flags: 0x05, items: vec![Header::new(":method", "GET")] },
            &mut wire,
        )
        .unwrap();
    codec.encode(Frame::WindowUpdate { stream_id: 0, increment: 5 }, &mut wire).unwrap();
    let total = wire.len();
    let mut peer = FrameCodec::new();
    // Only part of the first frame has arrived.
    let mut partial = BytesMut::from(&wire[..5]);
    assert!(matches!(peer.decode(&mut partial), Ok(None)));
    assert_eq!(partial.len(), 5);
    match peer.decode(&mut wire).unwrap() {
        Some(Frame::Headers { stream_id: 3, items, .. }) => {
            assert_eq!(items.len(), 1);
            assert_eq!(items[0].value(), "GET");
        }
        other => panic!("unexpected {other:?}"),
    }
    assert_eq!(wire.len(), 13);
    assert!(total > 13);
    assert!(matches!(
        peer.decode(&mut wire),
        Ok(Some(Frame::WindowUpdate { stream_id: 0, increment: 5 }))
    ));
    assert!(wire.is_empty());
    assert!(matches!(peer.decode(&mut wire), Ok(None)));
}

#[test]
fn frames_of_one_stream_leave_the_others_alone() {
    let mut c = Connection::new();
    let first = Frame::Headers { stream_id: 1, flags: 0x04, items: vec![Header::new(":path", "/a")] };
    assert!(matches!(c.on_frame(first), Action::Continue));
    let other = Frame::Data { stream_id: 3, flags: 0x01, data: b"x".to_vec() };
    assert!(matches!(c.on_frame(other), Action::Complete { stream_id: 3, .. }));
    assert_eq!(c.stream(1).unwrap().state(), State::Idle);
    assert_eq!(c.stream(3).unwrap().state(), State::Closed);
    assert!(c.stream(5).is_none());
    assert!(matches!(c.on_frame(Frame::WindowUpdate { stream_id: 5, increment: 1 }), Action::Continue));
    assert!(c.stream(5).is_none());
}

#[test]
fn connection_answers_ping_and_settings() {
    let mut c = Connection::new();
    let s = Frame::Settings { ack: 0, items: vec![Setting::MaxFrameSize(0x4000)] };
    match c.on_frame(s) {
        Action::Send(Frame::Settings { ack, items }) => {
            assert_eq!(ack, 0x01);
            assert!(items.is_empty());
        }
        other => panic!("unexpected action {other:?}"),
    }
    let acked = Frame::Settings { ack: 0x01, items: vec![] };
    assert!(matches!(c.on_frame(acked), Action::Continue));
    let d = vec![1u8, 2, 3, 4, 5, 6, 7, 8];
    match c.on_frame(Frame::Ping { ack: false, opaque_data: d.clone() }) {
        Action::Send(Frame::Ping { ack, opaque_data }) => {
            assert!(ack);
            assert_eq!(opaque_data, d);
        }
        other => panic!("unexpected action {other:?}"),
    }
    let headers = Frame::Headers {
        stream_id: 1,
        flags: 0x05,
        items: vec![Header::new(":method", "GET"), Header::new(":path", "/")],
    };
    match c.on_frame(headers) {
        Action::Complete { stream_id, builder } => {
            assert_eq!(stream_id, 1);
            let r: Request = builder.build().unwrap();
            assert_eq!(r.method, mhttpd::http::Method::GET);
            assert_eq!(r.path, "/");
        }
        other => panic!("unexpected action {other:?}"),
    }
}

#[test]
fn ping_frame_bytes() {
    let f = Frame::Ping { ack: true, opaque_data: vec![9, 8, 7, 6, 5, 4, 3, 2] };
    let mut v = Vec::new();
    f.write(&mut v).unwrap();
    assert_eq!(v, vec![0, 0, 8, 6, 1, 0, 0, 0, 0, 9, 8, 7, 6, 5, 4, 3, 2]);
    let f = Frame::Ping { ack: false, opaque_data: vec![] };
    let mut v = Vec::new();
    f.write(&mut v).unwrap();
    assert_eq!(v, vec![0, 0, 0, 6, 0, 0, 0, 0, 0]);
}

#[test]
fn header_block_that_does_not_decode() {
    // index 0 names no table entry
    let raw = [0, 0, 1, 1, 0x04, 0, 0, 0, 1, 0x80];
    assert!(Frame::can_read(&raw));
    assert!(matches!(Frame::read(&raw), Err(Error::InvalidHeaderBlock)));
    let mut codec = FrameCodec::new();
    assert!(matches!(codec.decode_frame(&raw), Err(Error::InvalidHeaderBlock)));
    // an indexed static entry decodes, and `read` drops the fields
    let raw = [0, 0, 1, 1, 0x04, 0, 0, 0, 1, 0x82];
    match Frame::read(&raw) {
        Ok((Frame::Headers { stream_id: 1, flags: 0x04, items }, 10)) => assert!(items.is_empty()),
        other => panic!("unexpected result {other:?}"),
    }
    match codec.decode_frame(&raw) {
        Ok((Frame::Headers { items, .. }, 10)) => {
            assert_eq!(items.len(), 1);
            assert_eq!(items[0].name(), ":method");
            assert_eq!(items[0].value(), "GET");
        }
        other => panic!("unexpected result {other:?}"),
    }
}

#[test]
fn codec_encoder_reuses_its_table() {
    let mut codec = FrameCodec::new();
    let frame = || Frame::Headers {
        stream_id: 1,
        flags: 0x04,
        items: vec![Header::new("x-token", "abc")],
    };
    let first = codec.encode_frame(frame());
    let second = codec.encode_frame(frame());
    // the second time the field is found in the dynamic table: one index byte
    assert!(first.len() > second.len());
    assert_eq!(second, vec![0, 0, 1, 1, 0x04, 0, 0, 0, 1, 0x80 | 62]);
    let mut peer = FrameCodec::new();
    for bytes in [first, second] {
        match peer.decode_frame(&bytes) {
            Ok((Frame::Headers { items, .. }, _)) => {
                assert_eq!(items.len(), 1);
                assert_eq!(items[0].name(), "x-token");
                assert_eq!(items[0].value(), "abc");
            }
            other => panic!("unexpected result {other:?}"),
        }
    }
}
