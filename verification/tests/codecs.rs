use mhttpd::download::{chunks, range_value};
use bytes::BytesMut;
use mhttpd::error::Error;
use mhttpd::http::codec::v1::LineCodec;
use mhttpd::http::codec::v2::FrameEncoder;
use mhttpd::http::codec::{Decode, Encode};
use mhttpd::http::message::request::Request;
use mhttpd::http::v2::Frame;
use mhttpd::http::{Header, Method, StatusCode, Version};
use mhttpd::server::Router;

#[test]
fn test_codec() {
    let raw = "POST / HTTP/1.1\r\nContent-Type: text/csv\r\n\r\nabc,def\r\n";
    let mut stream = BytesMut::new();
    let mut codec = LineCodec::default();
    for line in raw.lines() {
        codec.encode(line, &mut stream).unwrap();
    }
    assert_eq!(raw, stream);
    while let Ok(Some(line)) = codec.decode(&mut stream) {
        println!("{line:?}");
    }
}

// ---------------------------------------------------------------------------
// Further cases
// ---------------------------------------------------------------------------

#[test]
fn lines_come_back_as_they_were_written() {
    let mut stream = BytesMut::new();
    let mut codec = LineCodec::default();
    for line in ["first", "", "tr\u{e4}iling\r", "last"] {
        codec.encode(line, &mut stream).unwrap();
    }
    codec.encode(String::from("owned"), &mut stream).unwrap();
    let mut got = Vec::new();
    while let Ok(Some(line)) = codec.decode(&mut stream) {
        got.push(line);
    }
    assert_eq!(got, vec!["first", "", "tr\u{e4}iling\r", "last", "owned"]);
    assert!(stream.is_empty());
}

#[test]
fn an_incomplete_line_stays_buffered() {
    let mut stream = BytesMut::from(&b"partial"[..]);
    let mut codec = LineCodec::default();
    assert_eq!(codec.decode(&mut stream), Ok(None));
    assert_eq!(&stream[..], b"partial");
    stream.extend_from_slice(b" line\nnext");
    assert_eq!(codec.decode(&mut stream), Ok(Some("partial line".to_string())));
    assert_eq!(&stream[..], b"next");
}

#[test]
fn a_line_that_is_not_text_is_dropped_with_an_error() {
    let mut stream = BytesMut::from(&b"\xff\xfe\r\nok\r\n"[..]);
    let mut codec = LineCodec::default();
    assert_eq!(codec.decode(&mut stream), Err(Error::InvalidUtf8));
    assert_eq!(codec.decode(&mut stream), Ok(Some("ok".to_string())));
}

#[test]
fn frame_encoder_appends_frames() {
    let mut stream = BytesMut::from(&b"xy"[..]);
    let mut encoder = FrameEncoder {};
    encoder
        .encode(Frame::WindowUpdate { stream_id: 1, increment: 0x100 }, &mut stream)
        .unwrap();
    assert_eq!(&stream[..], &[b'x', b'y', 0, 0, 4, 8, 0, 0, 0, 0, 1, 0, 0, 1, 0]);
    let mut stream = BytesMut::new();
    encoder
        .encode(Frame::Headers { stream_id: 3, flags: 4, items: vec![] }, &mut stream)
        .unwrap();
    assert_eq!(&stream[..], &[0, 0, 0, 1, 4, 0, 0, 0, 3]);
    let mut stream = BytesMut::new();
    encoder
        .encode(
            Frame::Headers { stream_id: 3, flags: 4, items: vec![Header::new(":status", "200")] },
            &mut stream,
        )
        .unwrap();
    // ":status: 200" is entry 8 of the static table: one indexed byte.
    assert_eq!(&stream[..], &[0, 0, 1, 1, 4, 0, 0, 0, 3, 0x88]);
}

#[test]
fn the_router_greets_every_request() {
    let router = Router::default();
    let request = Request::new(Method::GET, "/".to_string(), Version::Http2, vec![], None);
    let response = router.handle_request(request).unwrap();
    assert_eq!(response.version, Version::Http2);
    assert_eq!(response.status_code, StatusCode::OK);
    assert!(response.reason_phrase.is_none());
    assert_eq!(response.headers.len(), 1);
    assert_eq!(response.headers[0].name(), "content-length");
    assert_eq!(response.headers[0].value(), "9");
    assert_eq!(response.body.as_deref(), Some(&b"it works!"[..]));
}

#[test]
fn downloads_are_split_into_pieces() {
    assert_eq!(chunks(10, 4), vec![(0, 4), (4, 4), (8, 2)]);
    assert_eq!(chunks(3, 4), vec![(0, 3)]);
    assert_eq!(chunks(0, 4), vec![]);
    // A size that is a multiple of the piece size ends in an empty piece.
    assert_eq!(chunks(8, 4), vec![(0, 4), (4, 0)]);
    assert_eq!(range_value(4, 4), "bytes=4-8");
    assert_eq!(range_value(0, 0), "bytes=0-0");
}

#[test]
fn request_encoder_takes_one_request_at_a_time() {
    let mut e = mhttpd::http::v1::RequestEncoder::new();
    let first = Request::new(Method::GET, "/".to_string(), Version::Http11, vec![], None);
    assert!(e.encode(first).is_ok());
    let second = Request::new(Method::GET, "/b".to_string(), Version::Http11, vec![], None);
    assert_eq!(e.encode(second), Err(Error::Inflight));
}

#[test]
fn frame_encoder_uses_a_fresh_table_each_time() {
    let mut encoder = FrameEncoder {};
    let mut stream = BytesMut::new();
    let frame = || Frame::Headers { stream_id: 1, flags: 0x04, items: vec![Header::new("x-a", "b")] };
    encoder.encode(frame(), &mut stream).unwrap();
    let once = stream.len();
    encoder.encode(frame(), &mut stream).unwrap();
    assert_eq!(stream.len(), 2 * once);
    assert_eq!(&stream[..once], &stream[once..]);
}
