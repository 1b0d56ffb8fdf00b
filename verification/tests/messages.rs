use mhttpd::http::protocol::Protocol;
use mhttpd::http::v1::codec::head_complete;
use mhttpd::error::Error;
use mhttpd::http::message::request::Request;
use mhttpd::http::{
    Header, Method, RequestBuilder, ResponseBuilder, Scheme, SerDe, Status, StatusCode, Version,
};
use std::str::FromStr;

#[test]
fn mod_test_parse() {
    let header = Header::from_str("Content-Type: text/html").unwrap();
    assert!(
        matches!(header, Header::Literal {name, value} if name == "content-type" && value == "text/html")
    );

    let header = Header::from_str("Content-Length: 123").unwrap();
    assert!(
        matches!(header, Header::Literal {name, value} if name == "content-length" && value == "123")
    );

    assert!(Header::from_str("Invalid").is_err());
}

#[test]
fn test_new() {
    let header = Header::new(":status", "200");
    let h2 = Header::Pseudo {
        name: ":status".to_string(),
        value: "200".to_string(),
    };
    println!("{header:?}, {h2:?}");
}

#[test]
fn method_test_parse() {
    assert!(matches!("HEAD".parse(), Ok(Method::HEAD)));
    assert!(matches!("HEADx".parse::<Method>(), Err(_)));
}

#[test]
fn method_test_display() {
    assert_eq!(Method::GET.to_string(), "GET");
}

#[test]
fn scheme_test_parse() {
    assert!(matches!("http".parse(), Ok(Scheme::Http)));
    assert!(matches!("https".parse(), Ok(Scheme::Https)));
    assert!(matches!("httpx".parse(), Ok(Scheme::Custom(s)) if s == "httpx"));
}

#[test]
fn status_test_conv() {
    assert!(matches!(Status::from(Status::OK()), Status(200)));
}

#[test]
fn status_test_display() {
    assert_eq!("200", Status::OK().to_string());
}

#[test]
fn mod_test_conv() {
    assert!(matches!(u16::from(StatusCode::OK), 200));
    assert!(matches!(u16::from(StatusCode::Unknown(999)), 999));
    assert!(matches!(StatusCode::from(200u16), StatusCode::OK));
    assert!(matches!(StatusCode::from(999u16), StatusCode::Unknown(value) if value == 999));
}

#[test]
fn mod_test_display() {
    assert_eq!("200", StatusCode::OK.to_string());
    assert_eq!("999", StatusCode::Unknown(999).to_string());
}

#[test]
fn test_request_read() {
    let input = b"POST /submit HTTP/1.1\r\nHost: example.com\r\nContent-Type: application/x-www-form-urlencoded\r\nContent-Length: 14\r\n\r\ncomment=hello!";
    let (request, _) = Request::read(input).unwrap();
    println!("{request:?}");
    assert_eq!(request.method, Method::POST);
    assert_eq!(request.path, "/submit");
    assert_eq!(request.headers.len(), 3);
    let mut buffer = Vec::new();
    request.write(&mut buffer).unwrap();
    assert_eq!(input.len(), buffer.len());
}

#[test]
fn version_test_serde() {
    let raw = "HTTP/1.1";
    let v: Version = raw.parse().unwrap();
    assert!(matches!(v, Version::Http11));
    assert_eq!(raw, v.to_string());
}

// ---------------------------------------------------------------------------
// Further cases
// ---------------------------------------------------------------------------

#[test]
fn header_new_lowers_the_name_and_marks_pseudo_headers() {
    let h = Header::new(":Status", "200");
    assert!(matches!(&h, Header::Pseudo { name, value } if name == ":status" && value == "200"));
    assert_eq!(h.name(), ":status");
    assert_eq!(h.value(), "200");
    let h = Header::new("X-Custom", "Mixed Case");
    assert!(matches!(&h, Header::Literal { .. }));
    assert_eq!(h.name(), "x-custom");
    assert_eq!(h.value(), "Mixed Case");
}

#[test]
fn header_parse_splits_at_the_first_separator() {
    let h = Header::parse("A: b: c").unwrap();
    assert_eq!(h.name(), "a");
    assert_eq!(h.value(), "b: c");
    assert_eq!(Header::parse("no separator").unwrap_err(), Error::HeaderSeparatorMissing);
    assert_eq!(Header::parse("A:b").unwrap_err(), Error::HeaderSeparatorMissing);
}

#[test]
fn method_names_round_trip() {
    for m in [
        Method::GET,
        Method::HEAD,
        Method::POST,
        Method::PUT,
        Method::DELETE,
        Method::CONNECT,
        Method::OPTIONS,
        Method::TRACE,
        Method::PATCH,
    ] {
        let s = m.to_string();
        assert_eq!(Method::parse(&s).unwrap(), m);
    }
    assert_eq!(Method::parse("get").unwrap_err(), Error::InvalidMethod);
}

#[test]
fn version_names_and_short_forms() {
    assert_eq!(Version::parse("HTTP/2").unwrap(), Version::Http2);
    assert_eq!(Version::parse("HTTP/2.0").unwrap(), Version::Http2);
    assert_eq!(Version::Http2.to_string(), "HTTP/2.0");
    assert_eq!(Version::parse("HTTP/3").unwrap(), Version::Http3);
    assert_eq!(Version::Http10.to_string(), "HTTP/1.0");
    assert_eq!(Version::parse("HTTP/4").unwrap_err(), Error::UnsupportedProtocol);
}

#[test]
fn scheme_parse_keeps_unknown_names() {
    assert!(matches!(Scheme::parse("ftp"), Scheme::Custom(s) if s == "ftp"));
    assert!(matches!(Scheme::parse("HTTP"), Scheme::Custom(s) if s == "HTTP"));
}

#[test]
fn status_reason_phrases() {
    assert_eq!(Status::OK().reason_phrase(), "OK");
    assert_eq!(Status::NOT_FOUND().reason_phrase(), "Not Found");
    assert_eq!(Status(299).reason_phrase(), "");
    assert_eq!(Status::NOT_FOUND().to_string(), "404");
    assert_eq!(Status::INTERNAL_SERVER_ERROR(), Status(500));
}

#[test]
fn status_code_numbers_round_trip() {
    for v in [100u16, 200, 204, 301, 404, 418, 500, 505, 999] {
        assert_eq!(StatusCode::from_code(v).code(), v);
        assert_eq!(u16::from(StatusCode::from(v)), v);
    }
    assert_eq!(StatusCode::from_code(404), StatusCode::NotFound);
    assert_eq!(StatusCode::NotFound.to_string(), "404");
}

#[test]
fn request_builder_collects_the_parts() {
    let mut b = RequestBuilder::new();
    b.set_method(Method::PUT);
    b.set_scheme(Scheme::Https);
    b.set_authority("example.com".to_string());
    b.set_path("/x".to_string());
    b.add_header(Header::new("accept", "*/*"));
    b.extend_body(b"ab");
    b.extend_body(b"cd");
    assert!(b.is_complete());
    let r = b.build().unwrap();
    assert_eq!(r.method, Method::PUT);
    assert_eq!(r.path, "/x");
    assert_eq!(r.headers.len(), 1);
    assert_eq!(r.body.as_deref(), Some(&b"abcd"[..]));
}

#[test]
fn response_builder_reports_each_missing_part() {
    let e = ResponseBuilder::new().build().unwrap_err();
    assert_eq!(e, Error::MissingVersion);
    let e = ResponseBuilder::new().version(Version::Http11).build().unwrap_err();
    assert_eq!(e, Error::MissingStatus);
    let e = ResponseBuilder::new()
        .version(Version::Http11)
        .status(StatusCode::OK)
        .build()
        .unwrap_err();
    assert_eq!(e, Error::MissingHeaders);
    let r = ResponseBuilder::new()
        .version(Version::Http11)
        .status(StatusCode::OK)
        .headers(vec![Header::new("content-length", "0")])
        .body(Vec::new())
        .build()
        .unwrap();
    assert_eq!(r.status_code, StatusCode::OK);
    assert!(r.reason_phrase.is_none());
    assert_eq!(r.body, Some(Vec::new()));
}

#[test]
fn request_read_write_round_trip() {
    let input = b"GET /index.html HTTP/1.1\r\nHost: example.com\r\n\r\n";
    let (request, used) = Request::read(input).unwrap();
    assert_eq!(used, input.len());
    assert_eq!(request.method, Method::GET);
    assert_eq!(request.version, Version::Http11);
    assert!(request.body.is_none());
    let mut written = Vec::new();
    request.write(&mut written).unwrap();
    let (again, used2) = Request::read(&written).unwrap();
    assert_eq!(used2, written.len());
    assert_eq!(again.path, request.path);
    assert_eq!(again.headers.len(), 1);
    assert_eq!(again.headers[0].name(), "host");
    assert_eq!(again.headers[0].value(), "example.com");
}

#[test]
fn request_read_errors() {
    assert_eq!(Request::read(b"").unwrap_err(), Error::WouldBlock);
    assert_eq!(Request::read(b"GARBAGE\r\n\r\n").unwrap_err(), Error::InvalidRequestLine);
    assert_eq!(Request::read(b"FETCH / HTTP/1.1\r\n\r\n").unwrap_err(), Error::InvalidMethod);
    assert_eq!(Request::read(b"GET / HTTP/9\r\n\r\n").unwrap_err(), Error::UnsupportedProtocol);
    assert_eq!(
        Request::read(b"GET / HTTP/1.1\r\nBad header\r\n\r\n").unwrap_err(),
        Error::HeaderSeparatorMissing
    );
    assert_eq!(
        Request::read(b"POST / HTTP/1.1\r\nContent-Length: x\r\n\r\n").unwrap_err(),
        Error::InvalidContentLength
    );
    assert_eq!(
        Request::read(b"POST / HTTP/1.1\r\nContent-Length: 10\r\n\r\nabc").unwrap_err(),
        Error::UnexpectedEof
    );
    assert_eq!(Request::read(b"GET / HTTP/1.1\r\nHost: \xff\r\n\r\n").unwrap_err(), Error::InvalidUtf8);
}

#[test]
fn error_kinds() {
    assert_eq!(Error::WouldBlock.kind(), mhttpd::error::ErrorKind::WouldBlock);
    assert_eq!(Error::UnexpectedEof.kind(), mhttpd::error::ErrorKind::UnexpectedEof);
}

#[test]
fn response_write_gives_the_status_line_headers_and_body() {
    let r = ResponseBuilder::new()
        .version(Version::Http11)
        .status(StatusCode::NotFound)
        .headers(vec![Header::new("Content-Length", "2")])
        .body(b"no".to_vec())
        .build()
        .unwrap();
    assert_eq!(r.write(), b"HTTP/1.1 404 Not Found\r\ncontent-length: 2\r\n\r\nno".to_vec());
    let mut r = r;
    r.reason_phrase = Some("Gone Fishing".to_string());
    r.body = None;
    assert_eq!(r.write(), b"HTTP/1.1 404 Gone Fishing\r\ncontent-length: 2\r\n\r\n".to_vec());
}

#[test]
fn head_complete_waits_for_the_empty_line() {
    assert!(!head_complete(b""));
    assert!(!head_complete(b"GET / HTTP/1.1"));
    assert!(!head_complete(b"GET / HTTP/1.1\r\nHost: x\r\n"));
    assert!(!head_complete(b"GET / HTTP/1.1\r\nHost: x\r\n\r"));
    assert!(head_complete(b"GET / HTTP/1.1\r\nHost: x\r\n\r\n"));
    assert!(head_complete(b"GET / HTTP/1.1\n\nbody"));
}

#[test]
fn can_read_refuses_a_request_line_cut_after_the_method() {
    assert!(!Request::can_read(b"GET /index.html\r\n\r\n"));
    assert!(Request::can_read(b"GET / HTTP/1.1\r\n\r\n"));
    assert!(Request::can_read(b"GARBAGE\r\n\r\n"));
    assert!(Request::can_read(b""));
}

#[test]
fn a_written_request_reads_back_the_same() {
    let request = Request::new(
        Method::POST,
        "/a b".to_string(),
        Version::Http11,
        vec![Header::new("Host", "example.com"), Header::new("content-length", "3")],
        Some(b"xyz".to_vec()),
    );
    let mut bytes = Vec::new();
    request.write(&mut bytes).unwrap();
    bytes.extend_from_slice(b"GET /next HTTP/1.1\r\n\r\n");
    let (back, used) = Request::read(&bytes).unwrap();
    assert_eq!(used, bytes.len() - 22);
    assert_eq!(back.method, Method::POST);
    assert_eq!(back.path, "/a b");
    assert_eq!(back.version, Version::Http11);
    assert_eq!(back.headers.len(), 2);
    assert_eq!(back.headers[0].name(), "host");
    assert_eq!(back.body.as_deref(), Some(&b"xyz"[..]));
}

#[test]
fn protocols_read_back_as_written() {
    for text in ["HTTP/1.1", "HTTP/2.0"] {
        let p = Protocol::parse(text).unwrap();
        assert_eq!(p.to_string(), text);
    }
    assert!(matches!(Protocol::parse("HTTP/1.1"), Ok(Protocol::Http(v)) if v == "1.1"));
    assert_eq!(Protocol::parse("HTTP/1.0").unwrap_err(), Error::UnsupportedProtocol);
}
