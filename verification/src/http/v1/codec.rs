//! The HTTP/1.1 wire format of requests: a request line, header lines, an
//! empty line and a body of `content-length` bytes.

use crate::error::Error;
use crate::http::header::{spec_parse_header, Header, HeaderView};
use crate::http::message::request::{Request, RequestView};
use crate::http::message::SerDe;
use crate::http::message::response::{Response, ResponseView};
use crate::http::status::{spec_reason_phrase, Status};
use crate::http::status_code::spec_code;
use crate::http::method::{method_name, spec_parse_method, Method};
use crate::http::v2::frame::headers_view;
use crate::http::version::{spec_parse_version, version_name, Version};
use crate::text::{
    parse_usize, rsplit_once, spec_parse_usize, spec_rsplit_once, spec_split_once, split_once,
    str_eq, str_from_utf8, trim_ascii_end, trimmed_end_len, trimmed_len, decimal,
};
use crate::wire::{append_bytes, bytes_to_vec};
use vstd::prelude::*;
use vstd::string::{StringExecFns, StringSliceAdditionalSpecFns};
use vstd::utf8::{decode_utf8, encode_utf8, valid_utf8};

verus! {

/// Where the line that starts at `pos` ends: just past its first `\n`, or at
/// the end of the input (as `BufRead::read_until` reads a line).
pub open spec fn line_end(input: Seq<u8>, pos: int) -> int
    decreases input.len() - pos,
{
    if pos >= input.len() {
        input.len() as int
    } else if input[pos] == 0x0a {
        pos + 1
    } else {
        line_end(input, pos + 1)
    }
}

/// A line that starts inside the input ends after its start and inside the input.
pub proof fn lemma_line_end(input: Seq<u8>, pos: int)
    requires
        0 <= pos,
    ensures
        pos < input.len() ==> pos < line_end(input, pos) <= input.len(),
        pos >= input.len() ==> line_end(input, pos) == input.len(),
    decreases input.len() - pos,
{
    if pos < input.len() && input[pos] != 0x0a {
        lemma_line_end(input, pos + 1);
    }
}

/// The bytes of the line that starts at `pos`, trailing whitespace removed.
pub open spec fn line_bytes(input: Seq<u8>, pos: int) -> Seq<u8> {
    trim_ascii_end(input.subrange(pos, line_end(input, pos)))
}

/// A `content-length` header field.
pub open spec fn is_content_length(h: HeaderView) -> bool {
    !h.pseudo && h.name == "content-length"@
}

/// The header section from `pos` on, after the fields `acc` and a content
/// length `cl` were read: the fields, the content length, and where the
/// section ends. The section ends at an empty line or at the end of input.
pub open spec fn spec_read_headers(input: Seq<u8>, pos: int, cl: usize, acc: Seq<HeaderView>) -> Result<
    (Seq<HeaderView>, usize, int),
    Error,
>
    decreases input.len() - pos,
{
    if pos < 0 || pos >= input.len() {
        Ok((acc, cl, pos))
    } else {
        let t = line_bytes(input, pos);
        if !valid_utf8(t) {
            Err(Error::InvalidUtf8)
        } else if decode_utf8(t).len() == 0 {
            Ok((acc, cl, line_end(input, pos)))
        } else {
            match spec_parse_header(decode_utf8(t)) {
                Err(e) => Err(e),
                Ok(h) => {
                    let next = if is_content_length(h) {
                        spec_parse_usize(h.value)
                    } else {
                        Some(cl)
                    };
                    match next {
                        None => Err(Error::InvalidContentLength),
                        Some(c) => {
                            proof {
                                lemma_line_end(input, pos);
                            }
                            spec_read_headers(input, line_end(input, pos), c, acc.push(h))
                        },
                    }
                },
            }
        }
    }
}

/// The request line of `input` has a space, but no space after it: a
/// method and a target with no version. The wire format gives such a line no
/// meaning, and `read` does not take it.
pub open spec fn request_line_unfinished(input: Seq<u8>) -> bool {
    let t = line_bytes(input, 0);
    valid_utf8(t) && match spec_split_once(decode_utf8(t), " "@) {
        Some((_, rest)) => spec_rsplit_once(rest, " "@) is None,
        None => false,
    }
}

/// The request at the front of `input` and the number of bytes it takes.
///
/// The request line is `method target version`, split at its first and its
/// last space. Header lines follow up to an empty line; each is parsed as
/// `Header::parse` does, and a `content-length` field sets the length of the
/// body that follows. Lines end at `\n`, with trailing whitespace removed.
pub open spec fn spec_read_request(input: Seq<u8>) -> Result<(RequestView, nat), Error> {
    let end = line_end(input, 0);
    let t = line_bytes(input, 0);
    if input.len() == 0 {
        Err(Error::WouldBlock)
    } else if !valid_utf8(t) {
        Err(Error::InvalidUtf8)
    } else {
        match spec_split_once(decode_utf8(t), " "@) {
            None => Err(Error::InvalidRequestLine),
            Some((m, rest)) => match spec_rsplit_once(rest, " "@) {
                None => Err(Error::InvalidRequestLine),
                Some((target, protocol)) => match spec_parse_method(m) {
                    None => Err(Error::InvalidMethod),
                    Some(method) => match spec_parse_version(protocol) {
                        None => Err(Error::UnsupportedProtocol),
                        Some(version) => spec_finish_request(input, method, target, version, end),
                    },
                },
            },
        }
    }
}

/// The rest of a request once its request line is read: the header section
/// from `end` on, then a body of the announced length.
pub open spec fn spec_finish_request(input: Seq<u8>, method: Method, target: Seq<char>, version: Version, end: int) -> Result<(RequestView, nat), Error> {
    match spec_read_headers(input, end, 0, Seq::empty()) {
        Err(e) => Err(e),
        Ok((headers, cl, pos)) => {
            if cl == 0 {
                Ok((RequestView { method, path: target, version, headers, body: None }, pos as nat))
            } else if input.len() - pos < cl {
                Err(Error::UnexpectedEof)
            } else {
                Ok(
                    (
                        RequestView {
                            method,
                            path: target,
                            version,
                            headers,
                            body: Some(input.subrange(pos, pos + cl)),
                        },
                        (pos + cl) as nat,
                    ),
                )
            }
        },
    }
}

/// The header section from `pos` on has arrived in full: every line up to
/// one that is empty once trailing whitespace is removed ends in `\n`.
pub open spec fn section_arrived(input: Seq<u8>, pos: int) -> bool
    decreases input.len() - pos,
{
    if pos < 0 || pos >= input.len() {
        false
    } else if input[line_end(input, pos) - 1] != 0x0a {
        false
    } else if line_bytes(input, pos).len() == 0 {
        true
    } else {
        proof {
            lemma_line_end(input, pos);
        }
        section_arrived(input, line_end(input, pos))
    }
}

/// A whole request head has arrived: the request line ends in `\n` and the
/// header section after it has arrived in full.
pub open spec fn head_arrived(input: Seq<u8>) -> bool {
    input.len() > 0 && input[line_end(input, 0) - 1] == 0x0a && section_arrived(
        input,
        line_end(input, 0),
    )
}

/// A read result seen as plain values.
pub open spec fn request_result_view(r: Result<(Request, usize), Error>) -> Result<(RequestView, nat), Error> {
    match r {
        Ok((req, n)) => Ok((req@, n as nat)),
        Err(e) => Err(e),
    }
}

/// The end of the line that starts at `pos`.
fn find_line_end(input: &[u8], pos: usize) -> (e: usize)
    requires
        pos <= input@.len(),
    ensures
        e == line_end(input@, pos as int),
{
    let mut i = pos;
    while i < input.len() && input[i] != 0x0a
        invariant
            pos <= i <= input@.len(),
            line_end(input@, pos as int) == line_end(input@, i as int),
        decreases input@.len() - i,
    {
        i = i + 1;
    }
    if i < input.len() {
        i + 1
    } else {
        i
    }
}

/// The text of the line that starts at `pos`, trailing whitespace removed;
/// `None` when it is not valid UTF-8.
fn line_text(input: &[u8], pos: usize, end: usize) -> (r: Option<&str>)
    requires
        pos <= input@.len(),
        end == line_end(input@, pos as int),
    ensures
        r is Some <==> valid_utf8(line_bytes(input@, pos as int)),
        r matches Some(s) ==> s@ == decode_utf8(line_bytes(input@, pos as int)),
{
    proof {
        lemma_line_end(input@, pos as int);
    }
    let line = &input[pos..end];
    let n = trimmed_end_len(line);
    let t = &line[0..n];
    assert(t@ == line_bytes(input@, pos as int));
    str_from_utf8(t)
}

/// Whether a whole request head is at the front of `input` (see
/// `head_arrived`): reading it then needs no more header bytes.
pub fn head_complete(input: &[u8]) -> (r: bool)
    ensures
        r == head_arrived(input@),
{
    if input.len() == 0 {
        return false;
    }
    proof {
        lemma_line_end(input@, 0);
    }
    let end = find_line_end(input, 0);
    if input[end - 1] != 0x0a {
        return false;
    }
    let mut pos = end;
    while pos < input.len()
        invariant
            0 < end <= pos <= input@.len(),
            head_arrived(input@) == section_arrived(input@, pos as int),
        decreases input@.len() - pos,
    {
        proof {
            lemma_line_end(input@, pos as int);
        }
        let e = find_line_end(input, pos);
        if input[e - 1] != 0x0a {
            return false;
        }
        let line = &input[pos..e];
        assert(line@ == input@.subrange(pos as int, line_end(input@, pos as int)));
        let n = trimmed_end_len(line);
        assert(line_bytes(input@, pos as int).len() == n);
        if n == 0 {
            return true;
        }
        pos = e;
    }
    false
}

impl Request {
    /// Whether `read` takes `input`: its request line is not cut short after
    /// the method.
    pub fn can_read(input: &[u8]) -> (r: bool)
        ensures
            r == !request_line_unfinished(input@),
    {
        proof {
            reveal_strlit(" ");
        }
        let end = find_line_end(input, 0);
        match line_text(input, 0, end) {
            None => true,
            Some(t) => match split_once(t, " ") {
                None => true,
                Some((_, rest)) => rsplit_once(rest, " ").is_some(),
            },
        }
    }

    /// The request at the front of `input` and the number of bytes it takes
    /// (see `spec_read_request`): `Error::WouldBlock` for empty input, and
    /// otherwise the first error among invalid UTF-8, a request line without
    /// a space, an unknown method, an unsupported version, a header line
    /// without `": "`, a `content-length` that is not a number, and a body
    /// shorter than its length.
#[verifier::spinoff_prover]
    fn read_request(input: &[u8]) -> (r: Result<(Request, usize), Error>)
        requires
            !request_line_unfinished(input@),
        ensures
            request_result_view(r) == spec_read_request(input@),
    {
        proof {
            reveal_strlit(" ");
            lemma_line_end(input@, 0);
        }
        if input.len() == 0 {
            return Err(Error::WouldBlock);
        }
        let end = find_line_end(input, 0);
        let request_line = match line_text(input, 0, end) {
            Some(s) => s,
            None => {
                return Err(Error::InvalidUtf8);
            },
        };
        let (m, rest) = match split_once(request_line, " ") {
            Some(p) => p,
            None => {
                return Err(Error::InvalidRequestLine);
            },
        };
        let (target, protocol) = match rsplit_once(rest, " ") {
            Some(p) => p,
            None => {
                return Err(Error::InvalidRequestLine);
            },
        };
        let method = match Method::parse(m) {
            Ok(x) => x,
            Err(e) => {
                return Err(e);
            },
        };
        let path = target.to_owned();
        let version = match Version::parse(protocol) {
            Ok(v) => v,
            Err(e) => {
                return Err(e);
            },
        };
        assert(spec_read_request(input@) == spec_finish_request(input@, method, path@, version, end as int));
        let mut headers: Vec<Header> = Vec::new();
        let mut content_length: usize = 0;
        let mut pos = end;
        assert(headers_view(headers@) =~= Seq::<HeaderView>::empty());
        proof {
            reveal_strlit("content-length");
        }
        loop
            invariant_except_break
                pos <= input@.len(),
                spec_read_request(input@) == spec_finish_request(input@, method, path@, version, end as int),
                spec_read_headers(input@, end as int, 0, Seq::empty()) == spec_read_headers(
                    input@,
                    pos as int,
                    content_length,
                    headers_view(headers@),
                ),
            ensures
                pos <= input@.len(),
                spec_read_request(input@) == spec_finish_request(input@, method, path@, version, end as int),
                spec_read_headers(input@, end as int, 0, Seq::empty()) == Ok::<
                    (Seq<HeaderView>, usize, int),
                    Error,
                >((headers_view(headers@), content_length, pos as int)),
            decreases input@.len() - pos,
        {
            if pos >= input.len() {
                break;
            }
            let line_end_pos = find_line_end(input, pos);
            proof {
                lemma_line_end(input@, pos as int);
            }
            let s = match line_text(input, pos, line_end_pos) {
                Some(s) => s,
                None => {
                    return Err(Error::InvalidUtf8);
                },
            };
            if s.unicode_len() == 0 {
                pos = line_end_pos;
                break;
            }
            let header = match Header::parse(s) {
                Ok(h) => h,
                Err(e) => {
                    return Err(e);
                },
            };
            match &header {
                Header::Literal { name, value } => {
                    if str_eq(name.as_str(), "content-length") {
                        match parse_usize(value.as_str()) {
                            Some(c) => {
                                content_length = c;
                            },
                            None => {
                                return Err(Error::InvalidContentLength);
                            },
                        }
                    }
                },
                Header::Pseudo { name: _, value: _ } => {},
            }
            let ghost before = headers_view(headers@);
            let ghost hv = header@;
            headers.push(header);
            assert(headers_view(headers@) =~= before.push(hv));
            pos = line_end_pos;
        }
        let body = if content_length != 0 {
            if input.len() - pos < content_length {
                return Err(Error::UnexpectedEof);
            }
            Some(bytes_to_vec(&input[pos..pos + content_length]))
        } else {
            None
        };
        let consumed = pos + content_length;
        Ok((Request::new(method, path, version, headers, body), consumed))
    }
}

/// The header lines of a request: `name: value` and a line break for each
/// field.
pub open spec fn headers_text(hs: Seq<HeaderView>) -> Seq<char>
    decreases hs.len(),
{
    if hs.len() == 0 {
        Seq::empty()
    } else {
        headers_text(hs.drop_last()) + hs.last().name + ": "@ + hs.last().value + "\r\n"@
    }
}

/// The text part of a written request: the request line, the header lines
/// and the empty line.
pub open spec fn request_head(r: RequestView) -> Seq<char> {
    method_name(r.method) + " "@ + r.path + " "@ + version_name(r.version) + "\r\n"@
        + headers_text(r.headers) + "\r\n"@
}

/// The bytes of a written request: its head in UTF-8, then its body.
pub open spec fn spec_write_request(r: RequestView) -> Seq<u8> {
    encode_utf8(request_head(r)) + match r.body {
        Some(b) => b,
        None => Seq::empty(),
    }
}

impl Request {
    /// The bytes of the request (see `spec_write_request`).
    fn request_bytes(&self) -> (b: Vec<u8>)
        ensures
            b@ == spec_write_request(self@),
    {
        let mut s = self.method.to_string();
        s.append(" ");
        s.append(self.path.as_str());
        s.append(" ");
        let v = self.version.to_string();
        s.append(v.as_str());
        s.append("\r\n");
        let ghost line = s@;
        let mut i: usize = 0;
        while i < self.headers.len()
            invariant
                i <= self.headers@.len(),
                s@ == line + headers_text(headers_view(self.headers@).take(i as int)),
            decreases self.headers@.len() - i,
        {
            let h = &self.headers[i];
            s.append(h.name());
            s.append(": ");
            s.append(h.value());
            s.append("\r\n");
            let ghost hs = headers_view(self.headers@);
            assert(hs.take(i + 1).drop_last() =~= hs.take(i as int));
            assert(s@ =~= line + headers_text(hs.take(i + 1)));
            i = i + 1;
        }
        s.append("\r\n");
        assert(headers_view(self.headers@).take(self.headers@.len() as int) =~= headers_view(self.headers@));
        assert(s@ =~= request_head(self@));
        let mut b = bytes_to_vec(s.as_str().as_bytes());
        match &self.body {
            Some(body) => {
                append_bytes(&mut b, body.as_slice());
            },
            None => {
                assert(b@ =~= b@ + Seq::<u8>::empty());
            },
        }
        b
    }
}

/// The text part of a written response: the status line with the version,
/// the code and the reason phrase (the response's own, else the standard
/// one for the code), the header lines and the empty line.
pub open spec fn response_head(r: ResponseView) -> Seq<char> {
    let reason = match r.reason_phrase {
        Some(p) => p,
        None => spec_reason_phrase(spec_code(r.status_code)),
    };
    version_name(r.version) + " "@ + decimal(spec_code(r.status_code) as nat) + " "@ + reason
        + "\r\n"@ + headers_text(r.headers) + "\r\n"@
}

/// The bytes of a written response: its head in UTF-8, then its body.
pub open spec fn spec_write_response(r: ResponseView) -> Seq<u8> {
    encode_utf8(response_head(r)) + match r.body {
        Some(b) => b,
        None => Seq::empty(),
    }
}

impl SerDe for Request {
    open spec fn readable(input: Seq<u8>) -> bool {
        !request_line_unfinished(input)
    }

    open spec fn writable(&self) -> bool {
        true
    }

    /// The request at the front of `input` and the number of bytes it takes
    /// (see `spec_read_request`).
    fn read(input: &[u8]) -> (r: Result<(Request, usize), Error>)
        ensures
            request_result_view(r) == spec_read_request(input@),
    {
        Request::read_request(input)
    }

    /// Appends the bytes of the request (see `spec_write_request`).
    fn write(&self, out: &mut Vec<u8>) -> (r: Result<(), Error>)
        ensures
            r is Ok,
            final(out)@ == old(out)@ + spec_write_request(self@),
    {
        let b = self.request_bytes();
        append_bytes(out, b.as_slice());
        Ok(())
    }
}

impl Response {
    /// The bytes of the response (see `spec_write_response`).
    pub fn write(&self) -> (b: Vec<u8>)
        ensures
            b@ == spec_write_response(self@),
    {
        let mut s = self.version.to_string();
        s.append(" ");
        let code = self.status_code.to_string();
        s.append(code.as_str());
        s.append(" ");
        match &self.reason_phrase {
            Some(p) => s.append(p.as_str()),
            None => {
                let status = Status(self.status_code.code());
                s.append(status.reason_phrase());
            },
        }
        s.append("\r\n");
        let ghost line = s@;
        let mut i: usize = 0;
        while i < self.headers.len()
            invariant
                i <= self.headers@.len(),
                s@ == line + headers_text(headers_view(self.headers@).take(i as int)),
            decreases self.headers@.len() - i,
        {
            let h = &self.headers[i];
            s.append(h.name());
            s.append(": ");
            s.append(h.value());
            s.append("\r\n");
            let ghost hs = headers_view(self.headers@);
            assert(hs.take(i + 1).drop_last() =~= hs.take(i as int));
            assert(s@ =~= line + headers_text(hs.take(i + 1)));
            i = i + 1;
        }
        s.append("\r\n");
        assert(headers_view(self.headers@).take(self.headers@.len() as int) =~= headers_view(self.headers@));
        assert(s@ =~= response_head(self@));
        let mut b = bytes_to_vec(s.as_str().as_bytes());
        match &self.body {
            Some(body) => {
                append_bytes(&mut b, body.as_slice());
            },
            None => {
                assert(b@ =~= b@ + Seq::<u8>::empty());
            },
        }
        b
    }
}

} // verus!
