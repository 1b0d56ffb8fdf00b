//! Requests and the builder that collects them from HTTP/2 frames.

use crate::error::Error;
use crate::http::header::{Header, HeaderView};
use crate::http::method::{spec_parse_method, Method};
use crate::http::scheme::{spec_parse_scheme, Scheme, SchemeView};
use crate::http::v2::frame::headers_view;
use crate::http::version::Version;
use crate::text::str_eq;
use crate::wire::append_bytes;
use vstd::prelude::*;

verus! {

/// Optional text seen as characters.
pub open spec fn opt_chars(o: Option<String>) -> Option<Seq<char>> {
    match o {
        Some(s) => Some(s@),
        None => None,
    }
}

/// Optional bytes seen as a sequence.
pub open spec fn opt_bytes(o: Option<Vec<u8>>) -> Option<Seq<u8>> {
    match o {
        Some(b) => Some(b@),
        None => None,
    }
}

/// A request under construction, field by field.
#[derive(Debug)]
pub struct RequestBuilder {
    method: Option<Method>,
    scheme: Option<Scheme>,
    authority: Option<String>,
    path: Option<String>,
    headers: Vec<Header>,
    body: Option<Vec<u8>>,
}

/// A request under construction, seen as plain values.
pub struct RequestBuilderView {
    pub method: Option<Method>,
    pub scheme: Option<SchemeView>,
    pub authority: Option<Seq<char>>,
    pub path: Option<Seq<char>>,
    pub headers: Seq<HeaderView>,
    pub body: Option<Seq<u8>>,
}

impl View for RequestBuilder {
    type V = RequestBuilderView;

    closed spec fn view(&self) -> RequestBuilderView {
        RequestBuilderView {
            method: self.method,
            scheme: match self.scheme {
                Some(s) => Some(s@),
                None => None,
            },
            authority: opt_chars(self.authority),
            path: opt_chars(self.path),
            headers: headers_view(self.headers@),
            body: opt_bytes(self.body),
        }
    }
}

/// A builder that holds nothing yet.
pub open spec fn empty_builder() -> RequestBuilderView {
    RequestBuilderView {
        method: None,
        scheme: None,
        authority: None,
        path: None,
        headers: Seq::empty(),
        body: None,
    }
}

/// Which pseudo-header a field is: `:method`, `:scheme`, `:authority`,
/// `:path`, or none of them.
pub open spec fn request_pseudo(h: HeaderView) -> int {
    if !h.pseudo {
        0
    } else if h.name == ":method"@ {
        1
    } else if h.name == ":scheme"@ {
        2
    } else if h.name == ":authority"@ {
        3
    } else if h.name == ":path"@ {
        4
    } else {
        0
    }
}

/// A field that `add_header` takes: a `:method` pseudo-header must name a
/// method.
pub open spec fn header_acceptable(h: HeaderView) -> bool {
    request_pseudo(h) == 1 ==> spec_parse_method(h.value) is Some
}

/// The builder after `add_header`: the request pseudo-headers set their
/// field, every other field is appended to the headers.
pub open spec fn spec_add_header(b: RequestBuilderView, h: HeaderView) -> RequestBuilderView {
    let k = request_pseudo(h);
    if k == 1 {
        RequestBuilderView { method: spec_parse_method(h.value), ..b }
    } else if k == 2 {
        RequestBuilderView { scheme: Some(spec_parse_scheme(h.value)), ..b }
    } else if k == 3 {
        RequestBuilderView { authority: Some(h.value), ..b }
    } else if k == 4 {
        RequestBuilderView { path: Some(h.value), ..b }
    } else {
        RequestBuilderView { headers: b.headers.push(h), ..b }
    }
}

/// The body after `extend_body`: the new bytes appended to what was there.
pub open spec fn spec_extend_body(body: Option<Seq<u8>>, data: Seq<u8>) -> Option<Seq<u8>> {
    match body {
        Some(b) => Some(b + data),
        None => Some(data),
    }
}

impl RequestBuilder {
    /// A builder that holds nothing yet.
    pub fn new() -> (b: RequestBuilder)
        ensures
            b@ == empty_builder(),
    {
        let b = RequestBuilder {
            method: None,
            scheme: None,
            authority: None,
            path: None,
            headers: Vec::new(),
            body: None,
        };
        assert(b@.headers =~= Seq::<HeaderView>::empty());
        b
    }

    /// Sets the method.
    pub fn set_method(&mut self, value: Method)
        ensures
            final(self)@ == (RequestBuilderView { method: Some(value), ..old(self)@ }),
    {
        self.method = Some(value)
    }

    /// Sets the scheme.
    pub fn set_scheme(&mut self, scheme: Scheme)
        ensures
            final(self)@ == (RequestBuilderView { scheme: Some(scheme@), ..old(self)@ }),
    {
        self.scheme = Some(scheme);
    }

    /// Sets the authority.
    pub fn set_authority(&mut self, authority: String)
        ensures
            final(self)@ == (RequestBuilderView { authority: Some(authority@), ..old(self)@ }),
    {
        self.authority = Some(authority)
    }

    /// Sets the path.
    pub fn set_path(&mut self, path: String)
        ensures
            final(self)@ == (RequestBuilderView { path: Some(path@), ..old(self)@ }),
    {
        self.path = Some(path)
    }

    /// Takes a header field: `:method`, `:scheme`, `:authority` and `:path`
    /// set their field, every other field is kept among the headers.
    pub fn add_header(&mut self, header: Header)
        requires
            header_acceptable(header@),
        ensures
            final(self)@ == spec_add_header(old(self)@, header@),
    {
        proof {
            reveal_strlit(":method");
            reveal_strlit(":scheme");
            reveal_strlit(":authority");
            reveal_strlit(":path");
        }
        let kind: u8 = match &header {
            Header::Pseudo { name, value: _ } => {
                if str_eq(name.as_str(), ":method") {
                    1
                } else if str_eq(name.as_str(), ":scheme") {
                    2
                } else if str_eq(name.as_str(), ":authority") {
                    3
                } else if str_eq(name.as_str(), ":path") {
                    4
                } else {
                    0
                }
            },
            Header::Literal { name: _, value: _ } => 0,
        };
        assert(kind == request_pseudo(header@));
        if kind == 1 {
            match Method::parse(header.value()) {
                Ok(m) => self.set_method(m),
                Err(_) => {},
            }
        } else if kind == 2 {
            self.set_scheme(Scheme::parse(header.value()));
        } else if kind == 3 {
            self.set_authority(header.value().to_owned());
        } else if kind == 4 {
            self.set_path(header.value().to_owned());
        } else {
            let ghost hv = header@;
            self.headers.push(header);
            assert(headers_view(self.headers@) =~= old(self)@.headers.push(hv));
        }
    }

    /// Appends bytes to the body; the first call starts the body.
    pub fn extend_body(&mut self, data: &[u8])
        ensures
            final(self)@ == (RequestBuilderView {
                body: spec_extend_body(old(self)@.body, data@),
                ..old(self)@
            }),
    {
        let mut body = match self.body.take() {
            Some(b) => b,
            None => Vec::new(),
        };
        append_bytes(&mut body, data);
        self.body = Some(body);
        assert(opt_bytes(self.body) == spec_extend_body(old(self)@.body, data@)) by {
            if old(self)@.body is None {
                assert(Seq::<u8>::empty() + data@ =~= data@);
            }
        }
    }

    /// Whether the builder holds a method and a path, which `build` needs.
    pub fn is_complete(&self) -> (r: bool)
        ensures
            r == (self@.method is Some && self@.path is Some),
    {
        self.method.is_some() && self.path.is_some()
    }

    /// The HTTP/2 request that the builder holds.
    pub fn build(self) -> (r: Result<Request, Error>)
        requires
            self@.method is Some,
            self@.path is Some,
        ensures
            r matches Ok(req) && req@ == (RequestView {
                method: self@.method.unwrap(),
                path: self@.path.unwrap(),
                version: Version::Http2,
                headers: self@.headers,
                body: self@.body,
            }),
    {
        let method = match self.method {
            Some(m) => m,
            None => Method::GET,
        };
        let path = match self.path {
            Some(p) => p,
            None => String::new(),
        };
        Ok(Request::new(method, path, Version::Http2, self.headers, self.body))
    }
}

impl Default for RequestBuilder {
    fn default() -> (b: RequestBuilder)
        ensures
            b@ == empty_builder(),
    {
        RequestBuilder::new()
    }
}

/// An HTTP request.
#[derive(Debug)]
pub struct Request {
    pub method: Method,
    pub path: String,
    pub version: Version,
    pub headers: Vec<Header>,
    pub body: Option<Vec<u8>>,
}

/// A request seen as plain values.
pub struct RequestView {
    pub method: Method,
    pub path: Seq<char>,
    pub version: Version,
    pub headers: Seq<HeaderView>,
    pub body: Option<Seq<u8>>,
}

impl View for Request {
    type V = RequestView;

    open spec fn view(&self) -> RequestView {
        RequestView {
            method: self.method,
            path: self.path@,
            version: self.version,
            headers: headers_view(self.headers@),
            body: opt_bytes(self.body),
        }
    }
}

impl Request {
    /// A request made of the given parts.
    pub fn new(
        method: Method,
        path: String,
        version: Version,
        headers: Vec<Header>,
        body: Option<Vec<u8>>,
    ) -> (r: Request)
        ensures
            r.method == method,
            r.path == path,
            r.version == version,
            r.headers == headers,
            r.body == body,
    {
        Request { method, path, version, headers, body }
    }
}

} // verus!
