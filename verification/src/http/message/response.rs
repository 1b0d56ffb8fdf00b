//! Responses and their builder.

use super::request::{opt_bytes, opt_chars};
use crate::error::Error;
use crate::http::header::{Header, HeaderView};
use crate::http::status_code::StatusCode;
use crate::http::v2::frame::headers_view;
use crate::http::version::Version;
use vstd::prelude::*;

verus! {

/// An HTTP response.
#[derive(Debug)]
pub struct Response {
    pub version: Version,
    pub status_code: StatusCode,
    pub reason_phrase: Option<String>,
    pub headers: Vec<Header>,
    pub body: Option<Vec<u8>>,
}

/// A response seen as plain values.
pub struct ResponseView {
    pub version: Version,
    pub status_code: StatusCode,
    pub reason_phrase: Option<Seq<char>>,
    pub headers: Seq<HeaderView>,
    pub body: Option<Seq<u8>>,
}

impl View for Response {
    type V = ResponseView;

    open spec fn view(&self) -> ResponseView {
        ResponseView {
            version: self.version,
            status_code: self.status_code,
            reason_phrase: opt_chars(self.reason_phrase),
            headers: headers_view(self.headers@),
            body: opt_bytes(self.body),
        }
    }
}

/// A response under construction.
#[derive(Debug)]
pub struct ResponseBuilder {
    version: Option<Version>,
    status: Option<StatusCode>,
    headers: Option<Vec<Header>>,
    body: Option<Vec<u8>>,
}

/// A response under construction, seen as plain values.
pub struct ResponseBuilderView {
    pub version: Option<Version>,
    pub status: Option<StatusCode>,
    pub headers: Option<Seq<HeaderView>>,
    pub body: Option<Seq<u8>>,
}

impl View for ResponseBuilder {
    type V = ResponseBuilderView;

    closed spec fn view(&self) -> ResponseBuilderView {
        ResponseBuilderView {
            version: self.version,
            status: self.status,
            headers: match self.headers {
                Some(h) => Some(headers_view(h@)),
                None => None,
            },
            body: opt_bytes(self.body),
        }
    }
}

/// The outcome of `ResponseBuilder::build`: the first missing part among the
/// version, the status and the headers is the error; the body is optional.
pub open spec fn spec_build_response(b: ResponseBuilderView) -> Result<ResponseView, Error> {
    if b.version is None {
        Err(Error::MissingVersion)
    } else if b.status is None {
        Err(Error::MissingStatus)
    } else if b.headers is None {
        Err(Error::MissingHeaders)
    } else {
        Ok(
            ResponseView {
                version: b.version.unwrap(),
                status_code: b.status.unwrap(),
                reason_phrase: None,
                headers: b.headers.unwrap(),
                body: b.body,
            },
        )
    }
}

/// A response result seen as plain values.
pub open spec fn response_result_view(r: Result<Response, Error>) -> Result<ResponseView, Error> {
    match r {
        Ok(x) => Ok(x@),
        Err(e) => Err(e),
    }
}

impl ResponseBuilder {
    /// A builder that holds nothing yet.
    pub fn new() -> (b: ResponseBuilder)
        ensures
            b@ == (ResponseBuilderView { version: None, status: None, headers: None, body: None }),
    {
        ResponseBuilder { version: None, status: None, headers: None, body: None }
    }

    /// Sets the version.
    pub fn version(self, version: Version) -> (b: ResponseBuilder)
        ensures
            b@ == (ResponseBuilderView { version: Some(version), ..self@ }),
    {
        let mut s = self;
        s.version = Some(version);
        s
    }

    /// Sets the status.
    pub fn status(self, status: StatusCode) -> (b: ResponseBuilder)
        ensures
            b@ == (ResponseBuilderView { status: Some(status), ..self@ }),
    {
        let mut s = self;
        s.status = Some(status);
        s
    }

    /// Sets the headers.
    pub fn headers(self, headers: Vec<Header>) -> (b: ResponseBuilder)
        ensures
            b@ == (ResponseBuilderView { headers: Some(headers_view(headers@)), ..self@ }),
    {
        let mut s = self;
        s.headers = Some(headers);
        s
    }

    /// Sets the body.
    pub fn body(self, body: Vec<u8>) -> (b: ResponseBuilder)
        ensures
            b@ == (ResponseBuilderView { body: Some(body@), ..self@ }),
    {
        let mut s = self;
        s.body = Some(body);
        s
    }

    /// The response; `Error::MissingVersion`, `Error::MissingStatus` or
    /// `Error::MissingHeaders` for the first part that was not set.
    pub fn build(self) -> (r: Result<Response, Error>)
        ensures
            response_result_view(r) == spec_build_response(self@),
    {
        let version = match self.version {
            Some(v) => v,
            None => {
                return Err(Error::MissingVersion);
            },
        };
        let status_code = match self.status {
            Some(s) => s,
            None => {
                return Err(Error::MissingStatus);
            },
        };
        let headers = match self.headers {
            Some(h) => h,
            None => {
                return Err(Error::MissingHeaders);
            },
        };
        Ok(Response { version, status_code, reason_phrase: None, headers, body: self.body })
    }
}

impl Default for ResponseBuilder {
    fn default() -> (b: ResponseBuilder)
        ensures
            b@ == (ResponseBuilderView { version: None, status: None, headers: None, body: None }),
    {
        ResponseBuilder::new()
    }
}

} // verus!
