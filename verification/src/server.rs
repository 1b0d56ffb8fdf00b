//! Routing of requests to responses.

use crate::error::Error;
use crate::http::header::{spec_header_new, Header};
use crate::http::message::request::Request;
use crate::http::message::response::{Response, ResponseView};
use crate::http::status_code::StatusCode;
use crate::http::version::Version;
use crate::text::{bytes_of, decimal, u64_to_decimal};
use crate::wire::bytes_to_vec;
use vstd::prelude::*;
use vstd::string::StringSliceAdditionalSpecFns;

verus! {

/// Answers requests.
#[derive(Debug, Default)]
pub struct Router {}

/// The body that every request is answered with.
pub open spec fn greeting() -> Seq<u8> {
    bytes_of("it works!"@)
}

/// The answer to every request: an HTTP/2 `200` response that carries the
/// greeting, with a `content-length` field that gives its length.
pub open spec fn spec_greeting_response() -> ResponseView {
    ResponseView {
        version: Version::Http2,
        status_code: StatusCode::OK,
        reason_phrase: None,
        headers: seq![spec_header_new("content-length"@, decimal(greeting().len()))],
        body: Some(greeting()),
    }
}

impl Router {
    /// The response to `request`: the greeting, whatever was asked.
    pub fn handle_request(&self, request: Request) -> (r: Result<Response, Error>)
        ensures
            r matches Ok(resp) && resp@ == spec_greeting_response(),
    {
        let content = bytes_to_vec("it works!".as_bytes());
        let length = u64_to_decimal(content.len() as u64);
        let mut headers: Vec<Header> = Vec::new();
        headers.push(Header::new("content-length", length.as_str()));
        let response = Response {
            version: Version::Http2,
            status_code: StatusCode::OK,
            reason_phrase: None,
            headers,
            body: Some(content),
        };
        proof {
            assert(response@.headers =~= spec_greeting_response().headers);
        }
        Ok(response)
    }
}

} // verus!
