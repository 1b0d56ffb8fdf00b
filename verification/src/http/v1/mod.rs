//! HTTP/1.1: the request codec and the request encoder.

pub mod codec;
pub mod roundtrip;

use crate::error::Error;
use crate::http::message::request::{empty_builder, Request, RequestBuilder, RequestBuilderView};
use vstd::prelude::*;

verus! {

/// Takes one request at a time: a second request is refused while the first
/// is in flight.
pub struct RequestEncoder {
    buffer: Vec<u8>,
    request_builder: Option<RequestBuilder>,
}

/// An encoder seen as plain values: the bytes it holds, and the builder of
/// the request in flight, if any.
pub struct RequestEncoderView {
    pub buffer: Seq<u8>,
    pub builder: Option<RequestBuilderView>,
}

impl View for RequestEncoder {
    type V = RequestEncoderView;

    closed spec fn view(&self) -> RequestEncoderView {
        RequestEncoderView {
            buffer: self.buffer@,
            builder: match self.request_builder {
                Some(b) => Some(b@),
                None => None,
            },
        }
    }
}

impl RequestEncoder {
    /// An encoder with no bytes and no request in flight.
    pub fn new() -> (e: RequestEncoder)
        ensures
            e@ == (RequestEncoderView { buffer: Seq::empty(), builder: None }),
    {
        RequestEncoder { buffer: Vec::new(), request_builder: None }
    }

    /// A request is in flight.
    pub open spec fn in_flight(&self) -> bool {
        self@.builder is Some
    }

    /// Starts on a request with an empty builder; `Error::Inflight`, and the
    /// encoder left as it is, while another one is in flight. The buffer is
    /// not touched.
    pub fn encode(&mut self, request: Request) -> (r: Result<(), Error>)
        ensures
            old(self).in_flight() ==> r == Err::<(), Error>(Error::Inflight) && final(self)@ == old(
                self,
            )@,
            !old(self).in_flight() ==> r == Ok::<(), Error>(()) && final(self)@ == (
            RequestEncoderView { buffer: old(self)@.buffer, builder: Some(empty_builder()) }),
    {
        if self.request_builder.is_some() {
            Err(Error::Inflight)
        } else {
            self.request_builder = Some(RequestBuilder::new());
            Ok(())
        }
    }
}

} // verus!
