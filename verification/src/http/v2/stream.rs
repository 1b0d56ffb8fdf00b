//! HTTP/2 streams.

use super::frame::Frame;
use crate::error::Error;
use crate::http::message::request::{empty_builder, RequestBuilder, RequestBuilderView};
use vstd::prelude::*;

verus! {

/// The state of a stream.
#[derive(Debug, Clone, Copy, PartialEq, Eq, Structural)]
pub enum State {
    Idle,
    Open,
    HalfClosedLocal,
    HalfClosedRemote,
    Closed,
}

/// A stream and the request that its frames build.
#[derive(Debug)]
pub struct Stream {
    pub id: u32,
    pub state: State,
    pub request_builder: RequestBuilder,
}

/// A stream seen as plain values.
pub struct StreamView {
    pub id: u32,
    pub state: State,
    pub builder: RequestBuilderView,
}

impl View for Stream {
    type V = StreamView;

    open spec fn view(&self) -> StreamView {
        StreamView { id: self.id, state: self.state, builder: self.request_builder@ }
    }
}

/// A stream that has seen no frame yet.
pub open spec fn new_stream(id: u32) -> StreamView {
    StreamView { id, state: State::Idle, builder: empty_builder() }
}

impl Stream {
    /// An idle stream with an empty request builder.
    pub fn new(id: u32) -> (s: Stream)
        ensures
            s@ == new_stream(id),
    {
        Stream { id, state: State::Idle, request_builder: RequestBuilder::new() }
    }

    /// The stream identifier.
    pub fn id(&self) -> (r: u32)
        ensures
            r == self@.id,
    {
        self.id
    }

    /// The state of the stream.
    pub fn state(&self) -> (r: State)
        ensures
            r == self@.state,
    {
        self.state
    }

    /// Takes a frame of the stream; the stream keeps no per-frame state of
    /// its own, so the frame is accepted as it is.
    pub fn process(&mut self, frame: &Frame) -> (r: Result<(), Error>)
        ensures
            r is Ok,
            final(self)@ == old(self)@,
    {
        Ok(())
    }
}

} // verus!
